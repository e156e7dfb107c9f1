use vstd::prelude::*;

verus! {

/// A colour with its opacity.
#[derive(Clone, Copy, PartialEq, Eq, Structural, Debug)]
pub struct Color {
    pub r: u8,
    pub g: u8,
    pub b: u8,
    pub a: u8,
}

impl Color {
    /// The colour `rgb`, fully opaque.
    pub fn opaque(rgb: (u8, u8, u8)) -> (color: Color)
        ensures
            color == (Color { r: rgb.0, g: rgb.1, b: rgb.2, a: 255 }),
    {
        Color { r: rgb.0, g: rgb.1, b: rgb.2, a: 255 }
    }
}

/// A rectangle on the canvas, by its upper left corner and its size.
#[derive(Clone, Copy, PartialEq, Eq, Structural, Debug)]
pub struct Rect {
    pub x: i32,
    pub y: i32,
    pub width: u32,
    pub height: u32,
}

/// How a texture is drawn, where that differs from drawing it as it is.
#[derive(Clone, Copy, PartialEq, Eq, Debug)]
pub struct DrawTextureOpts {
    /// The size to draw at, in place of the texture's own.
    pub size: Option<(u32, u32)>,
    /// The colour that the texture's pixels are multiplied by.
    pub color_mod: Option<(u8, u8, u8)>,
}

impl DrawTextureOpts {
    /// The texture as it is: its own size, its own colours.
    pub fn new() -> (opts: Self)
        ensures
            opts == (DrawTextureOpts { size: None, color_mod: None }),
    {
        DrawTextureOpts { size: None, color_mod: None }
    }

    /// The same, drawn at `size`.
    pub fn size(self, size: (u32, u32)) -> (opts: Self)
        ensures
            opts == (DrawTextureOpts { size: Some(size), color_mod: self.color_mod }),
    {
        DrawTextureOpts { size: Some(size), color_mod: self.color_mod }
    }

    /// The same, with its colours multiplied by `rgb`.
    pub fn color_mod(self, rgb: (u8, u8, u8)) -> (opts: Self)
        ensures
            opts == (DrawTextureOpts { size: self.size, color_mod: Some(rgb) }),
    {
        DrawTextureOpts { size: self.size, color_mod: Some(rgb) }
    }
}

/// A request to fill a rectangle with a colour.
#[derive(Clone, Copy, PartialEq, Eq, Structural, Debug)]
pub struct Fill {
    pub color: Color,
    pub target: Rect,
}

/// A request to copy a cached texture onto the canvas.
pub struct Blit<'a, T> {
    pub texture: &'a T,
    pub target: Rect,
    pub color_mod: Option<(u8, u8, u8)>,
}

} // verus!

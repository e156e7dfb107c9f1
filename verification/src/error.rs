use vstd::prelude::*;
use vstd::string::StringExecFns;

verus! {

/// What can go wrong inside the runtime.
#[derive(Debug, Clone, PartialEq, Eq)]
pub enum Error {
    /// The rendering side could not load or decode a resource; the text is
    /// the reason it gave.
    ResourceLoad(String),
    /// The entity is not in the store, or it holds no component of the type
    /// asked for.
    MissingEntityOrComponent,
    /// No cached resource carries the identifier of the handle.
    InvalidResourceHandle,
}

impl Error {
    /// A short text for logs and for the top-level loop.
    pub fn message(&self) -> (text: String)
        ensures
            match *self {
                Error::ResourceLoad(reason) => text@ == reason@,
                Error::MissingEntityOrComponent => text@ == "missing entity or component"@,
                Error::InvalidResourceHandle => text@ == "invalid sprite id"@,
            },
    {
        match self {
            Error::ResourceLoad(reason) => reason.clone(),
            Error::MissingEntityOrComponent => String::from_str("missing entity or component"),
            Error::InvalidResourceHandle => String::from_str("invalid sprite id"),
        }
    }
}

} // verus!

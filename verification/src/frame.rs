use vstd::prelude::*;
use crate::error::Error;
use crate::system::SystemRegistry;

verus! {

/// What the driver of a frame does next.
#[derive(Debug, PartialEq, Eq)]
pub enum Step {
    /// Run the update hook of this system, then hand its result to `step`.
    Update(u64),
    /// Every system has been updated: the frame is over.
    Done,
    /// A system failed. The systems behind it are not updated in this
    /// frame, and the error goes to the top-level loop.
    Abort(Error),
}

/// One frame: the systems to update, in order, and how far the frame has
/// come.
pub struct Frame {
    order: Vec<u64>,
    cursor: usize,
    finished: bool,
}

/// What a frame is: its systems, how many of them have been handed out for
/// their update, and whether the frame is over.
pub ghost struct FrameView {
    pub order: Seq<u64>,
    pub cursor: nat,
    pub finished: bool,
}

/// The state of a frame after a step, and what the step returns. `last` is
/// the result of the update that the step before asked for.
pub open spec fn after_step(frame: FrameView, last: Result<(), Error>) -> (FrameView, Step) {
    if frame.finished {
        (frame, Step::Done)
    } else {
        match last {
            Err(error) => (FrameView { finished: true, ..frame }, Step::Abort(error)),
            Ok(_) => if frame.cursor < frame.order.len() {
                (
                    FrameView { cursor: frame.cursor + 1, ..frame },
                    Step::Update(frame.order[frame.cursor as int]),
                )
            } else {
                (FrameView { finished: true, ..frame }, Step::Done)
            },
        }
    }
}

/// The state of a frame after one step for each of `results`, in turn.
pub open spec fn after_steps(frame: FrameView, results: Seq<Result<(), Error>>) -> FrameView
    decreases results.len(),
{
    if results.len() == 0 {
        frame
    } else {
        after_step(after_steps(frame, results.drop_last()), results.last()).0
    }
}

/// What the step for the last of `results` returns, after one step for each
/// of those before it.
pub open spec fn last_step(frame: FrameView, results: Seq<Result<(), Error>>) -> Step
    recommends
        results.len() > 0,
{
    after_step(after_steps(frame, results.drop_last()), results.last()).1
}

/// Whether none of the results is an error.
pub open spec fn all_ok(results: Seq<Result<(), Error>>) -> bool {
    forall|i: int| 0 <= i < results.len() ==> results[i] is Ok
}

impl Frame {
    pub closed spec fn view(&self) -> FrameView {
        FrameView { order: self.order@, cursor: self.cursor as nat, finished: self.finished }
    }

    /// No more systems have been handed out than there are.
    pub open spec fn wf(&self) -> bool {
        self@.cursor <= self@.order.len()
    }

    /// A frame over the systems that are registered now, none of them
    /// updated yet. Systems registered later are not part of it.
    pub fn begin(systems: &SystemRegistry) -> (frame: Self)
        ensures
            frame@ == (FrameView { order: systems@, cursor: 0, finished: false }),
            frame.wf(),
    {
        Frame { order: systems.order(), cursor: 0, finished: false }
    }

    /// Takes the result of the update that the last step asked for, and says
    /// what to do next. The first step of a frame takes `Ok(())`.
    pub fn step(&mut self, last: Result<(), Error>) -> (next: Step)
        requires
            old(self).wf(),
        ensures
            final(self).wf(),
            (final(self)@, next) == after_step(old(self)@, last),
    {
        if self.finished {
            return Step::Done;
        }
        match last {
            Err(error) => {
                self.finished = true;
                Step::Abort(error)
            },
            Ok(_) => {
                if self.cursor < self.order.len() {
                    let system: u64 = self.order[self.cursor];
                    self.cursor = self.cursor + 1;
                    Step::Update(system)
                } else {
                    self.finished = true;
                    Step::Done
                }
            },
        }
    }

    /// Whether the frame is over.
    pub fn is_finished(&self) -> (finished: bool)
        ensures
            finished == self@.finished,
    {
        self.finished
    }
}

/// A frame updates the systems in the order of their registration: as long
/// as no update fails, the step after `n` results asks for the system at
/// place `n - 1`, and the step after all of them ends the frame.
pub proof fn lemma_frame_follows_order(order: Seq<u64>, results: Seq<Result<(), Error>>)
    requires
        0 < results.len() <= order.len() + 1,
        all_ok(results),
    ensures
        after_steps(FrameView { order, cursor: 0, finished: false }, results) == (FrameView {
            order,
            cursor: if results.len() <= order.len() {
                results.len()
            } else {
                order.len()
            },
            finished: results.len() > order.len(),
        }),
        last_step(FrameView { order, cursor: 0, finished: false }, results) == if results.len()
            <= order.len() {
            Step::Update(order[results.len() - 1])
        } else {
            Step::Done
        },
    decreases results.len(),
{
    let start = FrameView { order, cursor: 0, finished: false };
    let before = results.drop_last();
    assert(results.last() is Ok);
    if before.len() > 0 {
        assert(all_ok(before)) by {
            assert forall|i: int| 0 <= i < before.len() implies before[i] is Ok by {
                assert(before[i] == results[i]);
            }
        }
        lemma_frame_follows_order(order, before);
    }
}

/// A failed update ends the frame: the step that takes the failure returns
/// it, and no later step asks for another update, whatever it is given.
pub proof fn lemma_frame_aborts(
    frame: FrameView,
    error: Error,
    later: Seq<Result<(), Error>>,
)
    requires
        !frame.finished,
    ensures
        after_step(frame, Err(error)).1 == Step::Abort(error),
        after_step(frame, Err(error)).0 == (FrameView { finished: true, ..frame }),
        after_steps(after_step(frame, Err(error)).0, later) == after_step(frame, Err(error)).0,
        later.len() > 0 ==> last_step(after_step(frame, Err(error)).0, later) == Step::Done,
    decreases later.len(),
{
    if later.len() > 0 {
        lemma_frame_aborts(frame, error, later.drop_last());
    }
}

} // verus!

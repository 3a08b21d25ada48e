use vstd::prelude::*;

use crate::{ProcessorError, ProcessorResult};

verus! {

/// An owner of private state that handles the messages of its mailbox one at a
/// time, each to completion before the next.
pub trait ChannelActor<M> {
    /// What the handling of one message hands back to a waiting asker.
    type Reply;

    fn handle(&mut self, msg: M) -> ProcessorResult<Self::Reply>;
}

/// What an actor's loop does after handling one message.
#[derive(Clone, Copy, Debug, PartialEq, Eq, Structural)]
pub enum LoopControl {
    Continue,
    Stop,
}

/// The failure policy of an actor's loop: a fatal error ends the loop, and
/// every other outcome is contained and the loop goes on.
pub fn after_handle<R>(outcome: &ProcessorResult<R>) -> (c: LoopControl)
    ensures
        c is Stop <==> (outcome is Err && outcome->Err_0 is FatalError),
{
    match outcome {
        Err(ProcessorError::FatalError) => LoopControl::Stop,
        _ => LoopControl::Continue,
    }
}

} // verus!

//! What operations and the bus say to each other, from the first request on.
use crate::operation::{self, Operation, Progress, Reply, Request};
use vstd::prelude::*;

verus! {

/// A request and the reply to it.
pub struct Exchange<E> {
    /// What the operation asked for.
    pub request: Request,
    /// What came back.
    pub reply: Reply<E>,
}

/// Where an operation has come to after some exchanges; `None` if these are not what the
/// operation has with the bus: if a request is not the one that the operation asks, or the
/// reply has the wrong length, or the operation was over before.
pub open spec fn run<E, O: Operation<E>>(
    operation: O,
    talk: Seq<Exchange<E>>,
) -> Option<Progress<O, O::Output, O::Failure>>
    decreases talk.len(),
{
    if talk.len() == 0 {
        Some(Progress::Pending(operation))
    } else {
        match run(operation, talk.drop_last()) {
            Some(Progress::Pending(next)) => {
                if talk.last().request == next.asks() && operation::fits(
                    next.asks(),
                    talk.last().reply,
                ) {
                    Some(next.answered(talk.last().reply))
                } else {
                    None
                }
            },
            _ => None,
        }
    }
}

/// The requests of a conversation.
pub open spec fn requests<E>(talk: Seq<Exchange<E>>) -> Seq<Request> {
    Seq::new(talk.len(), |i: int| talk[i].request)
}

} // verus!

//! Whole conversations of the operations on registers.
use crate::change::Change;
use crate::conversation::{self, Exchange};
use crate::driver::{Bmi270, SetAccRange, SetGyrRange};
use crate::operation::{self, Command, Modify, Operation, Progress, Reply, Request};
use crate::readout::{Read, Readout};
use vstd::prelude::*;

verus! {

/// Whether a conversation changes a register: it reads the register and writes back what the
/// change makes of it, and that is all.
pub open spec fn changes<E>(change: Change, talk: Seq<Exchange<E>>) -> bool {
    let modify = Modify::of(change);
    &&& talk.len() == 2
    &&& talk[0].request == Operation::<E>::asks(modify)
    &&& operation::fits(talk[0].request, talk[0].reply)
    &&& talk[0].reply matches Ok(data) && talk[1].request == Operation::<E>::asks(
        Modify { change, staged: Some(change.applied(modify.word(data)) as u16) },
    )
    &&& talk[1].reply is Ok
}

/// Whether a conversation ends with a failure of the bus before a register is changed: when
/// it is read, with nothing written, or when it is written.
pub open spec fn breaks_off<E>(change: Change, talk: Seq<Exchange<E>>, error: E) -> bool {
    let modify = Modify::of(change);
    &&& 1 <= talk.len() <= 2
    &&& talk[0].request == Operation::<E>::asks(modify)
    &&& talk.last().reply == Reply::<E>::Err(error)
    &&& talk.len() == 2 ==> (talk[0].reply matches Ok(data) && operation::fits(
        talk[0].request,
        talk[0].reply,
    ) && talk[1].request == Operation::<E>::asks(
        Modify { change, staged: Some(change.applied(modify.word(data)) as u16) },
    ))
}

/// Changing a register succeeds if and only if the register was read and written; it fails
/// if and only if the bus did, with its error.
pub proof fn law_modify_conversation<E>(change: Change, talk: Seq<Exchange<E>>)
    ensures
        conversation::run(Modify::of(change), talk) == Some(
            Progress::<Modify, (), E>::Done(Ok(())),
        ) <==> changes(change, talk),
        forall|error: E|
            conversation::run(Modify::of(change), talk) == Some(
                Progress::<Modify, (), E>::Done(Err(error)),
            ) <==> #[trigger] breaks_off(change, talk, error),
{
    reveal_with_fuel(conversation::run, 4);
    if talk.len() > 0 {
        let past = talk.drop_last();
        if past.len() > 0 {
            let first = past.drop_last();
            assert(past.last() == talk[talk.len() - 2]);
            if first.len() > 0 {
                assert(first.last() == talk[talk.len() - 3]);
                lemma_modify_is_over(change, first);
            }
        }
    }
}

/// Changing a register is staged after one exchange and over after two.
pub(crate) proof fn lemma_modify_is_over<E>(change: Change, talk: Seq<Exchange<E>>)
    ensures
        conversation::run(Modify::of(change), talk) matches Some(Progress::Pending(now))
            ==> now.change == change && talk.len() == if now.staged is Some {
            1int
        } else {
            0int
        },
    decreases talk.len(),
{
    if talk.len() > 0 {
        lemma_modify_is_over(change, talk.drop_last());
    }
}

/// Reading a value is one request, which writes nothing. It succeeds with what the bytes
/// mean, and fails with the error of the bus.
pub proof fn law_read_conversation<E, R: Readout>(readout: R, talk: Seq<Exchange<E>>)
    requires
        talk.len() > 0,
        conversation::run(Read { readout }, talk) is Some,
    ensures
        talk.len() == 1,
        talk[0].request == (Request::Read {
            address: readout.source().0,
            len: readout.source().1,
        }),
        conversation::run(Read { readout }, talk) == Some(
            Progress::<Read<R>, R::Value, E>::Done(
                match talk[0].reply {
                    Ok(data) => Ok(readout.meaning(data)),
                    Err(error) => Err(error),
                },
            ),
        ),
{
    reveal_with_fuel(conversation::run, 3);
}

/// A command is one write to `CMD`. It succeeds if the bus does, and fails with its error.
pub proof fn law_command_conversation<E>(command: Command, talk: Seq<Exchange<E>>)
    requires
        talk.len() > 0,
        conversation::run(command, talk) is Some,
    ensures
        talk.len() == 1,
        talk[0].request == Operation::<E>::asks(command),
        conversation::run(command, talk) == Some(
            Progress::<Command, (), E>::Done(
                match talk[0].reply {
                    Ok(_) => Ok(()),
                    Err(error) => Err(error),
                },
            ),
        ),
{
    reveal_with_fuel(conversation::run, 3);
}

/// Setting the accelerometer range changes its register; the driver that it yields knows the
/// new range and the old gyroscope range.
pub proof fn law_set_acc_range_conversation<E>(set: SetAccRange, talk: Seq<Exchange<E>>)
    requires
        set.staged is None,
    ensures
        ({
            let part = conversation::run(Modify::of(Change::AccRange(set.range)), talk);
            conversation::run(set, talk) == match part {
                None => None,
                Some(Progress::Pending(now)) => Some(
                    Progress::<SetAccRange, Bmi270, E>::Pending(
                        SetAccRange { staged: now.staged, ..set },
                    ),
                ),
                Some(Progress::Done(Ok(_))) => Some(
                    Progress::Done(
                        Ok(Bmi270 { acc_range: set.range, gyr_range: set.driver.gyr_range }),
                    ),
                ),
                Some(Progress::Done(Err(error))) => Some(Progress::Done(Err(error))),
            }
        }),
    decreases talk.len(),
{
    if talk.len() > 0 {
        law_set_acc_range_conversation(set, talk.drop_last());
        lemma_modify_is_over(Change::AccRange(set.range), talk.drop_last());
    }
}

/// Setting the gyroscope range changes its register; the driver that it yields knows the new
/// range and the old accelerometer range.
pub proof fn law_set_gyr_range_conversation<E>(set: SetGyrRange, talk: Seq<Exchange<E>>)
    requires
        set.staged is None,
    ensures
        ({
            let part = conversation::run(Modify::of(Change::GyrRange(set.range)), talk);
            conversation::run(set, talk) == match part {
                None => None,
                Some(Progress::Pending(now)) => Some(
                    Progress::<SetGyrRange, Bmi270, E>::Pending(
                        SetGyrRange { staged: now.staged, ..set },
                    ),
                ),
                Some(Progress::Done(Ok(_))) => Some(
                    Progress::Done(
                        Ok(Bmi270 { acc_range: set.driver.acc_range, gyr_range: set.range }),
                    ),
                ),
                Some(Progress::Done(Err(error))) => Some(Progress::Done(Err(error))),
            }
        }),
    decreases talk.len(),
{
    if talk.len() > 0 {
        law_set_gyr_range_conversation(set, talk.drop_last());
        lemma_modify_is_over(Change::GyrRange(set.range), talk.drop_last());
    }
}

} // verus!

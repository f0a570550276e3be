//! Bringing up the chip as one operation after the other.
use crate::change::Change;
use crate::conversation::{self, Exchange};
use crate::driver::{Bmi270, SetAccRange, SetGyrRange};
use crate::error::Error;
use crate::operation::{Command, Modify, Operation, Progress, Reply, Request};
use crate::operation_laws;
use crate::readout::{ChipId, Read};
use crate::registers::{
    AccRangeVariant, AdvPowerSave, CmdVariant, GyrRangeVariant, BMI270_CHIP_ID,
};
use crate::startup::{Initialize, LoadInitData, Stage, WaitCmdReady};
use crate::startup_laws;
use vstd::prelude::*;

verus! {

/// Whether the exchanges `from .. to` are all that an operation has with the bus, and it
/// succeeds with this value.
pub open spec fn completes<E, O: Operation<E>>(
    operation: O,
    talk: Seq<Exchange<E>>,
    from: int,
    to: int,
    value: O::Output,
) -> bool {
    &&& 0 <= from <= to <= talk.len()
    &&& conversation::run(operation, talk.subrange(from, to)) == Some(
        Progress::<O, O::Output, O::Failure>::Done(Ok(value)),
    )
}

/// Whether the exchange `at` is this delay.
pub open spec fn delays<E>(talk: Seq<Exchange<E>>, at: int, request: Request) -> bool {
    &&& 0 <= at < talk.len()
    &&& talk[at].request == request
    &&& talk[at].reply is Ok
}

/// The chip ID is read, whatever it is; after 2 ms the chip is reset.
pub open spec fn resets<E>(talk: Seq<Exchange<E>>) -> bool {
    &&& exists|id: u8| completes(Read { readout: ChipId }, talk, 0, 1, id)
    &&& delays(talk, 1, Request::DelayMs(2))
    &&& completes(Command { command: CmdVariant::Softreset }, talk, 2, 3, ())
}

/// Then, until `ready`, the chip gets ready for a command.
pub open spec fn gets_ready<E>(talk: Seq<Exchange<E>>, ready: int) -> bool {
    &&& resets(talk)
    &&& completes(WaitCmdReady::fresh(), talk, 3, ready, ())
}

/// Then the advanced power save mode is switched off, with 1 ms after it.
pub open spec fn wakes_up<E>(talk: Seq<Exchange<E>>, ready: int) -> bool {
    &&& gets_ready(talk, ready)
    &&& completes(
        Modify::of(Change::PowerSave(AdvPowerSave::Off)),
        talk,
        ready,
        ready + 2,
        (),
    )
    &&& delays(talk, ready + 2, Request::DelayMs(1))
}

/// Then, until `loaded`, the firmware is loaded.
pub open spec fn loads<'a, E>(
    firmware: &'a [u8],
    talk: Seq<Exchange<E>>,
    ready: int,
    loaded: int,
) -> bool {
    &&& wakes_up(talk, ready)
    &&& completes(LoadInitData::fresh(firmware), talk, ready + 3, loaded, ())
}

/// Then the chip ID is read, and it is that of a BMI270.
pub open spec fn identifies<'a, E>(
    firmware: &'a [u8],
    talk: Seq<Exchange<E>>,
    ready: int,
    loaded: int,
) -> bool {
    &&& loads(firmware, talk, ready, loaded)
    &&& completes(Read { readout: ChipId }, talk, loaded, loaded + 1, BMI270_CHIP_ID)
}

/// Then the ranges are set to their initial values, and that is all.
pub open spec fn brings_up<'a, E>(
    firmware: &'a [u8],
    talk: Seq<Exchange<E>>,
    ready: int,
    loaded: int,
) -> bool {
    let driver = Bmi270::initial();
    &&& identifies(firmware, talk, ready, loaded)
    &&& completes(
        SetAccRange::of(driver, driver.acc_range),
        talk,
        loaded + 1,
        loaded + 3,
        driver,
    )
    &&& completes(
        SetGyrRange::of(driver, driver.gyr_range),
        talk,
        loaded + 3,
        loaded + 5,
        driver,
    )
    &&& talk.len() == loaded + 5
}

/// After the reset the chip does not get ready for a command, and that is all.
pub open spec fn times_out<E>(talk: Seq<Exchange<E>>) -> bool {
    &&& resets(talk)
    &&& conversation::run(WaitCmdReady::fresh(), talk.subrange(3, talk.len() as int)) == Some(
        Progress::<WaitCmdReady, (), Error<E>>::Done(Err(Error::CmdTimeout)),
    )
}

/// After the wake-up the firmware does not start, and that is all.
pub open spec fn does_not_start<'a, E>(
    firmware: &'a [u8],
    talk: Seq<Exchange<E>>,
    ready: int,
) -> bool {
    &&& wakes_up(talk, ready)
    &&& conversation::run(
        LoadInitData::fresh(firmware),
        talk.subrange(ready + 3, talk.len() as int),
    ) == Some(Progress::<LoadInitData<'a>, (), Error<E>>::Done(Err(Error::BadInit)))
}

/// After the firmware is loaded the chip ID is read, it is not that of a BMI270, and that is
/// all.
pub open spec fn is_another_chip<'a, E>(
    firmware: &'a [u8],
    talk: Seq<Exchange<E>>,
    ready: int,
    loaded: int,
    id: u8,
) -> bool {
    &&& loads(firmware, talk, ready, loaded)
    &&& completes(Read { readout: ChipId }, talk, loaded, loaded + 1, id)
    &&& talk.len() == loaded + 1
    &&& id != BMI270_CHIP_ID
}

/// Whether the exchanges from `from` on have brought an operation to where it is now.
spec fn reaches<E, O: Operation<E>>(
    operation: O,
    talk: Seq<Exchange<E>>,
    from: int,
    now: O,
) -> bool {
    &&& 0 <= from <= talk.len()
    &&& conversation::run(operation, talk.subrange(from, talk.len() as int)) == Some(
        Progress::<O, O::Output, O::Failure>::Pending(now),
    )
}

/// Whether the exchanges have brought bringing up the chip to this stage.
spec fn at_stage<'a, E>(
    firmware: &'a [u8],
    talk: Seq<Exchange<E>>,
    stage: Stage<'a>,
    ready: int,
    loaded: int,
) -> bool {
    let driver = Bmi270::initial();
    match stage {
        Stage::Probe => talk.len() == 0,
        Stage::ProbeSettle => {
            &&& exists|id: u8| completes(Read { readout: ChipId }, talk, 0, 1, id)
            &&& talk.len() == 1
        },
        Stage::Reset(command) => {
            &&& exists|id: u8| completes(Read { readout: ChipId }, talk, 0, 1, id)
            &&& delays(talk, 1, Request::DelayMs(2))
            &&& talk.len() == 2
            &&& command == Command { command: CmdVariant::Softreset }
        },
        Stage::CmdReady(wait) => resets(talk) && reaches(WaitCmdReady::fresh(), talk, 3, wait),
        Stage::PowerSave(modify) => {
            &&& gets_ready(talk, ready)
            &&& reaches(Modify::of(Change::PowerSave(AdvPowerSave::Off)), talk, ready, modify)
        },
        Stage::PowerSaveSettle => {
            &&& gets_ready(talk, ready)
            &&& completes(
                Modify::of(Change::PowerSave(AdvPowerSave::Off)),
                talk,
                ready,
                ready + 2,
                (),
            )
            &&& talk.len() == ready + 2
        },
        Stage::Load(load) => {
            &&& wakes_up(talk, ready)
            &&& reaches(LoadInitData::fresh(firmware), talk, ready + 3, load)
        },
        Stage::Identify => loads(firmware, talk, ready, loaded) && talk.len() == loaded,
        Stage::AccRange(set) => {
            &&& identifies(firmware, talk, ready, loaded)
            &&& reaches(SetAccRange::of(driver, driver.acc_range), talk, loaded + 1, set)
        },
        Stage::GyrRange(set) => {
            &&& identifies(firmware, talk, ready, loaded)
            &&& completes(
                SetAccRange::of(driver, driver.acc_range),
                talk,
                loaded + 1,
                loaded + 3,
                driver,
            )
            &&& reaches(SetGyrRange::of(driver, driver.gyr_range), talk, loaded + 3, set)
        },
    }
}

/// What was completed stays completed when there is more talk.
proof fn lemma_completes_stays<E, O: Operation<E>>(
    operation: O,
    talk: Seq<Exchange<E>>,
    from: int,
    to: int,
    value: O::Output,
)
    requires
        talk.len() > 0,
        completes(operation, talk.drop_last(), from, to, value),
    ensures
        completes(operation, talk, from, to, value),
{
    assert(talk.subrange(from, to) =~= talk.drop_last().subrange(from, to));
}

/// An operation goes on with the last exchange.
proof fn lemma_reaches_step<E, O: Operation<E>>(
    operation: O,
    talk: Seq<Exchange<E>>,
    from: int,
    now: O,
)
    requires
        talk.len() > 0,
        reaches(operation, talk.drop_last(), from, now),
        talk.last().request == now.asks(),
        crate::operation::fits(now.asks(), talk.last().reply),
    ensures
        conversation::run(operation, talk.subrange(from, talk.len() as int)) == Some(
            now.answered(talk.last().reply),
        ),
{
    let part = talk.subrange(from, talk.len() as int);
    assert(part.drop_last() =~= talk.drop_last().subrange(from, talk.len() - 1));
    assert(part.last() == talk.last());
}

/// An operation without exchanges is where it begins.
proof fn lemma_reaches_fresh<E, O: Operation<E>>(operation: O, talk: Seq<Exchange<E>>)
    ensures
        reaches(operation, talk, talk.len() as int, operation),
{
    assert(talk.subrange(talk.len() as int, talk.len() as int).len() == 0);
}

/// A single exchange completes an operation that it answers.
proof fn lemma_completes_single<E, O: Operation<E>>(
    operation: O,
    talk: Seq<Exchange<E>>,
    value: O::Output,
)
    requires
        talk.len() > 0,
        talk.last().request == operation.asks(),
        crate::operation::fits(operation.asks(), talk.last().reply),
        operation.answered(talk.last().reply) == Progress::<O, O::Output, O::Failure>::Done(
            Ok(value),
        ),
    ensures
        completes(operation, talk, talk.len() - 1, talk.len() as int, value),
{
    lemma_reaches_fresh(operation, talk.drop_last());
    lemma_reaches_step(operation, talk, talk.len() - 1, operation);
}

/// Setting a range is staged after one exchange and over after two.
proof fn lemma_set_acc_range_len<E>(
    driver: Bmi270,
    range: AccRangeVariant,
    talk: Seq<Exchange<E>>,
    now: SetAccRange,
)
    requires
        conversation::run(SetAccRange::of(driver, range), talk) == Some(
            Progress::<SetAccRange, Bmi270, E>::Pending(now),
        ),
    ensures
        now.driver == driver,
        now.range == range,
        talk.len() == if now.staged is Some {
            1int
        } else {
            0int
        },
    decreases talk.len(),
{
    if talk.len() > 0 {
        let past = conversation::run(SetAccRange::of(driver, range), talk.drop_last());
        if let Some(Progress::Pending(before)) = past {
            lemma_set_acc_range_len(driver, range, talk.drop_last(), before);
        }
    }
}

/// Setting a range is staged after one exchange and over after two.
proof fn lemma_set_gyr_range_len<E>(
    driver: Bmi270,
    range: GyrRangeVariant,
    talk: Seq<Exchange<E>>,
    now: SetGyrRange,
)
    requires
        conversation::run(SetGyrRange::of(driver, range), talk) == Some(
            Progress::<SetGyrRange, Bmi270, E>::Pending(now),
        ),
    ensures
        now.driver == driver,
        now.range == range,
        talk.len() == if now.staged is Some {
            1int
        } else {
            0int
        },
    decreases talk.len(),
{
    if talk.len() > 0 {
        let past = conversation::run(SetGyrRange::of(driver, range), talk.drop_last());
        if let Some(Progress::Pending(before)) = past {
            lemma_set_gyr_range_len(driver, range, talk.drop_last(), before);
        }
    }
}

proof fn lemma_resets_stays<E>(talk: Seq<Exchange<E>>)
    requires
        talk.len() > 0,
        resets(talk.drop_last()),
    ensures
        resets(talk),
{
    let past = talk.drop_last();
    let id = choose|id: u8| completes(Read { readout: ChipId }, past, 0, 1, id);
    lemma_completes_stays(Read { readout: ChipId }, talk, 0, 1, id);
    lemma_completes_stays(Command { command: CmdVariant::Softreset }, talk, 2, 3, ());
}

proof fn lemma_gets_ready_stays<E>(talk: Seq<Exchange<E>>, ready: int)
    requires
        talk.len() > 0,
        gets_ready(talk.drop_last(), ready),
    ensures
        gets_ready(talk, ready),
{
    lemma_resets_stays(talk);
    lemma_completes_stays(WaitCmdReady::fresh(), talk, 3, ready, ());
}

proof fn lemma_wakes_up_stays<E>(talk: Seq<Exchange<E>>, ready: int)
    requires
        talk.len() > 0,
        wakes_up(talk.drop_last(), ready),
    ensures
        wakes_up(talk, ready),
{
    lemma_gets_ready_stays(talk, ready);
    let power = Modify::of(Change::PowerSave(AdvPowerSave::Off));
    lemma_completes_stays(power, talk, ready, ready + 2, ());
}

proof fn lemma_loads_stays<'a, E>(
    firmware: &'a [u8],
    talk: Seq<Exchange<E>>,
    ready: int,
    loaded: int,
)
    requires
        talk.len() > 0,
        loads(firmware, talk.drop_last(), ready, loaded),
    ensures
        loads(firmware, talk, ready, loaded),
{
    lemma_wakes_up_stays(talk, ready);
    lemma_completes_stays(LoadInitData::fresh(firmware), talk, ready + 3, loaded, ());
}

proof fn lemma_identifies_stays<'a, E>(
    firmware: &'a [u8],
    talk: Seq<Exchange<E>>,
    ready: int,
    loaded: int,
)
    requires
        talk.len() > 0,
        identifies(firmware, talk.drop_last(), ready, loaded),
    ensures
        identifies(firmware, talk, ready, loaded),
{
    lemma_loads_stays(firmware, talk, ready, loaded);
    lemma_completes_stays(Read { readout: ChipId }, talk, loaded, loaded + 1, BMI270_CHIP_ID);
}

/// Whether the last exchange brings the operation on.
spec fn steps<'a, E>(talk: Seq<Exchange<E>>, before: Initialize<'a>, now: Initialize<'a>) -> bool {
    &&& talk.len() > 0
    &&& talk.last().request == Operation::<E>::asks(before)
    &&& crate::operation::fits(Operation::<E>::asks(before), talk.last().reply)
    &&& before.answered(talk.last().reply) == Progress::<Initialize<'a>, Bmi270, Error<E>>::Pending(
        now,
    )
}

/// The stages up to the reset go on.
proof fn lemma_step_reset<'a, E>(
    firmware: &'a [u8],
    talk: Seq<Exchange<E>>,
    before: Initialize<'a>,
    now: Initialize<'a>,
    ready: int,
    loaded: int,
)
    requires
        steps(talk, before, now),
        before.firmware == firmware,
        before.stage is Probe || before.stage is ProbeSettle || before.stage is Reset,
        at_stage(firmware, talk.drop_last(), before.stage, ready, loaded),
    ensures
        now.firmware == firmware,
        at_stage(firmware, talk, now.stage, ready, loaded),
{
    let past = talk.drop_last();
    if !(before.stage is Probe) {
        let id = choose|id: u8| completes(Read { readout: ChipId }, past, 0, 1, id);
        lemma_completes_stays(Read { readout: ChipId }, talk, 0, 1, id);
    }
    match before.stage {
        Stage::Probe => {
            lemma_completes_single(Read { readout: ChipId }, talk, talk.last().reply->Ok_0[0]);
        },
        Stage::Reset(command) => {
            lemma_completes_single(command, talk, ());
            lemma_reaches_fresh(WaitCmdReady::fresh(), talk);
        },
        _ => {},
    }
}

/// Getting ready for a command goes on.
proof fn lemma_step_cmd_ready<'a, E>(
    firmware: &'a [u8],
    talk: Seq<Exchange<E>>,
    before: Initialize<'a>,
    now: Initialize<'a>,
    ready: int,
    loaded: int,
)
    requires
        steps(talk, before, now),
        before.firmware == firmware,
        before.stage is CmdReady,
        at_stage(firmware, talk.drop_last(), before.stage, ready, loaded),
    ensures
        now.firmware == firmware,
        now.stage is CmdReady ==> at_stage(firmware, talk, now.stage, ready, loaded),
        !(now.stage is CmdReady) ==> at_stage(
            firmware,
            talk,
            now.stage,
            talk.len() as int,
            loaded,
        ),
{
    lemma_resets_stays(talk);
    lemma_reaches_step(WaitCmdReady::fresh(), talk, 3, before.stage->CmdReady_0);
    lemma_reaches_fresh(Modify::of(Change::PowerSave(AdvPowerSave::Off)), talk);
}

/// Switching off the advanced power save mode goes on.
proof fn lemma_step_power_save<'a, E>(
    firmware: &'a [u8],
    talk: Seq<Exchange<E>>,
    before: Initialize<'a>,
    now: Initialize<'a>,
    ready: int,
    loaded: int,
)
    requires
        steps(talk, before, now),
        before.firmware == firmware,
        before.stage is PowerSave || before.stage is PowerSaveSettle,
        at_stage(firmware, talk.drop_last(), before.stage, ready, loaded),
    ensures
        now.firmware == firmware,
        at_stage(firmware, talk, now.stage, ready, loaded),
{
    let past = talk.drop_last();
    let power = Modify::of(Change::PowerSave(AdvPowerSave::Off));
    lemma_gets_ready_stays(talk, ready);
    match before.stage {
        Stage::PowerSave(modify) => {
            lemma_reaches_step(power, talk, ready, modify);
            operation_laws::lemma_modify_is_over(
                power.change,
                past.subrange(ready, past.len() as int),
            );
        },
        _ => {
            lemma_completes_stays(power, talk, ready, ready + 2, ());
            lemma_reaches_fresh(LoadInitData::fresh(firmware), talk);
        },
    }
}

/// Loading the firmware goes on.
proof fn lemma_step_load<'a, E>(
    firmware: &'a [u8],
    talk: Seq<Exchange<E>>,
    before: Initialize<'a>,
    now: Initialize<'a>,
    ready: int,
    loaded: int,
)
    requires
        steps(talk, before, now),
        before.firmware == firmware,
        before.stage is Load,
        at_stage(firmware, talk.drop_last(), before.stage, ready, loaded),
    ensures
        now.firmware == firmware,
        now.stage is Load ==> at_stage(firmware, talk, now.stage, ready, loaded),
        !(now.stage is Load) ==> at_stage(firmware, talk, now.stage, ready, talk.len() as int),
{
    lemma_wakes_up_stays(talk, ready);
    lemma_reaches_step(LoadInitData::fresh(firmware), talk, ready + 3, before.stage->Load_0);
}

/// Checking the chip ID goes on.
proof fn lemma_step_identify<'a, E>(
    firmware: &'a [u8],
    talk: Seq<Exchange<E>>,
    before: Initialize<'a>,
    now: Initialize<'a>,
    ready: int,
    loaded: int,
)
    requires
        steps(talk, before, now),
        before.firmware == firmware,
        before.stage is Identify,
        at_stage(firmware, talk.drop_last(), before.stage, ready, loaded),
    ensures
        now.firmware == firmware,
        at_stage(firmware, talk, now.stage, ready, loaded),
{
    let driver = Bmi270::initial();
    lemma_loads_stays(firmware, talk, ready, loaded);
    lemma_completes_single(Read { readout: ChipId }, talk, BMI270_CHIP_ID);
    lemma_reaches_fresh(SetAccRange::of(driver, driver.acc_range), talk);
}

/// Setting the accelerometer range goes on.
#[verifier::rlimit(30)]
proof fn lemma_step_acc_range<'a, E>(
    firmware: &'a [u8],
    talk: Seq<Exchange<E>>,
    before: Initialize<'a>,
    now: Initialize<'a>,
    ready: int,
    loaded: int,
)
    requires
        steps(talk, before, now),
        before.firmware == firmware,
        before.stage is AccRange,
        at_stage(firmware, talk.drop_last(), before.stage, ready, loaded),
    ensures
        now.firmware == firmware,
        at_stage(firmware, talk, now.stage, ready, loaded),
{
    let past = talk.drop_last();
    let driver = Bmi270::initial();
    let set = before.stage->AccRange_0;
    lemma_identifies_stays(firmware, talk, ready, loaded);
    lemma_reaches_step(SetAccRange::of(driver, driver.acc_range), talk, loaded + 1, set);
    lemma_set_acc_range_len(
        driver,
        driver.acc_range,
        past.subrange(loaded + 1, past.len() as int),
        set,
    );
    lemma_reaches_fresh(SetGyrRange::of(driver, driver.gyr_range), talk);
}

/// Setting the gyroscope range goes on.
#[verifier::rlimit(30)]
proof fn lemma_step_gyr_range<'a, E>(
    firmware: &'a [u8],
    talk: Seq<Exchange<E>>,
    before: Initialize<'a>,
    now: Initialize<'a>,
    ready: int,
    loaded: int,
)
    requires
        steps(talk, before, now),
        before.firmware == firmware,
        before.stage is GyrRange,
        at_stage(firmware, talk.drop_last(), before.stage, ready, loaded),
    ensures
        now.firmware == firmware,
        at_stage(firmware, talk, now.stage, ready, loaded),
{
    let driver = Bmi270::initial();
    let set = before.stage->GyrRange_0;
    lemma_identifies_stays(firmware, talk, ready, loaded);
    lemma_reaches_step(SetGyrRange::of(driver, driver.gyr_range), talk, loaded + 3, set);
    lemma_completes_stays(
        SetAccRange::of(driver, driver.acc_range),
        talk,
        loaded + 1,
        loaded + 3,
        driver,
    );
}

/// Where the exchanges have brought bringing up the chip.
proof fn lemma_at_stage<'a, E>(
    firmware: &'a [u8],
    talk: Seq<Exchange<E>>,
    now: Initialize<'a>,
) -> (split: (int, int))
    requires
        conversation::run(Initialize::fresh(firmware), talk) == Some(
            Progress::<Initialize<'a>, Bmi270, Error<E>>::Pending(now),
        ),
    ensures
        now.firmware == firmware,
        at_stage(firmware, talk, now.stage, split.0, split.1),
    decreases talk.len(),
{
    if talk.len() == 0 {
        (0, 0)
    } else {
        let before = match conversation::run(Initialize::fresh(firmware), talk.drop_last()) {
            Some(Progress::Pending(before)) => before,
            _ => arbitrary(),
        };
        let (ready, loaded) = lemma_at_stage(firmware, talk.drop_last(), before);
        let end = talk.len() as int;
        match before.stage {
            Stage::Probe | Stage::ProbeSettle | Stage::Reset(_) => {
                lemma_step_reset(firmware, talk, before, now, ready, loaded);
                (ready, loaded)
            },
            Stage::CmdReady(_) => {
                lemma_step_cmd_ready(firmware, talk, before, now, ready, loaded);
                if now.stage is CmdReady {
                    (ready, loaded)
                } else {
                    (end, loaded)
                }
            },
            Stage::PowerSave(_) | Stage::PowerSaveSettle => {
                lemma_step_power_save(firmware, talk, before, now, ready, loaded);
                (ready, loaded)
            },
            Stage::Load(_) => {
                lemma_step_load(firmware, talk, before, now, ready, loaded);
                if now.stage is Load {
                    (ready, loaded)
                } else {
                    (ready, end)
                }
            },
            Stage::Identify => {
                lemma_step_identify(firmware, talk, before, now, ready, loaded);
                (ready, loaded)
            },
            Stage::AccRange(_) => {
                lemma_step_acc_range(firmware, talk, before, now, ready, loaded);
                (ready, loaded)
            },
            Stage::GyrRange(_) => {
                lemma_step_gyr_range(firmware, talk, before, now, ready, loaded);
                (ready, loaded)
            },
        }
    }
}

/// Where bringing up the chip was before its last exchange.
proof fn lemma_last_stage<'a, E>(firmware: &'a [u8], talk: Seq<Exchange<E>>) -> (r: (
    Initialize<'a>,
    int,
    int,
))
    requires
        conversation::run(Initialize::fresh(firmware), talk) matches Some(progress)
            && progress is Done,
    ensures
        r.0.firmware == firmware,
        at_stage(firmware, talk.drop_last(), r.0.stage, r.1, r.2),
        talk.len() > 0,
        talk.last().request == Operation::<E>::asks(r.0),
        crate::operation::fits(Operation::<E>::asks(r.0), talk.last().reply),
        conversation::run(Initialize::fresh(firmware), talk) == Some(
            r.0.answered(talk.last().reply),
        ),
{
    let before = match conversation::run(Initialize::fresh(firmware), talk.drop_last()) {
        Some(Progress::Pending(before)) => before,
        _ => arbitrary(),
    };
    let (ready, loaded) = lemma_at_stage(firmware, talk.drop_last(), before);
    (before, ready, loaded)
}

/// If the chip is brought up, all parts of that have succeeded, one after the other, and the
/// driver knows the ranges that were set.
pub proof fn law_initialize_succeeds<'a, E>(
    firmware: &'a [u8],
    talk: Seq<Exchange<E>>,
    driver: Bmi270,
)
    requires
        conversation::run(Initialize::fresh(firmware), talk) == Some(
            Progress::<Initialize<'a>, Bmi270, Error<E>>::Done(Ok(driver)),
        ),
    ensures
        driver == Bmi270::initial(),
        exists|ready: int, loaded: int| brings_up(firmware, talk, ready, loaded),
{
    let (before, ready, loaded) = lemma_last_stage(firmware, talk);
    let initial = Bmi270::initial();
    let set = before.stage->GyrRange_0;
    let gyr = SetGyrRange::of(initial, initial.gyr_range);
    let past = talk.drop_last();
    assert(before.stage is GyrRange);
    lemma_identifies_stays(firmware, talk, ready, loaded);
    lemma_completes_stays(
        SetAccRange::of(initial, initial.acc_range),
        talk,
        loaded + 1,
        loaded + 3,
        initial,
    );
    lemma_reaches_step(gyr, talk, loaded + 3, set);
    lemma_set_gyr_range_len(
        initial,
        initial.gyr_range,
        past.subrange(loaded + 3, past.len() as int),
        set,
    );
    assert(brings_up(firmware, talk, ready, loaded));
}

/// Only three stages can fail on a bus that does not.
proof fn lemma_stage_fails<'a, E>(before: Initialize<'a>, data: Seq<u8>)
    requires
        before.answered(Reply::<E>::Ok(data)) matches Progress::Done(outcome) && outcome is Err,
    ensures
        before.stage is CmdReady || before.stage is Load || before.stage is Identify,
{
}

/// Getting ready for a command fails.
proof fn lemma_cmd_ready_fails<'a, E>(
    firmware: &'a [u8],
    talk: Seq<Exchange<E>>,
    before: Initialize<'a>,
    ready: int,
    loaded: int,
    error: Error<E>,
)
    requires
        talk.len() > 0,
        at_stage(firmware, talk.drop_last(), before.stage, ready, loaded),
        talk.last().request == Operation::<E>::asks(before),
        crate::operation::fits(Operation::<E>::asks(before), talk.last().reply),
        talk.last().reply is Ok,
        before.answered(talk.last().reply) == Progress::<Initialize<'a>, Bmi270, Error<E>>::Done(
            Err(error),
        ),
        before.stage is CmdReady,
    ensures
        error is CmdTimeout,
        times_out(talk),
{
    let wait = before.stage->CmdReady_0;
    lemma_resets_stays(talk);
    lemma_reaches_step(WaitCmdReady::fresh(), talk, 3, wait);
}

/// Loading the firmware fails.
proof fn lemma_load_fails<'a, E>(
    firmware: &'a [u8],
    talk: Seq<Exchange<E>>,
    before: Initialize<'a>,
    ready: int,
    loaded: int,
    error: Error<E>,
)
    requires
        talk.len() > 0,
        at_stage(firmware, talk.drop_last(), before.stage, ready, loaded),
        talk.last().request == Operation::<E>::asks(before),
        crate::operation::fits(Operation::<E>::asks(before), talk.last().reply),
        talk.last().reply is Ok,
        before.answered(talk.last().reply) == Progress::<Initialize<'a>, Bmi270, Error<E>>::Done(
            Err(error),
        ),
        before.stage is Load,
    ensures
        error is BadInit,
        does_not_start(firmware, talk, ready),
{
    let load = before.stage->Load_0;
    lemma_wakes_up_stays(talk, ready);
    lemma_reaches_step(LoadInitData::fresh(firmware), talk, ready + 3, load);
}

/// Checking the chip ID fails.
proof fn lemma_identify_fails<'a, E>(
    firmware: &'a [u8],
    talk: Seq<Exchange<E>>,
    before: Initialize<'a>,
    ready: int,
    loaded: int,
    error: Error<E>,
)
    requires
        talk.len() > 0,
        at_stage(firmware, talk.drop_last(), before.stage, ready, loaded),
        talk.last().request == Operation::<E>::asks(before),
        crate::operation::fits(Operation::<E>::asks(before), talk.last().reply),
        talk.last().reply is Ok,
        before.answered(talk.last().reply) == Progress::<Initialize<'a>, Bmi270, Error<E>>::Done(
            Err(error),
        ),
        before.stage is Identify,
    ensures
        error matches Error::ChipId(id) && is_another_chip(firmware, talk, ready, loaded, id),
{
    lemma_loads_stays(firmware, talk, ready, loaded);
    lemma_completes_single(Read { readout: ChipId }, talk, talk.last().reply->Ok_0[0]);
}

/// As long as an operation that ends with the bus goes on, the bus has not failed.
proof fn lemma_bus_works<E, O: Operation<E>>(operation: O, talk: Seq<Exchange<E>>)
    requires
        conversation::run(operation, talk) matches Some(Progress::Pending(_)),
        forall|now: O, error: E| (#[trigger] now.answered(Reply::<E>::Err(error))) is Done,
    ensures
        forall|i: int| 0 <= i < talk.len() ==> (#[trigger] talk[i]).reply is Ok,
    decreases talk.len(),
{
    if talk.len() > 0 {
        let past = talk.drop_last();
        lemma_bus_works(operation, past);
        if let Err(error) = talk.last().reply {
            assert(conversation::run(operation, past)->0->Pending_0.answered(
                Reply::<E>::Err(error),
            ) is Done);
        }
        assert forall|i: int| 0 <= i < talk.len() implies (#[trigger] talk[i]).reply is Ok by {
            if i < talk.len() - 1 {
                assert(talk[i] == past[i]);
            }
        }
    }
}

/// If bringing up the chip fails, it does so with the first part that fails: the bus; the
/// chip, which does not get ready for a command; the firmware, which does not start; or the
/// chip ID, which is not that of a BMI270.
pub proof fn law_initialize_fails<'a, E>(
    firmware: &'a [u8],
    talk: Seq<Exchange<E>>,
    error: Error<E>,
)
    requires
        conversation::run(Initialize::fresh(firmware), talk) == Some(
            Progress::<Initialize<'a>, Bmi270, Error<E>>::Done(Err(error)),
        ),
    ensures
        match error {
            Error::Transport(error) => {
                &&& talk.len() > 0
                &&& talk.last().reply == Reply::<E>::Err(error)
                &&& forall|i: int| 0 <= i < talk.len() - 1 ==> (#[trigger] talk[i]).reply is Ok
            },
            Error::CmdTimeout => times_out(talk),
            Error::BadInit => exists|ready: int| does_not_start(firmware, talk, ready),
            Error::ChipId(id) => exists|ready: int, loaded: int|
                is_another_chip(firmware, talk, ready, loaded, id),
        },
{
    let (before, ready, loaded) = lemma_last_stage(firmware, talk);
    assert forall|now: Initialize<'a>, error: E|
        (#[trigger] now.answered(Reply::<E>::Err(error))) is Done by {
        law_bus_failure_ends(now, error);
    }
    lemma_bus_works(Initialize::fresh(firmware), talk.drop_last());
    assert forall|i: int| 0 <= i < talk.len() - 1 implies (#[trigger] talk[i]).reply is Ok by {
        assert(talk[i] == talk.drop_last()[i]);
    }
    if let Ok(data) = talk.last().reply {
        lemma_stage_fails::<E>(before, data);
        if before.stage is CmdReady {
            lemma_cmd_ready_fails(firmware, talk, before, ready, loaded, error);
        } else if before.stage is Load {
            lemma_load_fails(firmware, talk, before, ready, loaded, error);
        } else {
            lemma_identify_fails(firmware, talk, before, ready, loaded, error);
        }
    }
}

/// How an operation goes on when a part of it has gone on.
spec fn lifted<E, O: Operation<E>, P: Operation<E>>(
    part: Progress<P, P::Output, P::Failure>,
    wrap: spec_fn(P) -> O,
    finish: spec_fn(Result<P::Output, P::Failure>) -> Progress<O, O::Output, O::Failure>,
) -> Progress<O, O::Output, O::Failure> {
    match part {
        Progress::Pending(next) => Progress::Pending(wrap(next)),
        Progress::Done(outcome) => finish(outcome),
    }
}

/// While an operation is in a part of it, it says what the part says.
proof fn lemma_part<E, O: Operation<E>, P: Operation<E>>(
    operation: O,
    part: P,
    talk: Seq<Exchange<E>>,
    from: int,
    to: int,
    wrap: spec_fn(P) -> O,
    finish: spec_fn(Result<P::Output, P::Failure>) -> Progress<O, O::Output, O::Failure>,
)
    requires
        0 <= from <= to <= talk.len(),
        conversation::run(operation, talk.take(from)) == Some(
            Progress::<O, O::Output, O::Failure>::Pending(wrap(part)),
        ),
        conversation::run(part, talk.subrange(from, to)) is Some,
        forall|p: P| (#[trigger] wrap(p)).asks() == p.asks(),
        forall|p: P, reply: Reply<E>| #[trigger]
            wrap(p).answered(reply) == lifted::<E, O, P>(p.answered(reply), wrap, finish),
    ensures
        conversation::run(operation, talk.take(to)) == Some(
            lifted::<E, O, P>(
                conversation::run(part, talk.subrange(from, to))->0,
                wrap,
                finish,
            ),
        ),
    decreases to - from,
{
    let said = talk.subrange(from, to);
    if from < to {
        assert(said.drop_last() =~= talk.subrange(from, to - 1));
        assert(talk.take(to).drop_last() =~= talk.take(to - 1));
        assert(said.last() == talk[to - 1]);
        assert(talk.take(to).last() == talk[to - 1]);
        let before = match conversation::run(part, said.drop_last()) {
            Some(Progress::Pending(before)) => before,
            _ => arbitrary(),
        };
        lemma_part(operation, part, talk, from, to - 1, wrap, finish);
        let _ = wrap(before).answered(talk[to - 1].reply);
    }
}

/// An operation goes on with one exchange.
proof fn lemma_run_one<E, O: Operation<E>>(operation: O, talk: Seq<Exchange<E>>, at: int, now: O)
    requires
        0 <= at < talk.len(),
        conversation::run(operation, talk.take(at)) == Some(
            Progress::<O, O::Output, O::Failure>::Pending(now),
        ),
        talk[at].request == now.asks(),
        crate::operation::fits(now.asks(), talk[at].reply),
    ensures
        conversation::run(operation, talk.take(at + 1)) == Some(now.answered(talk[at].reply)),
{
    assert(talk.take(at + 1).drop_last() =~= talk.take(at));
}

/// What a single exchange that completes an operation is.
proof fn lemma_single<E, O: Operation<E>>(
    operation: O,
    talk: Seq<Exchange<E>>,
    at: int,
    value: O::Output,
)
    requires
        completes(operation, talk, at, at + 1, value),
    ensures
        talk[at].request == operation.asks(),
        crate::operation::fits(operation.asks(), talk[at].reply),
        operation.answered(talk[at].reply) == Progress::<O, O::Output, O::Failure>::Done(Ok(value)),
{
    reveal_with_fuel(conversation::run, 2);
    let said = talk.subrange(at, at + 1);
    assert(said.last() == talk[at]);
}

/// After the reset the operation waits for the chip to get ready.
proof fn lemma_resets_runs<'a, E>(firmware: &'a [u8], talk: Seq<Exchange<E>>)
    requires
        resets(talk),
    ensures
        conversation::run(Initialize::fresh(firmware), talk.take(3)) == Some(
            Progress::<Initialize<'a>, Bmi270, Error<E>>::Pending(
                Initialize { firmware, stage: Stage::CmdReady(WaitCmdReady::fresh()) },
            ),
        ),
{
    let fresh = Initialize::fresh(firmware);
    let command = Command { command: CmdVariant::Softreset };
    let id = choose|id: u8| completes(Read { readout: ChipId }, talk, 0, 1, id);
    lemma_single(Read { readout: ChipId }, talk, 0, id);
    lemma_run_one(fresh, talk, 0, fresh);
    lemma_run_one(fresh, talk, 1, fresh.at(Stage::ProbeSettle));
    lemma_single(command, talk, 2, ());
    lemma_run_one(fresh, talk, 2, fresh.at(Stage::Reset(command)));
}

/// While the operation waits for the chip to get ready, it says what waiting says.
proof fn lemma_cmd_ready_runs<'a, E>(firmware: &'a [u8], talk: Seq<Exchange<E>>, to: int)
    requires
        resets(talk),
        3 <= to <= talk.len(),
        conversation::run(WaitCmdReady::fresh(), talk.subrange(3, to)) is Some,
    ensures
        match conversation::run(WaitCmdReady::fresh(), talk.subrange(3, to))->0 {
            Progress::Pending(_) => true,
            Progress::Done(Ok(_)) => conversation::run(
                Initialize::fresh(firmware),
                talk.take(to),
            ) == Some(
            Progress::<Initialize<'a>, Bmi270, Error<E>>::Pending(
                Initialize {
                    firmware,
                    stage: Stage::PowerSave(Modify::of(Change::PowerSave(AdvPowerSave::Off))),
                },
            ),
        ),
            Progress::Done(Err(error)) => conversation::run(
                Initialize::fresh(firmware),
                talk.take(to),
            ) == Some(Progress::<Initialize<'a>, Bmi270, Error<E>>::Done(Err(error))),
        },
{
    let wrap = |wait: WaitCmdReady| Initialize { firmware, stage: Stage::CmdReady(wait) };
    let finish = |outcome: Result<(), Error<E>>|
        match outcome {
            Ok(_) => Progress::<Initialize<'a>, Bmi270, Error<E>>::Pending(
                Initialize {
                    firmware,
                    stage: Stage::PowerSave(Modify::of(Change::PowerSave(AdvPowerSave::Off))),
                },
            ),
            Err(error) => Progress::Done(Err(error)),
        };
    lemma_resets_runs(firmware, talk);
    lemma_part(Initialize::fresh(firmware), WaitCmdReady::fresh(), talk, 3, to, wrap, finish);
}

/// After the wake-up the operation loads the firmware.
proof fn lemma_wakes_up_runs<'a, E>(firmware: &'a [u8], talk: Seq<Exchange<E>>, ready: int)
    requires
        wakes_up(talk, ready),
    ensures
        conversation::run(Initialize::fresh(firmware), talk.take(ready + 3)) == Some(
            Progress::<Initialize<'a>, Bmi270, Error<E>>::Pending(
                Initialize { firmware, stage: Stage::Load(LoadInitData::fresh(firmware)) },
            ),
        ),
{
    let fresh = Initialize::fresh(firmware);
    let power = Modify::of(Change::PowerSave(AdvPowerSave::Off));
    let wrap = |modify: Modify| Initialize { firmware, stage: Stage::PowerSave(modify) };
    let finish = |outcome: Result<(), E>|
        match outcome {
            Ok(_) => Progress::<Initialize<'a>, Bmi270, Error<E>>::Pending(
                Initialize { firmware, stage: Stage::PowerSaveSettle },
            ),
            Err(error) => Progress::Done(Err(Error::Transport(error))),
        };
    lemma_cmd_ready_runs(firmware, talk, ready);
    lemma_part(fresh, power, talk, ready, ready + 2, wrap, finish);
    lemma_run_one(fresh, talk, ready + 2, fresh.at(Stage::PowerSaveSettle));
}

/// While the operation loads the firmware, it says what loading says.
proof fn lemma_load_runs<'a, E>(
    firmware: &'a [u8],
    talk: Seq<Exchange<E>>,
    ready: int,
    to: int,
)
    requires
        wakes_up(talk, ready),
        ready + 3 <= to <= talk.len(),
        conversation::run(LoadInitData::fresh(firmware), talk.subrange(ready + 3, to)) is Some,
    ensures
        match conversation::run(LoadInitData::fresh(firmware), talk.subrange(ready + 3, to))->0 {
            Progress::Pending(_) => true,
            Progress::Done(Ok(_)) => conversation::run(
                Initialize::fresh(firmware),
                talk.take(to),
            ) == Some(
            Progress::<Initialize<'a>, Bmi270, Error<E>>::Pending(
                Initialize { firmware, stage: Stage::Identify },
            ),
        ),
            Progress::Done(Err(error)) => conversation::run(
                Initialize::fresh(firmware),
                talk.take(to),
            ) == Some(Progress::<Initialize<'a>, Bmi270, Error<E>>::Done(Err(error))),
        },
{
    let wrap = |load: LoadInitData<'a>| Initialize { firmware, stage: Stage::Load(load) };
    let finish = |outcome: Result<(), Error<E>>|
        match outcome {
            Ok(_) => Progress::<Initialize<'a>, Bmi270, Error<E>>::Pending(
                Initialize { firmware, stage: Stage::Identify },
            ),
            Err(error) => Progress::Done(Err(error)),
        };
    lemma_wakes_up_runs(firmware, talk, ready);
    lemma_part(
        Initialize::fresh(firmware),
        LoadInitData::fresh(firmware),
        talk,
        ready + 3,
        to,
        wrap,
        finish,
    );
}

/// While the operation sets the accelerometer range, it says what setting it says.
proof fn lemma_acc_range_runs<'a, E>(firmware: &'a [u8], talk: Seq<Exchange<E>>, from: int)
    requires
        0 <= from,
        conversation::run(Initialize::fresh(firmware), talk.take(from)) == Some(
            Progress::<Initialize<'a>, Bmi270, Error<E>>::Pending(
                Initialize {
                    firmware,
                    stage: Stage::AccRange(
                        SetAccRange::of(Bmi270::initial(), Bmi270::initial().acc_range),
                    ),
                },
            ),
        ),
        completes(
            SetAccRange::of(Bmi270::initial(), Bmi270::initial().acc_range),
            talk,
            from,
            from + 2,
            Bmi270::initial(),
        ),
    ensures
        conversation::run(Initialize::fresh(firmware), talk.take(from + 2)) == Some(
            Progress::<Initialize<'a>, Bmi270, Error<E>>::Pending(
                Initialize {
                    firmware,
                    stage: Stage::GyrRange(
                        SetGyrRange::of(Bmi270::initial(), Bmi270::initial().gyr_range),
                    ),
                },
            ),
        ),
{
    let driver = Bmi270::initial();
    let wrap = |set: SetAccRange| Initialize { firmware, stage: Stage::AccRange(set) };
    let finish = |outcome: Result<Bmi270, E>|
        match outcome {
            Ok(driver) => Progress::<Initialize<'a>, Bmi270, Error<E>>::Pending(
                Initialize {
                    firmware,
                    stage: Stage::GyrRange(SetGyrRange::of(driver, driver.gyr_range)),
                },
            ),
            Err(error) => Progress::Done(Err(Error::Transport(error))),
        };
    lemma_part(
        Initialize::fresh(firmware),
        SetAccRange::of(driver, driver.acc_range),
        talk,
        from,
        from + 2,
        wrap,
        finish,
    );
}

/// While the operation sets the gyroscope range, it says what setting it says.
proof fn lemma_gyr_range_runs<'a, E>(firmware: &'a [u8], talk: Seq<Exchange<E>>, from: int)
    requires
        0 <= from,
        conversation::run(Initialize::fresh(firmware), talk.take(from)) == Some(
            Progress::<Initialize<'a>, Bmi270, Error<E>>::Pending(
                Initialize {
                    firmware,
                    stage: Stage::GyrRange(
                        SetGyrRange::of(Bmi270::initial(), Bmi270::initial().gyr_range),
                    ),
                },
            ),
        ),
        completes(
            SetGyrRange::of(Bmi270::initial(), Bmi270::initial().gyr_range),
            talk,
            from,
            from + 2,
            Bmi270::initial(),
        ),
    ensures
        conversation::run(Initialize::fresh(firmware), talk.take(from + 2)) == Some(
            Progress::<Initialize<'a>, Bmi270, Error<E>>::Done(Ok(Bmi270::initial())),
        ),
{
    let driver = Bmi270::initial();
    let wrap = |set: SetGyrRange| Initialize { firmware, stage: Stage::GyrRange(set) };
    let finish = |outcome: Result<Bmi270, E>|
        match outcome {
            Ok(driver) => Progress::<Initialize<'a>, Bmi270, Error<E>>::Done(Ok(driver)),
            Err(error) => Progress::Done(Err(Error::Transport(error))),
        };
    lemma_part(
        Initialize::fresh(firmware),
        SetGyrRange::of(driver, driver.gyr_range),
        talk,
        from,
        from + 2,
        wrap,
        finish,
    );
}

/// When the chip has the right ID, the accelerometer range is set next.
proof fn lemma_identify_runs<'a, E>(
    firmware: &'a [u8],
    talk: Seq<Exchange<E>>,
    ready: int,
    loaded: int,
)
    requires
        identifies(firmware, talk, ready, loaded),
    ensures
        0 <= loaded < talk.len(),
        conversation::run(Initialize::fresh(firmware), talk.take(loaded + 1)) == Some(
            Progress::<Initialize<'a>, Bmi270, Error<E>>::Pending(
                Initialize {
                    firmware,
                    stage: Stage::AccRange(
                        SetAccRange::of(Bmi270::initial(), Bmi270::initial().acc_range),
                    ),
                },
            ),
        ),
{
    let fresh = Initialize::fresh(firmware);
    lemma_load_runs(firmware, talk, ready, loaded);
    lemma_single(Read { readout: ChipId }, talk, loaded, BMI270_CHIP_ID);
    lemma_run_one(fresh, talk, loaded, fresh.at(Stage::Identify));
}

/// If all parts of bringing up the chip succeed, one after the other, it is brought up.
pub proof fn law_parts_bring_up<'a, E>(
    firmware: &'a [u8],
    talk: Seq<Exchange<E>>,
    ready: int,
    loaded: int,
)
    requires
        brings_up(firmware, talk, ready, loaded),
    ensures
        conversation::run(Initialize::fresh(firmware), talk) == Some(
            Progress::<Initialize<'a>, Bmi270, Error<E>>::Done(Ok(Bmi270::initial())),
        ),
{
    lemma_identify_runs(firmware, talk, ready, loaded);
    lemma_acc_range_runs(firmware, talk, loaded + 1);
    lemma_gyr_range_runs(firmware, talk, loaded + 3);
    assert(talk.take(loaded + 5) =~= talk);
}

/// If the chip does not get ready for a command after the reset, bringing it up fails with
/// `CmdTimeout`.
pub proof fn law_times_out<'a, E>(firmware: &'a [u8], talk: Seq<Exchange<E>>)
    requires
        times_out(talk),
    ensures
        conversation::run(Initialize::fresh(firmware), talk) == Some(
            Progress::<Initialize<'a>, Bmi270, Error<E>>::Done(Err(Error::CmdTimeout)),
        ),
{
    lemma_cmd_ready_runs(firmware, talk, talk.len() as int);
    assert(talk.take(talk.len() as int) =~= talk);
}

/// If the firmware does not start, bringing up the chip fails with `BadInit`.
pub proof fn law_does_not_start<'a, E>(firmware: &'a [u8], talk: Seq<Exchange<E>>, ready: int)
    requires
        does_not_start(firmware, talk, ready),
    ensures
        conversation::run(Initialize::fresh(firmware), talk) == Some(
            Progress::<Initialize<'a>, Bmi270, Error<E>>::Done(Err(Error::BadInit)),
        ),
{
    lemma_load_runs(firmware, talk, ready, talk.len() as int);
    assert(talk.take(talk.len() as int) =~= talk);
}

/// If the chip ID is not that of a BMI270, bringing up the chip fails with that ID.
pub proof fn law_another_chip<'a, E>(
    firmware: &'a [u8],
    talk: Seq<Exchange<E>>,
    ready: int,
    loaded: int,
    id: u8,
)
    requires
        is_another_chip(firmware, talk, ready, loaded, id),
    ensures
        conversation::run(Initialize::fresh(firmware), talk) == Some(
            Progress::<Initialize<'a>, Bmi270, Error<E>>::Done(Err(Error::ChipId(id))),
        ),
{
    let fresh = Initialize::fresh(firmware);
    lemma_load_runs(firmware, talk, ready, loaded);
    lemma_single(Read { readout: ChipId }, talk, loaded, id);
    lemma_run_one(fresh, talk, loaded, fresh.at(Stage::Identify));
    assert(talk.take(loaded + 1) =~= talk);
}

/// If the bus fails, bringing up the chip fails with its error, and asks for nothing more.
pub proof fn law_bus_failure_ends<'a, E>(now: Initialize<'a>, error: E)
    ensures
        now.answered(Reply::<E>::Err(error)) == Progress::<Initialize<'a>, Bmi270, Error<E>>::Done(
            Err(Error::Transport(error)),
        ),
{
}

/// How many exchanges there are when bringing up the chip is at a stage.
proof fn lemma_stage_bound<'a, E>(
    firmware: &'a [u8],
    talk: Seq<Exchange<E>>,
    stage: Stage<'a>,
    ready: int,
    loaded: int,
)
    requires
        at_stage(firmware, talk, stage, ready, loaded),
    ensures
        talk.len() < 91 + startup_laws::load_requests(firmware@).len(),
{
    let driver = Bmi270::initial();
    let end = talk.len() as int;
    if completes(WaitCmdReady::fresh(), talk, 3, ready, ()) {
        startup_laws::law_wait_cmd_ready(talk.subrange(3, ready));
    }
    if completes(LoadInitData::fresh(firmware), talk, ready + 3, loaded, ()) {
        startup_laws::law_load_is_bounded(firmware, talk.subrange(ready + 3, loaded));
    }
    match stage {
        Stage::CmdReady(wait) => {
            startup_laws::law_wait_is_bounded(talk.subrange(3, end));
        },
        Stage::PowerSave(modify) => {
            operation_laws::lemma_modify_is_over(
                Change::PowerSave(AdvPowerSave::Off),
                talk.subrange(ready, end),
            );
        },
        Stage::Load(load) => {
            startup_laws::law_load_is_bounded(firmware, talk.subrange(ready + 3, end));
        },
        Stage::AccRange(set) => {
            lemma_set_acc_range_len(
                driver,
                driver.acc_range,
                talk.subrange(loaded + 1, end),
                set,
            );
        },
        Stage::GyrRange(set) => {
            lemma_set_gyr_range_len(
                driver,
                driver.gyr_range,
                talk.subrange(loaded + 3, end),
                set,
            );
        },
        _ => {},
    }
}

/// Bringing up the chip ends: it makes no more requests than loading the firmware does
/// before it waits, and 91 others.
pub proof fn law_initialize_is_bounded<'a, E>(firmware: &'a [u8], talk: Seq<Exchange<E>>)
    requires
        conversation::run(Initialize::fresh(firmware), talk) is Some,
    ensures
        talk.len() <= 91 + startup_laws::load_requests(firmware@).len(),
        conversation::run(Initialize::fresh(firmware), talk)->0 is Pending ==> talk.len() < 91
            + startup_laws::load_requests(firmware@).len(),
{
    match conversation::run(Initialize::fresh(firmware), talk)->0 {
        Progress::Pending(now) => {
            let (ready, loaded) = lemma_at_stage(firmware, talk, now);
            lemma_stage_bound(firmware, talk, now.stage, ready, loaded);
        },
        Progress::Done(_) => {
            let (before, ready, loaded) = lemma_last_stage(firmware, talk);
            lemma_stage_bound(firmware, talk.drop_last(), before.stage, ready, loaded);
        },
    }
}

} // verus!

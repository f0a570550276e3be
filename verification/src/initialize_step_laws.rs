//! What bringing up the chip asks next, told from what it has asked and what came back.
use crate::change::Change;
use crate::conversation::{self, Exchange};
use crate::driver::Bmi270;
use crate::error::Error;
use crate::operation::{Operation, Progress, Reply, Request};
use crate::reading_laws;
use crate::registers::{AccRangeVariant, AdvPowerSave, CmdVariant, GyrRangeVariant};
use crate::setting_laws;
use crate::startup::{Initialize, LoadInitData, LoadStage, Stage, WaitCmdReady, WaitInitDone};
use vstd::prelude::*;

verus! {

/// How often the register at `address` was read.
#[verifier::opaque]
pub open spec fn reads<E>(talk: Seq<Exchange<E>>, address: u8) -> nat
    decreases talk.len(),
{
    if talk.len() == 0 {
        0
    } else {
        let before = reads(talk.drop_last(), address);
        match talk.last().request {
            Request::Read { address: at, .. } => if at == address {
                before + 1
            } else {
                before
            },
            _ => before,
        }
    }
}

/// How often the register at `address` was written.
#[verifier::opaque]
pub open spec fn writes<E>(talk: Seq<Exchange<E>>, address: u8) -> nat
    decreases talk.len(),
{
    if talk.len() == 0 {
        0
    } else {
        let before = writes(talk.drop_last(), address);
        match talk.last().request {
            Request::Write { address: at, .. } => if at == address {
                before + 1
            } else {
                before
            },
            _ => before,
        }
    }
}

/// Whether bringing up the chip with this firmware is at `now` after some exchanges.
pub open spec fn comes_to<'a, E>(
    firmware: &'a [u8],
    talk: Seq<Exchange<E>>,
    now: Initialize<'a>,
) -> bool {
    conversation::run(Bmi270::initialize(firmware), talk) == Some(
        Progress::<Initialize<'a>, Bmi270, Error<E>>::Pending(now),
    )
}

/// Whether bringing up the chip asks `request` after this reply.
pub open spec fn asks_next<'a, E>(now: Initialize<'a>, reply: Seq<u8>, request: Request) -> bool {
    now.answered(Reply::<E>::Ok(reply)) matches Progress::Pending(next) && Operation::<E>::asks(
        next,
    ) == request
}

/// Whether bringing up the chip ends with this outcome after this reply.
pub open spec fn ends<'a, E>(
    now: Initialize<'a>,
    reply: Seq<u8>,
    outcome: Result<Bmi270, Error<E>>,
) -> bool {
    now.answered(Reply::<E>::Ok(reply)) == Progress::<Initialize<'a>, Bmi270, Error<E>>::Done(
        outcome,
    )
}

/// The last exchange is counted where it belongs.
proof fn lemma_counts<E>(talk: Seq<Exchange<E>>, address: u8)
    ensures
        counted(talk, address),
{
    reveal_with_fuel(reads, 1);
    reveal_with_fuel(writes, 1);
}

proof fn lemma_all_counts<E>(talk: Seq<Exchange<E>>)
    ensures
        counted(talk, 0x03),
        counted(talk, 0x21),
        counted(talk, 0x7C),
        counted(talk, 0x59),
        counted(talk, 0x5E),
{
    lemma_counts(talk, 0x03);
    lemma_counts(talk, 0x21);
    lemma_counts(talk, 0x7C);
    lemma_counts(talk, 0x59);
    lemma_counts(talk, 0x5E);
}

spec fn counted<E>(talk: Seq<Exchange<E>>, address: u8) -> bool {
    if talk.len() == 0 {
        reads(talk, address) == 0 && writes(talk, address) == 0
    } else {
        let past = talk.drop_last();
        match talk.last().request {
            Request::Read { address: at, .. } => {
                &&& writes(talk, address) == writes(past, address)
                &&& reads(talk, address) == reads(past, address) + if at == address {
                    1nat
                } else {
                    0nat
                }
            },
            Request::Write { address: at, .. } => {
                &&& reads(talk, address) == reads(past, address)
                &&& writes(talk, address) == writes(past, address) + if at == address {
                    1nat
                } else {
                    0nat
                }
            },
            _ => {
                &&& reads(talk, address) == reads(past, address)
                &&& writes(talk, address) == writes(past, address)
            },
        }
    }
}

/// What holds of the exchanges when bringing up the chip is at a stage.
spec fn tracks<'a, E>(firmware: &'a [u8], talk: Seq<Exchange<E>>, now: Initialize<'a>) -> bool {
    let driver = Bmi270 { acc_range: AccRangeVariant::Gs8, gyr_range: GyrRangeVariant::Dps2000 };
    &&& now.firmware == firmware
    &&& match now.stage {
        Stage::Probe => talk.len() == 0,
        Stage::ProbeSettle => talk.len() == 1 && untouched(talk) && reads(talk, 0x03) == 0,
        Stage::Reset(command) => {
            &&& talk.len() == 2
            &&& untouched(talk)
            &&& reads(talk, 0x03) == 0
            &&& command.command == CmdVariant::Softreset
        },
        Stage::CmdReady(wait) => {
            &&& talk.len() > 2
            &&& untouched(talk)
            &&& wait.polls < 20
            &&& reads(talk, 0x03) == wait.polls
        },
        Stage::PowerSave(modify) => {
            &&& talk.len() > 2
            &&& untouched(talk)
            &&& modify.change == Change::PowerSave(AdvPowerSave::Off)
        },
        Stage::PowerSaveSettle => {
            &&& talk.len() > 2
            &&& writes(talk, 0x7C) == 1
            &&& writes(talk, 0x59) == 0
            &&& writes(talk, 0x5E) == 0
            &&& reads(talk, 0x21) == 0
        },
        Stage::Load(load) => {
            &&& talk.len() > 2
            &&& load.firmware == firmware
            &&& writes(talk, 0x7C) == 1
            &&& loads(firmware, talk, load.stage)
        },
        Stage::Identify => talk.len() > 2,
        Stage::AccRange(set) => {
            &&& talk.len() > 2
            &&& set.driver == driver
            &&& set.range == AccRangeVariant::Gs8
        },
        Stage::GyrRange(set) => {
            &&& talk.len() > 2
            &&& set.driver == driver
            &&& set.range == GyrRangeVariant::Dps2000
        },
    }
}

spec fn untouched<E>(talk: Seq<Exchange<E>>) -> bool {
    &&& writes(talk, 0x7C) == 0
    &&& writes(talk, 0x59) == 0
    &&& writes(talk, 0x5E) == 0
    &&& reads(talk, 0x21) == 0
}

spec fn loads<'a, E>(firmware: &'a [u8], talk: Seq<Exchange<E>>, stage: LoadStage) -> bool {
    let written = writes(talk, 0x5E);
    match stage {
        LoadStage::Prepare => {
            &&& writes(talk, 0x59) == 0
            &&& written == 0
            &&& reads(talk, 0x21) == 0
        },
        LoadStage::AddressLow(at) | LoadStage::AddressHigh(at) => {
            &&& writes(talk, 0x59) == 1
            &&& written == at
            &&& at < firmware@.len()
            &&& at % 32 == 0
            &&& reads(talk, 0x21) == 0
        },
        LoadStage::Data(at) => {
            &&& writes(talk, 0x59) == 1
            &&& written == at
            &&& at < firmware@.len()
            &&& reads(talk, 0x21) == 0
        },
        LoadStage::Settle | LoadStage::Trigger => {
            &&& writes(talk, 0x59) == 1
            &&& written == firmware@.len()
            &&& reads(talk, 0x21) == 0
        },
        LoadStage::Wait(wait) => {
            &&& writes(talk, 0x59) == 2
            &&& wait.polls < 20
            &&& reads(talk, 0x21) == wait.polls
        },
    }
}

/// One step of bringing up the chip, before the firmware is loaded.
proof fn lemma_step_early<'a, E>(
    firmware: &'a [u8],
    talk: Seq<Exchange<E>>,
    before: Initialize<'a>,
    now: Initialize<'a>,
)
    requires
        talk.len() > 0,
        tracks(firmware, talk.drop_last(), before),
        talk.last().request == Operation::<E>::asks(before),
        before.answered(talk.last().reply) == Progress::<Initialize<'a>, Bmi270, Error<E>>::Pending(
            now,
        ),
        before.stage is Probe || before.stage is ProbeSettle || before.stage is Reset
            || before.stage is CmdReady,
    ensures
        tracks(firmware, talk, now),
{
    lemma_all_counts(talk);
    lemma_all_counts(talk.drop_last());
}

proof fn lemma_step_power<'a, E>(
    firmware: &'a [u8],
    talk: Seq<Exchange<E>>,
    before: Initialize<'a>,
    now: Initialize<'a>,
)
    requires
        talk.len() > 0,
        tracks(firmware, talk.drop_last(), before),
        talk.last().request == Operation::<E>::asks(before),
        before.answered(talk.last().reply) == Progress::<Initialize<'a>, Bmi270, Error<E>>::Pending(
            now,
        ),
        before.stage is PowerSave || before.stage is PowerSaveSettle,
    ensures
        tracks(firmware, talk, now),
{
    lemma_all_counts(talk);
}

/// One step of loading the firmware.
proof fn lemma_load_tracks<'a, E>(
    firmware: &'a [u8],
    talk: Seq<Exchange<E>>,
    before: LoadInitData<'a>,
    now: LoadInitData<'a>,
)
    requires
        talk.len() > 0,
        before.firmware == firmware,
        loads(firmware, talk.drop_last(), before.stage),
        talk.last().request == Operation::<E>::asks(before),
        before.answered(talk.last().reply) == Progress::<LoadInitData<'a>, (), Error<E>>::Pending(
            now,
        ),
    ensures
        now.firmware == firmware,
        loads(firmware, talk, now.stage),
        writes(talk, 0x7C) == writes(talk.drop_last(), 0x7C),
{
    lemma_all_counts(talk);
    assert(firmware.len() == firmware@.len());
}

proof fn lemma_step_load<'a, E>(
    firmware: &'a [u8],
    talk: Seq<Exchange<E>>,
    before: Initialize<'a>,
    now: Initialize<'a>,
)
    requires
        talk.len() > 0,
        tracks(firmware, talk.drop_last(), before),
        talk.last().request == Operation::<E>::asks(before),
        before.answered(talk.last().reply) == Progress::<Initialize<'a>, Bmi270, Error<E>>::Pending(
            now,
        ),
        before.stage is Load,
    ensures
        tracks(firmware, talk, now),
{
    if let Stage::Load(load) = before.stage {
        lemma_all_counts(talk);
        if let Progress::Pending(next) = load.answered(talk.last().reply) {
            lemma_load_tracks(firmware, talk, load, next);
        }
    }
}

proof fn lemma_step_late<'a, E>(
    firmware: &'a [u8],
    talk: Seq<Exchange<E>>,
    before: Initialize<'a>,
    now: Initialize<'a>,
)
    requires
        talk.len() > 0,
        tracks(firmware, talk.drop_last(), before),
        talk.last().request == Operation::<E>::asks(before),
        before.answered(talk.last().reply) == Progress::<Initialize<'a>, Bmi270, Error<E>>::Pending(
            now,
        ),
        before.stage is Identify || before.stage is AccRange || before.stage is GyrRange,
    ensures
        tracks(firmware, talk, now),
{
}

proof fn lemma_tracks<'a, E>(firmware: &'a [u8], talk: Seq<Exchange<E>>, now: Initialize<'a>)
    requires
        comes_to(firmware, talk, now),
    ensures
        tracks(firmware, talk, now),
    decreases talk.len(),
{
    if talk.len() > 0 {
        let past = talk.drop_last();
        if let Some(Progress::Pending(before)) = conversation::run(
            Bmi270::initialize(firmware),
            past,
        ) {
            lemma_tracks(firmware, past, before);
            if before.stage is Load {
                lemma_step_load(firmware, talk, before, now);
            } else if before.stage is PowerSave || before.stage is PowerSaveSettle {
                lemma_step_power(firmware, talk, before, now);
            } else if before.stage is Identify || before.stage is AccRange
                || before.stage is GyrRange {
                lemma_step_late(firmware, talk, before, now);
            } else {
                lemma_step_early(firmware, talk, before, now);
            }
        }
    }
}

/// Bringing up the chip begins with a read of the chip ID, whatever comes back, a delay of
/// 2 ms, and the reset; then it begins to wait.
pub proof fn law_begins_with_a_reset<'a, E>(
    firmware: &'a [u8],
    talk: Seq<Exchange<E>>,
    now: Initialize<'a>,
    reply: Seq<u8>,
)
    requires
        comes_to(firmware, talk, now),
        talk.len() <= 2,
    ensures
        talk.len() == 0 ==> Operation::<E>::asks(now) == (Request::Read { address: 0x00, len: 1 })
            && asks_next::<E>(now, reply, Request::DelayMs(2)),
        talk.len() == 1 ==> Operation::<E>::asks(now) == Request::DelayMs(2) && asks_next::<E>(
            now,
            reply,
            Request::Write { address: 0x7E, byte: 0xB6 },
        ),
        talk.len() == 2 ==> Operation::<E>::asks(now) == (Request::Write {
            address: 0x7E,
            byte: 0xB6,
        }) && asks_next::<E>(now, reply, Request::DelayMs(1)),
{
    lemma_tracks(firmware, talk, now);
}

/// After a delay of 1 ms, bringing up the chip reads the status while it has not left the
/// power save mode, starts to load the firmware when it has just left it, and reads the state
/// of the firmware when that is loaded.
pub proof fn law_goes_on_after_a_delay<'a, E>(
    firmware: &'a [u8],
    talk: Seq<Exchange<E>>,
    now: Initialize<'a>,
    reply: Seq<u8>,
)
    requires
        comes_to(firmware, talk, now),
        Operation::<E>::asks(now) == Request::DelayMs(1),
    ensures
        asks_next::<E>(
            now,
            reply,
            if writes(talk, 0x7C) == 0 {
                Request::Read { address: 0x03, len: 1 }
            } else if writes(talk, 0x59) == 0 {
                Request::Write { address: 0x59, byte: 0x00 }
            } else {
                Request::Read { address: 0x21, len: 1 }
            },
        ),
{
    lemma_tracks(firmware, talk, now);
}

/// When bringing up the chip reads the status, it goes on to leave the power save mode if
/// and only if bit 4 is set; if not, it waits for 1 ms more, or ends with `CmdTimeout` where
/// this was the twentieth read.
pub proof fn law_waits_for_the_chip<'a, E>(
    firmware: &'a [u8],
    talk: Seq<Exchange<E>>,
    now: Initialize<'a>,
    status: u8,
)
    requires
        comes_to(firmware, talk, now),
        Operation::<E>::asks(now) == (Request::Read { address: 0x03, len: 1 }),
    ensures
        reads(talk, 0x03) < 20,
        status & 0x10u8 != 0 ==> asks_next::<E>(
            now,
            seq![status],
            Request::Read { address: 0x7C, len: 1 },
        ),
        status & 0x10u8 == 0 && reads(talk, 0x03) < 19 ==> asks_next::<E>(
            now,
            seq![status],
            Request::DelayMs(1),
        ),
        status & 0x10u8 == 0 && reads(talk, 0x03) == 19 ==> ends::<E>(
            now,
            seq![status],
            Err(Error::CmdTimeout),
        ),
{
    lemma_tracks(firmware, talk, now);
    reading_laws::law_cmd_ready::<E>(status);
}

/// Bringing up the chip leaves the power save mode: it clears bit 0 of the power
/// configuration, keeps the other bits, and waits for 1 ms.
pub proof fn law_leaves_power_save<'a, E>(
    firmware: &'a [u8],
    talk: Seq<Exchange<E>>,
    now: Initialize<'a>,
    byte: u8,
    reply: Seq<u8>,
)
    requires
        comes_to(firmware, talk, now),
    ensures
        Operation::<E>::asks(now) == (Request::Read { address: 0x7C, len: 1 }) ==> asks_next::<E>(
            now,
            seq![byte],
            Request::Write { address: 0x7C, byte: byte & 0xFEu8 },
        ),
        Operation::<E>::asks(now) matches Request::Write { address: 0x7C, .. } ==> asks_next::<E>(
            now,
            reply,
            Request::DelayMs(1),
        ),
{
    lemma_tracks(firmware, talk, now);
    setting_laws::law_set_adv_power_save::<E>(
        Bmi270 { acc_range: AccRangeVariant::Gs8, gyr_range: GyrRangeVariant::Dps2000 },
        false,
        byte,
    );
    assert(!0x01u8 == 0xFEu8) by (bit_vector);
}

/// What loading asks when `written` bytes of the firmware are written: the address of the next
/// byte, if that begins a chunk of 32 bytes; if not, the byte; and a delay of 450 us when there
/// is none.
pub open spec fn upload_request(firmware: Seq<u8>, written: nat) -> Request {
    if written >= firmware.len() {
        Request::DelayUs(450)
    } else if written % 32 == 0 {
        Request::Write { address: 0x5B, byte: 0x00 }
    } else {
        Request::Write { address: 0x5E, byte: firmware[written as int] }
    }
}

/// What loading asks after `asked`, when `written` bytes of the firmware are written: the
/// address, in words of two bytes, has its low four bits in 0x5B and the next eight in 0x5C; the
/// bytes go to 0x5E; 0x00 in 0x59 comes before all, and 0x01 after all.
pub open spec fn load_request(firmware: Seq<u8>, written: nat, asked: Request) -> Option<Request> {
    match asked {
        Request::Write { address: 0x59, byte: 0x00 } => Some(upload_request(firmware, 0)),
        Request::Write { address: 0x5B, .. } => Some(
            Request::Write { address: 0x5C, byte: (written / 32 % 256) as u8 },
        ),
        Request::Write { address: 0x5C, .. } => Some(
            Request::Write { address: 0x5E, byte: firmware[written as int] },
        ),
        Request::Write { address: 0x5E, .. } => Some(upload_request(firmware, written + 1)),
        Request::DelayUs(_) => Some(Request::Write { address: 0x59, byte: 0x01 }),
        Request::Write { address: 0x59, .. } => Some(Request::DelayMs(1)),
        _ => None,
    }
}

proof fn lemma_load_request<'a, E>(
    firmware: &'a [u8],
    talk: Seq<Exchange<E>>,
    load: LoadInitData<'a>,
    reply: Seq<u8>,
)
    requires
        load.firmware == firmware,
        loads(firmware, talk, load.stage),
    ensures
        load_request(
            firmware@,
            writes(talk, 0x5E),
            Operation::<E>::asks(load),
        ) matches Some(request) ==> {
            &&& load.answered(Reply::<E>::Ok(reply)) matches Progress::Pending(next)
                && Operation::<E>::asks(next) == request
        },
        Operation::<E>::asks(load) matches Request::Write { address: 0x5C, .. } ==> writes(
            talk,
            0x5E,
        ) < firmware@.len(),
{
    assert(firmware.len() == firmware@.len());
}

/// Only while it loads the firmware does bringing up the chip write to the loader.
proof fn lemma_load_stage<'a, E>(firmware: &'a [u8], talk: Seq<Exchange<E>>, now: Initialize<'a>)
    requires
        tracks(firmware, talk, now),
    ensures
        load_request(firmware@, writes(talk, 0x5E), Operation::<E>::asks(now)) is Some
            ==> now.stage is Load,
{
}

/// Bringing up the chip writes the firmware byte by byte, each chunk behind its address, then
/// starts it and begins to wait: what it asks is `load_request`.
pub proof fn law_loads_the_firmware<'a, E>(
    firmware: &'a [u8],
    talk: Seq<Exchange<E>>,
    now: Initialize<'a>,
    reply: Seq<u8>,
)
    requires
        comes_to(firmware, talk, now),
    ensures
        load_request(
            firmware@,
            writes(talk, 0x5E),
            Operation::<E>::asks(now),
        ) matches Some(request) ==> asks_next::<E>(now, reply, request),
        Operation::<E>::asks(now) matches Request::Write { address: 0x5C, .. } ==> writes(
            talk,
            0x5E,
        ) < firmware@.len(),
{
    lemma_tracks(firmware, talk, now);
    lemma_load_stage(firmware, talk, now);
    if let Stage::Load(load) = now.stage {
        lemma_load_request(firmware, talk, load, reply);
    }
}

/// When bringing up the chip reads the state of the firmware, it goes on to read the chip ID
/// if and only if the low four bits are 1. If they are 0, it waits for 1 ms more, or ends with
/// `BadInit` where this was the twentieth read. For each other value it ends with `BadInit` at
/// once.
pub proof fn law_waits_for_the_firmware<'a, E>(
    firmware: &'a [u8],
    talk: Seq<Exchange<E>>,
    now: Initialize<'a>,
    status: u8,
)
    requires
        comes_to(firmware, talk, now),
        Operation::<E>::asks(now) == (Request::Read { address: 0x21, len: 1 }),
    ensures
        reads(talk, 0x21) < 20,
        status & 0x0Fu8 == 1 ==> asks_next::<E>(
            now,
            seq![status],
            Request::Read { address: 0x00, len: 1 },
        ),
        status & 0x0Fu8 == 0 && reads(talk, 0x21) < 19 ==> asks_next::<E>(
            now,
            seq![status],
            Request::DelayMs(1),
        ),
        status & 0x0Fu8 == 0 && reads(talk, 0x21) == 19 ==> ends::<E>(
            now,
            seq![status],
            Err(Error::BadInit),
        ),
        status & 0x0Fu8 != 0 && status & 0x0Fu8 != 1 ==> ends::<E>(
            now,
            seq![status],
            Err(Error::BadInit),
        ),
{
    lemma_tracks(firmware, talk, now);
    reading_laws::law_init_status::<E>(status);
}

/// When bringing up the chip has read the chip ID a second time, it goes on to the ranges if and
/// only if it is 0x24; if not, it ends with the ID that it read.
pub proof fn law_checks_the_chip_id<'a, E>(
    firmware: &'a [u8],
    talk: Seq<Exchange<E>>,
    now: Initialize<'a>,
    id: u8,
)
    requires
        comes_to(firmware, talk, now),
        talk.len() > 0,
        Operation::<E>::asks(now) == (Request::Read { address: 0x00, len: 1 }),
    ensures
        id == 0x24 ==> asks_next::<E>(now, seq![id], Request::Read { address: 0x41, len: 1 }),
        id != 0x24 ==> ends::<E>(now, seq![id], Err(Error::ChipId(id))),
{
    lemma_tracks(firmware, talk, now);
}

/// Bringing up the chip ends with the ranges: it sets the accelerometer to 8 g, which is 2 in
/// the low two bits of its register, and the gyroscope to 2000 deg/s, which is 0 in the low
/// three bits of its own, keeps the other bits, and yields the driver that has these ranges.
pub proof fn law_ends_with_the_ranges<'a, E>(
    firmware: &'a [u8],
    talk: Seq<Exchange<E>>,
    now: Initialize<'a>,
    byte: u8,
    reply: Seq<u8>,
)
    requires
        comes_to(firmware, talk, now),
    ensures
        ({
            let asked = Operation::<E>::asks(now);
            &&& asked == (Request::Read { address: 0x41, len: 1 }) ==> asks_next::<E>(
                now,
                seq![byte],
                Request::Write { address: 0x41, byte: (byte & !0x03u8) | 0x02u8 },
            )
            &&& asked matches Request::Write { address: 0x41, .. } ==> asks_next::<E>(
                now,
                reply,
                Request::Read { address: 0x43, len: 1 },
            )
            &&& asked == (Request::Read { address: 0x43, len: 1 }) ==> asks_next::<E>(
                now,
                seq![byte],
                Request::Write { address: 0x43, byte: (byte & !0x07u8) | 0x00u8 },
            )
            &&& asked matches Request::Write { address: 0x43, .. } ==> ends::<E>(
                now,
                reply,
                Ok(
                    Bmi270 {
                        acc_range: AccRangeVariant::Gs8,
                        gyr_range: GyrRangeVariant::Dps2000,
                    },
                ),
            )
        }),
{
    let driver = Bmi270 { acc_range: AccRangeVariant::Gs8, gyr_range: GyrRangeVariant::Dps2000 };
    lemma_tracks(firmware, talk, now);
    setting_laws::law_set_acc_range::<E>(driver, AccRangeVariant::Gs8, byte);
    setting_laws::law_set_gyr_range::<E>(driver, GyrRangeVariant::Dps2000, byte);
}

/// Waiting for the firmware is over, and has succeeded, if and only if the low four bits of its
/// state are 1; it goes on only if they are 0; and it fails at once if they are anything else.
pub proof fn law_firmware_state_decides<E>(wait: WaitInitDone, status: u8)
    requires
        Operation::<E>::wf(wait),
        Operation::<E>::asks(wait) == (Request::Read { address: 0x21, len: 1 }),
    ensures
        ({
            let answer = wait.answered(Reply::<E>::Ok(seq![status]));
            let number = status & 0x0Fu8;
            &&& answer == Progress::<WaitInitDone, (), Error<E>>::Done(Ok(())) <==> number == 1
            &&& answer is Pending ==> number == 0
            &&& number == 0 && wait.polls < 19 ==> answer is Pending
            &&& number == 0 && wait.polls >= 19 || number >= 2 ==> answer == Progress::<
                WaitInitDone,
                (),
                Error<E>,
            >::Done(Err(Error::BadInit))
        }),
{
    reading_laws::law_init_status::<E>(status);
}

/// Waiting for the chip is over, and has succeeded, if and only if bit 4 of the status is set;
/// if not, it goes on or times out.
pub proof fn law_status_decides<E>(wait: WaitCmdReady, status: u8)
    requires
        Operation::<E>::wf(wait),
        Operation::<E>::asks(wait) == (Request::Read { address: 0x03, len: 1 }),
    ensures
        ({
            let answer = wait.answered(Reply::<E>::Ok(seq![status]));
            let ready = status & 0x10u8 != 0;
            &&& answer == Progress::<WaitCmdReady, (), Error<E>>::Done(Ok(())) <==> ready
            &&& !ready && wait.polls < 19 ==> answer is Pending
            &&& !ready && wait.polls >= 19 ==> answer == Progress::<
                WaitCmdReady,
                (),
                Error<E>,
            >::Done(Err(Error::CmdTimeout))
        }),
{
    reading_laws::law_cmd_ready::<E>(status);
}

/// Every error of the bus is reported as what it is.
pub proof fn law_bus_errors_are_kept<E>(error: E)
    ensures
        <Error<E> as vstd::std_specs::convert::FromSpec<E>>::from_spec(error) == Error::Transport(
            error,
        ),
{
}

} // verus!

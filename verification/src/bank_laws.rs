//! What operations do to the registers, if these keep what is written to them.
use crate::bits;
use crate::change::Change;
use crate::change_laws;
use crate::driver::{Bmi270, SetAccRange, SetGyrRange};
use crate::error::Error;
use crate::operation::{Modify, Operation, Progress, Reply, Request};
use crate::registers::{AccRangeVariant, GyrRangeVariant, ACC_RANGE, GYR_RANGE};
use crate::startup::{Initialize, Stage};
use vstd::prelude::*;

verus! {

/// How many registers there are.
pub const BANK_LEN: usize = 128;

/// The bytes that a request reads, if the registers hold `bank`.
pub open spec fn bank_data(bank: Seq<u8>, request: Request) -> Seq<u8> {
    match request {
        Request::Read { address, len } => bank.subrange(address as int, address + len),
        _ => Seq::empty(),
    }
}

/// What the registers hold after a request, if they hold `bank` before.
pub open spec fn bank_after(bank: Seq<u8>, request: Request) -> Seq<u8> {
    match request {
        Request::Write { address, byte } => bank.update(address as int, byte),
        Request::WritePair { address, low, high } => bank.update(address as int, low).update(
            address + 1,
            high,
        ),
        _ => bank,
    }
}

/// Where an operation comes in this many requests, and what the registers hold after them,
/// if they hold `bank` before and the bus does not fail.
pub open spec fn run_on_bank<E, O: Operation<E>>(
    operation: O,
    bank: Seq<u8>,
    requests: nat,
) -> (Progress<O, O::Output, O::Failure>, Seq<u8>)
    decreases requests,
{
    if requests == 0 {
        (Progress::Pending(operation), bank)
    } else {
        match run_on_bank(operation, bank, (requests - 1) as nat) {
            (Progress::Pending(now), held) => (
                now.answered(Reply::<E>::Ok(bank_data(held, now.asks()))),
                bank_after(held, now.asks()),
            ),
            over => over,
        }
    }
}

/// The word that the register of a change holds.
pub open spec fn register_word(bank: Seq<u8>, change: Change) -> int {
    let address = change.spec_address() as int;
    if change.wide() {
        bits::pair(bank[address], bank[address + 1])
    } else {
        bank[address] as int
    }
}

/// Whether a byte belongs to the register of a change.
pub open spec fn belongs(change: Change, address: int) -> bool {
    ||| address == change.spec_address()
    ||| change.wide() && address == change.spec_address() + 1
}

/// Changing a register takes two requests and succeeds. The register then holds what the
/// change makes of what it held, and every other register what it held.
#[verifier::rlimit(30)]
pub proof fn law_modify_on_bank<E>(change: Change, bank: Seq<u8>)
    requires
        bank.len() == BANK_LEN,
    ensures
        ({
            let (progress, after) = run_on_bank::<E, Modify>(Modify::of(change), bank, 2);
            &&& progress == Progress::<Modify, (), E>::Done(Ok(()))
            &&& after.len() == BANK_LEN
            &&& register_word(after, change) == change.applied(register_word(bank, change))
            &&& forall|i: int|
                #![trigger after[i]]
                0 <= i < BANK_LEN && !belongs(change, i) ==> after[i] == bank[i]
        }),
{
    reveal_with_fuel(run_on_bank, 3);
    let word = register_word(bank, change);
    change_laws::law_change_bits(change, word as u16, 0);
    if !change.wide() {
        change_laws::law_change_keeps_bytes(change, word as u16);
    }
}

/// Whether the registers hold the ranges that the driver knows.
pub open spec fn holds(bank: Seq<u8>, driver: Bmi270) -> bool {
    &&& bits::field(bank[ACC_RANGE as int] as int, 1, 4) == driver.acc_range.code()
    &&& bits::field(bank[GYR_RANGE as int] as int, 1, 8) == driver.gyr_range.code()
}

/// A change of anything but a range leaves the ranges as the driver knows them.
pub proof fn law_modify_keeps_ranges<E>(change: Change, driver: Bmi270, bank: Seq<u8>)
    requires
        bank.len() == BANK_LEN,
        holds(bank, driver),
        !(change is AccRange),
        !(change is GyrRange),
    ensures
        holds(run_on_bank::<E, Modify>(Modify::of(change), bank, 2).1, driver),
{
    law_modify_on_bank::<E>(change, bank);
    assert(!belongs(change, ACC_RANGE as int));
    assert(!belongs(change, GYR_RANGE as int));
}

/// Setting the accelerometer range takes two requests and succeeds: the register holds the
/// range, so does the driver that it yields, and every other register holds what it held.
pub proof fn law_set_acc_range_on_bank<E>(driver: Bmi270, range: AccRangeVariant, bank: Seq<u8>)
    requires
        bank.len() == BANK_LEN,
    ensures
        ({
            let (progress, after) = run_on_bank::<E, SetAccRange>(
                SetAccRange::of(driver, range),
                bank,
                2,
            );
            &&& progress == Progress::<SetAccRange, Bmi270, E>::Done(
                Ok(Bmi270 { acc_range: range, ..driver }),
            )
            &&& after.len() == BANK_LEN
            &&& after[ACC_RANGE as int] == Change::AccRange(range).applied(
                bank[ACC_RANGE as int] as int,
            )
            &&& bits::field(after[ACC_RANGE as int] as int, 1, 4) == range.code()
            &&& forall|i: int|
                #![trigger after[i]]
                0 <= i < BANK_LEN && i != ACC_RANGE ==> after[i] == bank[i]
            &&& holds(bank, driver) ==> holds(after, Bmi270 { acc_range: range, ..driver })
        }),
{
    reveal_with_fuel(run_on_bank, 3);
    let change = Change::AccRange(range);
    let word = bank[ACC_RANGE as int] as u16;
    change_laws::law_change_bits(change, word, 0);
    change_laws::law_change_keeps_bytes(change, word);
}

/// Setting the gyroscope range takes two requests and succeeds: the register holds the
/// range, so does the driver that it yields, and every other register holds what it held.
pub proof fn law_set_gyr_range_on_bank<E>(driver: Bmi270, range: GyrRangeVariant, bank: Seq<u8>)
    requires
        bank.len() == BANK_LEN,
    ensures
        ({
            let (progress, after) = run_on_bank::<E, SetGyrRange>(
                SetGyrRange::of(driver, range),
                bank,
                2,
            );
            &&& progress == Progress::<SetGyrRange, Bmi270, E>::Done(
                Ok(Bmi270 { gyr_range: range, ..driver }),
            )
            &&& after.len() == BANK_LEN
            &&& after[GYR_RANGE as int] == Change::GyrRange(range).applied(
                bank[GYR_RANGE as int] as int,
            )
            &&& bits::field(after[GYR_RANGE as int] as int, 1, 8) == range.code()
            &&& forall|i: int|
                #![trigger after[i]]
                0 <= i < BANK_LEN && i != GYR_RANGE ==> after[i] == bank[i]
            &&& holds(bank, driver) ==> holds(after, Bmi270 { gyr_range: range, ..driver })
        }),
{
    reveal_with_fuel(run_on_bank, 3);
    let change = Change::GyrRange(range);
    let word = bank[GYR_RANGE as int] as u16;
    change_laws::law_change_bits(change, word, 0);
    change_laws::law_change_keeps_bytes(change, word);
}

/// An operation that is in a part of it does what the part does.
proof fn lemma_part_on_bank<E, O: Operation<E>, P: Operation<E>>(
    part: P,
    bank: Seq<u8>,
    requests: nat,
    wrap: spec_fn(P) -> O,
    finish: spec_fn(Result<P::Output, P::Failure>) -> Progress<O, O::Output, O::Failure>,
)
    requires
        requests > 0 ==> run_on_bank::<E, P>(part, bank, (requests - 1) as nat).0 is Pending,
        forall|p: P| (#[trigger] wrap(p)).asks() == p.asks(),
        forall|p: P, reply: Reply<E>| #[trigger]
            wrap(p).answered(reply) == (match p.answered(reply) {
                Progress::Pending(next) => Progress::Pending(wrap(next)),
                Progress::Done(outcome) => finish(outcome),
            }),
    ensures
        ({
            let (progress, after) = run_on_bank::<E, P>(part, bank, requests);
            run_on_bank::<E, O>(wrap(part), bank, requests) == (
                match progress {
                    Progress::Pending(next) => Progress::Pending(wrap(next)),
                    Progress::Done(outcome) => finish(outcome),
                },
                after,
            )
        }),
    decreases requests,
{
    if requests > 0 {
        let fewer = (requests - 1) as nat;
        lemma_part_on_bank(part, bank, fewer, wrap, finish);
        if let Progress::Pending(now) = run_on_bank::<E, P>(part, bank, fewer).0 {
            let held = run_on_bank::<E, P>(part, bank, fewer).1;
            let reply = Reply::<E>::Ok(bank_data(held, now.asks()));
            assert(wrap(now).answered(reply) == (match now.answered(reply) {
                Progress::Pending(next) => Progress::Pending(wrap(next)),
                Progress::Done(outcome) => finish(outcome),
            }));
        }
    }
}

/// Requests can be made in two goes.
proof fn lemma_two_goes<E, O: Operation<E>>(
    operation: O,
    bank: Seq<u8>,
    first: nat,
    second: nat,
    now: O,
)
    requires
        run_on_bank::<E, O>(operation, bank, first).0 == Progress::<
            O,
            O::Output,
            O::Failure,
        >::Pending(now),
    ensures
        run_on_bank::<E, O>(operation, bank, first + second) == run_on_bank::<E, O>(
            now,
            run_on_bank::<E, O>(operation, bank, first).1,
            second,
        ),
    decreases second,
{
    if second > 0 {
        lemma_two_goes::<E, O>(operation, bank, first, (second - 1) as nat, now);
        assert(first + second - 1 == first + (second - 1) as nat);
    }
}

/// Setting a range is not over after one request.
proof fn lemma_ranges_pending<E>(driver: Bmi270, bank: Seq<u8>)
    ensures
        run_on_bank::<E, SetAccRange>(
            SetAccRange::of(driver, driver.acc_range),
            bank,
            1,
        ).0 is Pending,
        run_on_bank::<E, SetGyrRange>(
            SetGyrRange::of(driver, driver.gyr_range),
            bank,
            1,
        ).0 is Pending,
{
    reveal_with_fuel(run_on_bank, 2);
}

/// Setting the accelerometer range brings up the chip to the gyroscope range.
proof fn lemma_acc_range_on_bank<'a, E>(firmware: &'a [u8], driver: Bmi270, bank: Seq<u8>)
    requires
        bank.len() == BANK_LEN,
    ensures
        ({
            let acc = SetAccRange::of(driver, driver.acc_range);
            let gyr = SetGyrRange::of(driver, driver.gyr_range);
            run_on_bank::<E, Initialize<'a>>(
                Initialize { firmware, stage: Stage::AccRange(acc) },
                bank,
                2,
            ) == (
                Progress::<Initialize<'a>, Bmi270, Error<E>>::Pending(
                    Initialize { firmware, stage: Stage::GyrRange(gyr) },
                ),
                run_on_bank::<E, SetAccRange>(acc, bank, 2).1,
            )
        }),
{
    let acc = SetAccRange::of(driver, driver.acc_range);
    let wrap = |set: SetAccRange| Initialize { firmware, stage: Stage::AccRange(set) };
    let finish = |outcome: Result<Bmi270, E>|
        match outcome {
            Ok(driver) => Progress::<Initialize<'a>, Bmi270, Error<E>>::Pending(
                Initialize {
                    firmware,
                    stage: Stage::GyrRange(SetGyrRange::of(driver, driver.gyr_range)),
                },
            ),
            Err(error) => Progress::Done(Err(Error::Transport(error))),
        };
    law_set_acc_range_on_bank::<E>(driver, driver.acc_range, bank);
    lemma_ranges_pending::<E>(driver, bank);
    lemma_part_on_bank(acc, bank, 2, wrap, finish);
}

/// Setting the gyroscope range ends bringing up the chip.
proof fn lemma_gyr_range_on_bank<'a, E>(firmware: &'a [u8], driver: Bmi270, bank: Seq<u8>)
    requires
        bank.len() == BANK_LEN,
    ensures
        ({
            let gyr = SetGyrRange::of(driver, driver.gyr_range);
            run_on_bank::<E, Initialize<'a>>(
                Initialize { firmware, stage: Stage::GyrRange(gyr) },
                bank,
                2,
            ) == (
                Progress::<Initialize<'a>, Bmi270, Error<E>>::Done(Ok(driver)),
                run_on_bank::<E, SetGyrRange>(gyr, bank, 2).1,
            )
        }),
{
    let gyr = SetGyrRange::of(driver, driver.gyr_range);
    let wrap = |set: SetGyrRange| Initialize { firmware, stage: Stage::GyrRange(set) };
    let finish = |outcome: Result<Bmi270, E>|
        match outcome {
            Ok(driver) => Progress::<Initialize<'a>, Bmi270, Error<E>>::Done(Ok(driver)),
            Err(error) => Progress::Done(Err(Error::Transport(error))),
        };
    law_set_gyr_range_on_bank::<E>(driver, driver.gyr_range, bank);
    lemma_ranges_pending::<E>(driver, bank);
    lemma_part_on_bank(gyr, bank, 2, wrap, finish);
}

/// The last step of bringing up the chip takes four requests and succeeds; the registers
/// then hold the ranges that the driver knows.
pub proof fn law_initialize_sets_ranges<'a, E>(firmware: &'a [u8], bank: Seq<u8>)
    requires
        bank.len() == BANK_LEN,
    ensures
        ({
            let driver = Bmi270::initial();
            let (progress, after) = run_on_bank::<E, Initialize<'a>>(
                Initialize {
                    firmware,
                    stage: Stage::AccRange(SetAccRange::of(driver, driver.acc_range)),
                },
                bank,
                4,
            );
            &&& progress == Progress::<Initialize<'a>, Bmi270, Error<E>>::Done(Ok(driver))
            &&& holds(after, driver)
        }),
{
    let driver = Bmi270::initial();
    let acc = SetAccRange::of(driver, driver.acc_range);
    let gyr = SetGyrRange::of(driver, driver.gyr_range);
    let between = run_on_bank::<E, SetAccRange>(acc, bank, 2).1;
    law_set_acc_range_on_bank::<E>(driver, driver.acc_range, bank);
    law_set_gyr_range_on_bank::<E>(driver, driver.gyr_range, between);
    lemma_acc_range_on_bank::<E>(firmware, driver, bank);
    lemma_gyr_range_on_bank::<E>(firmware, driver, between);
    lemma_two_goes::<E, Initialize<'a>>(
        Initialize { firmware, stage: Stage::AccRange(acc) },
        bank,
        2,
        2,
        Initialize { firmware, stage: Stage::GyrRange(gyr) },
    );
}

} // verus!

//! What bringing up the chip says on the bus, and when it succeeds.
use crate::conversation::{self, Exchange};
use crate::error::Error;
use crate::operation::{self, Operation, Progress, Reply, Request};
use crate::readout::{CmdReady, InitStatus, Readout};
use crate::registers::{
    InitCtrlVariant, INIT_ADDR_0, INIT_ADDR_1, INIT_CTRL, INIT_DATA, INTERNAL_STATUS, STATUS,
};
use crate::startup::{self, LoadInitData, LoadStage, WaitCmdReady, WaitInitDone, CHUNK, POLL_LIMIT};
use vstd::prelude::*;

verus! {

/// `n` times: a delay of one millisecond, then a read of the status register `address`.
pub open spec fn poll_requests(address: u8, n: nat) -> Seq<Request>
    decreases n,
{
    if n == 0 {
        Seq::empty()
    } else {
        poll_requests(address, (n - 1) as nat).push(Request::DelayMs(1)).push(
            Request::Read { address, len: 1 },
        )
    }
}

/// `poll_requests`, and the next delay if it is over.
pub open spec fn polled(address: u8, polls: u8, delayed: bool) -> Seq<Request> {
    if delayed {
        poll_requests(address, polls as nat).push(Request::DelayMs(1))
    } else {
        poll_requests(address, polls as nat)
    }
}

/// The requests that write the byte `at` of the firmware to `INIT_DATA`, and before it, at
/// the beginning of a chunk, its address to `INIT_ADDR_0` and `INIT_ADDR_1`.
pub open spec fn byte_requests(firmware: Seq<u8>, at: int) -> Seq<Request> {
    let data = Request::Write { address: INIT_DATA, byte: firmware[at] };
    if at % CHUNK as int == 0 {
        seq![
            Request::Write { address: INIT_ADDR_0, byte: startup::address_low(at) },
            Request::Write { address: INIT_ADDR_1, byte: startup::address_high(at) },
            data,
        ]
    } else {
        seq![data]
    }
}

/// The requests that write the first `n` bytes of the firmware.
pub open spec fn upload_requests(firmware: Seq<u8>, n: nat) -> Seq<Request>
    decreases n,
{
    if n == 0 {
        Seq::empty()
    } else {
        upload_requests(firmware, (n - 1) as nat) + byte_requests(firmware, n - 1)
    }
}

/// A write of `INIT_CTRL`.
pub open spec fn init_ctrl(value: InitCtrlVariant) -> Request {
    Request::Write { address: INIT_CTRL, byte: value.code() }
}

/// The requests that load the firmware and start it.
pub open spec fn load_requests(firmware: Seq<u8>) -> Seq<Request> {
    seq![init_ctrl(InitCtrlVariant::Prepare)] + upload_requests(firmware, firmware.len())
        + seq![Request::DelayUs(450), init_ctrl(InitCtrlVariant::Trigger)]
}

/// All the requests that loading may make: those that load and start the firmware, and then
/// as many reads of the status as there may be.
pub open spec fn load_script(firmware: Seq<u8>) -> Seq<Request> {
    load_requests(firmware) + poll_requests(INTERNAL_STATUS, POLL_LIMIT as nat)
}

/// How often the status was read after the firmware was started.
pub open spec fn load_polls<E>(firmware: Seq<u8>, talk: Seq<Exchange<E>>) -> nat {
    ((talk.len() - load_requests(firmware).len()) / 2) as nat
}

/// The requests that an operation has made when it is at this stage of loading.
pub open spec fn load_prefix(firmware: Seq<u8>, stage: LoadStage) -> Seq<Request> {
    let prepare = seq![init_ctrl(InitCtrlVariant::Prepare)];
    match stage {
        LoadStage::Prepare => Seq::empty(),
        LoadStage::AddressLow(at) => prepare + upload_requests(firmware, at as nat),
        LoadStage::AddressHigh(at) => prepare + upload_requests(firmware, at as nat)
            + byte_requests(firmware, at as int).take(1),
        LoadStage::Data(at) => prepare + upload_requests(firmware, at as nat) + byte_requests(
            firmware,
            at as int,
        ).drop_last(),
        LoadStage::Settle => prepare + upload_requests(firmware, firmware.len()),
        LoadStage::Trigger => prepare + upload_requests(firmware, firmware.len()) + seq![
            Request::DelayUs(450),
        ],
        LoadStage::Wait(wait) => load_requests(firmware) + polled(
            INTERNAL_STATUS,
            wait.polls,
            wait.delayed,
        ),
    }
}

proof fn lemma_requests_push<E>(talk: Seq<Exchange<E>>)
    requires
        talk.len() > 0,
    ensures
        conversation::requests(talk) == conversation::requests(
            talk.drop_last(),
        ).push(talk.last().request),
{
    assert(conversation::requests(talk) =~= conversation::requests(
        talk.drop_last(),
    ).push(talk.last().request));
}

/// One step of loading appends what was asked to the requests made so far.
proof fn lemma_load_step<'a, E>(load: LoadInitData<'a>, reply: Reply<E>)
    requires
        Operation::<E>::wf(load),
        operation::fits(Operation::<E>::asks(load), reply),
    ensures
        load.answered(reply) matches Progress::Pending(next) ==> {
            &&& Operation::<E>::wf(next)
            &&& next.firmware == load.firmware
            &&& load_prefix(load.firmware@, next.stage) == load_prefix(
                load.firmware@,
                load.stage,
            ).push(Operation::<E>::asks(load))
        },
{
    let firmware = load.firmware@;
    let asked = Operation::<E>::asks(load);
    let made = load_prefix(firmware, load.stage);
    assert(load.firmware.len() == firmware.len());
    if let Progress::Pending(next) = load.answered(reply) {
        match load.stage {
            LoadStage::Data(at) => {
                let bytes = byte_requests(firmware, at as int);
                assert(bytes =~= bytes.drop_last().push(asked));
                assert(upload_requests(firmware, (at + 1) as nat) == upload_requests(
                    firmware,
                    at as nat,
                ) + bytes);
                if (at + 1) % CHUNK as int != 0 {
                    assert(byte_requests(firmware, at + 1).drop_last() =~= Seq::empty());
                }
            },
            _ => {},
        }
        assert(load_prefix(firmware, next.stage) =~= made.push(asked));
    }
}

/// The first bytes of the firmware are written first.
proof fn lemma_upload_prefix(firmware: Seq<u8>, m: nat, n: nat)
    requires
        m <= n,
    ensures
        upload_requests(firmware, m).is_prefix_of(upload_requests(firmware, n)),
    decreases n,
{
    if m < n {
        lemma_upload_prefix(firmware, m, (n - 1) as nat);
    }
}

/// The first polls are made first.
proof fn lemma_poll_prefix(address: u8, m: nat, n: nat)
    requires
        m <= n,
    ensures
        poll_requests(address, m).is_prefix_of(poll_requests(address, n)),
    decreases n,
{
    if m < n {
        lemma_poll_prefix(address, m, (n - 1) as nat);
    }
}

/// What loading has asked, and what it asks next, begins the script.
proof fn lemma_load_follows_script<'a, E>(load: LoadInitData<'a>)
    requires
        Operation::<E>::wf(load),
    ensures
        load_prefix(load.firmware@, load.stage).push(Operation::<E>::asks(load)).is_prefix_of(
            load_script(load.firmware@),
        ),
{
    let firmware = load.firmware@;
    let made = load_prefix(firmware, load.stage).push(Operation::<E>::asks(load));
    match load.stage {
        LoadStage::AddressLow(at) | LoadStage::AddressHigh(at) | LoadStage::Data(at) => {
            let next = upload_requests(firmware, (at + 1) as nat);
            lemma_upload_prefix(firmware, (at + 1) as nat, firmware.len());
            assert(next == upload_requests(firmware, at as nat) + byte_requests(
                firmware,
                at as int,
            ));
            assert(made.is_prefix_of(seq![init_ctrl(InitCtrlVariant::Prepare)] + next));
        },
        LoadStage::Wait(wait) => {
            let next = poll_requests(INTERNAL_STATUS, (wait.polls + 1) as nat);
            lemma_poll_prefix(INTERNAL_STATUS, (wait.polls + 1) as nat, POLL_LIMIT as nat);
            assert(next == poll_requests(INTERNAL_STATUS, wait.polls as nat).push(
                Request::DelayMs(1),
            ).push(Request::Read { address: INTERNAL_STATUS, len: 1 }));
            assert(made.is_prefix_of(load_requests(firmware) + next));
        },
        _ => {},
    }
}

/// How a conversation without its last exchange went on.
proof fn lemma_run_last<E, O: Operation<E>>(operation: O, talk: Seq<Exchange<E>>) -> (before: O)
    requires
        talk.len() > 0,
        conversation::run(operation, talk) is Some,
    ensures
        conversation::run(operation, talk.drop_last()) == Some(
            Progress::<O, O::Output, O::Failure>::Pending(before),
        ),
        talk.last().request == before.asks(),
        operation::fits(before.asks(), talk.last().reply),
        conversation::run(operation, talk) == Some(before.answered(talk.last().reply)),
{
    match conversation::run(operation, talk.drop_last()) {
        Some(Progress::Pending(before)) => before,
        _ => arbitrary(),
    }
}

/// Waiting for the chip to take a command is `n` times a delay of one millisecond and a read
/// of `STATUS`, with `n` at most `POLL_LIMIT`. It goes on as long as no status says that the
/// chip is ready; it succeeds with the first that does, times out when `POLL_LIMIT` of them
/// do not, and fails with the bus, wherever in these requests that happens.
pub proof fn law_wait_cmd_ready<E>(talk: Seq<Exchange<E>>)
    requires
        conversation::run(WaitCmdReady::fresh(), talk) is Some,
    ensures
        forall|i: int|
            #![trigger talk[i]]
            0 <= i < talk.len() - 1 && talk[i].request is Read ==> (talk[i].reply matches Ok(data)
                && !CmdReady.meaning(data)),
        match conversation::run(WaitCmdReady::fresh(), talk)->0 {
            Progress::Pending(wait) => {
                &&& wait.polls < POLL_LIMIT
                &&& conversation::requests(talk) == polled(STATUS, wait.polls, wait.delayed)
                &&& talk.len() > 0 && talk.last().request is Read ==> (
                talk.last().reply matches Ok(data) && !CmdReady.meaning(data))
            },
            Progress::Done(Ok(_)) => {
                &&& 2 <= talk.len() <= 2 * POLL_LIMIT
                &&& conversation::requests(talk) == poll_requests(STATUS, talk.len() / 2)
                &&& talk.last().reply matches Ok(data) && CmdReady.meaning(data)
            },
            Progress::Done(Err(Error::CmdTimeout)) => {
                &&& conversation::requests(talk) == poll_requests(STATUS, POLL_LIMIT as nat)
                &&& talk.last().reply matches Ok(data) && !CmdReady.meaning(data)
            },
            Progress::Done(Err(Error::Transport(error))) => {
                &&& talk.last().reply == Reply::<E>::Err(error)
                &&& 1 <= talk.len() <= 2 * POLL_LIMIT
                &&& conversation::requests(talk) == polled(
                    STATUS,
                    (talk.len() / 2) as u8,
                    talk.len() % 2 == 1,
                )
            },
            Progress::Done(Err(_)) => false,
        },
    decreases talk.len(),
{
    if talk.len() == 0 {
        assert(conversation::requests(talk) =~= Seq::empty());
    } else {
        let before = lemma_run_last(WaitCmdReady::fresh(), talk);
        law_wait_cmd_ready(talk.drop_last());
        lemma_requests_push(talk);
        lemma_poll_requests_len(STATUS, before.polls as nat);
        assert(conversation::requests(talk).len() == talk.len());
        if before.delayed {
            assert(poll_requests(STATUS, (before.polls + 1) as nat) == poll_requests(
                STATUS,
                before.polls as nat,
            ).push(Request::DelayMs(1)).push(Request::Read { address: STATUS, len: 1 }));
            assert(talk.len() / 2 == before.polls + 1);
        }
        assert forall|i: int|
            #![trigger talk[i]]
            0 <= i < talk.len() - 1 && talk[i].request is Read implies (
        talk[i].reply matches Ok(data) && !CmdReady.meaning(data)) by {
            assert(talk[i] == talk.drop_last()[i]);
            if i == talk.len() - 2 {
                assert(talk.drop_last().last() == talk[i]);
            }
        }
    }
}

/// Waiting for the chip to take a command ends after `POLL_LIMIT` times two requests.
pub proof fn law_wait_is_bounded<E>(talk: Seq<Exchange<E>>)
    requires
        conversation::run(WaitCmdReady::fresh(), talk) is Some,
    ensures
        talk.len() <= 2 * POLL_LIMIT,
        conversation::run(WaitCmdReady::fresh(), talk)->0 is Pending ==> talk.len() < 2
            * POLL_LIMIT,
{
    law_wait_cmd_ready(talk);
    assert(conversation::requests(talk).len() == talk.len());
    match conversation::run(WaitCmdReady::fresh(), talk)->0 {
        Progress::Pending(wait) => {
            lemma_poll_requests_len(STATUS, wait.polls as nat);
        },
        _ => {
            lemma_poll_requests_len(STATUS, POLL_LIMIT as nat);
        },
    }
}

proof fn lemma_poll_requests_len(address: u8, n: nat)
    ensures
        poll_requests(address, n).len() == 2 * n,
    decreases n,
{
    if n > 0 {
        lemma_poll_requests_len(address, (n - 1) as nat);
    }
}

/// Waiting for the firmware is `n` times a delay of one millisecond and a read of
/// `INTERNAL_STATUS`, with `n` at most `POLL_LIMIT`. It goes on as long as a status says that
/// the firmware is not initialized yet; it succeeds with the first that says it is, fails
/// with the first that says anything else and when `POLL_LIMIT` of them say not yet, and
/// fails with the bus, wherever in these requests that happens.
pub proof fn law_wait_init_done<E>(talk: Seq<Exchange<E>>)
    requires
        conversation::run(WaitInitDone::fresh(), talk) is Some,
    ensures
        forall|i: int|
            #![trigger talk[i]]
            0 <= i < talk.len() - 1 && talk[i].request is Read ==> (talk[i].reply matches Ok(data)
                && InitStatus.meaning(data) is NotInit),
        match conversation::run(WaitInitDone::fresh(), talk)->0 {
            Progress::Pending(wait) => {
                &&& wait.polls < POLL_LIMIT
                &&& conversation::requests(talk) == polled(
                    INTERNAL_STATUS,
                    wait.polls,
                    wait.delayed,
                )
                &&& talk.len() > 0 && talk.last().request is Read ==> (
                talk.last().reply matches Ok(data) && InitStatus.meaning(data) is NotInit)
            },
            Progress::Done(Ok(_)) => {
                &&& 2 <= talk.len() <= 2 * POLL_LIMIT
                &&& conversation::requests(talk) == poll_requests(INTERNAL_STATUS, talk.len() / 2)
                &&& talk.last().reply matches Ok(data) && InitStatus.meaning(data) is InitOk
            },
            Progress::Done(Err(Error::BadInit)) => {
                &&& 2 <= talk.len() <= 2 * POLL_LIMIT
                &&& conversation::requests(talk) == poll_requests(INTERNAL_STATUS, talk.len() / 2)
                &&& talk.last().reply matches Ok(data) && !(InitStatus.meaning(data) is InitOk) && (
                InitStatus.meaning(data) is NotInit ==> talk.len() == 2 * POLL_LIMIT)
            },
            Progress::Done(Err(Error::Transport(error))) => {
                &&& talk.last().reply == Reply::<E>::Err(error)
                &&& 1 <= talk.len() <= 2 * POLL_LIMIT
                &&& conversation::requests(talk) == polled(
                    INTERNAL_STATUS,
                    (talk.len() / 2) as u8,
                    talk.len() % 2 == 1,
                )
            },
            Progress::Done(Err(_)) => false,
        },
    decreases talk.len(),
{
    if talk.len() == 0 {
        assert(conversation::requests(talk) =~= Seq::empty());
    } else {
        let before = lemma_run_last(WaitInitDone::fresh(), talk);
        law_wait_init_done(talk.drop_last());
        lemma_requests_push(talk);
        lemma_poll_requests_len(INTERNAL_STATUS, before.polls as nat);
        assert(conversation::requests(talk).len() == talk.len());
        if before.delayed {
            assert(poll_requests(INTERNAL_STATUS, (before.polls + 1) as nat) == poll_requests(
                INTERNAL_STATUS,
                before.polls as nat,
            ).push(Request::DelayMs(1)).push(Request::Read { address: INTERNAL_STATUS, len: 1 }));
            assert(talk.len() / 2 == before.polls + 1);
        }
        assert forall|i: int|
            #![trigger talk[i]]
            0 <= i < talk.len() - 1 && talk[i].request is Read implies (
        talk[i].reply matches Ok(data) && InitStatus.meaning(data) is NotInit) by {
            assert(talk[i] == talk.drop_last()[i]);
            if i == talk.len() - 2 {
                assert(talk.drop_last().last() == talk[i]);
            }
        }
    }
}

/// Loading the firmware makes the requests of `load_requests`, one after the other, and then
/// `n` times a delay of one millisecond and a read of `INTERNAL_STATUS`, with `n` at least one
/// and at most `POLL_LIMIT`. It goes on as long as a status says that the firmware is not
/// initialized yet; it succeeds with the first that says it is, fails with the first that says
/// anything else and when `POLL_LIMIT` of them say not yet, and fails with the bus, wherever in
/// these requests that happens.
pub proof fn law_load_init_data<'a, E>(firmware: &'a [u8], talk: Seq<Exchange<E>>)
    requires
        conversation::run(LoadInitData::fresh(firmware), talk) is Some,
    ensures
        forall|i: int|
            #![trigger talk[i]]
            0 <= i < talk.len() - 1 && talk[i].request is Read ==> (talk[i].reply matches Ok(data)
                && InitStatus.meaning(data) is NotInit),
        match conversation::run(LoadInitData::fresh(firmware), talk)->0 {
            Progress::Pending(load) => {
                &&& load.firmware == firmware
                &&& Operation::<E>::wf(load)
                &&& conversation::requests(talk) == load_prefix(firmware@, load.stage)
                &&& talk.len() > 0 && talk.last().request is Read ==> (
                talk.last().reply matches Ok(data) && InitStatus.meaning(data) is NotInit)
            },
            Progress::Done(Ok(_)) => {
                let n = load_polls(firmware@, talk);
                &&& 1 <= n <= POLL_LIMIT
                &&& conversation::requests(talk) == load_requests(firmware@) + poll_requests(
                    INTERNAL_STATUS,
                    n,
                )
                &&& talk.last().reply matches Ok(data) && InitStatus.meaning(data) is InitOk
            },
            Progress::Done(Err(Error::BadInit)) => {
                let n = load_polls(firmware@, talk);
                &&& 1 <= n <= POLL_LIMIT
                &&& conversation::requests(talk) == load_requests(firmware@) + poll_requests(
                    INTERNAL_STATUS,
                    n,
                )
                &&& talk.last().reply matches Ok(data) && !(InitStatus.meaning(data) is InitOk) && (
                InitStatus.meaning(data) is NotInit ==> n == POLL_LIMIT)
            },
            Progress::Done(Err(Error::Transport(error))) => {
                &&& talk.len() > 0
                &&& talk.last().reply == Reply::<E>::Err(error)
                &&& conversation::requests(talk).is_prefix_of(load_script(firmware@))
            },
            Progress::Done(Err(_)) => false,
        },
    decreases talk.len(),
{
    let fresh = LoadInitData::fresh(firmware);
    if talk.len() == 0 {
        assert(conversation::requests(talk) =~= Seq::empty());
    } else {
        let before = lemma_run_last(fresh, talk);
        law_load_init_data(firmware, talk.drop_last());
        lemma_requests_push(talk);
        lemma_load_step(before, talk.last().reply);
        lemma_load_follows_script::<E>(before);
        assert(conversation::requests(talk).len() == talk.len());
        if let LoadStage::Wait(wait) = before.stage {
            lemma_poll_requests_len(INTERNAL_STATUS, wait.polls as nat);
            if wait.delayed {
                let polled = poll_requests(INTERNAL_STATUS, (wait.polls + 1) as nat);
                assert(polled == poll_requests(INTERNAL_STATUS, wait.polls as nat).push(
                    Request::DelayMs(1),
                ).push(Request::Read { address: INTERNAL_STATUS, len: 1 }));
                assert(conversation::requests(talk) =~= load_requests(firmware@) + polled);
                assert(load_polls(firmware@, talk) == wait.polls + 1);
            }
        }
        assert forall|i: int|
            #![trigger talk[i]]
            0 <= i < talk.len() - 1 && talk[i].request is Read implies (
        talk[i].reply matches Ok(data) && InitStatus.meaning(data) is NotInit) by {
            assert(talk[i] == talk.drop_last()[i]);
            if i == talk.len() - 2 {
                assert(talk.drop_last().last() == talk[i]);
            }
        }
    }
}

/// The bytes that some requests write to a register, in order.
pub open spec fn written(requests: Seq<Request>, register: u8) -> Seq<u8>
    decreases requests.len(),
{
    if requests.len() == 0 {
        Seq::empty()
    } else {
        let before = written(requests.drop_last(), register);
        match requests.last() {
            Request::Write { address, byte } => if address == register {
                before.push(byte)
            } else {
                before
            },
            _ => before,
        }
    }
}

proof fn lemma_written_concat(a: Seq<Request>, b: Seq<Request>, register: u8)
    ensures
        written(a + b, register) == written(a, register) + written(b, register),
    decreases b.len(),
{
    if b.len() == 0 {
        assert(a + b =~= a);
    } else {
        lemma_written_concat(a, b.drop_last(), register);
        assert((a + b).drop_last() =~= a + b.drop_last());
        assert((a + b).last() == b.last());
    }
    assert(written(a + b, register) =~= written(a, register) + written(b, register));
}

proof fn lemma_upload_written(firmware: Seq<u8>, n: nat)
    requires
        n <= firmware.len(),
    ensures
        written(upload_requests(firmware, n), INIT_DATA) == firmware.take(n as int),
    decreases n,
{
    if n == 0 {
        assert(firmware.take(0) =~= Seq::empty());
    } else {
        lemma_upload_written(firmware, (n - 1) as nat);
        let bytes = byte_requests(firmware, n - 1);
        lemma_written_concat(upload_requests(firmware, (n - 1) as nat), bytes, INIT_DATA);
        reveal_with_fuel(written, 4);
        assert(written(bytes, INIT_DATA) =~= seq![firmware[n - 1]]);
        assert(firmware.take(n as int) =~= firmware.take(n - 1).push(firmware[n - 1]));
    }
}

/// The firmware goes to `INIT_DATA` whole, once and in order.
pub proof fn law_firmware_is_written(firmware: Seq<u8>)
    ensures
        written(load_requests(firmware), INIT_DATA) == firmware,
{
    let upload = upload_requests(firmware, firmware.len());
    let prepare = seq![init_ctrl(InitCtrlVariant::Prepare)];
    let start = seq![Request::DelayUs(450), init_ctrl(InitCtrlVariant::Trigger)];
    lemma_upload_written(firmware, firmware.len());
    lemma_written_concat(prepare, upload, INIT_DATA);
    lemma_written_concat(prepare + upload, start, INIT_DATA);
    reveal_with_fuel(written, 3);
    assert(written(prepare, INIT_DATA) =~= Seq::empty());
    assert(written(start, INIT_DATA) =~= Seq::empty());
    assert(firmware.take(firmware.len() as int) =~= firmware);
    assert(written(load_requests(firmware), INIT_DATA) =~= firmware);
}

/// How many requests loading makes before it waits: one for each byte, two for the address
/// of each chunk that has begun, and three around them.
pub proof fn law_load_requests_len(firmware: Seq<u8>)
    ensures
        load_requests(firmware).len() == firmware.len() + 2 * ((firmware.len() + 31) / 32) + 3,
{
    lemma_upload_len(firmware, firmware.len());
}

proof fn lemma_upload_len(firmware: Seq<u8>, n: nat)
    ensures
        upload_requests(firmware, n).len() == n + 2 * ((n + 31) / 32),
    decreases n,
{
    if n > 0 {
        lemma_upload_len(firmware, (n - 1) as nat);
    }
}

/// The firmware loader of the chip: it puts each byte that goes to `INIT_DATA` where its
/// address points, and moves the address on; a write to `INIT_ADDR_0` or `INIT_ADDR_1` sets
/// bits 3 to 0 or 11 to 4 of the address, which counts words of two bytes.
pub struct Loader {
    /// The last byte that went to `INIT_ADDR_0`.
    pub low: u8,
    /// The last byte that went to `INIT_ADDR_1`.
    pub high: u8,
    /// Where the next byte goes.
    pub next: int,
    /// The bytes that were put somewhere.
    pub memory: Map<int, u8>,
}

impl Loader {
    /// Whether a byte stands at an offset.
    pub open spec fn has(self, offset: int, byte: u8) -> bool {
        self.memory.dom().contains(offset) && self.memory[offset] == byte
    }

    /// The loader with another address.
    pub open spec fn addressed(self, low: u8, high: u8) -> Loader {
        Loader { low, high, next: 2 * (low % 16 + 16 * high), memory: self.memory }
    }

    /// The loader after a request.
    pub open spec fn after(self, request: Request) -> Loader {
        match request {
            Request::Write { address, byte } => if address == INIT_ADDR_0 {
                self.addressed(byte, self.high)
            } else if address == INIT_ADDR_1 {
                self.addressed(self.low, byte)
            } else if address == INIT_DATA {
                Loader {
                    next: self.next + 1,
                    memory: self.memory.insert(self.next, byte),
                    ..self
                }
            } else {
                self
            },
            _ => self,
        }
    }

    /// The loader after some requests.
    pub open spec fn after_all(self, requests: Seq<Request>) -> Loader
        decreases requests.len(),
    {
        if requests.len() == 0 {
            self
        } else {
            self.after_all(requests.drop_last()).after(requests.last())
        }
    }

    proof fn lemma_after_concat(self, a: Seq<Request>, b: Seq<Request>)
        ensures
            self.after_all(a + b) == self.after_all(a).after_all(b),
        decreases b.len(),
    {
        if b.len() == 0 {
            assert(a + b =~= a);
        } else {
            self.lemma_after_concat(a, b.drop_last());
            assert((a + b).drop_last() =~= a + b.drop_last());
        }
    }

    proof fn lemma_upload(self, firmware: Seq<u8>, n: nat)
        requires
            n <= firmware.len() <= 8192,
        ensures
            ({
                let after = self.after_all(upload_requests(firmware, n));
                &&& n > 0 ==> after.next == n
                &&& forall|i: int| 0 <= i < n ==> #[trigger] after.has(i, firmware[i])
            }),
        decreases n,
    {
        if n > 0 {
            let at = n - 1;
            self.lemma_upload(firmware, at as nat);
            let bytes = byte_requests(firmware, at);
            let before = self.after_all(upload_requests(firmware, at as nat));
            self.lemma_after_concat(upload_requests(firmware, at as nat), bytes);
            let after = before.after_all(bytes);
            assert(after.next == n && after.memory == before.memory.insert(at, firmware[at])) by {
                reveal_with_fuel(Loader::after_all, 4);
                if at % CHUNK as int == 0 {
                    assert(bytes.drop_last().drop_last().drop_last() =~= Seq::empty());
                    assert(bytes.drop_last().drop_last() =~= seq![bytes[0]]);
                    assert(bytes.drop_last() =~= seq![bytes[0], bytes[1]]);
                } else {
                    assert(bytes.drop_last() =~= Seq::empty());
                }
            }
            assert forall|i: int| 0 <= i < n implies #[trigger] after.has(i, firmware[i]) by {
                if i < at {
                    assert(before.has(i, firmware[i]));
                }
            }
        }
    }
}

/// Whatever the loader held before, after the requests of loading each byte of a firmware
/// of up to 8192 bytes, as many as the address reaches, stands at its own offset.
pub proof fn law_firmware_lands_in_place(loader: Loader, firmware: Seq<u8>, i: int)
    requires
        firmware.len() <= 8192,
        0 <= i < firmware.len(),
    ensures
        loader.after_all(load_requests(firmware)).has(i, firmware[i]),
{
    let upload = upload_requests(firmware, firmware.len());
    let prepare = seq![init_ctrl(InitCtrlVariant::Prepare)];
    let start = seq![Request::DelayUs(450), init_ctrl(InitCtrlVariant::Trigger)];
    let ready = loader.after_all(prepare);
    let loaded = ready.after_all(upload);
    loader.lemma_after_concat(prepare, upload);
    loader.lemma_after_concat(prepare + upload, start);
    ready.lemma_upload(firmware, firmware.len());
    assert(loaded.has(i, firmware[i]));
    assert(loaded.after_all(start) == loaded) by {
        reveal_with_fuel(Loader::after_all, 3);
        assert(start.drop_last() =~= seq![Request::DelayUs(450)]);
        assert(start.drop_last().drop_last() =~= Seq::empty());
    }
}

/// Loading the firmware ends: it makes no more requests than `load_requests` and then
/// `POLL_LIMIT` times two.
pub proof fn law_load_is_bounded<'a, E>(firmware: &'a [u8], talk: Seq<Exchange<E>>)
    requires
        conversation::run(LoadInitData::fresh(firmware), talk) is Some,
    ensures
        talk.len() <= load_requests(firmware@).len() + 2 * POLL_LIMIT,
        conversation::run(LoadInitData::fresh(firmware), talk)->0 is Pending ==> talk.len()
            < load_requests(firmware@).len() + 2 * POLL_LIMIT,
{
    if talk.len() > 0 {
        let before = lemma_run_last(LoadInitData::fresh(firmware), talk);
        law_load_init_data(firmware, talk.drop_last());
        lemma_load_prefix_len::<E>(before);
        assert(conversation::requests(talk.drop_last()).len() == talk.len() - 1);
    }
    law_load_init_data(firmware, talk);
    if let Progress::Pending(now) = conversation::run(LoadInitData::fresh(firmware), talk)->0 {
        lemma_load_prefix_len::<E>(now);
        assert(conversation::requests(talk).len() == talk.len());
    }
}

proof fn lemma_load_prefix_len<'a, E>(load: LoadInitData<'a>)
    requires
        Operation::<E>::wf(load),
    ensures
        load_prefix(load.firmware@, load.stage).len() < load_requests(load.firmware@).len() + 2
            * POLL_LIMIT,
{
    let firmware = load.firmware@;
    lemma_upload_len(firmware, firmware.len());
    match load.stage {
        LoadStage::AddressLow(at) | LoadStage::AddressHigh(at) | LoadStage::Data(at) => {
            lemma_upload_len(firmware, at as nat);
        },
        LoadStage::Wait(wait) => {
            lemma_poll_requests_len(INTERNAL_STATUS, wait.polls as nat);
        },
        _ => {},
    }
}

} // verus!

//! Bringing up the chip.
use crate::change::Change;
use crate::driver::{Bmi270, SetAccRange, SetGyrRange};
use crate::error::Error;
use crate::operation::{Command, Modify, Operation, Progress, Reply, Request};
use crate::readout::{ChipId, CmdReady, InitStatus, Read, Readout};
use crate::registers::{
    AccRangeVariant, AdvPowerSave, CmdVariant, GyrRangeVariant, InitCtrlVariant, InitStatusVariant,
    BMI270_CHIP_ID, INIT_ADDR_0, INIT_ADDR_1, INIT_CTRL, INIT_DATA,
};
use vstd::prelude::*;

verus! {

/// How often a status is read before the chip is given up. The chip takes at most 20 ms,
/// and there is one millisecond before each read.
pub const POLL_LIMIT: u8 = 20;

/// How many firmware bytes follow one address.
pub const CHUNK: usize = 32;

/// Waits until the chip takes a command: reads `STATUS` after each of up to `POLL_LIMIT`
/// milliseconds.
#[derive(Clone, Copy, Debug, PartialEq, Eq, Structural)]
pub struct WaitCmdReady {
    /// How often the status was read.
    pub polls: u8,
    /// Whether the delay before the next read is over.
    pub delayed: bool,
}

impl WaitCmdReady {
    /// The operation before its first request.
    pub open spec fn fresh() -> Self {
        WaitCmdReady { polls: 0, delayed: false }
    }

    /// The operation before its first request.
    pub fn new() -> (operation: Self)
        ensures
            operation == Self::fresh(),
    {
        WaitCmdReady { polls: 0, delayed: false }
    }
}

impl<E> Operation<E> for WaitCmdReady {
    type Output = ();

    type Failure = Error<E>;

    open spec fn wf(self) -> bool {
        self.polls < POLL_LIMIT
    }

    open spec fn asks(self) -> Request {
        if self.delayed {
            Operation::<E>::asks(Read { readout: CmdReady })
        } else {
            Request::DelayMs(1)
        }
    }

    open spec fn answered(self, reply: Reply<E>) -> Progress<Self, (), Error<E>> {
        match reply {
            Err(error) => Progress::Done(Err(Error::Transport(error))),
            Ok(data) => if !self.delayed {
                Progress::Pending(WaitCmdReady { delayed: true, ..self })
            } else if CmdReady.meaning(data) {
                Progress::Done(Ok(()))
            } else if self.polls + 1 < POLL_LIMIT {
                Progress::Pending(WaitCmdReady { polls: (self.polls + 1) as u8, delayed: false })
            } else {
                Progress::Done(Err(Error::CmdTimeout))
            },
        }
    }

    fn request(&self) -> (request: Request) {
        if self.delayed {
            Operation::<E>::request(&Read { readout: CmdReady })
        } else {
            Request::DelayMs(1)
        }
    }

    fn resume(self, reply: Result<&[u8], E>) -> (progress: Progress<Self, (), Error<E>>) {
        match reply {
            Err(error) => Progress::Done(Err(Error::from(error))),
            Ok(data) => {
                if !self.delayed {
                    Progress::Pending(WaitCmdReady { polls: self.polls, delayed: true })
                } else if CmdReady.decode(data) {
                    Progress::Done(Ok(()))
                } else if self.polls + 1 < POLL_LIMIT {
                    Progress::Pending(WaitCmdReady { polls: self.polls + 1, delayed: false })
                } else {
                    Progress::Done(Err(Error::CmdTimeout))
                }
            },
        }
    }
}

/// Waits until the firmware is initialized: reads `INTERNAL_STATUS` after each of up to
/// `POLL_LIMIT` milliseconds.
#[derive(Clone, Copy, Debug, PartialEq, Eq, Structural)]
pub struct WaitInitDone {
    /// How often the status was read.
    pub polls: u8,
    /// Whether the delay before the next read is over.
    pub delayed: bool,
}

impl WaitInitDone {
    /// The operation before its first request.
    pub open spec fn fresh() -> Self {
        WaitInitDone { polls: 0, delayed: false }
    }

    /// The operation before its first request.
    pub fn new() -> (operation: Self)
        ensures
            operation == Self::fresh(),
    {
        WaitInitDone { polls: 0, delayed: false }
    }
}

impl<E> Operation<E> for WaitInitDone {
    type Output = ();

    type Failure = Error<E>;

    open spec fn wf(self) -> bool {
        self.polls < POLL_LIMIT
    }

    open spec fn asks(self) -> Request {
        if self.delayed {
            Operation::<E>::asks(Read { readout: InitStatus })
        } else {
            Request::DelayMs(1)
        }
    }

    open spec fn answered(self, reply: Reply<E>) -> Progress<Self, (), Error<E>> {
        match reply {
            Err(error) => Progress::Done(Err(Error::Transport(error))),
            Ok(data) => if !self.delayed {
                Progress::Pending(WaitInitDone { delayed: true, ..self })
            } else {
                match InitStatus.meaning(data) {
                    InitStatusVariant::InitOk => Progress::Done(Ok(())),
                    InitStatusVariant::NotInit => if self.polls + 1 < POLL_LIMIT {
                        Progress::Pending(
                            WaitInitDone { polls: (self.polls + 1) as u8, delayed: false },
                        )
                    } else {
                        Progress::Done(Err(Error::BadInit))
                    },
                    _ => Progress::Done(Err(Error::BadInit)),
                }
            },
        }
    }

    fn request(&self) -> (request: Request) {
        if self.delayed {
            Operation::<E>::request(&Read { readout: InitStatus })
        } else {
            Request::DelayMs(1)
        }
    }

    fn resume(self, reply: Result<&[u8], E>) -> (progress: Progress<Self, (), Error<E>>) {
        match reply {
            Err(error) => Progress::Done(Err(Error::from(error))),
            Ok(data) => {
                if !self.delayed {
                    Progress::Pending(WaitInitDone { polls: self.polls, delayed: true })
                } else {
                    match InitStatus.decode(data) {
                        InitStatusVariant::InitOk => Progress::Done(Ok(())),
                        InitStatusVariant::NotInit => {
                            if self.polls + 1 < POLL_LIMIT {
                                Progress::Pending(
                                    WaitInitDone { polls: self.polls + 1, delayed: false },
                                )
                            } else {
                                Progress::Done(Err(Error::BadInit))
                            }
                        },
                        _ => Progress::Done(Err(Error::BadInit)),
                    }
                }
            },
        }
    }
}

/// Where loading the firmware has come to.
#[derive(Clone, Copy, Debug, PartialEq, Eq, Structural)]
pub enum LoadStage {
    /// Getting the loader ready.
    Prepare,
    /// Writing the low bits of the address of the chunk that begins at this byte.
    AddressLow(usize),
    /// Writing the high bits of the address of the chunk that begins at this byte.
    AddressHigh(usize),
    /// Writing this byte.
    Data(usize),
    /// Waiting until the loader has taken the last byte.
    Settle,
    /// Starting the firmware.
    Trigger,
    /// Waiting until the firmware is initialized.
    Wait(WaitInitDone),
}

/// Loads the firmware: gets the loader ready, writes the bytes in chunks, each behind its
/// address, starts the firmware and waits until it is initialized.
#[derive(Clone, Copy, Debug, PartialEq, Eq)]
pub struct LoadInitData<'a> {
    /// The firmware.
    pub firmware: &'a [u8],
    /// Where loading it has come to.
    pub stage: LoadStage,
}

impl<'a> LoadInitData<'a> {
    /// The operation before its first request.
    pub open spec fn fresh(firmware: &'a [u8]) -> Self {
        LoadInitData { firmware, stage: LoadStage::Prepare }
    }

    /// The operation before its first request.
    pub fn new(firmware: &'a [u8]) -> (operation: Self)
        ensures
            operation == Self::fresh(firmware),
    {
        LoadInitData { firmware, stage: LoadStage::Prepare }
    }

    /// The operation at the byte `at`: a chunk begins with its address, and there is
    /// nothing more to write at the end of the firmware.
    pub open spec fn stage_at(firmware: &'a [u8], at: int) -> LoadStage {
        if at >= firmware@.len() {
            LoadStage::Settle
        } else if at % CHUNK as int == 0 {
            LoadStage::AddressLow(at as usize)
        } else {
            LoadStage::Data(at as usize)
        }
    }

    fn advance_to(self, at: usize) -> (operation: Self)
        ensures
            operation == (LoadInitData {
                firmware: self.firmware,
                stage: Self::stage_at(self.firmware, at as int),
            }),
    {
        let stage = if at >= self.firmware.len() {
            LoadStage::Settle
        } else if at % CHUNK == 0 {
            LoadStage::AddressLow(at)
        } else {
            LoadStage::Data(at)
        };
        LoadInitData { firmware: self.firmware, stage }
    }
}

/// The loader counts in words of two bytes: bits 3 to 0 of the address of a byte's word.
pub open spec fn address_low(at: int) -> u8 {
    (at / 2 % 16) as u8
}

/// Bits 11 to 4 of the address of a byte's word.
pub open spec fn address_high(at: int) -> u8 {
    (at / 32 % 256) as u8
}

impl<'a, E> Operation<E> for LoadInitData<'a> {
    type Output = ();

    type Failure = Error<E>;

    open spec fn wf(self) -> bool {
        match self.stage {
            LoadStage::AddressLow(at) => at < self.firmware@.len() && at % CHUNK == 0,
            LoadStage::AddressHigh(at) => at < self.firmware@.len() && at % CHUNK == 0,
            LoadStage::Data(at) => at < self.firmware@.len(),
            LoadStage::Wait(wait) => Operation::<E>::wf(wait),
            _ => true,
        }
    }

    open spec fn asks(self) -> Request {
        match self.stage {
            LoadStage::Prepare => Request::Write {
                address: INIT_CTRL,
                byte: InitCtrlVariant::Prepare.code(),
            },
            LoadStage::AddressLow(at) => Request::Write {
                address: INIT_ADDR_0,
                byte: address_low(at as int),
            },
            LoadStage::AddressHigh(at) => Request::Write {
                address: INIT_ADDR_1,
                byte: address_high(at as int),
            },
            LoadStage::Data(at) => Request::Write {
                address: INIT_DATA,
                byte: self.firmware@[at as int],
            },
            LoadStage::Settle => Request::DelayUs(450),
            LoadStage::Trigger => Request::Write {
                address: INIT_CTRL,
                byte: InitCtrlVariant::Trigger.code(),
            },
            LoadStage::Wait(wait) => Operation::<E>::asks(wait),
        }
    }

    open spec fn answered(self, reply: Reply<E>) -> Progress<Self, (), Error<E>> {
        match (self.stage, reply) {
            (LoadStage::Wait(wait), _) => match wait.answered(reply) {
                Progress::Pending(next) => Progress::Pending(
                    LoadInitData { stage: LoadStage::Wait(next), ..self },
                ),
                Progress::Done(outcome) => Progress::Done(outcome),
            },
            (_, Err(error)) => Progress::Done(Err(Error::Transport(error))),
            (stage, Ok(_)) => Progress::Pending(
                LoadInitData {
                    stage: match stage {
                        LoadStage::Prepare => Self::stage_at(self.firmware, 0),
                        LoadStage::AddressLow(at) => LoadStage::AddressHigh(at),
                        LoadStage::AddressHigh(at) => LoadStage::Data(at),
                        LoadStage::Data(at) => Self::stage_at(self.firmware, at + 1),
                        LoadStage::Settle => LoadStage::Trigger,
                        _ => LoadStage::Wait(WaitInitDone::fresh()),
                    },
                    ..self
                },
            ),
        }
    }

    fn request(&self) -> (request: Request) {
        match self.stage {
            LoadStage::Prepare => Request::Write {
                address: INIT_CTRL,
                byte: InitCtrlVariant::Prepare.bits(),
            },
            LoadStage::AddressLow(at) => Request::Write {
                address: INIT_ADDR_0,
                byte: (at / 2 % 16) as u8,
            },
            LoadStage::AddressHigh(at) => Request::Write {
                address: INIT_ADDR_1,
                byte: (at / 32 % 256) as u8,
            },
            LoadStage::Data(at) => Request::Write { address: INIT_DATA, byte: self.firmware[at] },
            LoadStage::Settle => Request::DelayUs(450),
            LoadStage::Trigger => Request::Write {
                address: INIT_CTRL,
                byte: InitCtrlVariant::Trigger.bits(),
            },
            LoadStage::Wait(wait) => Operation::<E>::request(&wait),
        }
    }

    fn resume(self, reply: Result<&[u8], E>) -> (progress: Progress<Self, (), Error<E>>) {
        if let LoadStage::Wait(wait) = self.stage {
            return match wait.resume(reply) {
                Progress::Pending(next) => Progress::Pending(
                    LoadInitData { firmware: self.firmware, stage: LoadStage::Wait(next) },
                ),
                Progress::Done(outcome) => Progress::Done(outcome),
            };
        }
        if let Err(error) = reply {
            return Progress::Done(Err(Error::from(error)));
        }
        match self.stage {
            LoadStage::Prepare => Progress::Pending(self.advance_to(0)),
            LoadStage::AddressLow(at) => Progress::Pending(
                LoadInitData { firmware: self.firmware, stage: LoadStage::AddressHigh(at) },
            ),
            LoadStage::AddressHigh(at) => Progress::Pending(
                LoadInitData { firmware: self.firmware, stage: LoadStage::Data(at) },
            ),
            LoadStage::Data(at) => {
                assert(self.firmware.len() == self.firmware@.len());
                Progress::Pending(self.advance_to(at + 1))
            },
            LoadStage::Settle => Progress::Pending(
                LoadInitData { firmware: self.firmware, stage: LoadStage::Trigger },
            ),
            _ => Progress::Pending(
                LoadInitData {
                    firmware: self.firmware,
                    stage: LoadStage::Wait(WaitInitDone::new()),
                },
            ),
        }
    }
}

/// Where bringing up the chip has come to.
#[derive(Clone, Copy, Debug, PartialEq, Eq)]
pub enum Stage<'a> {
    /// Reading the chip ID for the first time, which switches the chip to SPI where SPI is
    /// used. The value does not count.
    Probe,
    /// Waiting until the chip has switched.
    ProbeSettle,
    /// Resetting the chip.
    Reset(Command),
    /// Waiting until the chip takes a command.
    CmdReady(WaitCmdReady),
    /// Leaving the advanced power save mode.
    PowerSave(Modify),
    /// Waiting until the mode is left.
    PowerSaveSettle,
    /// Loading the firmware.
    Load(LoadInitData<'a>),
    /// Reading the chip ID.
    Identify,
    /// Setting the accelerometer range.
    AccRange(SetAccRange),
    /// Setting the gyroscope range.
    GyrRange(SetGyrRange),
}

/// Brings up the chip: resets it, leaves the advanced power save mode, loads the firmware,
/// checks the chip ID and sets the ranges. It yields the driver.
#[derive(Clone, Copy, Debug, PartialEq, Eq)]
pub struct Initialize<'a> {
    /// The firmware.
    pub firmware: &'a [u8],
    /// Where bringing up the chip has come to.
    pub stage: Stage<'a>,
}

impl Bmi270 {
    /// The driver with the ranges that bringing up the chip sets.
    pub open spec fn initial() -> Bmi270 {
        Bmi270 { acc_range: AccRangeVariant::Gs8, gyr_range: GyrRangeVariant::Dps2000 }
    }
}

fn initial_driver() -> (driver: Bmi270)
    ensures
        driver == Bmi270::initial(),
{
    Bmi270 { acc_range: AccRangeVariant::default(), gyr_range: GyrRangeVariant::default() }
}

impl<'a> Initialize<'a> {
    /// The operation before its first request.
    pub open spec fn fresh(firmware: &'a [u8]) -> Self {
        Initialize { firmware, stage: Stage::Probe }
    }

    /// The operation before its first request.
    pub fn new(firmware: &'a [u8]) -> (operation: Self)
        ensures
            operation == Self::fresh(firmware),
    {
        Initialize { firmware, stage: Stage::Probe }
    }

    /// The operation at another stage.
    pub open spec fn at(self, stage: Stage<'a>) -> Self {
        Initialize { firmware: self.firmware, stage }
    }
}

impl<'a, E> Operation<E> for Initialize<'a> {
    type Output = Bmi270;

    type Failure = Error<E>;

    open spec fn wf(self) -> bool {
        match self.stage {
            Stage::CmdReady(wait) => Operation::<E>::wf(wait),
            Stage::Load(load) => load.firmware == self.firmware && Operation::<E>::wf(load),
            _ => true,
        }
    }

    open spec fn asks(self) -> Request {
        match self.stage {
            Stage::Probe => Operation::<E>::asks(Read { readout: ChipId }),
            Stage::ProbeSettle => Request::DelayMs(2),
            Stage::Reset(reset) => Operation::<E>::asks(reset),
            Stage::CmdReady(wait) => Operation::<E>::asks(wait),
            Stage::PowerSave(modify) => Operation::<E>::asks(modify),
            Stage::PowerSaveSettle => Request::DelayMs(1),
            Stage::Load(load) => Operation::<E>::asks(load),
            Stage::Identify => Operation::<E>::asks(Read { readout: ChipId }),
            Stage::AccRange(set) => Operation::<E>::asks(set),
            Stage::GyrRange(set) => Operation::<E>::asks(set),
        }
    }

    open spec fn answered(self, reply: Reply<E>) -> Progress<Self, Bmi270, Error<E>> {
        match reply {
            Err(error) => Progress::Done(Err(Error::Transport(error))),
            Ok(data) => match self.stage {
                Stage::Probe => Progress::Pending(self.at(Stage::ProbeSettle)),
                Stage::ProbeSettle => Progress::Pending(
                    self.at(Stage::Reset(Command { command: CmdVariant::Softreset })),
                ),
                Stage::Reset(_) => Progress::Pending(
                    self.at(Stage::CmdReady(WaitCmdReady::fresh())),
                ),
                Stage::CmdReady(wait) => match wait.answered(reply) {
                    Progress::Pending(next) => Progress::Pending(self.at(Stage::CmdReady(next))),
                    Progress::Done(Ok(_)) => Progress::Pending(
                        self.at(
                            Stage::PowerSave(Modify::of(Change::PowerSave(AdvPowerSave::Off))),
                        ),
                    ),
                    Progress::Done(Err(error)) => Progress::Done(Err(error)),
                },
                Stage::PowerSave(modify) => match modify.answered(reply) {
                    Progress::Pending(next) => Progress::Pending(self.at(Stage::PowerSave(next))),
                    Progress::Done(_) => Progress::Pending(self.at(Stage::PowerSaveSettle)),
                },
                Stage::PowerSaveSettle => Progress::Pending(
                    self.at(Stage::Load(LoadInitData::fresh(self.firmware))),
                ),
                Stage::Load(load) => match load.answered(reply) {
                    Progress::Pending(next) => Progress::Pending(self.at(Stage::Load(next))),
                    Progress::Done(Ok(_)) => Progress::Pending(self.at(Stage::Identify)),
                    Progress::Done(Err(error)) => Progress::Done(Err(error)),
                },
                Stage::Identify => {
                    let id = ChipId.meaning(data);
                    if id == BMI270_CHIP_ID {
                        let driver = Bmi270::initial();
                        Progress::Pending(
                            self.at(Stage::AccRange(SetAccRange::of(driver, driver.acc_range))),
                        )
                    } else {
                        Progress::Done(Err(Error::ChipId(id)))
                    }
                },
                Stage::AccRange(set) => match set.answered(reply) {
                    Progress::Pending(next) => Progress::Pending(self.at(Stage::AccRange(next))),
                    Progress::Done(Ok(driver)) => Progress::Pending(
                        self.at(Stage::GyrRange(SetGyrRange::of(driver, driver.gyr_range))),
                    ),
                    Progress::Done(Err(error)) => Progress::Done(Err(Error::Transport(error))),
                },
                Stage::GyrRange(set) => match set.answered(reply) {
                    Progress::Pending(next) => Progress::Pending(self.at(Stage::GyrRange(next))),
                    Progress::Done(Ok(driver)) => Progress::Done(Ok(driver)),
                    Progress::Done(Err(error)) => Progress::Done(Err(Error::Transport(error))),
                },
            },
        }
    }

    fn request(&self) -> (request: Request) {
        match self.stage {
            Stage::Probe => Operation::<E>::request(&Read { readout: ChipId }),
            Stage::ProbeSettle => Request::DelayMs(2),
            Stage::Reset(reset) => Operation::<E>::request(&reset),
            Stage::CmdReady(wait) => Operation::<E>::request(&wait),
            Stage::PowerSave(modify) => Operation::<E>::request(&modify),
            Stage::PowerSaveSettle => Request::DelayMs(1),
            Stage::Load(load) => Operation::<E>::request(&load),
            Stage::Identify => Operation::<E>::request(&Read { readout: ChipId }),
            Stage::AccRange(set) => Operation::<E>::request(&set),
            Stage::GyrRange(set) => Operation::<E>::request(&set),
        }
    }

    fn resume(self, reply: Result<&[u8], E>) -> (progress: Progress<Self, Bmi270, Error<E>>) {
        let data = match reply {
            Err(error) => return Progress::Done(Err(Error::from(error))),
            Ok(data) => data,
        };
        let stage = match self.stage {
            Stage::Probe => Stage::ProbeSettle,
            Stage::ProbeSettle => Stage::Reset(Command { command: CmdVariant::Softreset }),
            Stage::Reset(_) => Stage::CmdReady(WaitCmdReady::new()),
            Stage::CmdReady(wait) => {
                let part: Progress<WaitCmdReady, (), Error<E>> = wait.resume(Ok(data));
                match part {
                    Progress::Pending(next) => Stage::CmdReady(next),
                    Progress::Done(Ok(_)) => Stage::PowerSave(
                        Modify::new(Change::PowerSave(AdvPowerSave::Off)),
                    ),
                    Progress::Done(Err(error)) => return Progress::Done(Err(error)),
                }
            },
            Stage::PowerSave(modify) => {
                let part: Progress<Modify, (), E> = modify.resume(Ok(data));
                match part {
                    Progress::Pending(next) => Stage::PowerSave(next),
                    Progress::Done(_) => Stage::PowerSaveSettle,
                }
            },
            Stage::PowerSaveSettle => Stage::Load(LoadInitData::new(self.firmware)),
            Stage::Load(load) => {
                let part: Progress<LoadInitData<'a>, (), Error<E>> = load.resume(Ok(data));
                match part {
                    Progress::Pending(next) => Stage::Load(next),
                    Progress::Done(Ok(_)) => Stage::Identify,
                    Progress::Done(Err(error)) => return Progress::Done(Err(error)),
                }
            },
            Stage::Identify => {
                let id: u8 = ChipId.decode(data);
                if id != BMI270_CHIP_ID {
                    return Progress::Done(Err(Error::ChipId(id)));
                }
                let driver = initial_driver();
                Stage::AccRange(driver.set_acc_range(driver.acc_range))
            },
            Stage::AccRange(set) => {
                let part: Progress<SetAccRange, Bmi270, E> = set.resume(Ok(data));
                match part {
                    Progress::Pending(next) => Stage::AccRange(next),
                    Progress::Done(Ok(driver)) => Stage::GyrRange(
                        driver.set_gyr_range(driver.gyr_range),
                    ),
                    Progress::Done(Err(error)) => return Progress::Done(Err(Error::from(error))),
                }
            },
            Stage::GyrRange(set) => {
                let part: Progress<SetGyrRange, Bmi270, E> = set.resume(Ok(data));
                match part {
                    Progress::Pending(next) => Stage::GyrRange(next),
                    Progress::Done(Ok(driver)) => return Progress::Done(Ok(driver)),
                    Progress::Done(Err(error)) => return Progress::Done(Err(Error::from(error))),
                }
            },
        };
        Progress::Pending(Initialize { firmware: self.firmware, stage })
    }
}

} // verus!

//! The driver.
use crate::change::{Change, PinConfig, PinSources};
use crate::operation::{Command, Modify, Operation, Progress, Reply, Request};
use crate::readout::{
    AccRaw, AccReady, AccReadyInt, AccScaled, ChipId, ErrReg, Event, FifoLength, GyrRaw, GyrReady,
    GyrReadyInt, GyrScaled, Read, SensorTime, Temperature,
};
use crate::registers::{
    AccBwpVariant, AccFilterPerf, AccOdrVariant, AccRangeVariant, AdvPowerSave, CmdVariant,
    GyrBwpVariant, GyrFilterPerf, GyrNoisePerf, GyrOdrVariant, GyrRangeVariant,
};
use crate::startup::Initialize;
use vstd::prelude::*;

verus! {

/// A BMI270 that is up and running: the ranges that its sensors are set to.
#[derive(Clone, Copy, Debug, PartialEq, Eq, Structural)]
pub struct Bmi270 {
    /// The accelerometer range.
    pub acc_range: AccRangeVariant,
    /// The gyroscope range.
    pub gyr_range: GyrRangeVariant,
}

impl Bmi270 {
    /// Initialize the BMI270: soft reset, disable APS, load features, verify chip ID. The
    /// operation yields the driver.
    #[verifier::allow_in_spec]
    pub fn initialize(firmware: &[u8]) -> (operation: Initialize<'_>)
        ensures
            operation == Initialize::fresh(firmware),
        returns
            Initialize::fresh(firmware),
    {
        Initialize::new(firmware)
    }

    // --- Chip ID ---

    /// Read the chip ID (should be 0x24).
    #[verifier::allow_in_spec]
    pub fn read_chip_id(&self) -> (operation: Read<ChipId>)
        ensures
            operation == (Read { readout: ChipId }),
        returns
            (Read { readout: ChipId }),
    {
        Read { readout: ChipId }
    }

    // --- Power control ---

    /// Enable or disable the accelerometer.
    #[verifier::allow_in_spec]
    pub fn set_acc_enabled(&self, enabled: bool) -> (operation: Modify)
        ensures
            operation == Modify::of(Change::AccEnabled(enabled)),
        returns
            Modify::of(Change::AccEnabled(enabled)),
    {
        Modify::new(Change::AccEnabled(enabled))
    }

    /// Enable or disable the gyroscope.
    #[verifier::allow_in_spec]
    pub fn set_gyr_enabled(&self, enabled: bool) -> (operation: Modify)
        ensures
            operation == Modify::of(Change::GyrEnabled(enabled)),
        returns
            Modify::of(Change::GyrEnabled(enabled)),
    {
        Modify::new(Change::GyrEnabled(enabled))
    }

    /// Enable or disable the temperature sensor.
    #[verifier::allow_in_spec]
    pub fn set_temp_enabled(&self, enabled: bool) -> (operation: Modify)
        ensures
            operation == Modify::of(Change::TempEnabled(enabled)),
        returns
            Modify::of(Change::TempEnabled(enabled)),
    {
        Modify::new(Change::TempEnabled(enabled))
    }

    /// Set advanced power save mode.
    #[verifier::allow_in_spec]
    pub fn set_adv_power_save(&self, on: bool) -> (operation: Modify)
        ensures
            operation == Modify::of(
                Change::PowerSave(
                    if on {
                        AdvPowerSave::On
                    } else {
                        AdvPowerSave::Off
                    },
                ),
            ),
        returns
            Modify::of(
                Change::PowerSave(
                    if on {
                        AdvPowerSave::On
                    } else {
                        AdvPowerSave::Off
                    },
                ),
            ),
    {
        Modify::new(Change::PowerSave(if on { AdvPowerSave::On } else { AdvPowerSave::Off }))
    }

    // --- Accelerometer configuration ---

    /// Set the accelerometer output data rate.
    #[verifier::allow_in_spec]
    pub fn set_acc_odr(&self, odr: AccOdrVariant) -> (operation: Modify)
        ensures
            operation == Modify::of(Change::AccOdr(odr)),
        returns
            Modify::of(Change::AccOdr(odr)),
    {
        Modify::new(Change::AccOdr(odr))
    }

    /// Set the accelerometer bandwidth / average filter.
    #[verifier::allow_in_spec]
    pub fn set_acc_bwp(&self, bwp: AccBwpVariant) -> (operation: Modify)
        ensures
            operation == Modify::of(Change::AccBwp(bwp)),
        returns
            Modify::of(Change::AccBwp(bwp)),
    {
        Modify::new(Change::AccBwp(bwp))
    }

    /// Set the accelerometer filter performance mode.
    #[verifier::allow_in_spec]
    pub fn set_acc_filter_perf(&self, perf: AccFilterPerf) -> (operation: Modify)
        ensures
            operation == Modify::of(Change::AccFilter(perf)),
        returns
            Modify::of(Change::AccFilter(perf)),
    {
        Modify::new(Change::AccFilter(perf))
    }

    /// Set the accelerometer measurement range.
    #[verifier::allow_in_spec]
    pub fn set_acc_range(&self, range: AccRangeVariant) -> (operation: SetAccRange)
        ensures
            operation == SetAccRange::of(*self, range),
        returns
            SetAccRange::of(*self, range),
    {
        SetAccRange { driver: *self, range, staged: None }
    }

    // --- Gyroscope configuration ---

    /// Set the gyroscope output data rate.
    #[verifier::allow_in_spec]
    pub fn set_gyr_odr(&self, odr: GyrOdrVariant) -> (operation: Modify)
        ensures
            operation == Modify::of(Change::GyrOdr(odr)),
        returns
            Modify::of(Change::GyrOdr(odr)),
    {
        Modify::new(Change::GyrOdr(odr))
    }

    /// Set the gyroscope bandwidth.
    #[verifier::allow_in_spec]
    pub fn set_gyr_bwp(&self, bwp: GyrBwpVariant) -> (operation: Modify)
        ensures
            operation == Modify::of(Change::GyrBwp(bwp)),
        returns
            Modify::of(Change::GyrBwp(bwp)),
    {
        Modify::new(Change::GyrBwp(bwp))
    }

    /// Set the gyroscope noise performance mode.
    #[verifier::allow_in_spec]
    pub fn set_gyr_noise_perf(&self, perf: GyrNoisePerf) -> (operation: Modify)
        ensures
            operation == Modify::of(Change::GyrNoise(perf)),
        returns
            Modify::of(Change::GyrNoise(perf)),
    {
        Modify::new(Change::GyrNoise(perf))
    }

    /// Set the gyroscope filter performance mode.
    #[verifier::allow_in_spec]
    pub fn set_gyr_filter_perf(&self, perf: GyrFilterPerf) -> (operation: Modify)
        ensures
            operation == Modify::of(Change::GyrFilter(perf)),
        returns
            Modify::of(Change::GyrFilter(perf)),
    {
        Modify::new(Change::GyrFilter(perf))
    }

    /// Set the gyroscope full-scale range.
    #[verifier::allow_in_spec]
    pub fn set_gyr_range(&self, range: GyrRangeVariant) -> (operation: SetGyrRange)
        ensures
            operation == SetGyrRange::of(*self, range),
        returns
            SetGyrRange::of(*self, range),
    {
        SetGyrRange { driver: *self, range, staged: None }
    }

    // --- Data readout ---

    /// Read raw accelerometer data in LSB (X, Y, Z).
    #[verifier::allow_in_spec]
    pub fn read_acc_raw(&self) -> (operation: Read<AccRaw>)
        ensures
            operation == (Read { readout: AccRaw }),
        returns
            (Read { readout: AccRaw }),
    {
        Read { readout: AccRaw }
    }

    /// Read accelerometer data with the scale of the range that is configured now.
    #[verifier::allow_in_spec]
    pub fn read_acc_scaled(&self) -> (operation: Read<AccScaled>)
        ensures
            operation == (Read {
                readout: AccScaled { full_scale: self.acc_range.spec_full_scale() },
            }),
        returns
            (Read {
                readout: AccScaled { full_scale: self.acc_range.spec_full_scale() },
            }),
    {
        Read { readout: AccScaled { full_scale: self.acc_range.full_scale() } }
    }

    /// Read raw gyroscope data in LSB (X, Y, Z).
    #[verifier::allow_in_spec]
    pub fn read_gyr_raw(&self) -> (operation: Read<GyrRaw>)
        ensures
            operation == (Read { readout: GyrRaw }),
        returns
            (Read { readout: GyrRaw }),
    {
        Read { readout: GyrRaw }
    }

    /// Read gyroscope data with the scale of the range that is configured now.
    #[verifier::allow_in_spec]
    pub fn read_gyr_scaled(&self) -> (operation: Read<GyrScaled>)
        ensures
            operation == (Read {
                readout: GyrScaled { full_scale: self.gyr_range.spec_full_scale() },
            }),
        returns
            (Read {
                readout: GyrScaled { full_scale: self.gyr_range.spec_full_scale() },
            }),
    {
        Read { readout: GyrScaled { full_scale: self.gyr_range.full_scale() } }
    }

    /// Read the temperature, in 1/512 degrees Celsius.
    #[verifier::allow_in_spec]
    pub fn read_temp(&self) -> (operation: Read<Temperature>)
        ensures
            operation == (Read { readout: Temperature }),
        returns
            (Read { readout: Temperature }),
    {
        Read { readout: Temperature }
    }

    // --- Status and data ready ---

    /// Check if accelerometer data is ready.
    #[verifier::allow_in_spec]
    pub fn data_ready_acc(&self) -> (operation: Read<AccReady>)
        ensures
            operation == (Read { readout: AccReady }),
        returns
            (Read { readout: AccReady }),
    {
        Read { readout: AccReady }
    }

    /// Check if gyroscope data is ready.
    #[verifier::allow_in_spec]
    pub fn data_ready_gyr(&self) -> (operation: Read<GyrReady>)
        ensures
            operation == (Read { readout: GyrReady }),
        returns
            (Read { readout: GyrReady }),
    {
        Read { readout: GyrReady }
    }

    /// Check data-ready from interrupt status register.
    #[verifier::allow_in_spec]
    pub fn data_ready_int_acc(&self) -> (operation: Read<AccReadyInt>)
        ensures
            operation == (Read { readout: AccReadyInt }),
        returns
            (Read { readout: AccReadyInt }),
    {
        Read { readout: AccReadyInt }
    }

    /// Check data-ready from interrupt status register (gyro).
    #[verifier::allow_in_spec]
    pub fn data_ready_int_gyr(&self) -> (operation: Read<GyrReadyInt>)
        ensures
            operation == (Read { readout: GyrReadyInt }),
        returns
            (Read { readout: GyrReadyInt }),
    {
        Read { readout: GyrReadyInt }
    }

    /// Read the event register for POR detection and error codes.
    #[verifier::allow_in_spec]
    pub fn read_event(&self) -> (operation: Read<Event>)
        ensures
            operation == (Read { readout: Event }),
        returns
            (Read { readout: Event }),
    {
        Read { readout: Event }
    }

    /// Read the error register.
    #[verifier::allow_in_spec]
    pub fn read_err_reg(&self) -> (operation: Read<ErrReg>)
        ensures
            operation == (Read { readout: ErrReg }),
        returns
            (Read { readout: ErrReg }),
    {
        Read { readout: ErrReg }
    }

    // --- Sensor time ---

    /// Read the 24-bit sensortime counter (39.0625 us per tick).
    #[verifier::allow_in_spec]
    pub fn read_sensortime(&self) -> (operation: Read<SensorTime>)
        ensures
            operation == (Read { readout: SensorTime }),
        returns
            (Read { readout: SensorTime }),
    {
        Read { readout: SensorTime }
    }

    // --- Commands ---

    /// Perform a soft-reset (write 0xB6 to CMD register).
    #[verifier::allow_in_spec]
    pub fn soft_reset(&self) -> (operation: Command)
        ensures
            operation == (Command { command: CmdVariant::Softreset }),
        returns
            (Command { command: CmdVariant::Softreset }),
    {
        Command { command: CmdVariant::Softreset }
    }

    /// Flush the FIFO (write 0xB0 to CMD register).
    #[verifier::allow_in_spec]
    pub fn fifo_flush(&self) -> (operation: Command)
        ensures
            operation == (Command { command: CmdVariant::FifoFlush }),
        returns
            (Command { command: CmdVariant::FifoFlush }),
    {
        Command { command: CmdVariant::FifoFlush }
    }

    // --- Interrupts ---

    /// Configure INT1 pin electrical behavior.
    #[verifier::allow_in_spec]
    pub fn configure_int1(
        &self,
        active_high: bool,
        open_drain: bool,
        output_en: bool,
        input_en: bool,
    ) -> (operation: Modify)
        ensures
            operation == Modify::of(
                Change::Int1Io(PinConfig { active_high, open_drain, output_en, input_en }),
            ),
        returns
            Modify::of(
                Change::Int1Io(PinConfig { active_high, open_drain, output_en, input_en }),
            ),
    {
        Modify::new(Change::Int1Io(PinConfig { active_high, open_drain, output_en, input_en }))
    }

    /// Configure INT2 pin electrical behavior.
    #[verifier::allow_in_spec]
    pub fn configure_int2(
        &self,
        active_high: bool,
        open_drain: bool,
        output_en: bool,
        input_en: bool,
    ) -> (operation: Modify)
        ensures
            operation == Modify::of(
                Change::Int2Io(PinConfig { active_high, open_drain, output_en, input_en }),
            ),
        returns
            Modify::of(
                Change::Int2Io(PinConfig { active_high, open_drain, output_en, input_en }),
            ),
    {
        Modify::new(Change::Int2Io(PinConfig { active_high, open_drain, output_en, input_en }))
    }

    /// Map data-ready, FIFO, and error interrupts to the INT1 pin.
    #[verifier::allow_in_spec]
    pub fn map_int1(
        &self,
        fifo_watermark: bool,
        fifo_full: bool,
        data_ready: bool,
        error: bool,
    ) -> (operation: Modify)
        ensures
            operation == Modify::of(
                Change::Int1Map(PinSources { fifo_watermark, fifo_full, data_ready, error }),
            ),
        returns
            Modify::of(
                Change::Int1Map(PinSources { fifo_watermark, fifo_full, data_ready, error }),
            ),
    {
        Modify::new(Change::Int1Map(PinSources { fifo_watermark, fifo_full, data_ready, error }))
    }

    /// Map data-ready, FIFO, and error interrupts to the INT2 pin.
    #[verifier::allow_in_spec]
    pub fn map_int2(
        &self,
        fifo_watermark: bool,
        fifo_full: bool,
        data_ready: bool,
        error: bool,
    ) -> (operation: Modify)
        ensures
            operation == Modify::of(
                Change::Int2Map(PinSources { fifo_watermark, fifo_full, data_ready, error }),
            ),
        returns
            Modify::of(
                Change::Int2Map(PinSources { fifo_watermark, fifo_full, data_ready, error }),
            ),
    {
        Modify::new(Change::Int2Map(PinSources { fifo_watermark, fifo_full, data_ready, error }))
    }

    // --- FIFO ---

    /// Set the FIFO watermark level (in bytes, 13-bit).
    #[verifier::allow_in_spec]
    pub fn set_fifo_watermark(&self, level: u16) -> (operation: Modify)
        ensures
            operation == Modify::of(Change::FifoWatermark(level)),
        returns
            Modify::of(Change::FifoWatermark(level)),
    {
        Modify::new(Change::FifoWatermark(level))
    }

    /// Enable or disable FIFO stop-on-full behavior.
    #[verifier::allow_in_spec]
    pub fn set_fifo_stop_on_full(&self, stop: bool) -> (operation: Modify)
        ensures
            operation == Modify::of(Change::FifoStopOnFull(stop)),
        returns
            Modify::of(Change::FifoStopOnFull(stop)),
    {
        Modify::new(Change::FifoStopOnFull(stop))
    }

    /// Enable or disable sensortime frame in FIFO.
    #[verifier::allow_in_spec]
    pub fn set_fifo_time_en(&self, enable: bool) -> (operation: Modify)
        ensures
            operation == Modify::of(Change::FifoTimeEn(enable)),
        returns
            Modify::of(Change::FifoTimeEn(enable)),
    {
        Modify::new(Change::FifoTimeEn(enable))
    }

    /// Enable or disable FIFO header mode.
    #[verifier::allow_in_spec]
    pub fn set_fifo_header_en(&self, enable: bool) -> (operation: Modify)
        ensures
            operation == Modify::of(Change::FifoHeaderEn(enable)),
        returns
            Modify::of(Change::FifoHeaderEn(enable)),
    {
        Modify::new(Change::FifoHeaderEn(enable))
    }

    /// Enable or disable storing accelerometer data in FIFO.
    #[verifier::allow_in_spec]
    pub fn set_fifo_acc_en(&self, enable: bool) -> (operation: Modify)
        ensures
            operation == Modify::of(Change::FifoAccEn(enable)),
        returns
            Modify::of(Change::FifoAccEn(enable)),
    {
        Modify::new(Change::FifoAccEn(enable))
    }

    /// Enable or disable storing gyroscope data in FIFO.
    #[verifier::allow_in_spec]
    pub fn set_fifo_gyr_en(&self, enable: bool) -> (operation: Modify)
        ensures
            operation == Modify::of(Change::FifoGyrEn(enable)),
        returns
            Modify::of(Change::FifoGyrEn(enable)),
    {
        Modify::new(Change::FifoGyrEn(enable))
    }

    /// Read the FIFO fill level in bytes (14-bit).
    #[verifier::allow_in_spec]
    pub fn read_fifo_length(&self) -> (operation: Read<FifoLength>)
        ensures
            operation == (Read { readout: FifoLength }),
        returns
            (Read { readout: FifoLength }),
    {
        Read { readout: FifoLength }
    }

    /// Set accelerometer FIFO downsampling factor (2^n).
    #[verifier::allow_in_spec]
    pub fn set_acc_fifo_downs(&self, downs: u8) -> (operation: Modify)
        ensures
            operation == Modify::of(Change::AccFifoDowns(downs)),
        returns
            Modify::of(Change::AccFifoDowns(downs)),
    {
        Modify::new(Change::AccFifoDowns(downs))
    }

    /// Set gyroscope FIFO downsampling factor (2^n).
    #[verifier::allow_in_spec]
    pub fn set_gyr_fifo_downs(&self, downs: u8) -> (operation: Modify)
        ensures
            operation == Modify::of(Change::GyrFifoDowns(downs)),
        returns
            Modify::of(Change::GyrFifoDowns(downs)),
    {
        Modify::new(Change::GyrFifoDowns(downs))
    }

    /// Select whether accelerometer FIFO uses filtered or unfiltered data.
    #[verifier::allow_in_spec]
    pub fn set_acc_fifo_filt_data(&self, filtered: bool) -> (operation: Modify)
        ensures
            operation == Modify::of(Change::AccFifoFilt(filtered)),
        returns
            Modify::of(Change::AccFifoFilt(filtered)),
    {
        Modify::new(Change::AccFifoFilt(filtered))
    }

    /// Select whether gyroscope FIFO uses filtered or unfiltered data.
    #[verifier::allow_in_spec]
    pub fn set_gyr_fifo_filt_data(&self, filtered: bool) -> (operation: Modify)
        ensures
            operation == Modify::of(Change::GyrFifoFilt(filtered)),
        returns
            Modify::of(Change::GyrFifoFilt(filtered)),
    {
        Modify::new(Change::GyrFifoFilt(filtered))
    }
}

/// Sets the accelerometer range. On success it yields the driver with the new range; after
/// a failure the old driver is still the right one.
#[derive(Clone, Copy, Debug, PartialEq, Eq, Structural)]
pub struct SetAccRange {
    /// The driver before.
    pub driver: Bmi270,
    /// The range.
    pub range: AccRangeVariant,
    /// What to write to `ACC_RANGE`, once the register was read.
    pub staged: Option<u16>,
}

impl SetAccRange {
    /// The operation that sets this range.
    pub open spec fn of(driver: Bmi270, range: AccRangeVariant) -> Self {
        SetAccRange { driver, range, staged: None }
    }

    /// The change of the register.
    pub open spec fn modify(self) -> Modify {
        Modify { change: Change::AccRange(self.range), staged: self.staged }
    }
}

impl<E> Operation<E> for SetAccRange {
    type Output = Bmi270;

    type Failure = E;

    open spec fn wf(self) -> bool {
        true
    }

    open spec fn asks(self) -> Request {
        Operation::<E>::asks(self.modify())
    }

    open spec fn answered(self, reply: Reply<E>) -> Progress<Self, Bmi270, E> {
        match self.modify().answered(reply) {
            Progress::Pending(next) => Progress::Pending(
                SetAccRange { staged: next.staged, ..self },
            ),
            Progress::Done(Ok(_)) => Progress::Done(
                Ok(Bmi270 { acc_range: self.range, gyr_range: self.driver.gyr_range }),
            ),
            Progress::Done(Err(error)) => Progress::Done(Err(error)),
        }
    }

    fn request(&self) -> (request: Request) {
        let modify = Modify { change: Change::AccRange(self.range), staged: self.staged };
        Operation::<E>::request(&modify)
    }

    fn resume(self, reply: Result<&[u8], E>) -> (progress: Progress<Self, Bmi270, E>) {
        let modify = Modify { change: Change::AccRange(self.range), staged: self.staged };
        match modify.resume(reply) {
            Progress::Pending(next) => Progress::Pending(
                SetAccRange { driver: self.driver, range: self.range, staged: next.staged },
            ),
            Progress::Done(Ok(_)) => Progress::Done(
                Ok(Bmi270 { acc_range: self.range, gyr_range: self.driver.gyr_range }),
            ),
            Progress::Done(Err(error)) => Progress::Done(Err(error)),
        }
    }
}

/// Sets the gyroscope range. On success it yields the driver with the new range; after a
/// failure the old driver is still the right one.
#[derive(Clone, Copy, Debug, PartialEq, Eq, Structural)]
pub struct SetGyrRange {
    /// The driver before.
    pub driver: Bmi270,
    /// The range.
    pub range: GyrRangeVariant,
    /// What to write to `GYR_RANGE`, once the register was read.
    pub staged: Option<u16>,
}

impl SetGyrRange {
    /// The operation that sets this range.
    pub open spec fn of(driver: Bmi270, range: GyrRangeVariant) -> Self {
        SetGyrRange { driver, range, staged: None }
    }

    /// The change of the register.
    pub open spec fn modify(self) -> Modify {
        Modify { change: Change::GyrRange(self.range), staged: self.staged }
    }
}

impl<E> Operation<E> for SetGyrRange {
    type Output = Bmi270;

    type Failure = E;

    open spec fn wf(self) -> bool {
        true
    }

    open spec fn asks(self) -> Request {
        Operation::<E>::asks(self.modify())
    }

    open spec fn answered(self, reply: Reply<E>) -> Progress<Self, Bmi270, E> {
        match self.modify().answered(reply) {
            Progress::Pending(next) => Progress::Pending(
                SetGyrRange { staged: next.staged, ..self },
            ),
            Progress::Done(Ok(_)) => Progress::Done(
                Ok(Bmi270 { acc_range: self.driver.acc_range, gyr_range: self.range }),
            ),
            Progress::Done(Err(error)) => Progress::Done(Err(error)),
        }
    }

    fn request(&self) -> (request: Request) {
        let modify = Modify { change: Change::GyrRange(self.range), staged: self.staged };
        Operation::<E>::request(&modify)
    }

    fn resume(self, reply: Result<&[u8], E>) -> (progress: Progress<Self, Bmi270, E>) {
        let modify = Modify { change: Change::GyrRange(self.range), staged: self.staged };
        match modify.resume(reply) {
            Progress::Pending(next) => Progress::Pending(
                SetGyrRange { driver: self.driver, range: self.range, staged: next.staged },
            ),
            Progress::Done(Ok(_)) => Progress::Done(
                Ok(Bmi270 { acc_range: self.driver.acc_range, gyr_range: self.range }),
            ),
            Progress::Done(Err(error)) => Progress::Done(Err(error)),
        }
    }
}

} // verus!

//! Register addresses of the BMI270 and the values that its fields take.
use vstd::prelude::*;

verus! {

/// Chip identification.
pub const CHIP_ID: u8 = 0x00;

/// Error flags.
pub const ERR_REG: u8 = 0x02;

/// Data-ready flags and command readiness.
pub const STATUS: u8 = 0x03;

/// Accelerometer sample, 6 bytes.
pub const ACC_DATA: u8 = 0x0C;

/// Gyroscope sample, 6 bytes.
pub const GYR_DATA: u8 = 0x12;

/// Sensor time, 3 bytes.
pub const SENSORTIME: u8 = 0x18;

/// Power-on detection and configuration errors.
pub const EVENT: u8 = 0x1B;

/// Data interrupt flags.
pub const INT_STATUS_1: u8 = 0x1D;

/// State of the firmware.
pub const INTERNAL_STATUS: u8 = 0x21;

/// Temperature sample, 2 bytes.
pub const TEMPERATURE: u8 = 0x22;

/// FIFO fill level, 2 bytes.
pub const FIFO_LENGTH: u8 = 0x24;

/// Accelerometer configuration.
pub const ACC_CONF: u8 = 0x40;

/// Accelerometer range.
pub const ACC_RANGE: u8 = 0x41;

/// Gyroscope configuration.
pub const GYR_CONF: u8 = 0x42;

/// Gyroscope range.
pub const GYR_RANGE: u8 = 0x43;

/// FIFO downsampling and filtering.
pub const FIFO_DOWNS: u8 = 0x45;

/// FIFO watermark level, 2 bytes.
pub const FIFO_WTM: u8 = 0x46;

/// FIFO configuration, first byte.
pub const FIFO_CONFIG_0: u8 = 0x48;

/// FIFO configuration, second byte.
pub const FIFO_CONFIG_1: u8 = 0x49;

/// Electrical behavior of the INT1 pin.
pub const INT1_IO_CTRL: u8 = 0x53;

/// Electrical behavior of the INT2 pin.
pub const INT2_IO_CTRL: u8 = 0x54;

/// Data interrupts routed to the pins.
pub const INT_MAP_DATA: u8 = 0x58;

/// Firmware loader control.
pub const INIT_CTRL: u8 = 0x59;

/// Firmware loader address, bits 3 to 0.
pub const INIT_ADDR_0: u8 = 0x5B;

/// Firmware loader address, bits 11 to 4.
pub const INIT_ADDR_1: u8 = 0x5C;

/// Firmware loader data.
pub const INIT_DATA: u8 = 0x5E;

/// Power configuration.
pub const PWR_CONF: u8 = 0x7C;

/// Sensor power switches.
pub const PWR_CTRL: u8 = 0x7D;

/// Command register.
pub const CMD: u8 = 0x7E;

/// What `CHIP_ID` reads on a BMI270.
pub const BMI270_CHIP_ID: u8 = 0x24;

/// How many steps a measurement of full scale counts: one more than the largest `i16`.
pub const FULL_SCALE_STEPS: u16 = 32768;

/// How many steps of the temperature one degree counts.
pub const TEMP_STEPS: i32 = 512;

/// The temperature, in degrees Celsius, at which `TEMPERATURE` reads 0.
pub const TEMP_AT_ZERO: i32 = 23;

/// Advanced power save mode (`PWR_CONF.adv_power_save`).
#[derive(Clone, Copy, Debug, PartialEq, Eq, Structural)]
pub enum AdvPowerSave {
    Off,
    On,
}

impl AdvPowerSave {
    /// The number that stands for the value in its field.
    pub open spec fn code(self) -> u8 {
        match self {
            AdvPowerSave::Off => 0,
            AdvPowerSave::On => 1,
        }
    }

    /// The number that stands for the value in its field.
    #[verifier::allow_in_spec]
    pub fn bits(self) -> (code: u8)
        ensures
            code == self.code(),
            code < 2,
        returns
            self.code(),
    {
        match self {
            AdvPowerSave::Off => 0,
            AdvPowerSave::On => 1,
        }
    }
}

/// Accelerometer output data rate (`ACC_CONF.acc_odr`).
#[derive(Clone, Copy, Debug, PartialEq, Eq, Structural)]
pub enum AccOdrVariant {
    /// 25/32 Hz.
    Hz0p78,
    /// 25/16 Hz.
    Hz1p5,
    /// 25/8 Hz.
    Hz3p1,
    /// 25/4 Hz.
    Hz6p25,
    /// 25/2 Hz.
    Hz12p5,
    /// 25 Hz.
    Hz25,
    /// 50 Hz.
    Hz50,
    /// 100 Hz.
    Hz100,
    /// 200 Hz.
    Hz200,
    /// 400 Hz.
    Hz400,
    /// 800 Hz.
    Hz800,
    /// 1600 Hz.
    Hz1600,
}

impl AccOdrVariant {
    /// The number that stands for the value in its field.
    pub open spec fn code(self) -> u8 {
        match self {
            AccOdrVariant::Hz0p78 => 1,
            AccOdrVariant::Hz1p5 => 2,
            AccOdrVariant::Hz3p1 => 3,
            AccOdrVariant::Hz6p25 => 4,
            AccOdrVariant::Hz12p5 => 5,
            AccOdrVariant::Hz25 => 6,
            AccOdrVariant::Hz50 => 7,
            AccOdrVariant::Hz100 => 8,
            AccOdrVariant::Hz200 => 9,
            AccOdrVariant::Hz400 => 10,
            AccOdrVariant::Hz800 => 11,
            AccOdrVariant::Hz1600 => 12,
        }
    }

    /// The number that stands for the value in its field.
    #[verifier::allow_in_spec]
    pub fn bits(self) -> (code: u8)
        ensures
            code == self.code(),
            code < 16,
        returns
            self.code(),
    {
        match self {
            AccOdrVariant::Hz0p78 => 1,
            AccOdrVariant::Hz1p5 => 2,
            AccOdrVariant::Hz3p1 => 3,
            AccOdrVariant::Hz6p25 => 4,
            AccOdrVariant::Hz12p5 => 5,
            AccOdrVariant::Hz25 => 6,
            AccOdrVariant::Hz50 => 7,
            AccOdrVariant::Hz100 => 8,
            AccOdrVariant::Hz200 => 9,
            AccOdrVariant::Hz400 => 10,
            AccOdrVariant::Hz800 => 11,
            AccOdrVariant::Hz1600 => 12,
        }
    }
}

/// Accelerometer bandwidth and averaging (`ACC_CONF.acc_bwp`).
#[derive(Clone, Copy, Debug, PartialEq, Eq, Structural)]
pub enum AccBwpVariant {
    /// Oversampling by 4, or no averaging.
    Osr4Avg1,
    /// Oversampling by 2, or 2 samples averaged.
    Osr2Avg2,
    /// Normal filter, or 4 samples averaged.
    NormAvg4,
    /// CIC filter, or 8 samples averaged.
    CicAvg8,
    /// 16 samples averaged.
    ResAvg16,
    /// 32 samples averaged.
    ResAvg32,
    /// 64 samples averaged.
    ResAvg64,
    /// 128 samples averaged.
    ResAvg128,
}

impl AccBwpVariant {
    /// The number that stands for the value in its field.
    pub open spec fn code(self) -> u8 {
        match self {
            AccBwpVariant::Osr4Avg1 => 0,
            AccBwpVariant::Osr2Avg2 => 1,
            AccBwpVariant::NormAvg4 => 2,
            AccBwpVariant::CicAvg8 => 3,
            AccBwpVariant::ResAvg16 => 4,
            AccBwpVariant::ResAvg32 => 5,
            AccBwpVariant::ResAvg64 => 6,
            AccBwpVariant::ResAvg128 => 7,
        }
    }

    /// The number that stands for the value in its field.
    #[verifier::allow_in_spec]
    pub fn bits(self) -> (code: u8)
        ensures
            code == self.code(),
            code < 8,
        returns
            self.code(),
    {
        match self {
            AccBwpVariant::Osr4Avg1 => 0,
            AccBwpVariant::Osr2Avg2 => 1,
            AccBwpVariant::NormAvg4 => 2,
            AccBwpVariant::CicAvg8 => 3,
            AccBwpVariant::ResAvg16 => 4,
            AccBwpVariant::ResAvg32 => 5,
            AccBwpVariant::ResAvg64 => 6,
            AccBwpVariant::ResAvg128 => 7,
        }
    }
}

/// Accelerometer filter performance (`ACC_CONF.acc_filter_perf`).
#[derive(Clone, Copy, Debug, PartialEq, Eq, Structural)]
pub enum AccFilterPerf {
    PowerOptimized,
    HighPerformance,
}

impl AccFilterPerf {
    /// The number that stands for the value in its field.
    pub open spec fn code(self) -> u8 {
        match self {
            AccFilterPerf::PowerOptimized => 0,
            AccFilterPerf::HighPerformance => 1,
        }
    }

    /// The number that stands for the value in its field.
    #[verifier::allow_in_spec]
    pub fn bits(self) -> (code: u8)
        ensures
            code == self.code(),
            code < 2,
        returns
            self.code(),
    {
        match self {
            AccFilterPerf::PowerOptimized => 0,
            AccFilterPerf::HighPerformance => 1,
        }
    }
}

/// Accelerometer measurement range (`ACC_RANGE.acc_range`).
#[derive(Clone, Copy, Debug, PartialEq, Eq, Structural)]
pub enum AccRangeVariant {
    /// From -2 g to 2 g.
    Gs2,
    /// From -4 g to 4 g.
    Gs4,
    /// From -8 g to 8 g.
    Gs8,
    /// From -16 g to 16 g.
    Gs16,
}

impl AccRangeVariant {
    /// The number that stands for the value in its field.
    pub open spec fn code(self) -> u8 {
        match self {
            AccRangeVariant::Gs2 => 0,
            AccRangeVariant::Gs4 => 1,
            AccRangeVariant::Gs8 => 2,
            AccRangeVariant::Gs16 => 3,
        }
    }

    /// The number that stands for the value in its field.
    #[verifier::allow_in_spec]
    pub fn bits(self) -> (code: u8)
        ensures
            code == self.code(),
            code < 4,
        returns
            self.code(),
    {
        match self {
            AccRangeVariant::Gs2 => 0,
            AccRangeVariant::Gs4 => 1,
            AccRangeVariant::Gs8 => 2,
            AccRangeVariant::Gs16 => 3,
        }
    }

    /// The measurement, in g, that `FULL_SCALE_STEPS` steps stand for.
    pub open spec fn spec_full_scale(self) -> u16 {
        match self {
            AccRangeVariant::Gs2 => 2,
            AccRangeVariant::Gs4 => 4,
            AccRangeVariant::Gs8 => 8,
            AccRangeVariant::Gs16 => 16,
        }
    }

    /// The measurement, in g, that `FULL_SCALE_STEPS` steps stand for.
    #[verifier::allow_in_spec]
    pub fn full_scale(self) -> (range: u16)
        ensures
            range == self.spec_full_scale(),
        returns
            self.spec_full_scale(),
    {
        match self {
            AccRangeVariant::Gs2 => 2,
            AccRangeVariant::Gs4 => 4,
            AccRangeVariant::Gs8 => 8,
            AccRangeVariant::Gs16 => 16,
        }
    }
}

impl Default for AccRangeVariant {
    /// The range after a reset.
    fn default() -> (range: Self)
        ensures
            range == AccRangeVariant::Gs8,
    {
        AccRangeVariant::Gs8
    }
}

/// Gyroscope output data rate (`GYR_CONF.gyr_odr`).
#[derive(Clone, Copy, Debug, PartialEq, Eq, Structural)]
pub enum GyrOdrVariant {
    /// 25 Hz.
    Hz25,
    /// 50 Hz.
    Hz50,
    /// 100 Hz.
    Hz100,
    /// 200 Hz.
    Hz200,
    /// 400 Hz.
    Hz400,
    /// 800 Hz.
    Hz800,
    /// 1600 Hz.
    Hz1600,
    /// 3200 Hz.
    Hz3200,
}

impl GyrOdrVariant {
    /// The number that stands for the value in its field.
    pub open spec fn code(self) -> u8 {
        match self {
            GyrOdrVariant::Hz25 => 6,
            GyrOdrVariant::Hz50 => 7,
            GyrOdrVariant::Hz100 => 8,
            GyrOdrVariant::Hz200 => 9,
            GyrOdrVariant::Hz400 => 10,
            GyrOdrVariant::Hz800 => 11,
            GyrOdrVariant::Hz1600 => 12,
            GyrOdrVariant::Hz3200 => 13,
        }
    }

    /// The number that stands for the value in its field.
    #[verifier::allow_in_spec]
    pub fn bits(self) -> (code: u8)
        ensures
            code == self.code(),
            code < 16,
        returns
            self.code(),
    {
        match self {
            GyrOdrVariant::Hz25 => 6,
            GyrOdrVariant::Hz50 => 7,
            GyrOdrVariant::Hz100 => 8,
            GyrOdrVariant::Hz200 => 9,
            GyrOdrVariant::Hz400 => 10,
            GyrOdrVariant::Hz800 => 11,
            GyrOdrVariant::Hz1600 => 12,
            GyrOdrVariant::Hz3200 => 13,
        }
    }
}

/// Gyroscope bandwidth (`GYR_CONF.gyr_bwp`).
#[derive(Clone, Copy, Debug, PartialEq, Eq, Structural)]
pub enum GyrBwpVariant {
    /// Oversampling by 4.
    Osr4,
    /// Oversampling by 2.
    Osr2,
    /// Normal filter.
    Norm,
}

impl GyrBwpVariant {
    /// The number that stands for the value in its field.
    pub open spec fn code(self) -> u8 {
        match self {
            GyrBwpVariant::Osr4 => 0,
            GyrBwpVariant::Osr2 => 1,
            GyrBwpVariant::Norm => 2,
        }
    }

    /// The number that stands for the value in its field.
    #[verifier::allow_in_spec]
    pub fn bits(self) -> (code: u8)
        ensures
            code == self.code(),
            code < 4,
        returns
            self.code(),
    {
        match self {
            GyrBwpVariant::Osr4 => 0,
            GyrBwpVariant::Osr2 => 1,
            GyrBwpVariant::Norm => 2,
        }
    }
}

/// Gyroscope noise performance (`GYR_CONF.gyr_noise_perf`).
#[derive(Clone, Copy, Debug, PartialEq, Eq, Structural)]
pub enum GyrNoisePerf {
    PowerOptimized,
    HighPerformance,
}

impl GyrNoisePerf {
    /// The number that stands for the value in its field.
    pub open spec fn code(self) -> u8 {
        match self {
            GyrNoisePerf::PowerOptimized => 0,
            GyrNoisePerf::HighPerformance => 1,
        }
    }

    /// The number that stands for the value in its field.
    #[verifier::allow_in_spec]
    pub fn bits(self) -> (code: u8)
        ensures
            code == self.code(),
            code < 2,
        returns
            self.code(),
    {
        match self {
            GyrNoisePerf::PowerOptimized => 0,
            GyrNoisePerf::HighPerformance => 1,
        }
    }
}

/// Gyroscope filter performance (`GYR_CONF.gyr_filter_perf`).
#[derive(Clone, Copy, Debug, PartialEq, Eq, Structural)]
pub enum GyrFilterPerf {
    PowerOptimized,
    HighPerformance,
}

impl GyrFilterPerf {
    /// The number that stands for the value in its field.
    pub open spec fn code(self) -> u8 {
        match self {
            GyrFilterPerf::PowerOptimized => 0,
            GyrFilterPerf::HighPerformance => 1,
        }
    }

    /// The number that stands for the value in its field.
    #[verifier::allow_in_spec]
    pub fn bits(self) -> (code: u8)
        ensures
            code == self.code(),
            code < 2,
        returns
            self.code(),
    {
        match self {
            GyrFilterPerf::PowerOptimized => 0,
            GyrFilterPerf::HighPerformance => 1,
        }
    }
}

/// Gyroscope full-scale range (`GYR_RANGE.gyr_range`).
#[derive(Clone, Copy, Debug, PartialEq, Eq, Structural)]
pub enum GyrRangeVariant {
    /// From -2000 deg/s to 2000 deg/s.
    Dps2000,
    /// From -1000 deg/s to 1000 deg/s.
    Dps1000,
    /// From -500 deg/s to 500 deg/s.
    Dps500,
    /// From -250 deg/s to 250 deg/s.
    Dps250,
    /// From -125 deg/s to 125 deg/s.
    Dps125,
}

impl GyrRangeVariant {
    /// The number that stands for the value in its field.
    pub open spec fn code(self) -> u8 {
        match self {
            GyrRangeVariant::Dps2000 => 0,
            GyrRangeVariant::Dps1000 => 1,
            GyrRangeVariant::Dps500 => 2,
            GyrRangeVariant::Dps250 => 3,
            GyrRangeVariant::Dps125 => 4,
        }
    }

    /// The number that stands for the value in its field.
    #[verifier::allow_in_spec]
    pub fn bits(self) -> (code: u8)
        ensures
            code == self.code(),
            code < 8,
        returns
            self.code(),
    {
        match self {
            GyrRangeVariant::Dps2000 => 0,
            GyrRangeVariant::Dps1000 => 1,
            GyrRangeVariant::Dps500 => 2,
            GyrRangeVariant::Dps250 => 3,
            GyrRangeVariant::Dps125 => 4,
        }
    }

    /// The measurement, in deg/s, that `FULL_SCALE_STEPS` steps stand for.
    pub open spec fn spec_full_scale(self) -> u16 {
        match self {
            GyrRangeVariant::Dps2000 => 2000,
            GyrRangeVariant::Dps1000 => 1000,
            GyrRangeVariant::Dps500 => 500,
            GyrRangeVariant::Dps250 => 250,
            GyrRangeVariant::Dps125 => 125,
        }
    }

    /// The measurement, in deg/s, that `FULL_SCALE_STEPS` steps stand for.
    #[verifier::allow_in_spec]
    pub fn full_scale(self) -> (range: u16)
        ensures
            range == self.spec_full_scale(),
        returns
            self.spec_full_scale(),
    {
        match self {
            GyrRangeVariant::Dps2000 => 2000,
            GyrRangeVariant::Dps1000 => 1000,
            GyrRangeVariant::Dps500 => 500,
            GyrRangeVariant::Dps250 => 250,
            GyrRangeVariant::Dps125 => 125,
        }
    }
}

impl Default for GyrRangeVariant {
    /// The range after a reset.
    fn default() -> (range: Self)
        ensures
            range == GyrRangeVariant::Dps2000,
    {
        GyrRangeVariant::Dps2000
    }
}

/// What a write to `INIT_CTRL` tells the firmware loader.
#[derive(Clone, Copy, Debug, PartialEq, Eq, Structural)]
pub enum InitCtrlVariant {
    /// Get ready to receive the firmware.
    Prepare,
    /// Start the firmware that was received.
    Trigger,
}

impl InitCtrlVariant {
    /// The number that stands for the value in its field.
    pub open spec fn code(self) -> u8 {
        match self {
            InitCtrlVariant::Prepare => 0x00,
            InitCtrlVariant::Trigger => 0x01,
        }
    }

    /// The number that stands for the value in its field.
    #[verifier::allow_in_spec]
    pub fn bits(self) -> (code: u8)
        ensures
            code == self.code(),
        returns
            self.code(),
    {
        match self {
            InitCtrlVariant::Prepare => 0x00,
            InitCtrlVariant::Trigger => 0x01,
        }
    }
}

/// A command for the `CMD` register.
#[derive(Clone, Copy, Debug, PartialEq, Eq, Structural)]
pub enum CmdVariant {
    /// Empty the FIFO.
    FifoFlush,
    /// Reset the chip.
    Softreset,
}

impl CmdVariant {
    /// The number that stands for the value in its field.
    pub open spec fn code(self) -> u8 {
        match self {
            CmdVariant::FifoFlush => 0xB0,
            CmdVariant::Softreset => 0xB6,
        }
    }

    /// The number that stands for the value in its field.
    #[verifier::allow_in_spec]
    pub fn bits(self) -> (code: u8)
        ensures
            code == self.code(),
        returns
            self.code(),
    {
        match self {
            CmdVariant::FifoFlush => 0xB0,
            CmdVariant::Softreset => 0xB6,
        }
    }
}

/// A configuration error (`EVENT.error_code`).
#[derive(Clone, Copy, Debug, PartialEq, Eq, Structural)]
pub enum ErrorCodeVariant {
    /// No error.
    NoError,
    /// Error in `ACC_CONF`.
    AccErr,
    /// Error in `GYR_CONF`.
    GyrErr,
    /// Error in both `ACC_CONF` and `GYR_CONF`.
    AccAndGyrErr,
    /// A number without a meaning.
    Reserved(u8),
}

impl ErrorCodeVariant {
    /// The value that a number stands for.
    pub open spec fn spec_from_bits(code: u8) -> Self {
        if code == 0 {
            ErrorCodeVariant::NoError
        } else if code == 1 {
            ErrorCodeVariant::AccErr
        } else if code == 2 {
            ErrorCodeVariant::GyrErr
        } else if code == 3 {
            ErrorCodeVariant::AccAndGyrErr
        } else {
            ErrorCodeVariant::Reserved(code)
        }
    }

    /// The value that a number stands for.
    #[verifier::allow_in_spec]
    pub fn from_bits(code: u8) -> (value: Self)
        ensures
            value == Self::spec_from_bits(code),
        returns
            Self::spec_from_bits(code),
    {
        match code {
            0 => ErrorCodeVariant::NoError,
            1 => ErrorCodeVariant::AccErr,
            2 => ErrorCodeVariant::GyrErr,
            3 => ErrorCodeVariant::AccAndGyrErr,
            _ => ErrorCodeVariant::Reserved(code),
        }
    }
}

/// State of the firmware (`INTERNAL_STATUS.message`).
#[derive(Clone, Copy, Debug, PartialEq, Eq, Structural)]
pub enum InitStatusVariant {
    /// Not initialized yet.
    NotInit,
    /// Initialized.
    InitOk,
    /// Initialization failed.
    InitErr,
    /// Invalid driver.
    DrvErr,
    /// Sensor stopped.
    SnsStop,
    /// Error while reading the non-volatile memory.
    NvmError,
    /// Error at start-up.
    StartUpError,
    /// Firmware and chip do not fit.
    CompatError,
    /// A number without a meaning.
    Reserved(u8),
}

impl InitStatusVariant {
    /// The value that a number stands for.
    pub open spec fn spec_from_bits(code: u8) -> Self {
        if code == 0 {
            InitStatusVariant::NotInit
        } else if code == 1 {
            InitStatusVariant::InitOk
        } else if code == 2 {
            InitStatusVariant::InitErr
        } else if code == 3 {
            InitStatusVariant::DrvErr
        } else if code == 4 {
            InitStatusVariant::SnsStop
        } else if code == 5 {
            InitStatusVariant::NvmError
        } else if code == 6 {
            InitStatusVariant::StartUpError
        } else if code == 7 {
            InitStatusVariant::CompatError
        } else {
            InitStatusVariant::Reserved(code)
        }
    }

    /// The value that a number stands for.
    #[verifier::allow_in_spec]
    pub fn from_bits(code: u8) -> (value: Self)
        ensures
            value == Self::spec_from_bits(code),
        returns
            Self::spec_from_bits(code),
    {
        match code {
            0 => InitStatusVariant::NotInit,
            1 => InitStatusVariant::InitOk,
            2 => InitStatusVariant::InitErr,
            3 => InitStatusVariant::DrvErr,
            4 => InitStatusVariant::SnsStop,
            5 => InitStatusVariant::NvmError,
            6 => InitStatusVariant::StartUpError,
            7 => InitStatusVariant::CompatError,
            _ => InitStatusVariant::Reserved(code),
        }
    }
}

} // verus!

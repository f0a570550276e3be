//! Changes of configuration registers.
use crate::bits;
use crate::registers::{
    AccBwpVariant, AccFilterPerf, AccOdrVariant, AccRangeVariant, AdvPowerSave, GyrBwpVariant,
    GyrFilterPerf, GyrNoisePerf, GyrOdrVariant, GyrRangeVariant, ACC_CONF, ACC_RANGE, FIFO_CONFIG_0,
    FIFO_CONFIG_1, FIFO_DOWNS, FIFO_WTM, GYR_CONF, GYR_RANGE, INT1_IO_CTRL, INT2_IO_CTRL,
    INT_MAP_DATA, PWR_CONF, PWR_CTRL,
};
use vstd::prelude::*;

verus! {

/// Electrical behavior of an interrupt pin.
#[derive(Clone, Copy, Debug, PartialEq, Eq, Structural)]
pub struct PinConfig {
    /// The pin signals with a high level, not with a low one.
    pub active_high: bool,
    /// The pin is an open drain, not a push-pull driver.
    pub open_drain: bool,
    /// The pin drives its line.
    pub output_en: bool,
    /// The pin listens to its line.
    pub input_en: bool,
}

/// The data interrupts that an interrupt pin signals.
#[derive(Clone, Copy, Debug, PartialEq, Eq, Structural)]
pub struct PinSources {
    /// The FIFO has reached its watermark.
    pub fifo_watermark: bool,
    /// The FIFO is full.
    pub fifo_full: bool,
    /// A sample is ready.
    pub data_ready: bool,
    /// The chip has met an error.
    pub error: bool,
}

/// A change of one configuration register: new values for some of its fields.
#[derive(Clone, Copy, Debug, PartialEq, Eq, Structural)]
pub enum Change {
    /// Switches the accelerometer on or off.
    AccEnabled(bool),
    /// Switches the gyroscope on or off.
    GyrEnabled(bool),
    /// Switches the temperature sensor on or off.
    TempEnabled(bool),
    /// Sets the advanced power save mode.
    PowerSave(AdvPowerSave),
    /// Sets the accelerometer output data rate.
    AccOdr(AccOdrVariant),
    /// Sets the accelerometer bandwidth.
    AccBwp(AccBwpVariant),
    /// Sets the accelerometer filter performance.
    AccFilter(AccFilterPerf),
    /// Sets the accelerometer range.
    AccRange(AccRangeVariant),
    /// Sets the gyroscope output data rate.
    GyrOdr(GyrOdrVariant),
    /// Sets the gyroscope bandwidth.
    GyrBwp(GyrBwpVariant),
    /// Sets the gyroscope noise performance.
    GyrNoise(GyrNoisePerf),
    /// Sets the gyroscope filter performance.
    GyrFilter(GyrFilterPerf),
    /// Sets the gyroscope range.
    GyrRange(GyrRangeVariant),
    /// Sets the electrical behavior of the INT1 pin.
    Int1Io(PinConfig),
    /// Sets the electrical behavior of the INT2 pin.
    Int2Io(PinConfig),
    /// Sets the data interrupts that the INT1 pin signals.
    Int1Map(PinSources),
    /// Sets the data interrupts that the INT2 pin signals.
    Int2Map(PinSources),
    /// Sets the FIFO watermark level, of which the low 13 bits count.
    FifoWatermark(u16),
    /// Sets whether the FIFO stops when it is full.
    FifoStopOnFull(bool),
    /// Sets whether the FIFO ends with a sensor time frame.
    FifoTimeEn(bool),
    /// Sets whether FIFO frames have a header.
    FifoHeaderEn(bool),
    /// Sets whether the FIFO stores accelerometer data.
    FifoAccEn(bool),
    /// Sets whether the FIFO stores gyroscope data.
    FifoGyrEn(bool),
    /// Sets the accelerometer FIFO downsampling, of which the low 3 bits count.
    AccFifoDowns(u8),
    /// Sets the gyroscope FIFO downsampling, of which the low 3 bits count.
    GyrFifoDowns(u8),
    /// Sets whether the FIFO stores filtered accelerometer data.
    AccFifoFilt(bool),
    /// Sets whether the FIFO stores filtered gyroscope data.
    GyrFifoFilt(bool),
}

/// What a switch writes into its field.
pub open spec fn flag(on: bool) -> int {
    if on {
        1
    } else {
        0
    }
}

/// `word` with a switch in each of four fields of one bit, given by their places.
pub open spec fn with_flags(
    word: int,
    a: int,
    on_a: bool,
    b: int,
    on_b: bool,
    c: int,
    on_c: bool,
    d: int,
    on_d: bool,
) -> int {
    let word = bits::with_field(word, a, 2, flag(on_a));
    let word = bits::with_field(word, b, 2, flag(on_b));
    let word = bits::with_field(word, c, 2, flag(on_c));
    bits::with_field(word, d, 2, flag(on_d))
}

/// Puts a switch into each of four fields of one bit, given by their bit numbers.
fn store_flags(
    word: u16,
    a: u16,
    on_a: bool,
    b: u16,
    on_b: bool,
    c: u16,
    on_c: bool,
    d: u16,
    on_d: bool,
) -> (result: u16)
    requires
        a < 8,
        b < 8,
        c < 8,
        d < 8,
    ensures
        result == with_flags(
            word as int,
            bits::weight(a as int),
            on_a,
            bits::weight(b as int),
            on_b,
            bits::weight(c as int),
            on_c,
            bits::weight(d as int),
            on_d,
        ),
        word < 256 ==> result < 256,
{
    let word: u16 = bits::store(word, a, 1, on_a as u16);
    let word: u16 = bits::store(word, b, 1, on_b as u16);
    let word: u16 = bits::store(word, c, 1, on_c as u16);
    bits::store(word, d, 1, on_d as u16)
}

impl Change {
    /// The address of the register that changes.
    pub open spec fn spec_address(self) -> u8 {
        match self {
            Change::AccEnabled(_) => PWR_CTRL,
            Change::GyrEnabled(_) => PWR_CTRL,
            Change::TempEnabled(_) => PWR_CTRL,
            Change::PowerSave(_) => PWR_CONF,
            Change::AccOdr(_) => ACC_CONF,
            Change::AccBwp(_) => ACC_CONF,
            Change::AccFilter(_) => ACC_CONF,
            Change::AccRange(_) => ACC_RANGE,
            Change::GyrOdr(_) => GYR_CONF,
            Change::GyrBwp(_) => GYR_CONF,
            Change::GyrNoise(_) => GYR_CONF,
            Change::GyrFilter(_) => GYR_CONF,
            Change::GyrRange(_) => GYR_RANGE,
            Change::Int1Io(_) => INT1_IO_CTRL,
            Change::Int2Io(_) => INT2_IO_CTRL,
            Change::Int1Map(_) => INT_MAP_DATA,
            Change::Int2Map(_) => INT_MAP_DATA,
            Change::FifoWatermark(_) => FIFO_WTM,
            Change::FifoStopOnFull(_) => FIFO_CONFIG_0,
            Change::FifoTimeEn(_) => FIFO_CONFIG_0,
            Change::FifoHeaderEn(_) => FIFO_CONFIG_1,
            Change::FifoAccEn(_) => FIFO_CONFIG_1,
            Change::FifoGyrEn(_) => FIFO_CONFIG_1,
            Change::AccFifoDowns(_) => FIFO_DOWNS,
            Change::GyrFifoDowns(_) => FIFO_DOWNS,
            Change::AccFifoFilt(_) => FIFO_DOWNS,
            Change::GyrFifoFilt(_) => FIFO_DOWNS,
        }
    }

    /// The address of the register that changes.
    pub fn address(self) -> (address: u8)
        ensures
            address == self.spec_address(),
    {
        match self {
            Change::AccEnabled(_) => PWR_CTRL,
            Change::GyrEnabled(_) => PWR_CTRL,
            Change::TempEnabled(_) => PWR_CTRL,
            Change::PowerSave(_) => PWR_CONF,
            Change::AccOdr(_) => ACC_CONF,
            Change::AccBwp(_) => ACC_CONF,
            Change::AccFilter(_) => ACC_CONF,
            Change::AccRange(_) => ACC_RANGE,
            Change::GyrOdr(_) => GYR_CONF,
            Change::GyrBwp(_) => GYR_CONF,
            Change::GyrNoise(_) => GYR_CONF,
            Change::GyrFilter(_) => GYR_CONF,
            Change::GyrRange(_) => GYR_RANGE,
            Change::Int1Io(_) => INT1_IO_CTRL,
            Change::Int2Io(_) => INT2_IO_CTRL,
            Change::Int1Map(_) => INT_MAP_DATA,
            Change::Int2Map(_) => INT_MAP_DATA,
            Change::FifoWatermark(_) => FIFO_WTM,
            Change::FifoStopOnFull(_) => FIFO_CONFIG_0,
            Change::FifoTimeEn(_) => FIFO_CONFIG_0,
            Change::FifoHeaderEn(_) => FIFO_CONFIG_1,
            Change::FifoAccEn(_) => FIFO_CONFIG_1,
            Change::FifoGyrEn(_) => FIFO_CONFIG_1,
            Change::AccFifoDowns(_) => FIFO_DOWNS,
            Change::GyrFifoDowns(_) => FIFO_DOWNS,
            Change::AccFifoFilt(_) => FIFO_DOWNS,
            Change::GyrFifoFilt(_) => FIFO_DOWNS,
        }
    }

    /// Whether the register is two bytes long, the low byte first, and not one.
    pub open spec fn wide(self) -> bool {
        self is FifoWatermark
    }

    /// Whether the register is two bytes long, the low byte first, and not one.
    pub fn is_wide(self) -> (wide: bool)
        ensures
            wide == self.wide(),
    {
        matches!(self, Change::FifoWatermark(_))
    }

    /// What the register holds after the change, if it holds `word` before.
    pub open spec fn applied(self, word: int) -> int {
        match self {
            Change::AccEnabled(on) => bits::with_field(word, 4, 2, flag(on)),
            Change::GyrEnabled(on) => bits::with_field(word, 2, 2, flag(on)),
            Change::TempEnabled(on) => bits::with_field(word, 8, 2, flag(on)),
            Change::PowerSave(value) => bits::with_field(word, 1, 2, value.code() as int),
            Change::AccOdr(value) => bits::with_field(word, 1, 16, value.code() as int),
            Change::AccBwp(value) => bits::with_field(word, 16, 8, value.code() as int),
            Change::AccFilter(value) => bits::with_field(word, 128, 2, value.code() as int),
            Change::AccRange(value) => bits::with_field(word, 1, 4, value.code() as int),
            Change::GyrOdr(value) => bits::with_field(word, 1, 16, value.code() as int),
            Change::GyrBwp(value) => bits::with_field(word, 16, 4, value.code() as int),
            Change::GyrNoise(value) => bits::with_field(word, 64, 2, value.code() as int),
            Change::GyrFilter(value) => bits::with_field(word, 128, 2, value.code() as int),
            Change::GyrRange(value) => bits::with_field(word, 1, 8, value.code() as int),
            Change::Int1Io(pin) => with_flags(
                word,
                2,
                pin.active_high,
                4,
                pin.open_drain,
                8,
                pin.output_en,
                16,
                pin.input_en,
            ),
            Change::Int2Io(pin) => with_flags(
                word,
                2,
                pin.active_high,
                4,
                pin.open_drain,
                8,
                pin.output_en,
                16,
                pin.input_en,
            ),
            Change::Int1Map(pin) => with_flags(
                word,
                2,
                pin.fifo_watermark,
                1,
                pin.fifo_full,
                4,
                pin.data_ready,
                8,
                pin.error,
            ),
            Change::Int2Map(pin) => with_flags(
                word,
                32,
                pin.fifo_watermark,
                16,
                pin.fifo_full,
                64,
                pin.data_ready,
                128,
                pin.error,
            ),
            Change::FifoWatermark(level) => bits::with_field(word, 1, 8192, level as int % 8192),
            Change::FifoStopOnFull(on) => bits::with_field(word, 1, 2, flag(on)),
            Change::FifoTimeEn(on) => bits::with_field(word, 2, 2, flag(on)),
            Change::FifoHeaderEn(on) => bits::with_field(word, 16, 2, flag(on)),
            Change::FifoAccEn(on) => bits::with_field(word, 64, 2, flag(on)),
            Change::FifoGyrEn(on) => bits::with_field(word, 128, 2, flag(on)),
            Change::AccFifoDowns(downs) => bits::with_field(word, 16, 8, downs as int % 8),
            Change::GyrFifoDowns(downs) => bits::with_field(word, 1, 8, downs as int % 8),
            Change::AccFifoFilt(on) => bits::with_field(word, 128, 2, flag(on)),
            Change::GyrFifoFilt(on) => bits::with_field(word, 8, 2, flag(on)),
        }
    }

    /// Works out what the register holds after the change, if it holds `word` before.
    pub fn apply(self, word: u16) -> (result: u16)
        ensures
            result == self.applied(word as int),
            word < 256 && !self.wide() ==> result < 256,
    {
        match self {
            Change::AccEnabled(on) => return bits::store(word, 2, 1, on as u16),
            Change::GyrEnabled(on) => return bits::store(word, 1, 1, on as u16),
            Change::TempEnabled(on) => return bits::store(word, 3, 1, on as u16),
            Change::PowerSave(value) => return bits::store(word, 0, 1, value.bits() as u16),
            Change::AccOdr(value) => return bits::store(word, 0, 4, value.bits() as u16),
            Change::AccBwp(value) => return bits::store(word, 4, 3, value.bits() as u16),
            Change::AccFilter(value) => return bits::store(word, 7, 1, value.bits() as u16),
            Change::AccRange(value) => return bits::store(word, 0, 2, value.bits() as u16),
            Change::GyrOdr(value) => return bits::store(word, 0, 4, value.bits() as u16),
            Change::GyrBwp(value) => return bits::store(word, 4, 2, value.bits() as u16),
            Change::GyrNoise(value) => return bits::store(word, 6, 1, value.bits() as u16),
            Change::GyrFilter(value) => return bits::store(word, 7, 1, value.bits() as u16),
            Change::GyrRange(value) => return bits::store(word, 0, 3, value.bits() as u16),
            Change::Int1Io(pin) => return store_flags(
                word,
                1,
                pin.active_high,
                2,
                pin.open_drain,
                3,
                pin.output_en,
                4,
                pin.input_en,
            ),
            Change::Int2Io(pin) => return store_flags(
                word,
                1,
                pin.active_high,
                2,
                pin.open_drain,
                3,
                pin.output_en,
                4,
                pin.input_en,
            ),
            Change::Int1Map(pin) => return store_flags(
                word,
                1,
                pin.fifo_watermark,
                0,
                pin.fifo_full,
                2,
                pin.data_ready,
                3,
                pin.error,
            ),
            Change::Int2Map(pin) => return store_flags(
                word,
                5,
                pin.fifo_watermark,
                4,
                pin.fifo_full,
                6,
                pin.data_ready,
                7,
                pin.error,
            ),
            Change::FifoWatermark(level) => {
                assert(level & 0x1FFFu16 == level % 8192) by (bit_vector);
                return bits::store(word, 0, 13, level & 0x1FFF);
            },
            Change::FifoStopOnFull(on) => return bits::store(word, 0, 1, on as u16),
            Change::FifoTimeEn(on) => return bits::store(word, 1, 1, on as u16),
            Change::FifoHeaderEn(on) => return bits::store(word, 4, 1, on as u16),
            Change::FifoAccEn(on) => return bits::store(word, 6, 1, on as u16),
            Change::FifoGyrEn(on) => return bits::store(word, 7, 1, on as u16),
            Change::AccFifoDowns(downs) => {
                assert(downs & 0x07u8 == downs % 8) by (bit_vector);
                return bits::store(word, 4, 3, (downs & 0x07) as u16);
            },
            Change::GyrFifoDowns(downs) => {
                assert(downs & 0x07u8 == downs % 8) by (bit_vector);
                return bits::store(word, 0, 3, (downs & 0x07) as u16);
            },
            Change::AccFifoFilt(on) => return bits::store(word, 7, 1, on as u16),
            Change::GyrFifoFilt(on) => return bits::store(word, 3, 1, on as u16),
        }
    }
}

} // verus!

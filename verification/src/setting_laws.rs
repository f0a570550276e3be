//! What the methods that set something leave behind in the registers, in addresses and bits.
use crate::bits;
use crate::change::{self, Change, PinConfig, PinSources};
use crate::driver::{Bmi270, SetAccRange, SetGyrRange};
use crate::operation::{Command, Modify, Operation, Progress, Reply, Request};
use crate::registers::{
    AccBwpVariant, AccFilterPerf, AccOdrVariant, AccRangeVariant, GyrBwpVariant, GyrFilterPerf,
    GyrNoisePerf, GyrOdrVariant, GyrRangeVariant,
};
use vstd::prelude::*;

verus! {

/// `byte` with the bits of `mask` set or cleared, and every other bit as it was.
pub open spec fn switched(byte: u8, mask: u8, on: bool) -> u8 {
    if on {
        byte | mask
    } else {
        byte & !mask
    }
}

/// Whether an operation ends with what the bus fails with.
pub open spec fn fails_with_bus<E, O: Operation<E>>(
    operation: O,
    failure: spec_fn(E) -> O::Failure,
) -> bool {
    forall|error: E| #[trigger]
        operation.answered(Reply::<E>::Err(error)) == Progress::<O, O::Output, O::Failure>::Done(
            Err(failure(error)),
        )
}

/// Whether an operation succeeds with `output` as soon as the bus has done what it asks.
pub open spec fn succeeds_with_bus<E, O: Operation<E>>(operation: O, output: O::Output) -> bool {
    forall|data: Seq<u8>| #[trigger]
        operation.answered(Reply::<E>::Ok(data)) == Progress::<O, O::Output, O::Failure>::Done(
            Ok(output),
        )
}

/// Whether an operation reads the register at `address` and, when it holds `byte`, writes
/// `result` to the same register; whether it is then over and yields `output`; and whether it
/// ends, at either step, with what the bus fails with.
pub open spec fn rewrites<E, O: Operation<E>>(
    operation: O,
    address: u8,
    byte: u8,
    result: u8,
    output: O::Output,
    failure: spec_fn(E) -> O::Failure,
) -> bool {
    &&& operation.asks() == Request::Read { address, len: 1 }
    &&& fails_with_bus(operation, failure)
    &&& operation.answered(Reply::<E>::Ok(seq![byte])) matches Progress::Pending(next) && {
        &&& next.asks() == Request::Write { address, byte: result }
        &&& fails_with_bus(next, failure)
        &&& succeeds_with_bus(next, output)
    }
}

/// `rewrites`, for an operation that yields nothing.
pub open spec fn sets<E>(operation: Modify, address: u8, byte: u8, result: u8) -> bool {
    rewrites::<E, Modify>(operation, address, byte, result, (), |error: E| error)
}

/// Putting one bit into its place in a byte, in numbers and in bits.
proof fn lemma_switch_numbers(byte: u8)
    by (bit_vector)
    ensures
        byte - (byte / 1 % 2) * 1 == byte & !1u8,
        byte - (byte / 1 % 2) * 1 + 1 == byte | 1u8,
        byte - (byte / 2 % 2) * 2 == byte & !2u8,
        byte - (byte / 2 % 2) * 2 + 2 == byte | 2u8,
        byte - (byte / 4 % 2) * 4 == byte & !4u8,
        byte - (byte / 4 % 2) * 4 + 4 == byte | 4u8,
        byte - (byte / 8 % 2) * 8 == byte & !8u8,
        byte - (byte / 8 % 2) * 8 + 8 == byte | 8u8,
        byte - (byte / 16 % 2) * 16 == byte & !16u8,
        byte - (byte / 16 % 2) * 16 + 16 == byte | 16u8,
        byte - (byte / 32 % 2) * 32 == byte & !32u8,
        byte - (byte / 32 % 2) * 32 + 32 == byte | 32u8,
        byte - (byte / 64 % 2) * 64 == byte & !64u8,
        byte - (byte / 64 % 2) * 64 + 64 == byte | 64u8,
        byte - (byte / 128 % 2) * 128 == byte & !128u8,
        byte - (byte / 128 % 2) * 128 + 128 == byte | 128u8,
{
}

proof fn lemma_switch(byte: u8, mask: u8, on: bool)
    requires
        mask == 1 || mask == 2 || mask == 4 || mask == 8 || mask == 16 || mask == 32 || mask == 64
            || mask == 128,
    ensures
        bits::with_field(byte as int, mask as int, 2, change::flag(on)) == switched(byte, mask, on),
{
    lemma_switch_numbers(byte);
}

/// Putting a value into its place in a byte, in numbers and in bits.
proof fn lemma_value(byte: u8, value: u8)
    by (bit_vector)
    ensures
        value < 2 ==> byte - (byte / 1 % 2) * 1 + value == (byte & !0x01u8) | value,
        value < 4 ==> byte - (byte / 1 % 4) * 1 + value == (byte & !0x03u8) | value,
        value < 8 ==> byte - (byte / 1 % 8) * 1 + value == (byte & !0x07u8) | value,
        value < 16 ==> byte - (byte / 1 % 16) * 1 + value == (byte & !0x0Fu8) | value,
        value % 16 == 0 && value < 64 ==> byte - (byte / 16 % 4) * 16 + value == (byte & !0x30u8)
            | value,
        value % 16 == 0 && value < 128 ==> byte - (byte / 16 % 8) * 16 + value == (byte & !0x70u8)
            | value,
        value % 64 == 0 && value < 128 ==> byte - (byte / 64 % 2) * 64 + value == (byte & !0x40u8)
            | value,
        value % 128 == 0 ==> byte - (byte / 128 % 2) * 128 + value == (byte & !0x80u8) | value,
{
}

/// Switching the accelerometer on or off sets or clears bit 2 of the power switches.
pub proof fn law_set_acc_enabled<E>(driver: Bmi270, enabled: bool, byte: u8)
    ensures
        sets::<E>(
            driver.set_acc_enabled(enabled),
            0x7D,
            byte,
            switched(byte, 0x04, enabled),
        ),
{
    lemma_switch(byte, 0x04, enabled);
}

/// Switching the gyroscope on or off sets or clears bit 1 of the power switches.
pub proof fn law_set_gyr_enabled<E>(driver: Bmi270, enabled: bool, byte: u8)
    ensures
        sets::<E>(
            driver.set_gyr_enabled(enabled),
            0x7D,
            byte,
            switched(byte, 0x02, enabled),
        ),
{
    lemma_switch(byte, 0x02, enabled);
}

/// Switching the temperature sensor on or off sets or clears bit 3 of the power switches.
pub proof fn law_set_temp_enabled<E>(driver: Bmi270, enabled: bool, byte: u8)
    ensures
        sets::<E>(
            driver.set_temp_enabled(enabled),
            0x7D,
            byte,
            switched(byte, 0x08, enabled),
        ),
{
    lemma_switch(byte, 0x08, enabled);
}

/// Setting the advanced power save mode sets or clears bit 0 of the power configuration.
pub proof fn law_set_adv_power_save<E>(driver: Bmi270, on: bool, byte: u8)
    ensures
        sets::<E>(
            driver.set_adv_power_save(on),
            0x7C,
            byte,
            switched(byte, 0x01, on),
        ),
{
    lemma_switch(byte, 0x01, on);
}

/// Whether the FIFO stops when it is full is bit 0 of its first configuration byte.
pub proof fn law_set_fifo_stop_on_full<E>(driver: Bmi270, stop: bool, byte: u8)
    ensures
        sets::<E>(
            driver.set_fifo_stop_on_full(stop),
            0x48,
            byte,
            switched(byte, 0x01, stop),
        ),
{
    lemma_switch(byte, 0x01, stop);
}

/// Whether the FIFO ends with the sensor time is bit 1 of its first configuration byte.
pub proof fn law_set_fifo_time_en<E>(driver: Bmi270, enable: bool, byte: u8)
    ensures
        sets::<E>(
            driver.set_fifo_time_en(enable),
            0x48,
            byte,
            switched(byte, 0x02, enable),
        ),
{
    lemma_switch(byte, 0x02, enable);
}

/// Whether FIFO frames have a header is bit 4 of its second configuration byte.
pub proof fn law_set_fifo_header_en<E>(driver: Bmi270, enable: bool, byte: u8)
    ensures
        sets::<E>(
            driver.set_fifo_header_en(enable),
            0x49,
            byte,
            switched(byte, 0x10, enable),
        ),
{
    lemma_switch(byte, 0x10, enable);
}

/// Whether the FIFO stores accelerometer data is bit 6 of its second configuration byte.
pub proof fn law_set_fifo_acc_en<E>(driver: Bmi270, enable: bool, byte: u8)
    ensures
        sets::<E>(
            driver.set_fifo_acc_en(enable),
            0x49,
            byte,
            switched(byte, 0x40, enable),
        ),
{
    lemma_switch(byte, 0x40, enable);
}

/// Whether the FIFO stores gyroscope data is bit 7 of its second configuration byte.
pub proof fn law_set_fifo_gyr_en<E>(driver: Bmi270, enable: bool, byte: u8)
    ensures
        sets::<E>(
            driver.set_fifo_gyr_en(enable),
            0x49,
            byte,
            switched(byte, 0x80, enable),
        ),
{
    lemma_switch(byte, 0x80, enable);
}

/// Whether the FIFO stores filtered accelerometer data is bit 7 of the downsampling register.
pub proof fn law_set_acc_fifo_filt_data<E>(driver: Bmi270, filtered: bool, byte: u8)
    ensures
        sets::<E>(
            driver.set_acc_fifo_filt_data(filtered),
            0x45,
            byte,
            switched(byte, 0x80, filtered),
        ),
{
    lemma_switch(byte, 0x80, filtered);
}

/// Whether the FIFO stores filtered gyroscope data is bit 3 of the downsampling register.
pub proof fn law_set_gyr_fifo_filt_data<E>(driver: Bmi270, filtered: bool, byte: u8)
    ensures
        sets::<E>(
            driver.set_gyr_fifo_filt_data(filtered),
            0x45,
            byte,
            switched(byte, 0x08, filtered),
        ),
{
    lemma_switch(byte, 0x08, filtered);
}

/// The accelerometer output data rate is in bits 3 to 0 of its configuration. The other bits
/// stay.
pub proof fn law_set_acc_odr<E>(driver: Bmi270, odr: AccOdrVariant, byte: u8)
    ensures
        ({
            let value: u8 = match odr {
                AccOdrVariant::Hz0p78 => 0x01,
                AccOdrVariant::Hz1p5 => 0x02,
                AccOdrVariant::Hz3p1 => 0x03,
                AccOdrVariant::Hz6p25 => 0x04,
                AccOdrVariant::Hz12p5 => 0x05,
                AccOdrVariant::Hz25 => 0x06,
                AccOdrVariant::Hz50 => 0x07,
                AccOdrVariant::Hz100 => 0x08,
                AccOdrVariant::Hz200 => 0x09,
                AccOdrVariant::Hz400 => 0x0A,
                AccOdrVariant::Hz800 => 0x0B,
                AccOdrVariant::Hz1600 => 0x0C,
            };
            sets::<E>(driver.set_acc_odr(odr), 0x40, byte, (byte & !0x0Fu8) | value)
        }),
{
    lemma_value(byte, (odr.code() * 1) as u8);
}

/// The accelerometer bandwidth is in bits 6 to 4 of its configuration. The other bits stay.
pub proof fn law_set_acc_bwp<E>(driver: Bmi270, bwp: AccBwpVariant, byte: u8)
    ensures
        ({
            let value: u8 = match bwp {
                AccBwpVariant::Osr4Avg1 => 0x00,
                AccBwpVariant::Osr2Avg2 => 0x10,
                AccBwpVariant::NormAvg4 => 0x20,
                AccBwpVariant::CicAvg8 => 0x30,
                AccBwpVariant::ResAvg16 => 0x40,
                AccBwpVariant::ResAvg32 => 0x50,
                AccBwpVariant::ResAvg64 => 0x60,
                AccBwpVariant::ResAvg128 => 0x70,
            };
            sets::<E>(driver.set_acc_bwp(bwp), 0x40, byte, (byte & !0x70u8) | value)
        }),
{
    lemma_value(byte, (bwp.code() * 16) as u8);
}

/// The accelerometer filter performance is bit 7 of its configuration. The other bits stay.
pub proof fn law_set_acc_filter_perf<E>(driver: Bmi270, perf: AccFilterPerf, byte: u8)
    ensures
        ({
            let value: u8 = match perf {
                AccFilterPerf::PowerOptimized => 0x00,
                AccFilterPerf::HighPerformance => 0x80,
            };
            sets::<E>(driver.set_acc_filter_perf(perf), 0x40, byte, (byte & !0x80u8) | value)
        }),
{
    lemma_value(byte, (perf.code() * 128) as u8);
}

/// The gyroscope output data rate is in bits 3 to 0 of its configuration. The other bits stay.
pub proof fn law_set_gyr_odr<E>(driver: Bmi270, odr: GyrOdrVariant, byte: u8)
    ensures
        ({
            let value: u8 = match odr {
                GyrOdrVariant::Hz25 => 0x06,
                GyrOdrVariant::Hz50 => 0x07,
                GyrOdrVariant::Hz100 => 0x08,
                GyrOdrVariant::Hz200 => 0x09,
                GyrOdrVariant::Hz400 => 0x0A,
                GyrOdrVariant::Hz800 => 0x0B,
                GyrOdrVariant::Hz1600 => 0x0C,
                GyrOdrVariant::Hz3200 => 0x0D,
            };
            sets::<E>(driver.set_gyr_odr(odr), 0x42, byte, (byte & !0x0Fu8) | value)
        }),
{
    lemma_value(byte, (odr.code() * 1) as u8);
}

/// The gyroscope bandwidth is in bits 5 and 4 of its configuration. The other bits stay.
pub proof fn law_set_gyr_bwp<E>(driver: Bmi270, bwp: GyrBwpVariant, byte: u8)
    ensures
        ({
            let value: u8 = match bwp {
                GyrBwpVariant::Osr4 => 0x00,
                GyrBwpVariant::Osr2 => 0x10,
                GyrBwpVariant::Norm => 0x20,
            };
            sets::<E>(driver.set_gyr_bwp(bwp), 0x42, byte, (byte & !0x30u8) | value)
        }),
{
    lemma_value(byte, (bwp.code() * 16) as u8);
}

/// The gyroscope noise performance is bit 6 of its configuration. The other bits stay.
pub proof fn law_set_gyr_noise_perf<E>(driver: Bmi270, perf: GyrNoisePerf, byte: u8)
    ensures
        ({
            let value: u8 = match perf {
                GyrNoisePerf::PowerOptimized => 0x00,
                GyrNoisePerf::HighPerformance => 0x40,
            };
            sets::<E>(driver.set_gyr_noise_perf(perf), 0x42, byte, (byte & !0x40u8) | value)
        }),
{
    lemma_value(byte, (perf.code() * 64) as u8);
}

/// The gyroscope filter performance is bit 7 of its configuration. The other bits stay.
pub proof fn law_set_gyr_filter_perf<E>(driver: Bmi270, perf: GyrFilterPerf, byte: u8)
    ensures
        ({
            let value: u8 = match perf {
                GyrFilterPerf::PowerOptimized => 0x00,
                GyrFilterPerf::HighPerformance => 0x80,
            };
            sets::<E>(driver.set_gyr_filter_perf(perf), 0x42, byte, (byte & !0x80u8) | value)
        }),
{
    lemma_value(byte, (perf.code() * 128) as u8);
}

/// The accelerometer range is in bits 1 and 0 of its register. The driver that setting it yields
/// has the new range, and the gyroscope range that it had.
pub proof fn law_set_acc_range<E>(driver: Bmi270, range: AccRangeVariant, byte: u8)
    ensures
        ({
            let value: u8 = match range {
                AccRangeVariant::Gs2 => 0x00,
                AccRangeVariant::Gs4 => 0x01,
                AccRangeVariant::Gs8 => 0x02,
                AccRangeVariant::Gs16 => 0x03,
            };
            rewrites::<E, SetAccRange>(
                driver.set_acc_range(range),
                0x41,
                byte,
                (byte & !0x03u8) | value,
                Bmi270 { acc_range: range, gyr_range: driver.gyr_range },
                |error: E| error,
            )
        }),
{
    lemma_value(byte, range.code());
}

/// The gyroscope range is in bits 2 to 0 of its register. The driver that setting it yields has
/// the new range, and the accelerometer range that it had.
pub proof fn law_set_gyr_range<E>(driver: Bmi270, range: GyrRangeVariant, byte: u8)
    ensures
        ({
            let value: u8 = match range {
                GyrRangeVariant::Dps2000 => 0x00,
                GyrRangeVariant::Dps1000 => 0x01,
                GyrRangeVariant::Dps500 => 0x02,
                GyrRangeVariant::Dps250 => 0x03,
                GyrRangeVariant::Dps125 => 0x04,
            };
            rewrites::<E, SetGyrRange>(
                driver.set_gyr_range(range),
                0x43,
                byte,
                (byte & !0x07u8) | value,
                Bmi270 { acc_range: driver.acc_range, gyr_range: range },
                |error: E| error,
            )
        }),
{
    lemma_value(byte, range.code());
}

/// Four switches, in places of their own, do not disturb each other.
proof fn lemma_four_switches(
    byte: u8,
    a: u8,
    on_a: bool,
    b: u8,
    on_b: bool,
    c: u8,
    on_c: bool,
    d: u8,
    on_d: bool,
) -> (result: u8)
    requires
        (a, b, c, d) == (2u8, 4u8, 8u8, 16u8) || (a, b, c, d) == (2u8, 1u8, 4u8, 8u8) || (
            a,
            b,
            c,
            d,
        ) == (32u8, 16u8, 64u8, 128u8),
    ensures
        result == change::with_flags(
            byte as int,
            a as int,
            on_a,
            b as int,
            on_b,
            c as int,
            on_c,
            d as int,
            on_d,
        ),
        (result & a != 0) == on_a,
        (result & b != 0) == on_b,
        (result & c != 0) == on_c,
        (result & d != 0) == on_d,
        result & !(a | b | c | d) == byte & !(a | b | c | d),
{
    lemma_mask_numbers();
    let one = switched(byte, a, on_a);
    let two = switched(one, b, on_b);
    let three = switched(two, c, on_c);
    let four = switched(three, d, on_d);
    lemma_switch(byte, a, on_a);
    lemma_switch(one, b, on_b);
    lemma_switch(two, c, on_c);
    lemma_switch(three, d, on_d);
    assert({
        &&& (four & a != 0) == on_a
        &&& (four & b != 0) == on_b
        &&& (four & c != 0) == on_c
        &&& (four & d != 0) == on_d
        &&& four & !(a | b | c | d) == byte & !(a | b | c | d)
    }) by (bit_vector)
        requires
            a != 0 && b != 0 && c != 0 && d != 0,
            a & b == 0 && a & c == 0 && a & d == 0 && b & c == 0 && b & d == 0 && c & d == 0,
            one == if on_a { byte | a } else { byte & !a },
            two == if on_b { one | b } else { one & !b },
            three == if on_c { two | c } else { two & !c },
            four == if on_d { three | d } else { three & !d },
    ;
    four
}

/// What a change of a register of one byte writes back.
proof fn lemma_sets<E>(change: Change, byte: u8, result: u8)
    requires
        !change.wide(),
        change.applied(byte as int) == result,
    ensures
        sets::<E>(Modify::of(change), change.spec_address(), byte, result),
{
}

/// The behavior of the INT1 pin is in bits 4 to 1 of its register: bit 1 is its level, bit 2
/// whether it is an open drain, bit 3 whether it drives its line and bit 4 whether it listens.
/// The other bits stay.
pub proof fn law_configure_int1<E>(
    driver: Bmi270,
    active_high: bool,
    open_drain: bool,
    output_en: bool,
    input_en: bool,
    byte: u8,
)
    ensures
        exists|result: u8|
            #![trigger sets::<E>(driver.configure_int1(active_high, open_drain, output_en, input_en), 0x53, byte, result)]
            {
                &&& sets::<E>(
                    driver.configure_int1(active_high, open_drain, output_en, input_en),
                    0x53,
                    byte,
                    result,
                )
                &&& (result & 0x02u8 != 0) == active_high
                &&& (result & 0x04u8 != 0) == open_drain
                &&& (result & 0x08u8 != 0) == output_en
                &&& (result & 0x10u8 != 0) == input_en
                &&& result & 0xE1u8 == byte & 0xE1u8
            },
{
    lemma_mask_numbers();
    let result = lemma_four_switches(
        byte,
        0x02,
        active_high,
        0x04,
        open_drain,
        0x08,
        output_en,
        0x10,
        input_en,
    );
    let change = Change::Int1Io(PinConfig { active_high, open_drain, output_en, input_en });
    lemma_sets::<E>(change, byte, result);
}

/// The behavior of the INT2 pin is in bits 4 to 1 of its register, as it is for INT1. The other
/// bits stay.
pub proof fn law_configure_int2<E>(
    driver: Bmi270,
    active_high: bool,
    open_drain: bool,
    output_en: bool,
    input_en: bool,
    byte: u8,
)
    ensures
        exists|result: u8|
            #![trigger sets::<E>(driver.configure_int2(active_high, open_drain, output_en, input_en), 0x54, byte, result)]
            {
                &&& sets::<E>(
                    driver.configure_int2(active_high, open_drain, output_en, input_en),
                    0x54,
                    byte,
                    result,
                )
                &&& (result & 0x02u8 != 0) == active_high
                &&& (result & 0x04u8 != 0) == open_drain
                &&& (result & 0x08u8 != 0) == output_en
                &&& (result & 0x10u8 != 0) == input_en
                &&& result & 0xE1u8 == byte & 0xE1u8
            },
{
    lemma_mask_numbers();
    let result = lemma_four_switches(
        byte,
        0x02,
        active_high,
        0x04,
        open_drain,
        0x08,
        output_en,
        0x10,
        input_en,
    );
    let change = Change::Int2Io(PinConfig { active_high, open_drain, output_en, input_en });
    lemma_sets::<E>(change, byte, result);
}

/// What the INT1 pin signals is in the low half of the interrupt map: bit 0 for a full FIFO, bit
/// 1 for its watermark, bit 2 for a sample that is ready and bit 3 for an error. The other bits
/// stay.
pub proof fn law_map_int1<E>(
    driver: Bmi270,
    fifo_watermark: bool,
    fifo_full: bool,
    data_ready: bool,
    error: bool,
    byte: u8,
)
    ensures
        exists|result: u8|
            #![trigger sets::<E>(driver.map_int1(fifo_watermark, fifo_full, data_ready, error), 0x58, byte, result)]
            {
                &&& sets::<E>(
                    driver.map_int1(fifo_watermark, fifo_full, data_ready, error),
                    0x58,
                    byte,
                    result,
                )
                &&& (result & 0x01u8 != 0) == fifo_full
                &&& (result & 0x02u8 != 0) == fifo_watermark
                &&& (result & 0x04u8 != 0) == data_ready
                &&& (result & 0x08u8 != 0) == error
                &&& result & 0xF0u8 == byte & 0xF0u8
            },
{
    lemma_mask_numbers();
    let result = lemma_four_switches(
        byte,
        0x02,
        fifo_watermark,
        0x01,
        fifo_full,
        0x04,
        data_ready,
        0x08,
        error,
    );
    let change = Change::Int1Map(PinSources { fifo_watermark, fifo_full, data_ready, error });
    lemma_sets::<E>(change, byte, result);
}

/// What the INT2 pin signals is in the high half of the interrupt map: bit 4 for a full FIFO, bit
/// 5 for its watermark, bit 6 for a sample that is ready and bit 7 for an error. The other bits
/// stay.
pub proof fn law_map_int2<E>(
    driver: Bmi270,
    fifo_watermark: bool,
    fifo_full: bool,
    data_ready: bool,
    error: bool,
    byte: u8,
)
    ensures
        exists|result: u8|
            #![trigger sets::<E>(driver.map_int2(fifo_watermark, fifo_full, data_ready, error), 0x58, byte, result)]
            {
                &&& sets::<E>(
                    driver.map_int2(fifo_watermark, fifo_full, data_ready, error),
                    0x58,
                    byte,
                    result,
                )
                &&& (result & 0x10u8 != 0) == fifo_full
                &&& (result & 0x20u8 != 0) == fifo_watermark
                &&& (result & 0x40u8 != 0) == data_ready
                &&& (result & 0x80u8 != 0) == error
                &&& result & 0x0Fu8 == byte & 0x0Fu8
            },
{
    lemma_mask_numbers();
    let result = lemma_four_switches(
        byte,
        0x20,
        fifo_watermark,
        0x10,
        fifo_full,
        0x40,
        data_ready,
        0x80,
        error,
    );
    let change = Change::Int2Map(PinSources { fifo_watermark, fifo_full, data_ready, error });
    lemma_sets::<E>(change, byte, result);
}

proof fn lemma_mask_numbers()
    by (bit_vector)
    ensures
        !(2u8 | 4u8 | 8u8 | 16u8) == 0xE1u8,
        !(2u8 | 1u8 | 4u8 | 8u8) == 0xF0u8,
        !(32u8 | 16u8 | 64u8 | 128u8) == 0x0Fu8,
        2u8 & 4u8 == 0 && 2u8 & 8u8 == 0 && 2u8 & 16u8 == 0 && 4u8 & 8u8 == 0 && 4u8 & 16u8 == 0
            && 8u8 & 16u8 == 0,
        2u8 & 1u8 == 0 && 1u8 & 4u8 == 0 && 1u8 & 8u8 == 0,
        32u8 & 16u8 == 0 && 32u8 & 64u8 == 0 && 32u8 & 128u8 == 0 && 16u8 & 64u8 == 0 && 16u8
            & 128u8 == 0 && 64u8 & 128u8 == 0,
{
}

/// The accelerometer FIFO downsampling is in bits 6 to 4 of the downsampling register; of the
/// number that is given, the low three bits count.
pub proof fn law_set_acc_fifo_downs<E>(driver: Bmi270, downs: u8, byte: u8)
    ensures
        sets::<E>(
            driver.set_acc_fifo_downs(downs),
            0x45,
            byte,
            (byte & !0x70u8) | ((downs & 0x07u8) << 4u8),
        ),
{
    lemma_value(byte, (downs % 8 * 16) as u8);
    assert(downs & 0x07u8 == downs % 8 && (downs & 0x07u8) << 4u8 == downs % 8 * 16) by (bit_vector);
}

/// The gyroscope FIFO downsampling is in bits 2 to 0 of the downsampling register; of the number
/// that is given, the low three bits count.
pub proof fn law_set_gyr_fifo_downs<E>(driver: Bmi270, downs: u8, byte: u8)
    ensures
        sets::<E>(
            driver.set_gyr_fifo_downs(downs),
            0x45,
            byte,
            (byte & !0x07u8) | (downs & 0x07u8),
        ),
{
    lemma_value(byte, (downs % 8 * 1) as u8);
    assert(downs & 0x07u8 == downs % 8 && (downs & 0x07u8) << 4u8 == downs % 8 * 16) by (bit_vector);
}

proof fn lemma_watermark(level: u16, low: u8, high: u8) -> (result: u16)
    ensures
        result == Change::FifoWatermark(level).applied(bits::pair(low, high)),
        (result % 256) as u8 == (level & 0x00FF) as u8,
        (result / 256) as u8 == (high & 0xE0u8) | ((level >> 8u16) & 0x1F) as u8,
{
    let word = bits::pair(low, high);
    let result = (word - word % 8192 + level % 8192) as u16;
    let top = (level % 8192 / 256) as u8;
    assert(level & 0x00FF == level % 256 && (level >> 8u16) & 0x1F == level % 8192 / 256)
        by (bit_vector);
    assert(top < 32 ==> high - high % 32 + top == (high & 0xE0u8) | top) by (bit_vector);
    assert(word % 8192 == low + 256 * (high % 32));
    assert(result == 256 * (high - high % 32) + level % 8192);
    assert(result / 256 == high - high % 32 + top);
    assert(result % 256 == level % 256);
    result
}

/// The FIFO watermark is a number of 13 bits: the low byte comes first, and the upper three
/// bits of the high byte stay. Of the level that is given, the low 13 bits count.
pub proof fn law_set_fifo_watermark<E>(driver: Bmi270, level: u16, low: u8, high: u8)
    ensures
        ({
            let operation = driver.set_fifo_watermark(level);
            &&& Operation::<E>::asks(operation) == (Request::Read { address: 0x46, len: 2 })
            &&& fails_with_bus::<E, Modify>(operation, |error: E| error)
            &&& operation.answered(Reply::<E>::Ok(seq![low, high])) matches Progress::Pending(next)
                && {
                &&& Operation::<E>::asks(next) == (Request::WritePair {
                    address: 0x46,
                    low: (level & 0x00FF) as u8,
                    high: (high & 0xE0u8) | ((level >> 8u16) & 0x1F) as u8,
                })
                &&& fails_with_bus::<E, Modify>(next, |error: E| error)
                &&& succeeds_with_bus::<E, Modify>(next, ())
            }
        }),
{
    let result = lemma_watermark(level, low, high);
    assert(Modify::of(Change::FifoWatermark(level)).word(seq![low, high]) == bits::pair(low, high));
}

/// Resetting the chip writes 0xB6 to the command register.
pub proof fn law_soft_reset<E>(driver: Bmi270)
    ensures
        ({
            let operation = driver.soft_reset();
            &&& Operation::<E>::asks(operation) == (Request::Write { address: 0x7E, byte: 0xB6 })
            &&& fails_with_bus::<E, Command>(operation, |error: E| error)
            &&& succeeds_with_bus::<E, Command>(operation, ())
        }),
{
}

/// Emptying the FIFO writes 0xB0 to the command register.
pub proof fn law_fifo_flush<E>(driver: Bmi270)
    ensures
        ({
            let operation = driver.fifo_flush();
            &&& Operation::<E>::asks(operation) == (Request::Write { address: 0x7E, byte: 0xB0 })
            &&& fails_with_bus::<E, Command>(operation, |error: E| error)
            &&& succeeds_with_bus::<E, Command>(operation, ())
        }),
{
}

/// Switching something on and switching it off never leave the same register behind.
pub proof fn law_switches_differ(byte: u8, mask: u8)
    requires
        mask != 0,
    ensures
        switched(byte, mask, true) != switched(byte, mask, false),
        switched(byte, mask, true) & mask == mask,
        switched(byte, mask, false) & mask == 0,
        switched(byte, mask, true) & !mask == byte & !mask,
        switched(byte, mask, false) & !mask == byte & !mask,
{
    assert((byte | mask) & mask == mask && (byte & !mask) & mask == 0 && (byte | mask) & !mask
        == byte & !mask && (byte & !mask) & !mask == byte & !mask) by (bit_vector);
}

} // verus!

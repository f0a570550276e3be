//! What values of registers mean, and where the registers are.
use crate::driver::{SetAccRange, SetGyrRange};
use crate::operation::{Command, Modify, Operation, Request, LONGEST_READ};
use crate::readout::{
    self, AccRaw, AccReady, AccReadyInt, AccScaled, ChipId, CmdReady, ErrReg, Event, FifoLength,
    GyrRaw, GyrReady, GyrReadyInt, GyrScaled, InitStatus, Read, Readout, SensorTime, Temperature,
};
use crate::registers::{
    AccBwpVariant, AccFilterPerf, AccOdrVariant, AccRangeVariant, AdvPowerSave, CmdVariant,
    ErrorCodeVariant, GyrBwpVariant, GyrFilterPerf, GyrNoisePerf, GyrOdrVariant, GyrRangeVariant,
    InitCtrlVariant, InitStatusVariant, FULL_SCALE_STEPS, TEMP_AT_ZERO, TEMP_STEPS,
};
use crate::startup::Initialize;
use vstd::prelude::*;

verus! {

/// Different values of `AdvPowerSave` have different numbers.
pub proof fn law_adv_power_save_codes_differ(a: AdvPowerSave, b: AdvPowerSave)
    ensures
        a.code() == b.code() ==> a == b,
{
}

/// Different values of `AccOdrVariant` have different numbers.
pub proof fn law_acc_odr_codes_differ(a: AccOdrVariant, b: AccOdrVariant)
    ensures
        a.code() == b.code() ==> a == b,
{
}

/// Different values of `AccBwpVariant` have different numbers.
pub proof fn law_acc_bwp_codes_differ(a: AccBwpVariant, b: AccBwpVariant)
    ensures
        a.code() == b.code() ==> a == b,
{
}

/// Different values of `AccFilterPerf` have different numbers.
pub proof fn law_acc_filter_perf_codes_differ(a: AccFilterPerf, b: AccFilterPerf)
    ensures
        a.code() == b.code() ==> a == b,
{
}

/// Different values of `AccRangeVariant` have different numbers.
pub proof fn law_acc_range_codes_differ(a: AccRangeVariant, b: AccRangeVariant)
    ensures
        a.code() == b.code() ==> a == b,
{
}

/// Different values of `GyrOdrVariant` have different numbers.
pub proof fn law_gyr_odr_codes_differ(a: GyrOdrVariant, b: GyrOdrVariant)
    ensures
        a.code() == b.code() ==> a == b,
{
}

/// Different values of `GyrBwpVariant` have different numbers.
pub proof fn law_gyr_bwp_codes_differ(a: GyrBwpVariant, b: GyrBwpVariant)
    ensures
        a.code() == b.code() ==> a == b,
{
}

/// Different values of `GyrNoisePerf` have different numbers.
pub proof fn law_gyr_noise_perf_codes_differ(a: GyrNoisePerf, b: GyrNoisePerf)
    ensures
        a.code() == b.code() ==> a == b,
{
}

/// Different values of `GyrFilterPerf` have different numbers.
pub proof fn law_gyr_filter_perf_codes_differ(a: GyrFilterPerf, b: GyrFilterPerf)
    ensures
        a.code() == b.code() ==> a == b,
{
}

/// Different values of `GyrRangeVariant` have different numbers.
pub proof fn law_gyr_range_codes_differ(a: GyrRangeVariant, b: GyrRangeVariant)
    ensures
        a.code() == b.code() ==> a == b,
{
}

/// Different values of `InitCtrlVariant` have different numbers.
pub proof fn law_init_ctrl_codes_differ(a: InitCtrlVariant, b: InitCtrlVariant)
    ensures
        a.code() == b.code() ==> a == b,
{
}

/// Different values of `CmdVariant` have different numbers.
pub proof fn law_cmd_codes_differ(a: CmdVariant, b: CmdVariant)
    ensures
        a.code() == b.code() ==> a == b,
{
}

/// Different numbers are different values of `ErrorCodeVariant`.
pub proof fn law_error_codes_differ(a: u8, b: u8)
    ensures
        ErrorCodeVariant::spec_from_bits(a) == ErrorCodeVariant::spec_from_bits(b) ==> a == b,
{
}

/// Different numbers are different values of `InitStatusVariant`.
pub proof fn law_init_statuses_differ(a: u8, b: u8)
    ensures
        InitStatusVariant::spec_from_bits(a) == InitStatusVariant::spec_from_bits(b) ==> a == b,
{
}

/// The two bytes that hold a number in two's complement, the low byte first.
pub open spec fn word_bytes(number: i16) -> Seq<u8> {
    let word = if number >= 0 {
        number as int
    } else {
        number + 65536
    };
    seq![(word % 256) as u8, (word / 256) as u8]
}

/// What the steps stand for: a measurement of full scale counts 32768 of them; a degree counts
/// 512, from 23 degrees on. No more bytes are read at once than a sample has, which is six.
pub proof fn law_steps()
    ensures
        FULL_SCALE_STEPS == 32768,
        TEMP_STEPS == 512,
        TEMP_AT_ZERO == 23,
        LONGEST_READ == 6,
{
}

/// The bytes that hold a number make it again, the first counting units and the second 256s;
/// a negative number is 65536 less than what they make.
pub proof fn law_word_bytes_make_the_number(number: i16)
    ensures
        word_bytes(number).len() == 2,
        number >= 0 ==> word_bytes(number)[0] + 256 * word_bytes(number)[1] == number,
        number < 0 ==> word_bytes(number)[0] + 256 * word_bytes(number)[1] == number + 65536,
{
}

/// The values that the numbers of the firmware state stand for: 0 to 7 have a meaning, and all
/// others are kept as they are.
pub proof fn law_init_status_numbers(code: u8)
    ensures
        InitStatusVariant::from_bits(0) == InitStatusVariant::NotInit,
        InitStatusVariant::from_bits(1) == InitStatusVariant::InitOk,
        InitStatusVariant::from_bits(2) == InitStatusVariant::InitErr,
        InitStatusVariant::from_bits(3) == InitStatusVariant::DrvErr,
        InitStatusVariant::from_bits(4) == InitStatusVariant::SnsStop,
        InitStatusVariant::from_bits(5) == InitStatusVariant::NvmError,
        InitStatusVariant::from_bits(6) == InitStatusVariant::StartUpError,
        InitStatusVariant::from_bits(7) == InitStatusVariant::CompatError,
        code >= 8 ==> InitStatusVariant::from_bits(code) == InitStatusVariant::Reserved(code),
{
}

/// The values that the numbers of configuration errors stand for: 0 to 3 have a meaning, and
/// all others are kept as they are.
pub proof fn law_error_code_numbers(code: u8)
    ensures
        ErrorCodeVariant::from_bits(0) == ErrorCodeVariant::NoError,
        ErrorCodeVariant::from_bits(1) == ErrorCodeVariant::AccErr,
        ErrorCodeVariant::from_bits(2) == ErrorCodeVariant::GyrErr,
        ErrorCodeVariant::from_bits(3) == ErrorCodeVariant::AccAndGyrErr,
        code >= 4 ==> ErrorCodeVariant::from_bits(code) == ErrorCodeVariant::Reserved(code),
{
}

/// Each accelerometer range is twice the one before, from 2 g on.
pub proof fn law_acc_full_scales()
    ensures
        AccRangeVariant::Gs2.full_scale() == 2,
        AccRangeVariant::Gs4.full_scale() == 2 * AccRangeVariant::Gs2.full_scale(),
        AccRangeVariant::Gs8.full_scale() == 2 * AccRangeVariant::Gs4.full_scale(),
        AccRangeVariant::Gs16.full_scale() == 2 * AccRangeVariant::Gs8.full_scale(),
{
}

/// Each gyroscope range is twice the one before, from 125 deg/s on.
pub proof fn law_gyr_full_scales()
    ensures
        GyrRangeVariant::Dps125.full_scale() == 125,
        GyrRangeVariant::Dps250.full_scale() == 2 * GyrRangeVariant::Dps125.full_scale(),
        GyrRangeVariant::Dps500.full_scale() == 2 * GyrRangeVariant::Dps250.full_scale(),
        GyrRangeVariant::Dps1000.full_scale() == 2 * GyrRangeVariant::Dps500.full_scale(),
        GyrRangeVariant::Dps2000.full_scale() == 2 * GyrRangeVariant::Dps1000.full_scale(),
{
}

/// An axis can measure every number of 16 bits: it is the one that its two bytes hold.
pub proof fn law_axis_holds_every_number(number: i16)
    ensures
        readout::axis(word_bytes(number), 0) == number,
{
}

/// A measurement stays in the range that was configured: `raw * full_scale / 32768` lies
/// between `-full_scale` and `full_scale`, and is never `full_scale` itself.
pub proof fn law_measurement_is_in_range(raw: i16, full_scale: u16)
    ensures
        -(full_scale * FULL_SCALE_STEPS) <= raw * full_scale <= full_scale * FULL_SCALE_STEPS,
        full_scale > 0 ==> raw * full_scale < full_scale * FULL_SCALE_STEPS,
{
    assert(-(full_scale * 32768) <= raw * full_scale <= full_scale * 32768) by (nonlinear_arith)
        requires
            -32768 <= raw <= 32767,
            0 <= full_scale,
    ;
    assert(full_scale > 0 ==> raw * full_scale < full_scale * 32768) by (nonlinear_arith)
        requires
            raw <= 32767,
    ;
}

/// The register reads 0 at 23 degrees Celsius, and each step more is 1/512 degree more: where
/// the two bytes of the register hold `number`, the temperature is that many steps above 23
/// degrees. Over 512 steps it goes up by one degree.
pub proof fn law_temperature_scale(number: i16)
    ensures
        ({
            let data = word_bytes(number);
            &&& Temperature.meaning(data) == TEMP_AT_ZERO * TEMP_STEPS + number
            &&& number == 0 ==> Temperature.meaning(data) == 23 * TEMP_STEPS
            &&& number <= i16::MAX - 512 ==> Temperature.meaning(word_bytes((number + 512) as i16))
                == Temperature.meaning(data) + TEMP_STEPS
        }),
{
    law_axis_holds_every_number(number);
    if number <= i16::MAX - 512 {
        law_axis_holds_every_number((number + 512) as i16);
    }
}

/// The counters have as many bits as they are said to have: 24 for the sensor time, 14 for
/// the FIFO level and 4 for the internal error.
pub proof fn law_counters_are_bounded(data: Seq<u8>)
    ensures
        SensorTime.meaning(data) < 16777216,
        FifoLength.meaning(data) < 16384,
        ErrReg.meaning(data).1 < 16,
{
}

/// Whether a request stays among the registers, whose addresses have seven bits, and reads at
/// most `LONGEST_READ` of them.
pub open spec fn stays_in_bank(request: Request) -> bool {
    match request {
        Request::Read { address, len } => address + len <= 128 && len <= LONGEST_READ,
        Request::Write { address, byte } => address < 128,
        Request::WritePair { address, low, high } => address + 1 < 128,
        _ => true,
    }
}

/// No operation asks for anything but the registers, or for more than `LONGEST_READ` bytes.
pub proof fn law_operations_stay_in_bank<'a, E>(
    modify: Modify,
    command: Command,
    acc: SetAccRange,
    gyr: SetGyrRange,
    initialize: Initialize<'a>,
)
    ensures
        stays_in_bank(Operation::<E>::asks(modify)),
        stays_in_bank(Operation::<E>::asks(command)),
        stays_in_bank(Operation::<E>::asks(acc)),
        stays_in_bank(Operation::<E>::asks(gyr)),
        stays_in_bank(Operation::<E>::asks(initialize)),
{
}

/// No readout asks for anything but the registers, or for more than `LONGEST_READ` bytes.
pub proof fn law_readouts_stay_in_bank<E>(acc: AccScaled, gyr: GyrScaled)
    ensures
        stays_in_bank(Operation::<E>::asks(Read { readout: ChipId })),
        stays_in_bank(Operation::<E>::asks(Read { readout: AccRaw })),
        stays_in_bank(Operation::<E>::asks(Read { readout: GyrRaw })),
        stays_in_bank(Operation::<E>::asks(Read { readout: Temperature })),
        stays_in_bank(Operation::<E>::asks(Read { readout: AccReady })),
        stays_in_bank(Operation::<E>::asks(Read { readout: GyrReady })),
        stays_in_bank(Operation::<E>::asks(Read { readout: CmdReady })),
        stays_in_bank(Operation::<E>::asks(Read { readout: AccReadyInt })),
        stays_in_bank(Operation::<E>::asks(Read { readout: GyrReadyInt })),
        stays_in_bank(Operation::<E>::asks(Read { readout: Event })),
        stays_in_bank(Operation::<E>::asks(Read { readout: ErrReg })),
        stays_in_bank(Operation::<E>::asks(Read { readout: InitStatus })),
        stays_in_bank(Operation::<E>::asks(Read { readout: SensorTime })),
        stays_in_bank(Operation::<E>::asks(Read { readout: FifoLength })),
        stays_in_bank(Operation::<E>::asks(Read { readout: acc })),
        stays_in_bank(Operation::<E>::asks(Read { readout: gyr })),
{
}

} // verus!

//! What the methods that read something yield, in addresses, bytes and bits.
use crate::driver::Bmi270;
use crate::operation::{Operation, Progress, Reply, Request};
use crate::readout::{
    self, AccRaw, AccReady, AccReadyInt, AccScaled, ChipId, CmdReady, ErrReg, Event, FifoLength,
    GyrRaw, GyrReady, GyrReadyInt, GyrScaled, InitStatus, Read, Readout, Scaled, SensorTime,
    Temperature,
};
use crate::register_laws;
use crate::registers::{AccRangeVariant, ErrorCodeVariant, GyrRangeVariant, InitStatusVariant};
use crate::setting_laws;
use vstd::prelude::*;

verus! {

/// Whether an operation reads as many registers as there are bytes in `data`, from `address`
/// on, yields `value` when they hold these bytes, and ends with what the bus fails with.
pub open spec fn yields<E, R: Readout>(
    operation: Read<R>,
    address: u8,
    data: Seq<u8>,
    value: R::Value,
) -> bool {
    &&& Operation::<E>::asks(operation) == (Request::Read { address, len: data.len() as usize })
    &&& operation.answered(Reply::<E>::Ok(data)) == Progress::<Read<R>, R::Value, E>::Done(
        Ok(value),
    )
    &&& setting_laws::fails_with_bus::<E, Read<R>>(operation, |error: E| error)
}

/// Fields of a byte, in numbers and in bits.
proof fn lemma_fields(byte: u8)
    by (bit_vector)
    ensures
        (byte / 1 % 2 != 0) == (byte & 0x01u8 != 0),
        (byte / 16 % 2 != 0) == (byte & 0x10u8 != 0),
        (byte / 64 % 2 != 0) == (byte & 0x40u8 != 0),
        (byte / 128 % 2 != 0) == (byte & 0x80u8 != 0),
        byte / 1 % 16 == byte & 0x0Fu8,
        byte / 2 % 16 == (byte >> 1u8) & 0x0Fu8,
        byte / 4 % 8 == (byte >> 2u8) & 0x07u8,
        byte % 64 == byte & 0x3Fu8,
{
}

/// The chip ID is what register 0x00 holds.
pub proof fn law_read_chip_id<E>(driver: Bmi270, byte: u8)
    ensures
        yields::<E, ChipId>(driver.read_chip_id(), 0x00, seq![byte], byte),
{
}

/// An accelerometer sample is ready if and only if bit 7 of the status is set, whatever its other
/// bits are.
pub proof fn law_data_ready_acc<E>(driver: Bmi270, byte: u8)
    ensures
        yields::<E, AccReady>(driver.data_ready_acc(), 0x03, seq![byte], byte & 0x80u8 != 0),
{
    lemma_fields(byte);
}

/// A gyroscope sample is ready if and only if bit 6 of the status is set, whatever its other bits
/// are.
pub proof fn law_data_ready_gyr<E>(driver: Bmi270, byte: u8)
    ensures
        yields::<E, GyrReady>(driver.data_ready_gyr(), 0x03, seq![byte], byte & 0x40u8 != 0),
{
    lemma_fields(byte);
}

/// The accelerometer interrupt has come if and only if bit 7 of the interrupt status is set,
/// whatever its other bits are.
pub proof fn law_data_ready_int_acc<E>(driver: Bmi270, byte: u8)
    ensures
        yields::<E, AccReadyInt>(driver.data_ready_int_acc(), 0x1D, seq![byte], byte & 0x80u8 != 0),
{
    lemma_fields(byte);
}

/// The gyroscope interrupt has come if and only if bit 6 of the interrupt status is set, whatever
/// its other bits are.
pub proof fn law_data_ready_int_gyr<E>(driver: Bmi270, byte: u8)
    ensures
        yields::<E, GyrReadyInt>(driver.data_ready_int_gyr(), 0x1D, seq![byte], byte & 0x40u8 != 0),
{
    lemma_fields(byte);
}

/// The chip takes a command if and only if bit 4 of the status is set, whatever its other bits
/// are.
pub proof fn law_cmd_ready<E>(byte: u8)
    ensures
        yields::<E, CmdReady>(Read { readout: CmdReady }, 0x03, seq![byte], byte & 0x10u8 != 0),
{
    lemma_fields(byte);
}

/// The state of the firmware is told by the low four bits of its register, whatever the other
/// bits are.
pub proof fn law_init_status<E>(byte: u8)
    ensures
        ({
            let number = byte & 0x0Fu8;
            let status = if number == 0 {
                InitStatusVariant::NotInit
            } else if number == 1 {
                InitStatusVariant::InitOk
            } else if number == 2 {
                InitStatusVariant::InitErr
            } else if number == 3 {
                InitStatusVariant::DrvErr
            } else if number == 4 {
                InitStatusVariant::SnsStop
            } else if number == 5 {
                InitStatusVariant::NvmError
            } else if number == 6 {
                InitStatusVariant::StartUpError
            } else if number == 7 {
                InitStatusVariant::CompatError
            } else {
                InitStatusVariant::Reserved(number)
            };
            yields::<E, InitStatus>(Read { readout: InitStatus }, 0x21, seq![byte], status)
        }),
{
    lemma_fields(byte);
}

/// An event is told by bit 0 of its register, for a power-on, and bits 4 to 2, for the
/// configuration error.
pub proof fn law_read_event<E>(driver: Bmi270, byte: u8)
    ensures
        ({
            let number = (byte >> 2u8) & 0x07u8;
            let error = if number == 0 {
                ErrorCodeVariant::NoError
            } else if number == 1 {
                ErrorCodeVariant::AccErr
            } else if number == 2 {
                ErrorCodeVariant::GyrErr
            } else if number == 3 {
                ErrorCodeVariant::AccAndGyrErr
            } else {
                ErrorCodeVariant::Reserved(number)
            };
            yields::<E, Event>(
                driver.read_event(),
                0x1B,
                seq![byte],
                (byte & 0x01u8 != 0, error),
            )
        }),
{
    lemma_fields(byte);
}

/// The error flags are bit 0, for a fatal error, bits 4 to 1, for the internal error, bit 6,
/// for the FIFO, and bit 7, for the auxiliary interface.
pub proof fn law_read_err_reg<E>(driver: Bmi270, byte: u8)
    ensures
        yields::<E, ErrReg>(
            driver.read_err_reg(),
            0x02,
            seq![byte],
            (
                byte & 0x01u8 != 0,
                (byte >> 1u8) & 0x0Fu8,
                byte & 0x40u8 != 0,
                byte & 0x80u8 != 0,
            ),
        ),
{
    lemma_fields(byte);
}

/// The sensor time has three bytes, the lowest first.
pub proof fn law_read_sensortime<E>(driver: Bmi270, low: u8, middle: u8, high: u8)
    ensures
        yields::<E, SensorTime>(
            driver.read_sensortime(),
            0x18,
            seq![low, middle, high],
            (low as u32) | ((middle as u32) << 8u32) | ((high as u32) << 16u32),
        ),
{
    let (l, m, h) = (low as u32, middle as u32, high as u32);
    assert(l | (m << 8u32) | (h << 16u32) == l + 256 * m + 65536 * h) by (bit_vector)
        requires
            l < 256 && m < 256 && h < 256,
    ;
}

/// The FIFO level has 14 bits: the low byte, and the low six bits of the high byte.
pub proof fn law_read_fifo_length<E>(driver: Bmi270, low: u8, high: u8)
    ensures
        yields::<E, FifoLength>(
            driver.read_fifo_length(),
            0x24,
            seq![low, high],
            (low as u16) | (((high & 0x3Fu8) as u16) << 8u16),
        ),
{
    lemma_fields(high);
    let (l, h) = (low as u16, (high & 0x3Fu8) as u16);
    assert(l | (h << 8u16) == l + 256 * h) by (bit_vector)
        requires
            l < 256 && h < 64,
    ;
    assert((low + 256 * high) % 16384 == low + 256 * (high % 64));
}

/// The six bytes that hold the axes of a sample: X, Y and Z, in two's complement, the low byte
/// first.
pub open spec fn sample_bytes(x: i16, y: i16, z: i16) -> Seq<u8> {
    register_laws::word_bytes(x) + register_laws::word_bytes(y) + register_laws::word_bytes(z)
}

/// Every six bytes are those of a sample.
pub proof fn law_bytes_are_a_sample(data: Seq<u8>)
    requires
        data.len() == 6,
    ensures
        exists|x: i16, y: i16, z: i16| data == #[trigger] sample_bytes(x, y, z),
{
    let (x, y, z) = (readout::axis(data, 0), readout::axis(data, 2), readout::axis(data, 4));
    assert(register_laws::word_bytes(x) =~= seq![data[0], data[1]]);
    assert(register_laws::word_bytes(y) =~= seq![data[2], data[3]]);
    assert(register_laws::word_bytes(z) =~= seq![data[4], data[5]]);
    assert(data =~= sample_bytes(x, y, z));
}

proof fn lemma_sample(x: i16, y: i16, z: i16)
    ensures
        sample_bytes(x, y, z).len() == 6,
        readout::axes(sample_bytes(x, y, z)) == [x, y, z],
{
    let data = sample_bytes(x, y, z);
    register_laws::law_axis_holds_every_number(x);
    register_laws::law_axis_holds_every_number(y);
    register_laws::law_axis_holds_every_number(z);
    assert(readout::axis(data, 0) == x);
    assert(readout::axis(data, 2) == y);
    assert(readout::axis(data, 4) == z);
}

/// The raw accelerometer readout yields the three numbers that the registers hold.
pub proof fn law_read_acc_raw<E>(driver: Bmi270, x: i16, y: i16, z: i16)
    ensures
        yields::<E, AccRaw>(driver.read_acc_raw(), 0x0C, sample_bytes(x, y, z), [x, y, z]),
{
    lemma_sample(x, y, z);
}

/// The scaled accelerometer readout yields the three numbers that the registers hold, with the
/// full scale of the range that the driver has.
pub proof fn law_read_acc_scaled<E>(driver: Bmi270, x: i16, y: i16, z: i16)
    ensures
        ({
            let full_scale: u16 = match driver.acc_range {
                AccRangeVariant::Gs2 => 2,
                AccRangeVariant::Gs4 => 4,
                AccRangeVariant::Gs8 => 8,
                AccRangeVariant::Gs16 => 16,
            };
            yields::<E, AccScaled>(
                driver.read_acc_scaled(),
                0x0C,
                sample_bytes(x, y, z),
                Scaled { raw: [x, y, z], full_scale },
            )
        }),
{
    lemma_sample(x, y, z);
}

/// The raw gyroscope readout yields the three numbers that the registers hold.
pub proof fn law_read_gyr_raw<E>(driver: Bmi270, x: i16, y: i16, z: i16)
    ensures
        yields::<E, GyrRaw>(driver.read_gyr_raw(), 0x12, sample_bytes(x, y, z), [x, y, z]),
{
    lemma_sample(x, y, z);
}

/// The scaled gyroscope readout yields the three numbers that the registers hold, with the full
/// scale of the range that the driver has.
pub proof fn law_read_gyr_scaled<E>(driver: Bmi270, x: i16, y: i16, z: i16)
    ensures
        ({
            let full_scale: u16 = match driver.gyr_range {
                GyrRangeVariant::Dps2000 => 2000,
                GyrRangeVariant::Dps1000 => 1000,
                GyrRangeVariant::Dps500 => 500,
                GyrRangeVariant::Dps250 => 250,
                GyrRangeVariant::Dps125 => 125,
            };
            yields::<E, GyrScaled>(
                driver.read_gyr_scaled(),
                0x12,
                sample_bytes(x, y, z),
                Scaled { raw: [x, y, z], full_scale },
            )
        }),
{
    lemma_sample(x, y, z);
}

/// A scaled sample measured, on each axis, the number in the registers times the full scale, in
/// 1/32768 of its unit.
pub proof fn law_measured(x: i16, y: i16, z: i16, full_scale: u16)
    ensures
        ({
            let measured = Scaled { raw: [x, y, z], full_scale }.measured();
            &&& measured[0] == x * full_scale
            &&& measured[1] == y * full_scale
            &&& measured[2] == z * full_scale
        }),
{
    readout::lemma_scaled_axis_fits(x, full_scale);
    readout::lemma_scaled_axis_fits(y, full_scale);
    readout::lemma_scaled_axis_fits(z, full_scale);
}

/// The temperature is 23 degrees, which are 11776 steps of 1/512 degree, where the registers
/// hold 0, and one step more for each step that they hold.
pub proof fn law_read_temp<E>(driver: Bmi270, number: i16)
    ensures
        yields::<E, Temperature>(
            driver.read_temp(),
            0x22,
            register_laws::word_bytes(number),
            (11776 + number) as i32,
        ),
{
    register_laws::law_axis_holds_every_number(number);
}

} // verus!

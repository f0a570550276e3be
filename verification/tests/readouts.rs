use bmi270::driver::Bmi270;
use bmi270::operation::{Operation, Progress, Request};
use bmi270::readout::Scaled;
use bmi270::registers::{AccRangeVariant, ErrorCodeVariant, GyrRangeVariant, InitStatusVariant};
use bmi270::registers::{FULL_SCALE_STEPS, TEMP_STEPS};

fn driver() -> Bmi270 {
    Bmi270 { acc_range: AccRangeVariant::Gs4, gyr_range: GyrRangeVariant::Dps500 }
}

/// Answers the one request of a readout, which must be this read, with these bytes.
fn read<O: Operation<u8>>(operation: O, address: u8, data: &[u8]) -> O::Output {
    assert_eq!(operation.request(), Request::Read { address, len: data.len() });
    match operation.resume(Ok(data)) {
        Progress::Done(Ok(value)) => value,
        _ => panic!("the readout is not over"),
    }
}

#[test]
fn chip_id() {
    assert_eq!(read(driver().read_chip_id(), 0x00, &[0x24]), 0x24);
}

#[test]
fn raw_samples_are_little_endian() {
    let data = [0x01, 0x00, 0xFF, 0xFF, 0x00, 0x80];
    assert_eq!(read(driver().read_acc_raw(), 0x0C, &data), [1, -1, -32768]);
    let data = [0x34, 0x12, 0xFF, 0x7F, 0xCE, 0xFA];
    assert_eq!(read(driver().read_gyr_raw(), 0x12, &data), [0x1234, 32767, -1330]);
}

#[test]
fn scaled_samples_know_the_range() {
    let data = [0x00, 0x40, 0x00, 0xC0, 0x01, 0x00];
    let expected = Scaled { raw: [16384, -16384, 1], full_scale: 4 };
    assert_eq!(read(driver().read_acc_scaled(), 0x0C, &data), expected);
    let expected = Scaled { raw: [16384, -16384, 1], full_scale: 500 };
    assert_eq!(read(driver().read_gyr_scaled(), 0x12, &data), expected);
    assert_eq!(expected.measured(), [8192000, -8192000, 500]);
    assert_eq!(expected.measured()[0] as f32 / FULL_SCALE_STEPS as f32, 250.0);
}

#[test]
fn measurements_stay_below_full_scale() {
    for full_scale in [2, 4, 8, 16, 125, 250, 500, 1000, 2000, u16::MAX] {
        let sample = Scaled { raw: [i16::MIN, 0, i16::MAX], full_scale };
        let limit = full_scale as i32 * FULL_SCALE_STEPS as i32;
        assert_eq!(sample.measured(), [-limit, 0, limit - full_scale as i32]);
    }
}

#[test]
fn full_scales() {
    assert_eq!(AccRangeVariant::Gs2.full_scale(), 2);
    assert_eq!(AccRangeVariant::Gs4.full_scale(), 4);
    assert_eq!(AccRangeVariant::Gs8.full_scale(), 8);
    assert_eq!(AccRangeVariant::Gs16.full_scale(), 16);
    assert_eq!(GyrRangeVariant::Dps2000.full_scale(), 2000);
    assert_eq!(GyrRangeVariant::Dps1000.full_scale(), 1000);
    assert_eq!(GyrRangeVariant::Dps500.full_scale(), 500);
    assert_eq!(GyrRangeVariant::Dps250.full_scale(), 250);
    assert_eq!(GyrRangeVariant::Dps125.full_scale(), 125);
}

#[test]
fn temperature() {
    let degrees = |data: &[u8]| read(driver().read_temp(), 0x22, data) as f32 / TEMP_STEPS as f32;
    assert_eq!(degrees(&[0x00, 0x00]), 23.0);
    assert_eq!(degrees(&[0x00, 0x02]), 24.0);
    assert_eq!(degrees(&[0x00, 0x01]), 23.5);
    assert_eq!(degrees(&[0x00, 0xFE]), 22.0);
    assert_eq!(read(driver().read_temp(), 0x22, &[0x00, 0x00]), 11776);
    assert_eq!(read(driver().read_temp(), 0x22, &[0xFF, 0xFF]), 11775);
    assert_eq!(read(driver().read_temp(), 0x22, &[0xFF, 0x7F]), 44543);
    assert_eq!(read(driver().read_temp(), 0x22, &[0x00, 0x80]), -20992);
}

#[test]
fn data_ready_flags() {
    assert!(read(driver().data_ready_acc(), 0x03, &[0x80]));
    assert!(!read(driver().data_ready_acc(), 0x03, &[0x7F]));
    assert!(read(driver().data_ready_gyr(), 0x03, &[0x40]));
    assert!(!read(driver().data_ready_gyr(), 0x03, &[0xBF]));
    assert!(read(driver().data_ready_int_acc(), 0x1D, &[0x80]));
    assert!(!read(driver().data_ready_int_acc(), 0x1D, &[0x7F]));
    assert!(read(driver().data_ready_int_gyr(), 0x1D, &[0x40]));
    assert!(!read(driver().data_ready_int_gyr(), 0x1D, &[0xBF]));
}

#[test]
fn events() {
    let none = ErrorCodeVariant::NoError;
    assert_eq!(read(driver().read_event(), 0x1B, &[0x00]), (false, none));
    assert_eq!(read(driver().read_event(), 0x1B, &[0x01]), (true, none));
    let acc = ErrorCodeVariant::AccErr;
    assert_eq!(read(driver().read_event(), 0x1B, &[0x04]), (false, acc));
    let gyr = ErrorCodeVariant::GyrErr;
    assert_eq!(read(driver().read_event(), 0x1B, &[0xE9]), (true, gyr));
    let both = ErrorCodeVariant::AccAndGyrErr;
    assert_eq!(read(driver().read_event(), 0x1B, &[0x0C]), (false, both));
    let reserved = ErrorCodeVariant::Reserved(7);
    assert_eq!(read(driver().read_event(), 0x1B, &[0x1C]), (false, reserved));
}

#[test]
fn error_register() {
    assert_eq!(read(driver().read_err_reg(), 0x02, &[0x00]), (false, 0, false, false));
    assert_eq!(read(driver().read_err_reg(), 0x02, &[0x01]), (true, 0, false, false));
    assert_eq!(read(driver().read_err_reg(), 0x02, &[0x16]), (false, 11, false, false));
    assert_eq!(read(driver().read_err_reg(), 0x02, &[0x40]), (false, 0, true, false));
    assert_eq!(read(driver().read_err_reg(), 0x02, &[0xBE]), (false, 15, false, true));
}

#[test]
fn sensor_time_has_three_bytes() {
    assert_eq!(read(driver().read_sensortime(), 0x18, &[0x56, 0x34, 0x12]), 0x123456);
    assert_eq!(read(driver().read_sensortime(), 0x18, &[0xFF, 0xFF, 0xFF]), 0xFFFFFF);
}

#[test]
fn fifo_length_has_fourteen_bits() {
    assert_eq!(read(driver().read_fifo_length(), 0x24, &[0x34, 0x12]), 0x1234);
    assert_eq!(read(driver().read_fifo_length(), 0x24, &[0xFF, 0xFF]), 0x3FFF);
}

#[test]
fn init_statuses() {
    assert_eq!(InitStatusVariant::from_bits(0), InitStatusVariant::NotInit);
    assert_eq!(InitStatusVariant::from_bits(1), InitStatusVariant::InitOk);
    assert_eq!(InitStatusVariant::from_bits(2), InitStatusVariant::InitErr);
    assert_eq!(InitStatusVariant::from_bits(7), InitStatusVariant::CompatError);
    assert_eq!(InitStatusVariant::from_bits(9), InitStatusVariant::Reserved(9));
}

#[test]
fn a_failing_read_is_reported() {
    match driver().read_sensortime().resume(Err(17u8)) {
        Progress::Done(Err(error)) => assert_eq!(error, 17),
        _ => panic!("the readout is not over"),
    }
}

#[test]
fn an_axis_holds_every_number() {
    for number in i16::MIN..=i16::MAX {
        let [low, high] = number.to_le_bytes();
        let data = [low, high, low, high, low, high];
        assert_eq!(read(driver().read_acc_raw(), 0x0C, &data), [number; 3]);
        assert_eq!(read(driver().read_temp(), 0x22, &[low, high]), 11776 + number as i32);
    }
}

#[test]
fn quotients_are_the_scaled_values() {
    for number in i16::MIN..=i16::MAX {
        let sample = Scaled { raw: [number; 3], full_scale: 2000 };
        let product = number as f32 * (2000.0 / 32768.0);
        assert_eq!(sample.measured()[0] as f32 / FULL_SCALE_STEPS as f32, product);
        let sum = number as f32 * (1.0 / 512.0) + 23.0;
        let steps = read(driver().read_temp(), 0x22, &number.to_le_bytes());
        assert_eq!(steps as f32 / TEMP_STEPS as f32, sum);
    }
}

#[test]
fn different_numbers_are_different_values() {
    for a in 0..=255u8 {
        for b in 0..=255u8 {
            let codes = ErrorCodeVariant::from_bits(a) == ErrorCodeVariant::from_bits(b);
            let statuses = InitStatusVariant::from_bits(a) == InitStatusVariant::from_bits(b);
            assert_eq!(codes, a == b);
            assert_eq!(statuses, a == b);
        }
    }
}

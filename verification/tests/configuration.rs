use bmi270::bits;
use bmi270::change::{Change, PinConfig, PinSources};
use bmi270::driver::Bmi270;
use bmi270::operation::{Modify, Operation, Progress, Request};
use bmi270::registers::{
    AccBwpVariant, AccFilterPerf, AccOdrVariant, AccRangeVariant, AdvPowerSave, CmdVariant,
    GyrBwpVariant, GyrFilterPerf, GyrNoisePerf, GyrOdrVariant, GyrRangeVariant, InitCtrlVariant,
};

/// Registers that keep what is written to them, on a bus that can fail.
struct Bank {
    registers: [u8; 128],
    requests: Vec<Request>,
    fails_at: Option<usize>,
}

impl Bank {
    fn filled(byte: u8) -> Bank {
        Bank { registers: [byte; 128], requests: Vec::new(), fails_at: None }
    }

    fn perform(&mut self, request: Request) -> Result<Vec<u8>, &'static str> {
        let failed = self.fails_at == Some(self.requests.len());
        self.requests.push(request);
        if failed {
            return Err("bus");
        }
        match request {
            Request::Read { address, len } => {
                let from = address as usize;
                Ok(self.registers[from..from + len].to_vec())
            }
            Request::Write { address, byte } => {
                self.registers[address as usize] = byte;
                Ok(Vec::new())
            }
            Request::WritePair { address, low, high } => {
                self.registers[address as usize] = low;
                self.registers[address as usize + 1] = high;
                Ok(Vec::new())
            }
            _ => Ok(Vec::new()),
        }
    }

    fn drive<O: Operation<&'static str>>(&mut self, operation: O) -> Result<O::Output, O::Failure> {
        let mut operation = operation;
        loop {
            let request = operation.request();
            let data = self.perform(request);
            let reply = match &data {
                Ok(data) => Ok(data.as_slice()),
                Err(error) => Err(*error),
            };
            match operation.resume(reply) {
                Progress::Pending(next) => operation = next,
                Progress::Done(outcome) => return outcome,
            }
        }
    }
}

fn driver() -> Bmi270 {
    Bmi270 { acc_range: AccRangeVariant::Gs8, gyr_range: GyrRangeVariant::Dps2000 }
}

/// Runs a change on registers full of zeros and full of ones; returns what it leaves of both.
fn zeros_and_ones(operation: Modify, address: usize) -> (u8, u8) {
    let mut zeros = Bank::filled(0x00);
    assert_eq!(zeros.drive(operation), Ok(()));
    let mut ones = Bank::filled(0xFF);
    assert_eq!(ones.drive(operation), Ok(()));
    for i in 0..128 {
        if i != address {
            assert_eq!(zeros.registers[i], 0x00);
            assert_eq!(ones.registers[i], 0xFF);
        }
    }
    (zeros.registers[address], ones.registers[address])
}

#[test]
fn power_switches() {
    let d = driver();
    assert_eq!(zeros_and_ones(d.set_acc_enabled(true), 0x7D), (0x04, 0xFF));
    assert_eq!(zeros_and_ones(d.set_acc_enabled(false), 0x7D), (0x00, 0xFB));
    assert_eq!(zeros_and_ones(d.set_gyr_enabled(true), 0x7D), (0x02, 0xFF));
    assert_eq!(zeros_and_ones(d.set_gyr_enabled(false), 0x7D), (0x00, 0xFD));
    assert_eq!(zeros_and_ones(d.set_temp_enabled(true), 0x7D), (0x08, 0xFF));
    assert_eq!(zeros_and_ones(d.set_temp_enabled(false), 0x7D), (0x00, 0xF7));
    assert_eq!(zeros_and_ones(d.set_adv_power_save(true), 0x7C), (0x01, 0xFF));
    assert_eq!(zeros_and_ones(d.set_adv_power_save(false), 0x7C), (0x00, 0xFE));
}

#[test]
fn accelerometer_configuration() {
    let d = driver();
    assert_eq!(zeros_and_ones(d.set_acc_odr(AccOdrVariant::Hz100), 0x40), (0x08, 0xF8));
    assert_eq!(zeros_and_ones(d.set_acc_odr(AccOdrVariant::Hz0p78), 0x40), (0x01, 0xF1));
    assert_eq!(zeros_and_ones(d.set_acc_odr(AccOdrVariant::Hz1600), 0x40), (0x0C, 0xFC));
    assert_eq!(zeros_and_ones(d.set_acc_bwp(AccBwpVariant::NormAvg4), 0x40), (0x20, 0xAF));
    assert_eq!(zeros_and_ones(d.set_acc_bwp(AccBwpVariant::ResAvg128), 0x40), (0x70, 0xFF));
    let perf = AccFilterPerf::HighPerformance;
    assert_eq!(zeros_and_ones(d.set_acc_filter_perf(perf), 0x40), (0x80, 0xFF));
    let perf = AccFilterPerf::PowerOptimized;
    assert_eq!(zeros_and_ones(d.set_acc_filter_perf(perf), 0x40), (0x00, 0x7F));
}

#[test]
fn gyroscope_configuration() {
    let d = driver();
    assert_eq!(zeros_and_ones(d.set_gyr_odr(GyrOdrVariant::Hz200), 0x42), (0x09, 0xF9));
    assert_eq!(zeros_and_ones(d.set_gyr_odr(GyrOdrVariant::Hz3200), 0x42), (0x0D, 0xFD));
    assert_eq!(zeros_and_ones(d.set_gyr_bwp(GyrBwpVariant::Norm), 0x42), (0x20, 0xEF));
    assert_eq!(zeros_and_ones(d.set_gyr_bwp(GyrBwpVariant::Osr2), 0x42), (0x10, 0xDF));
    let perf = GyrNoisePerf::HighPerformance;
    assert_eq!(zeros_and_ones(d.set_gyr_noise_perf(perf), 0x42), (0x40, 0xFF));
    let perf = GyrFilterPerf::PowerOptimized;
    assert_eq!(zeros_and_ones(d.set_gyr_filter_perf(perf), 0x42), (0x00, 0x7F));
}

#[test]
fn interrupt_pins() {
    let d = driver();
    assert_eq!(zeros_and_ones(d.configure_int1(true, false, true, false), 0x53), (0x0A, 0xEB));
    assert_eq!(zeros_and_ones(d.configure_int2(false, true, false, true), 0x54), (0x14, 0xF5));
    assert_eq!(zeros_and_ones(d.map_int1(true, false, true, false), 0x58), (0x06, 0xF6));
    assert_eq!(zeros_and_ones(d.map_int1(false, true, false, true), 0x58), (0x09, 0xF9));
    assert_eq!(zeros_and_ones(d.map_int2(true, false, true, false), 0x58), (0x60, 0x6F));
    assert_eq!(zeros_and_ones(d.map_int2(false, true, false, true), 0x58), (0x90, 0x9F));
}

#[test]
fn fifo_configuration() {
    let d = driver();
    assert_eq!(zeros_and_ones(d.set_fifo_stop_on_full(true), 0x48), (0x01, 0xFF));
    assert_eq!(zeros_and_ones(d.set_fifo_time_en(false), 0x48), (0x00, 0xFD));
    assert_eq!(zeros_and_ones(d.set_fifo_header_en(true), 0x49), (0x10, 0xFF));
    assert_eq!(zeros_and_ones(d.set_fifo_acc_en(false), 0x49), (0x00, 0xBF));
    assert_eq!(zeros_and_ones(d.set_fifo_gyr_en(true), 0x49), (0x80, 0xFF));
    assert_eq!(zeros_and_ones(d.set_acc_fifo_downs(5), 0x45), (0x50, 0xDF));
    assert_eq!(zeros_and_ones(d.set_gyr_fifo_downs(2), 0x45), (0x02, 0xFA));
    assert_eq!(zeros_and_ones(d.set_acc_fifo_filt_data(true), 0x45), (0x80, 0xFF));
    assert_eq!(zeros_and_ones(d.set_gyr_fifo_filt_data(false), 0x45), (0x00, 0xF7));
}

#[test]
fn downsampling_counts_three_bits() {
    let d = driver();
    assert_eq!(zeros_and_ones(d.set_acc_fifo_downs(0xFD), 0x45), (0x50, 0xDF));
    assert_eq!(zeros_and_ones(d.set_gyr_fifo_downs(0x0A), 0x45), (0x02, 0xFA));
}

#[test]
fn watermark_is_thirteen_bits_in_two_bytes() {
    let mut bank = Bank::filled(0xFF);
    assert_eq!(bank.drive(driver().set_fifo_watermark(0x0123)), Ok(()));
    assert_eq!(bank.registers[0x46], 0x23);
    assert_eq!(bank.registers[0x47], 0xE1);
    assert_eq!(
        bank.requests,
        vec![
            Request::Read { address: 0x46, len: 2 },
            Request::WritePair { address: 0x46, low: 0x23, high: 0xE1 },
        ]
    );
    let mut bank = Bank::filled(0x00);
    assert_eq!(bank.drive(driver().set_fifo_watermark(0xFFFF)), Ok(()));
    assert_eq!(bank.registers[0x46], 0xFF);
    assert_eq!(bank.registers[0x47], 0x1F);
}

#[test]
fn a_change_reads_and_writes_once() {
    let mut bank = Bank::filled(0xA0);
    assert_eq!(bank.drive(driver().set_gyr_enabled(true)), Ok(()));
    assert_eq!(
        bank.requests,
        vec![
            Request::Read { address: 0x7D, len: 1 },
            Request::Write { address: 0x7D, byte: 0xA2 },
        ]
    );
}

#[test]
fn nothing_is_written_when_the_read_fails() {
    let mut bank = Bank::filled(0xA0);
    bank.fails_at = Some(0);
    assert_eq!(bank.drive(driver().set_gyr_enabled(true)), Err("bus"));
    assert_eq!(bank.requests, vec![Request::Read { address: 0x7D, len: 1 }]);
}

#[test]
fn a_failing_write_is_reported() {
    let mut bank = Bank::filled(0xA0);
    bank.fails_at = Some(1);
    assert_eq!(bank.drive(driver().set_gyr_enabled(true)), Err("bus"));
    assert_eq!(bank.requests.len(), 2);
}

#[test]
fn setting_a_range_yields_the_new_driver() {
    let mut bank = Bank::filled(0xFF);
    let d = bank.drive(driver().set_acc_range(AccRangeVariant::Gs4)).unwrap();
    assert_eq!(d.acc_range, AccRangeVariant::Gs4);
    assert_eq!(d.gyr_range, GyrRangeVariant::Dps2000);
    assert_eq!(bank.registers[0x41], 0xFD);
    let d = bank.drive(d.set_gyr_range(GyrRangeVariant::Dps250)).unwrap();
    assert_eq!(d.acc_range, AccRangeVariant::Gs4);
    assert_eq!(d.gyr_range, GyrRangeVariant::Dps250);
    assert_eq!(bank.registers[0x43], 0xFB);
}

#[test]
fn other_changes_keep_the_ranges() {
    let mut bank = Bank::filled(0x00);
    let d = bank.drive(driver().set_acc_range(AccRangeVariant::Gs16)).unwrap();
    let d = bank.drive(d.set_gyr_range(GyrRangeVariant::Dps125)).unwrap();
    bank.drive(d.set_acc_odr(AccOdrVariant::Hz800)).unwrap();
    bank.drive(d.set_gyr_bwp(GyrBwpVariant::Osr4)).unwrap();
    bank.drive(d.set_fifo_watermark(512)).unwrap();
    assert_eq!(bank.registers[0x41], d.acc_range.bits());
    assert_eq!(bank.registers[0x43], d.gyr_range.bits());
}

#[test]
fn a_failed_range_yields_no_driver() {
    let mut bank = Bank::filled(0xFF);
    bank.fails_at = Some(1);
    assert_eq!(bank.drive(driver().set_acc_range(AccRangeVariant::Gs4)), Err("bus"));
    assert_eq!(bank.registers[0x41], 0xFF);
    let mut bank = Bank::filled(0xFF);
    bank.fails_at = Some(0);
    assert_eq!(bank.drive(driver().set_gyr_range(GyrRangeVariant::Dps500)), Err("bus"));
}

#[test]
fn commands_are_one_write() {
    let mut bank = Bank::filled(0x00);
    assert_eq!(bank.drive(driver().soft_reset()), Ok(()));
    assert_eq!(bank.drive(driver().fifo_flush()), Ok(()));
    assert_eq!(
        bank.requests,
        vec![
            Request::Write { address: 0x7E, byte: 0xB6 },
            Request::Write { address: 0x7E, byte: 0xB0 },
        ]
    );
    bank.fails_at = Some(2);
    assert_eq!(bank.drive(driver().fifo_flush()), Err("bus"));
}

#[test]
fn changes_are_idempotent() {
    let change = Change::GyrOdr(GyrOdrVariant::Hz400);
    for word in [0x00u16, 0x5A, 0xFF] {
        let once = change.apply(word);
        assert_eq!(change.apply(once), once);
    }
}

#[test]
fn changes_of_different_fields_commute() {
    let a = Change::AccOdr(AccOdrVariant::Hz50);
    let b = Change::AccFilter(AccFilterPerf::HighPerformance);
    for word in [0x00u16, 0x5A, 0xFF] {
        assert_eq!(a.apply(b.apply(word)), b.apply(a.apply(word)));
        assert_eq!(a.apply(b.apply(word)) & 0x8F, 0x87);
    }
}

#[test]
fn the_later_change_wins() {
    let a = Change::Int1Io(PinConfig {
        active_high: true,
        open_drain: true,
        output_en: true,
        input_en: true,
    });
    let b = Change::Int1Io(PinConfig {
        active_high: false,
        open_drain: false,
        output_en: true,
        input_en: false,
    });
    assert_eq!(b.apply(a.apply(0x01)), 0x09);
    assert_eq!(b.apply(0x01), 0x09);
}

#[test]
fn registers_of_changes() {
    let sources =
        PinSources { fifo_watermark: true, fifo_full: true, data_ready: true, error: true };
    assert_eq!(Change::Int2Map(sources).address(), 0x58);
    assert_eq!(Change::PowerSave(AdvPowerSave::Off).address(), 0x7C);
    assert!(Change::FifoWatermark(1).is_wide());
    assert!(!Change::FifoTimeEn(true).is_wide());
}

#[test]
fn field_loads_and_stores() {
    assert_eq!(bits::load(0xABCD, 4, 8), 0xBC);
    assert_eq!(bits::load(0xABCD, 0, 14), 0x2BCD);
    assert_eq!(bits::store(0xFFFF, 4, 8, 0x00), 0xF00F);
    assert_eq!(bits::store(0x0000, 13, 3, 0x05), 0xA000);
    assert_eq!(bits::join(0x34, 0x12), 0x1234);
    assert_eq!(bits::to_signed(0x7FFF), 32767);
    assert_eq!(bits::to_signed(0x8000), -32768);
    assert_eq!(bits::to_signed(0xFFFF), -1);
}

#[test]
fn numbers_of_values() {
    assert_eq!(InitCtrlVariant::Prepare.bits(), 0x00);
    assert_eq!(InitCtrlVariant::Trigger.bits(), 0x01);
    assert_eq!(CmdVariant::Softreset.bits(), 0xB6);
    assert_eq!(CmdVariant::FifoFlush.bits(), 0xB0);
    assert_eq!(AccRangeVariant::default(), AccRangeVariant::Gs8);
    assert_eq!(GyrRangeVariant::default(), GyrRangeVariant::Dps2000);
    assert_eq!(AccRangeVariant::Gs16.bits(), 3);
    assert_eq!(GyrRangeVariant::Dps125.bits(), 4);
}

#[test]
fn different_values_have_different_numbers() {
    let rates = [
        AccOdrVariant::Hz0p78,
        AccOdrVariant::Hz1p5,
        AccOdrVariant::Hz3p1,
        AccOdrVariant::Hz6p25,
        AccOdrVariant::Hz12p5,
        AccOdrVariant::Hz25,
        AccOdrVariant::Hz50,
        AccOdrVariant::Hz100,
        AccOdrVariant::Hz200,
        AccOdrVariant::Hz400,
        AccOdrVariant::Hz800,
        AccOdrVariant::Hz1600,
    ];
    for a in rates {
        for b in rates {
            assert_eq!(a.bits() == b.bits(), a == b);
        }
    }
}

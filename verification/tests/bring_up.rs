use bmi270::driver::Bmi270;
use bmi270::error::Error;
use bmi270::operation::{Operation, Progress, Request};
use bmi270::registers::{AccRangeVariant, GyrRangeVariant};
use bmi270::startup::{LoadInitData, WaitCmdReady, WaitInitDone};

/// A chip: plain registers, except for those that bringing it up needs.
struct Chip {
    registers: [u8; 128],
    chip_ids: Vec<u8>,
    /// How many status reads pass before the chip takes a command.
    ready_after: usize,
    /// What `INTERNAL_STATUS` says, one value for each read; the last one stays.
    init_statuses: Vec<u8>,
    loader_next: usize,
    loader_memory: Vec<u8>,
    requests: Vec<Request>,
    fails_at: Option<usize>,
}

fn healthy() -> Chip {
    let mut registers = [0u8; 128];
    registers[0x7C] = 0x03;
    registers[0x41] = 0xFC;
    registers[0x43] = 0xFF;
    Chip {
        registers,
        chip_ids: vec![0x00, 0x24],
        ready_after: 2,
        init_statuses: vec![0x00, 0x00, 0x01],
        loader_next: 0,
        loader_memory: vec![0; 16384],
        requests: Vec::new(),
        fails_at: None,
    }
}

impl Chip {
    fn perform(&mut self, request: Request) -> Result<Vec<u8>, u32> {
        let number = self.requests.len();
        self.requests.push(request);
        if self.fails_at == Some(number) {
            return Err(99);
        }
        match request {
            Request::Read { address: 0x00, len: 1 } => Ok(vec![self.chip_ids.remove(0)]),
            Request::Read { address: 0x03, len: 1 } => {
                if self.ready_after == 0 {
                    Ok(vec![0x10])
                } else {
                    self.ready_after -= 1;
                    Ok(vec![0xEF])
                }
            }
            Request::Read { address: 0x21, len: 1 } => {
                let status = self.init_statuses[0];
                if self.init_statuses.len() > 1 {
                    self.init_statuses.remove(0);
                }
                Ok(vec![status])
            }
            Request::Read { address, len } => {
                let from = address as usize;
                Ok(self.registers[from..from + len].to_vec())
            }
            Request::Write { address, byte } => {
                self.registers[address as usize] = byte;
                match address {
                    0x5B | 0x5C => {
                        let low = self.registers[0x5B] as usize;
                        let high = self.registers[0x5C] as usize;
                        self.loader_next = 2 * (low + 16 * high);
                    }
                    0x5E => {
                        self.loader_memory[self.loader_next] = byte;
                        self.loader_next += 1;
                    }
                    _ => {}
                }
                Ok(Vec::new())
            }
            _ => Ok(Vec::new()),
        }
    }

    fn drive<O: Operation<u32>>(&mut self, operation: O) -> Result<O::Output, O::Failure> {
        let mut operation = operation;
        loop {
            let request = operation.request();
            let data = self.perform(request);
            let reply = match &data {
                Ok(data) => Ok(data.as_slice()),
                Err(error) => Err(*error),
            };
            match operation.resume(reply) {
                Progress::Pending(next) => operation = next,
                Progress::Done(outcome) => return outcome,
            }
        }
    }
}

fn firmware(len: usize) -> Vec<u8> {
    (0..len).map(|i| (i * 7 + i / 256) as u8).collect()
}

const DELAY: Request = Request::DelayMs(1);
const STATUS: Request = Request::Read { address: 0x03, len: 1 };
const INTERNAL: Request = Request::Read { address: 0x21, len: 1 };
const CHIP_ID: Request = Request::Read { address: 0x00, len: 1 };

fn write(address: u8, byte: u8) -> Request {
    Request::Write { address, byte }
}

#[test]
fn bring_up_in_order() {
    let firmware = vec![0xAA, 0xBB];
    let mut chip = healthy();
    let driver = chip.drive(Bmi270::initialize(&firmware)).unwrap();
    assert_eq!(driver.acc_range, AccRangeVariant::Gs8);
    assert_eq!(driver.gyr_range, GyrRangeVariant::Dps2000);
    assert_eq!(
        chip.requests,
        vec![
            CHIP_ID,
            Request::DelayMs(2),
            write(0x7E, 0xB6),
            DELAY,
            STATUS,
            DELAY,
            STATUS,
            DELAY,
            STATUS,
            Request::Read { address: 0x7C, len: 1 },
            write(0x7C, 0x02),
            DELAY,
            write(0x59, 0x00),
            write(0x5B, 0x00),
            write(0x5C, 0x00),
            write(0x5E, 0xAA),
            write(0x5E, 0xBB),
            Request::DelayUs(450),
            write(0x59, 0x01),
            DELAY,
            INTERNAL,
            DELAY,
            INTERNAL,
            DELAY,
            INTERNAL,
            CHIP_ID,
            Request::Read { address: 0x41, len: 1 },
            write(0x41, 0xFE),
            Request::Read { address: 0x43, len: 1 },
            write(0x43, 0xF8),
        ]
    );
}

#[test]
fn the_first_chip_id_does_not_count() {
    let mut chip = healthy();
    chip.chip_ids = vec![0xFF, 0x24];
    assert!(chip.drive(Bmi270::initialize(&firmware(64))).is_ok());
}

#[test]
fn another_chip_is_refused() {
    let mut chip = healthy();
    chip.chip_ids = vec![0x24, 0xD1];
    assert_eq!(chip.drive(Bmi270::initialize(&firmware(64))), Err(Error::ChipId(0xD1)));
    assert_eq!(chip.requests.last(), Some(&CHIP_ID));
}

#[test]
fn a_whole_firmware_lands_in_place() {
    let firmware = firmware(8192);
    let mut chip = healthy();
    assert!(chip.drive(Bmi270::initialize(&firmware)).is_ok());
    assert_eq!(&chip.loader_memory[..8192], &firmware[..]);
    let uploads: Vec<u8> = chip
        .requests
        .iter()
        .filter_map(|request| match request {
            Request::Write { address: 0x5E, byte } => Some(*byte),
            _ => None,
        })
        .collect();
    assert_eq!(uploads, firmware);
}

#[test]
fn a_last_chunk_can_be_short() {
    let firmware = firmware(70);
    let mut chip = healthy();
    assert_eq!(chip.drive(LoadInitData::new(&firmware)), Ok(()));
    assert_eq!(&chip.loader_memory[..70], &firmware[..]);
    // Three chunks, two address bytes each.
    assert_eq!(chip.requests.len(), 70 + 6 + 3 + 6);
    assert_eq!(chip.requests[35], write(0x5B, 0x00));
    assert_eq!(chip.requests[36], write(0x5C, 0x01));
    assert_eq!(chip.requests[69], write(0x5B, 0x00));
    assert_eq!(chip.requests[70], write(0x5C, 0x02));
}

#[test]
fn an_empty_firmware_is_only_triggered() {
    let mut chip = healthy();
    chip.init_statuses = vec![0x01];
    assert_eq!(chip.drive(LoadInitData::new(&[])), Ok(()));
    assert_eq!(
        chip.requests,
        vec![write(0x59, 0x00), Request::DelayUs(450), write(0x59, 0x01), DELAY, INTERNAL]
    );
}

#[test]
fn the_chunk_address_wraps_after_256_chunks() {
    let firmware = firmware(8192 + 32);
    let mut chip = healthy();
    assert_eq!(chip.drive(LoadInitData::new(&firmware)), Ok(()));
    let last_address = chip
        .requests
        .iter()
        .rev()
        .find(|request| matches!(request, Request::Write { address: 0x5C, .. }));
    assert_eq!(last_address, Some(&write(0x5C, 0x00)));
}

#[test]
fn readiness_is_polled_twenty_times() {
    let mut chip = healthy();
    chip.ready_after = 19;
    assert_eq!(chip.drive(WaitCmdReady::new()), Ok(()));
    assert_eq!(chip.requests.len(), 40);
    let mut chip = healthy();
    chip.ready_after = 20;
    assert_eq!(chip.drive(WaitCmdReady::new()), Err(Error::CmdTimeout));
    assert_eq!(chip.requests.len(), 40);
    let mut chip = healthy();
    chip.ready_after = 20;
    assert_eq!(chip.drive(Bmi270::initialize(&firmware(64))), Err(Error::CmdTimeout));
    assert_eq!(chip.requests.len(), 43);
}

#[test]
fn initialization_is_polled_twenty_times() {
    let mut chip = healthy();
    chip.init_statuses = vec![0x00; 19];
    chip.init_statuses.push(0x01);
    assert_eq!(chip.drive(WaitInitDone::new()), Ok(()));
    assert_eq!(chip.requests.len(), 40);
    let mut chip = healthy();
    chip.init_statuses = vec![0x00];
    assert_eq!(chip.drive(WaitInitDone::new()), Err(Error::BadInit));
    assert_eq!(chip.requests.len(), 40);
}

#[test]
fn an_init_error_ends_the_wait() {
    for status in [0x02, 0x03, 0x07, 0x08, 0x0F] {
        let mut chip = healthy();
        chip.init_statuses = vec![0x00, status];
        assert_eq!(chip.drive(Bmi270::initialize(&firmware(64))), Err(Error::BadInit));
        assert_eq!(chip.requests.last(), Some(&INTERNAL));
    }
}

#[test]
fn only_the_message_of_the_internal_status_counts() {
    let mut chip = healthy();
    chip.init_statuses = vec![0xF1];
    assert_eq!(chip.drive(WaitInitDone::new()), Ok(()));
    assert_eq!(chip.requests, vec![DELAY, INTERNAL]);
}

#[test]
fn every_bus_failure_ends_the_bring_up() {
    let firmware = firmware(40);
    let mut chip = healthy();
    assert!(chip.drive(Bmi270::initialize(&firmware)).is_ok());
    let all = chip.requests.len();
    for number in 0..all {
        let mut chip = healthy();
        chip.fails_at = Some(number);
        assert_eq!(chip.drive(Bmi270::initialize(&firmware)), Err(Error::Transport(99)));
        assert_eq!(chip.requests.len(), number + 1);
    }
}

#[test]
fn bring_up_is_bounded() {
    let firmware = firmware(100);
    let mut chip = healthy();
    chip.ready_after = 19;
    chip.init_statuses = vec![0x00; 19];
    chip.init_statuses.push(0x01);
    assert!(chip.drive(Bmi270::initialize(&firmware)).is_ok());
    // One request for each byte, two for each of four chunks, three around them, 91 others.
    assert_eq!(chip.requests.len(), 100 + 8 + 3 + 91);
}

#[test]
fn a_bus_error_becomes_a_transport_error() {
    assert_eq!(Error::from(5u32), Error::Transport(5u32));
}

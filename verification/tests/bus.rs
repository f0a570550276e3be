use bmi270::compat_embedded_hal::{BusOperation, I2cWrap, SpiWrap};

/// The bytes that the operations send, and those of the reply that reach the caller.
fn play(operations: &[BusOperation], reply: &[u8]) -> (Vec<u8>, Vec<u8>) {
    let (mut sent, mut delivered, mut rest) = (Vec::new(), Vec::new(), reply);
    for operation in operations {
        match operation {
            BusOperation::SendByte(byte) => sent.push(*byte),
            BusOperation::Send(bytes) => sent.extend_from_slice(bytes),
            BusOperation::Skip(len) => rest = &rest[*len..],
            BusOperation::Receive(len) => {
                delivered.extend_from_slice(&rest[..*len]);
                rest = &rest[*len..];
            }
        }
    }
    assert!(rest.is_empty());
    (sent, delivered)
}

#[test]
fn both_buses_deliver_the_same_bytes() {
    let spi = SpiWrap { inner: () };
    let i2c = I2cWrap { inner: (), device_address: 0x68 };
    let data = vec![0x11, 0x22, 0x33];
    let reply = [0xEE, 0x11, 0x22, 0x33];
    assert_eq!(play(&spi.read_register(0x18, 3), &reply), (vec![0x98], data.clone()));
    assert_eq!(play(&spi.read(0x26, 3).0, &reply), (vec![0xA6], data.clone()));
    assert_eq!(play(&i2c.read_register(0x18, 3).1, &data), (vec![0x18], data.clone()));
    assert_eq!(play(&i2c.read(0x26, 3).1, &data), (vec![0x26], data.clone()));
}

#[test]
fn both_buses_send_the_same_bytes() {
    let spi = SpiWrap { inner: () };
    let i2c = I2cWrap { inner: (), device_address: 0x68 };
    let data = [0x12, 0x34];
    let sent = vec![0x46, 0x12, 0x34];
    assert_eq!(play(&spi.write_register(0x46, &data), &[]), (sent.clone(), vec![]));
    assert_eq!(play(&spi.write(0x46, &data).0, &[]), (sent.clone(), vec![]));
    assert_eq!(play(&i2c.write_register(0x46, &data).1, &[]), (sent.clone(), vec![]));
    assert_eq!(play(&i2c.write(0x46, &data).1, &[]), (sent, vec![]));
}

#[test]
fn spi_writes() {
    let spi = SpiWrap { inner: () };
    let data = [0x12, 0x34];
    assert_eq!(
        spi.write_register(0x46, &data),
        [BusOperation::SendByte(0x46), BusOperation::Send(&data)]
    );
    let (operations, count) = spi.write(0x5E, &data);
    assert_eq!(operations, [BusOperation::SendByte(0x5E), BusOperation::Send(&data)]);
    assert_eq!(count, 2);
}

#[test]
fn spi_reads_skip_a_byte() {
    let spi = SpiWrap { inner: () };
    assert_eq!(
        spi.read_register(0x0C, 6),
        [BusOperation::SendByte(0x8C), BusOperation::Skip(1), BusOperation::Receive(6)]
    );
    let (operations, count) = spi.read(0x26, 40);
    assert_eq!(
        operations,
        [BusOperation::SendByte(0xA6), BusOperation::Skip(1), BusOperation::Receive(40)]
    );
    assert_eq!(count, 40);
}

#[test]
fn spi_read_bit_stays_set() {
    let spi = SpiWrap { inner: () };
    assert_eq!(spi.read_register(0xFF, 1)[0], BusOperation::SendByte(0xFF));
    assert_eq!(spi.read_register(0x00, 1)[0], BusOperation::SendByte(0x80));
}

#[test]
fn spi_headers_tell_reads_from_writes() {
    let spi = SpiWrap { inner: () };
    for a in 0..128u8 {
        for b in 0..128u8 {
            assert_ne!(spi.read_register(a, 1)[0], spi.write_register(b, &[])[0]);
            assert_eq!(
                spi.read_register(a, 1)[0] == spi.read_register(b, 1)[0],
                a == b
            );
        }
    }
}

#[test]
fn i2c_transactions() {
    let i2c = I2cWrap { inner: (), device_address: 0x68 };
    let data = [0xB6];
    assert_eq!(
        i2c.write_register(0x7E, &data),
        (0x68, [BusOperation::SendByte(0x7E), BusOperation::Send(&data)])
    );
    assert_eq!(
        i2c.read_register(0x18, 3),
        (0x68, [BusOperation::SendByte(0x18), BusOperation::Receive(3)])
    );
    assert_eq!(
        i2c.write(0x5E, &data),
        (0x68, [BusOperation::SendByte(0x5E), BusOperation::Send(&data)], 1)
    );
    assert_eq!(
        i2c.read(0x26, 7),
        (0x68, [BusOperation::SendByte(0x26), BusOperation::Receive(7)], 7)
    );
}

#[test]
fn flushing_succeeds() {
    let outcome: Result<(), u8> = SpiWrap { inner: () }.flush(0x26);
    assert_eq!(outcome, Ok(()));
    let outcome: Result<(), u8> = I2cWrap { inner: (), device_address: 0x69 }.flush(0x26);
    assert_eq!(outcome, Ok(()));
}

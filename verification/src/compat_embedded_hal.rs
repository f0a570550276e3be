//! How registers are reached over SPI and I2C: the operations of one bus transaction.
use vstd::prelude::*;

verus! {

/// One operation of a bus transaction.
#[derive(Clone, Copy, Debug, PartialEq, Eq)]
pub enum BusOperation<'a> {
    /// Send one byte.
    SendByte(u8),
    /// Send these bytes.
    Send(&'a [u8]),
    /// Receive this many bytes and drop them.
    Skip(usize),
    /// Receive this many bytes for the caller.
    Receive(usize),
}

/// The bytes that the operations of a transaction send to the chip, in order.
pub open spec fn sent<'a>(operations: Seq<BusOperation<'a>>) -> Seq<u8>
    decreases operations.len(),
{
    if operations.len() == 0 {
        Seq::empty()
    } else {
        let first = match operations.first() {
            BusOperation::SendByte(byte) => seq![byte],
            BusOperation::Send(bytes) => bytes@,
            _ => Seq::empty(),
        };
        first + sent(operations.drop_first())
    }
}

/// How many bytes the chip sends back in a transaction.
pub open spec fn returned<'a>(operations: Seq<BusOperation<'a>>) -> nat
    decreases operations.len(),
{
    if operations.len() == 0 {
        0
    } else {
        let first: nat = match operations.first() {
            BusOperation::Skip(len) | BusOperation::Receive(len) => len as nat,
            _ => 0,
        };
        first + returned(operations.drop_first())
    }
}

/// What reaches the caller of the bytes that the chip sends back in a transaction.
pub open spec fn delivered<'a>(operations: Seq<BusOperation<'a>>, reply: Seq<u8>) -> Seq<u8>
    decreases operations.len(),
{
    if operations.len() == 0 {
        Seq::empty()
    } else {
        let rest = operations.drop_first();
        match operations.first() {
            BusOperation::Receive(len) => reply.take(len as int) + delivered(
                rest,
                reply.skip(len as int),
            ),
            BusOperation::Skip(len) => delivered(rest, reply.skip(len as int)),
            _ => delivered(rest, reply),
        }
    }
}

/// A write, on both buses: the address, then the data.
pub open spec fn write_operations<'a>(address: u8, data: &'a [u8]) -> Seq<BusOperation<'a>> {
    seq![BusOperation::SendByte(address), BusOperation::Send(data)]
}

/// A read over SPI: the address with the read bit, a byte that means nothing, then the data.
pub open spec fn spi_read_operations(address: u8, len: usize) -> Seq<BusOperation<'static>> {
    seq![
        BusOperation::SendByte(read_header(address)),
        BusOperation::Skip(1),
        BusOperation::Receive(len),
    ]
}

/// A read over I2C: the address, then the data.
pub open spec fn i2c_read_operations(address: u8, len: usize) -> Seq<BusOperation<'static>> {
    seq![BusOperation::SendByte(address), BusOperation::Receive(len)]
}

/// The bit of the first byte that makes an SPI transaction a read.
pub const READ_DIR: u8 = 0x80;

/// `address` with its uppermost bit, which weighs `READ_DIR`, set.
pub open spec fn read_header(address: u8) -> u8 {
    if address < READ_DIR {
        (address + READ_DIR) as u8
    } else {
        address
    }
}

fn mark_read(address: u8) -> (header: u8)
    ensures
        header == read_header(address),
{
    assert(address | 0x80 == if address < 0x80 {
        (address + 0x80) as u8
    } else {
        address
    }) by (bit_vector);
    address | READ_DIR
}

/// A BMI270 on an SPI bus.
#[derive(Debug)]
pub struct SpiWrap<I> {
    /// The bus.
    pub inner: I,
}

impl<I> SpiWrap<I> {
    /// The operations that write registers: the address, then the data.
    #[verifier::allow_in_spec]
    pub fn write_register<'a>(&self, address: u8, data: &'a [u8]) -> (operations: [BusOperation<
        'a,
    >; 2])
        ensures
            operations@ == write_operations(address, data),
        returns
            [BusOperation::SendByte(address), BusOperation::Send(data)],
    {
        let operations = [BusOperation::SendByte(address), BusOperation::Send(data)];
        assert(operations@ =~= write_operations(address, data));
        operations
    }

    /// The operations that read `len` registers: the address with the read bit, a byte that
    /// means nothing, then the data.
    #[verifier::allow_in_spec]
    pub fn read_register(&self, address: u8, len: usize) -> (operations: [BusOperation<'static>; 3])
        ensures
            operations@ == spi_read_operations(address, len),
        returns
            [
                BusOperation::SendByte(read_header(address)),
                BusOperation::Skip(1),
                BusOperation::Receive(len),
            ],
    {
        let operations = [
            BusOperation::SendByte(mark_read(address)),
            BusOperation::Skip(1),
            BusOperation::Receive(len),
        ];
        assert(operations@ =~= spi_read_operations(address, len));
        operations
    }

    /// The operations that write to a buffer register, and how many bytes they write to it.
    #[verifier::allow_in_spec]
    pub fn write<'a>(&self, address: u8, buf: &'a [u8]) -> (transfer: (
        [BusOperation<'a>; 2],
        usize,
    ))
        ensures
            transfer.0@ == write_operations(address, buf),
            transfer.1 == buf@.len(),
        returns
            ([BusOperation::SendByte(address), BusOperation::Send(buf)], buf@.len() as usize),
    {
        (self.write_register(address, buf), buf.len())
    }

    /// Nothing is held back that would have to be sent: flushing always succeeds.
    #[verifier::allow_in_spec]
    pub fn flush<E>(&self, _address: u8) -> (outcome: Result<(), E>)
        ensures
            outcome == Ok::<(), E>(()),
        returns
            Ok::<(), E>(()),
    {
        Ok(())
    }

    /// The operations that read `len` bytes from a buffer register, and how many bytes they
    /// read from it.
    #[verifier::allow_in_spec]
    pub fn read(&self, address: u8, len: usize) -> (transfer: ([BusOperation<'static>; 3], usize))
        ensures
            transfer.0@ == spi_read_operations(address, len),
            transfer.1 == len,
        returns
            ([
                BusOperation::SendByte(read_header(address)),
                BusOperation::Skip(1),
                BusOperation::Receive(len),
            ], len),
    {
        (self.read_register(address, len), len)
    }
}

/// A BMI270 on an I2C bus.
#[derive(Debug)]
pub struct I2cWrap<I> {
    /// The bus.
    pub inner: I,
    /// The address of the chip on the bus.
    pub device_address: u8,
}

impl<I> I2cWrap<I> {
    /// The address of the chip, and the operations that write registers: the address, then
    /// the data.
    #[verifier::allow_in_spec]
    pub fn write_register<'a>(&self, address: u8, data: &'a [u8]) -> (transaction: (
        u8,
        [BusOperation<'a>; 2],
    ))
        ensures
            transaction.0 == self.device_address,
            transaction.1@ == write_operations(address, data),
        returns
            (self.device_address, [BusOperation::SendByte(address), BusOperation::Send(data)]),
    {
        let operations = [BusOperation::SendByte(address), BusOperation::Send(data)];
        assert(operations@ =~= write_operations(address, data));
        (self.device_address, operations)
    }

    /// The address of the chip, and the operations that read `len` registers: the address,
    /// then the data.
    #[verifier::allow_in_spec]
    pub fn read_register(&self, address: u8, len: usize) -> (transaction: (
        u8,
        [BusOperation<'static>; 2],
    ))
        ensures
            transaction.0 == self.device_address,
            transaction.1@ == i2c_read_operations(address, len),
        returns
            (self.device_address, [BusOperation::SendByte(address), BusOperation::Receive(len)]),
    {
        let operations = [BusOperation::SendByte(address), BusOperation::Receive(len)];
        assert(operations@ =~= i2c_read_operations(address, len));
        (self.device_address, operations)
    }

    /// The address of the chip, the operations that write to a buffer register, and how many
    /// bytes they write to it.
    #[verifier::allow_in_spec]
    pub fn write<'a>(&self, address: u8, buf: &'a [u8]) -> (transfer: (
        u8,
        [BusOperation<'a>; 2],
        usize,
    ))
        ensures
            transfer.0 == self.device_address,
            transfer.1@ == write_operations(address, buf),
            transfer.2 == buf@.len(),
        returns
            (self.device_address, [BusOperation::SendByte(address), BusOperation::Send(buf)], buf@.len() as usize),
    {
        let (device_address, operations) = self.write_register(address, buf);
        (device_address, operations, buf.len())
    }

    /// Nothing is held back that would have to be sent: flushing always succeeds.
    #[verifier::allow_in_spec]
    pub fn flush<E>(&self, _address: u8) -> (outcome: Result<(), E>)
        ensures
            outcome == Ok::<(), E>(()),
        returns
            Ok::<(), E>(()),
    {
        Ok(())
    }

    /// The address of the chip, the operations that read `len` bytes from a buffer register,
    /// and how many bytes they read from it.
    #[verifier::allow_in_spec]
    pub fn read(&self, address: u8, len: usize) -> (transfer: (
        u8,
        [BusOperation<'static>; 2],
        usize,
    ))
        ensures
            transfer.0 == self.device_address,
            transfer.1@ == i2c_read_operations(address, len),
            transfer.2 == len,
        returns
            (self.device_address, [BusOperation::SendByte(address), BusOperation::Receive(len)], len),
    {
        let (device_address, operations) = self.read_register(address, len);
        (device_address, operations, len)
    }
}

/// The address of a register, which has seven bits, and the direction can both be told from
/// the first byte of an SPI transaction.
pub proof fn law_spi_headers_differ(a: u8, b: u8)
    requires
        a < READ_DIR,
        b < READ_DIR,
    ensures
        read_header(a) != b,
        read_header(a) == read_header(b) ==> a == b,
        read_header(a) - READ_DIR == a,
{
}

/// A read gives the caller the data and nothing else, whatever the byte is that SPI sends
/// before it: over both buses the same bytes arrive.
pub proof fn law_reads_deliver_the_data(address: u8, len: usize, dummy: u8, data: Seq<u8>)
    requires
        data.len() == len,
    ensures
        returned(spi_read_operations(address, len)) == 1 + len,
        delivered(spi_read_operations(address, len), seq![dummy] + data) == data,
        returned(i2c_read_operations(address, len)) == len,
        delivered(i2c_read_operations(address, len), data) == data,
{
    let spi = spi_read_operations(address, len);
    let i2c = i2c_read_operations(address, len);
    reveal_with_fuel(returned, 4);
    reveal_with_fuel(delivered, 4);
    assert((seq![dummy] + data).skip(1) =~= data);
    assert(delivered(spi, seq![dummy] + data) =~= data);
    assert(delivered(i2c, data) =~= data);
}

/// A read sends one byte to the chip, which says what is read.
pub proof fn law_reads_send_the_address(address: u8, len: usize)
    ensures
        sent(spi_read_operations(address, len)) == seq![read_header(address)],
        sent(i2c_read_operations(address, len)) == seq![address],
{
    reveal_with_fuel(sent, 4);
    assert(sent(spi_read_operations(address, len)) =~= seq![read_header(address)]);
    assert(sent(i2c_read_operations(address, len)) =~= seq![address]);
}

/// A write sends the address and then the data, and gets nothing back.
pub proof fn law_writes_send_the_data<'a>(address: u8, data: &'a [u8], reply: Seq<u8>)
    ensures
        sent(write_operations(address, data)) == seq![address] + data@,
        returned(write_operations(address, data)) == 0,
        delivered(write_operations(address, data), reply) == Seq::<u8>::empty(),
{
    reveal_with_fuel(sent, 3);
    reveal_with_fuel(returned, 3);
    reveal_with_fuel(delivered, 3);
    assert(sent(write_operations(address, data)) =~= seq![address] + data@);
}

/// Over SPI, reading registers or a buffer sends the address with its uppermost bit set, and
/// delivers the data behind the first byte that comes back; the count is that of the data.
pub proof fn law_spi_reads<I>(bus: SpiWrap<I>, address: u8, len: usize, dummy: u8, data: Seq<u8>)
    requires
        data.len() == len,
    ensures
        sent(bus.read_register(address, len)@) == seq![address | 0x80u8],
        returned(bus.read_register(address, len)@) == 1 + len,
        delivered(bus.read_register(address, len)@, seq![dummy] + data) == data,
        bus.read(address, len).0@ == bus.read_register(address, len)@,
        bus.read(address, len).1 == len,
{
    assert(bus.read_register(address, len)@ =~= spi_read_operations(address, len));
    assert(bus.read(address, len).0@ =~= spi_read_operations(address, len));
    law_reads_deliver_the_data(address, len, dummy, data);
    law_reads_send_the_address(address, len);
    assert(address | 0x80u8 == if address < 0x80 {
        (address + 0x80) as u8
    } else {
        address
    }) by (bit_vector);
}

/// Over I2C, reading registers or a buffer goes to the address of the chip, sends the address
/// of the register, and delivers all the data that comes back; the count is that of the data.
pub proof fn law_i2c_reads<I>(bus: I2cWrap<I>, address: u8, len: usize, data: Seq<u8>)
    requires
        data.len() == len,
    ensures
        sent(bus.read_register(address, len).1@) == seq![address],
        returned(bus.read_register(address, len).1@) == len,
        delivered(bus.read_register(address, len).1@, data) == data,
        bus.read_register(address, len).0 == bus.device_address,
        bus.read(address, len).0 == bus.device_address,
        bus.read(address, len).1@ == bus.read_register(address, len).1@,
        bus.read(address, len).2 == len,
{
    assert(bus.read_register(address, len).1@ =~= i2c_read_operations(address, len));
    assert(bus.read(address, len).1@ =~= i2c_read_operations(address, len));
    law_reads_deliver_the_data(address, len, 0, data);
    law_reads_send_the_address(address, len);
}

/// Over SPI, writing registers or a buffer sends the address and then the data, and nothing
/// comes back; the count is that of the data. There is nothing to flush.
pub proof fn law_spi_writes<'a, I, E>(bus: SpiWrap<I>, address: u8, data: &'a [u8])
    ensures
        sent(bus.write_register(address, data)@) == seq![address] + data@,
        returned(bus.write_register(address, data)@) == 0,
        bus.write(address, data).0@ == bus.write_register(address, data)@,
        bus.write(address, data).1 == data@.len(),
        bus.flush::<E>(address) == Ok::<(), E>(()),
{
    assert(bus.write_register(address, data)@ =~= write_operations(address, data));
    assert(bus.write(address, data).0@ =~= write_operations(address, data));
    law_writes_send_the_data(address, data, Seq::empty());
    assert(data.len() == data@.len());
}

/// Over I2C, writing registers or a buffer goes to the address of the chip, sends the address
/// of the register and then the data, and nothing comes back; the count is that of the data.
/// There is nothing to flush.
pub proof fn law_i2c_writes<'a, I, E>(bus: I2cWrap<I>, address: u8, data: &'a [u8])
    ensures
        sent(bus.write_register(address, data).1@) == seq![address] + data@,
        returned(bus.write_register(address, data).1@) == 0,
        bus.write_register(address, data).0 == bus.device_address,
        bus.write(address, data).0 == bus.device_address,
        bus.write(address, data).1@ == bus.write_register(address, data).1@,
        bus.write(address, data).2 == data@.len(),
        bus.flush::<E>(address) == Ok::<(), E>(()),
{
    assert(bus.write_register(address, data).1@ =~= write_operations(address, data));
    assert(bus.write(address, data).1@ =~= write_operations(address, data));
    law_writes_send_the_data(address, data, Seq::empty());
    assert(data.len() == data@.len());
}

} // verus!

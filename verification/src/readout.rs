//! What the readable registers mean.
use crate::bits;
use crate::operation::{Operation, Progress, Reply, Request};
use crate::registers::{
    ErrorCodeVariant, InitStatusVariant, ACC_DATA, CHIP_ID, ERR_REG, EVENT, FIFO_LENGTH, GYR_DATA,
    INTERNAL_STATUS, INT_STATUS_1, SENSORTIME, STATUS, TEMPERATURE, TEMP_AT_ZERO, TEMP_STEPS,
};
use vstd::prelude::*;

verus! {

/// A value that some registers hold.
pub trait Readout: Sized {
    /// The type of the value.
    type Value;

    /// The address of the first register, and how many there are.
    spec fn source(self) -> (u8, usize);

    /// The value that these bytes of the registers stand for.
    spec fn meaning(self, data: Seq<u8>) -> Self::Value;

    /// The address of the first register, and how many there are.
    fn locate(&self) -> (source: (u8, usize))
        ensures
            source == self.source(),
    ;

    /// The value that these bytes of the registers stand for.
    fn decode(&self, data: &[u8]) -> (value: Self::Value)
        requires
            data@.len() == self.source().1,
        ensures
            value == self.meaning(data@),
    ;
}

/// Reads a value.
#[derive(Debug, PartialEq, Eq, Structural)]
pub struct Read<R> {
    /// The value that is read.
    pub readout: R,
}

impl<E, R: Readout> Operation<E> for Read<R> {
    type Output = R::Value;

    type Failure = E;

    open spec fn wf(self) -> bool {
        true
    }

    open spec fn asks(self) -> Request {
        Request::Read { address: self.readout.source().0, len: self.readout.source().1 }
    }

    open spec fn answered(self, reply: Reply<E>) -> Progress<Self, R::Value, E> {
        match reply {
            Ok(data) => Progress::Done(Ok(self.readout.meaning(data))),
            Err(error) => Progress::Done(Err(error)),
        }
    }

    fn request(&self) -> (request: Request) {
        let (address, len): (u8, usize) = self.readout.locate();
        Request::Read { address, len }
    }

    fn resume(self, reply: Result<&[u8], E>) -> (progress: Progress<Self, R::Value, E>) {
        match reply {
            Ok(data) => Progress::Done(Ok(self.readout.decode(data))),
            Err(error) => Progress::Done(Err(error)),
        }
    }
}

/// The number that two bytes from `at` on stand for, the low byte first, in two's
/// complement.
pub open spec fn axis(data: Seq<u8>, at: int) -> i16 {
    bits::signed(bits::pair(data[at], data[at + 1])) as i16
}

/// The three axes of a sample: X, Y and Z, two bytes each.
pub open spec fn axes(data: Seq<u8>) -> [i16; 3] {
    [axis(data, 0), axis(data, 2), axis(data, 4)]
}

fn decode_axes(data: &[u8]) -> (sample: [i16; 3])
    requires
        data@.len() == 6,
    ensures
        sample == axes(data@),
{
    let sample: [i16; 3] = [
        bits::to_signed(bits::join(data[0], data[1])),
        bits::to_signed(bits::join(data[2], data[3])),
        bits::to_signed(bits::join(data[4], data[5])),
    ];
    assert(sample@ =~= axes(data@)@);
    sample
}

/// A sample with the range that it was taken in: an axis measured
/// `raw * full_scale / 32768`.
#[derive(Clone, Copy, Debug, PartialEq, Eq)]
pub struct Scaled {
    /// The three axes in steps: X, Y and Z.
    pub raw: [i16; 3],
    /// The measurement that 32768 steps stand for.
    pub full_scale: u16,
}

impl Scaled {
    /// What the axes measured, in 1/32768 g or 1/32768 deg/s.
    #[verifier::allow_in_spec]
    pub fn measured(&self) -> (measured: [i32; 3])
        ensures
            measured[0] == self.raw[0] * self.full_scale,
            measured[1] == self.raw[1] * self.full_scale,
            measured[2] == self.raw[2] * self.full_scale,
        returns
            [
                (self.raw[0] * self.full_scale) as i32,
                (self.raw[1] * self.full_scale) as i32,
                (self.raw[2] * self.full_scale) as i32,
            ],
    {
        let full_scale: i32 = self.full_scale as i32;
        let measured: [i32; 3] = [
            scale_axis(self.raw[0], full_scale),
            scale_axis(self.raw[1], full_scale),
            scale_axis(self.raw[2], full_scale),
        ];
        assert(measured@ =~= [
            (self.raw[0] * self.full_scale) as i32,
            (self.raw[1] * self.full_scale) as i32,
            (self.raw[2] * self.full_scale) as i32,
        ]@);
        measured
    }
}

/// What an axis measured is a number of 32 bits.
pub(crate) proof fn lemma_scaled_axis_fits(raw: i16, full_scale: u16)
    ensures
        i32::MIN <= raw * full_scale <= i32::MAX,
{
    assert(i32::MIN <= raw * full_scale <= i32::MAX) by (nonlinear_arith)
        requires
            -32768 <= raw <= 32767,
            0 <= full_scale <= 65535,
    ;
}

fn scale_axis(raw: i16, full_scale: i32) -> (measured: i32)
    requires
        0 <= full_scale <= u16::MAX,
    ensures
        measured == raw * full_scale,
{
    proof {
        lemma_scaled_axis_fits(raw, full_scale as u16);
    }
    raw as i32 * full_scale
}

/// The chip ID.
#[derive(Clone, Copy, Debug, PartialEq, Eq, Structural)]
pub struct ChipId;

impl Readout for ChipId {
    type Value = u8;

    open spec fn source(self) -> (u8, usize) {
        (CHIP_ID, 1)
    }

    open spec fn meaning(self, data: Seq<u8>) -> u8 {
        data[0]
    }

    fn locate(&self) -> (source: (u8, usize)) {
        (CHIP_ID, 1)
    }

    fn decode(&self, data: &[u8]) -> (value: u8) {
        data[0]
    }
}

/// The accelerometer sample in steps: X, Y and Z.
#[derive(Clone, Copy, Debug, PartialEq, Eq, Structural)]
pub struct AccRaw;

impl Readout for AccRaw {
    type Value = [i16; 3];

    open spec fn source(self) -> (u8, usize) {
        (ACC_DATA, 6)
    }

    open spec fn meaning(self, data: Seq<u8>) -> [i16; 3] {
        axes(data)
    }

    fn locate(&self) -> (source: (u8, usize)) {
        (ACC_DATA, 6)
    }

    fn decode(&self, data: &[u8]) -> (value: [i16; 3]) {
        decode_axes(data)
    }
}

/// The accelerometer sample with its range.
#[derive(Clone, Copy, Debug, PartialEq, Eq, Structural)]
pub struct AccScaled {
    /// The measurement that 32768 steps stand for.
    pub full_scale: u16,
}

impl Readout for AccScaled {
    type Value = Scaled;

    open spec fn source(self) -> (u8, usize) {
        (ACC_DATA, 6)
    }

    open spec fn meaning(self, data: Seq<u8>) -> Scaled {
        Scaled { raw: axes(data), full_scale: self.full_scale }
    }

    fn locate(&self) -> (source: (u8, usize)) {
        (ACC_DATA, 6)
    }

    fn decode(&self, data: &[u8]) -> (value: Scaled) {
        Scaled { raw: decode_axes(data), full_scale: self.full_scale }
    }
}

/// The gyroscope sample in steps: X, Y and Z.
#[derive(Clone, Copy, Debug, PartialEq, Eq, Structural)]
pub struct GyrRaw;

impl Readout for GyrRaw {
    type Value = [i16; 3];

    open spec fn source(self) -> (u8, usize) {
        (GYR_DATA, 6)
    }

    open spec fn meaning(self, data: Seq<u8>) -> [i16; 3] {
        axes(data)
    }

    fn locate(&self) -> (source: (u8, usize)) {
        (GYR_DATA, 6)
    }

    fn decode(&self, data: &[u8]) -> (value: [i16; 3]) {
        decode_axes(data)
    }
}

/// The gyroscope sample with its range.
#[derive(Clone, Copy, Debug, PartialEq, Eq, Structural)]
pub struct GyrScaled {
    /// The measurement that 32768 steps stand for.
    pub full_scale: u16,
}

impl Readout for GyrScaled {
    type Value = Scaled;

    open spec fn source(self) -> (u8, usize) {
        (GYR_DATA, 6)
    }

    open spec fn meaning(self, data: Seq<u8>) -> Scaled {
        Scaled { raw: axes(data), full_scale: self.full_scale }
    }

    fn locate(&self) -> (source: (u8, usize)) {
        (GYR_DATA, 6)
    }

    fn decode(&self, data: &[u8]) -> (value: Scaled) {
        Scaled { raw: decode_axes(data), full_scale: self.full_scale }
    }
}

/// The temperature in 1/512 degrees Celsius. The chip counts from 23 degrees.
#[derive(Clone, Copy, Debug, PartialEq, Eq, Structural)]
pub struct Temperature;

impl Readout for Temperature {
    type Value = i32;

    open spec fn source(self) -> (u8, usize) {
        (TEMPERATURE, 2)
    }

    open spec fn meaning(self, data: Seq<u8>) -> i32 {
        (TEMP_AT_ZERO * TEMP_STEPS + axis(data, 0)) as i32
    }

    fn locate(&self) -> (source: (u8, usize)) {
        (TEMPERATURE, 2)
    }

    fn decode(&self, data: &[u8]) -> (value: i32) {
        TEMP_AT_ZERO * TEMP_STEPS + bits::to_signed(bits::join(data[0], data[1])) as i32
    }
}

/// Whether `STATUS` says that an accelerometer sample is ready.
#[derive(Clone, Copy, Debug, PartialEq, Eq, Structural)]
pub struct AccReady;

impl Readout for AccReady {
    type Value = bool;

    open spec fn source(self) -> (u8, usize) {
        (STATUS, 1)
    }

    open spec fn meaning(self, data: Seq<u8>) -> bool {
        bits::field(data[0] as int, 128, 2) != 0
    }

    fn locate(&self) -> (source: (u8, usize)) {
        (STATUS, 1)
    }

    fn decode(&self, data: &[u8]) -> (value: bool) {
        bits::load(data[0] as u16, 7, 1) != 0
    }
}

/// Whether `STATUS` says that a gyroscope sample is ready.
#[derive(Clone, Copy, Debug, PartialEq, Eq, Structural)]
pub struct GyrReady;

impl Readout for GyrReady {
    type Value = bool;

    open spec fn source(self) -> (u8, usize) {
        (STATUS, 1)
    }

    open spec fn meaning(self, data: Seq<u8>) -> bool {
        bits::field(data[0] as int, 64, 2) != 0
    }

    fn locate(&self) -> (source: (u8, usize)) {
        (STATUS, 1)
    }

    fn decode(&self, data: &[u8]) -> (value: bool) {
        bits::load(data[0] as u16, 6, 1) != 0
    }
}

/// Whether `STATUS` says that the chip takes a command.
#[derive(Clone, Copy, Debug, PartialEq, Eq, Structural)]
pub struct CmdReady;

impl Readout for CmdReady {
    type Value = bool;

    open spec fn source(self) -> (u8, usize) {
        (STATUS, 1)
    }

    open spec fn meaning(self, data: Seq<u8>) -> bool {
        bits::field(data[0] as int, 16, 2) != 0
    }

    fn locate(&self) -> (source: (u8, usize)) {
        (STATUS, 1)
    }

    fn decode(&self, data: &[u8]) -> (value: bool) {
        bits::load(data[0] as u16, 4, 1) != 0
    }
}

/// Whether `INT_STATUS_1` says that an accelerometer sample is ready.
#[derive(Clone, Copy, Debug, PartialEq, Eq, Structural)]
pub struct AccReadyInt;

impl Readout for AccReadyInt {
    type Value = bool;

    open spec fn source(self) -> (u8, usize) {
        (INT_STATUS_1, 1)
    }

    open spec fn meaning(self, data: Seq<u8>) -> bool {
        bits::field(data[0] as int, 128, 2) != 0
    }

    fn locate(&self) -> (source: (u8, usize)) {
        (INT_STATUS_1, 1)
    }

    fn decode(&self, data: &[u8]) -> (value: bool) {
        bits::load(data[0] as u16, 7, 1) != 0
    }
}

/// Whether `INT_STATUS_1` says that a gyroscope sample is ready.
#[derive(Clone, Copy, Debug, PartialEq, Eq, Structural)]
pub struct GyrReadyInt;

impl Readout for GyrReadyInt {
    type Value = bool;

    open spec fn source(self) -> (u8, usize) {
        (INT_STATUS_1, 1)
    }

    open spec fn meaning(self, data: Seq<u8>) -> bool {
        bits::field(data[0] as int, 64, 2) != 0
    }

    fn locate(&self) -> (source: (u8, usize)) {
        (INT_STATUS_1, 1)
    }

    fn decode(&self, data: &[u8]) -> (value: bool) {
        bits::load(data[0] as u16, 6, 1) != 0
    }
}

/// Whether the chip was powered on since the last read, and its configuration error.
#[derive(Clone, Copy, Debug, PartialEq, Eq, Structural)]
pub struct Event;

impl Readout for Event {
    type Value = (bool, ErrorCodeVariant);

    open spec fn source(self) -> (u8, usize) {
        (EVENT, 1)
    }

    open spec fn meaning(self, data: Seq<u8>) -> (bool, ErrorCodeVariant) {
        (
            bits::field(data[0] as int, 1, 2) != 0,
            ErrorCodeVariant::spec_from_bits(bits::field(data[0] as int, 4, 8) as u8),
        )
    }

    fn locate(&self) -> (source: (u8, usize)) {
        (EVENT, 1)
    }

    fn decode(&self, data: &[u8]) -> (value: (bool, ErrorCodeVariant)) {
        (
            bits::load(data[0] as u16, 0, 1) != 0,
            ErrorCodeVariant::from_bits(bits::load(data[0] as u16, 2, 3) as u8),
        )
    }
}

/// The error flags: a fatal error, the internal error, a FIFO error and an auxiliary
/// interface error.
#[derive(Clone, Copy, Debug, PartialEq, Eq, Structural)]
pub struct ErrReg;

impl Readout for ErrReg {
    type Value = (bool, u8, bool, bool);

    open spec fn source(self) -> (u8, usize) {
        (ERR_REG, 1)
    }

    open spec fn meaning(self, data: Seq<u8>) -> (bool, u8, bool, bool) {
        (
            bits::field(data[0] as int, 1, 2) != 0,
            bits::field(data[0] as int, 2, 16) as u8,
            bits::field(data[0] as int, 64, 2) != 0,
            bits::field(data[0] as int, 128, 2) != 0,
        )
    }

    fn locate(&self) -> (source: (u8, usize)) {
        (ERR_REG, 1)
    }

    fn decode(&self, data: &[u8]) -> (value: (bool, u8, bool, bool)) {
        (
            bits::load(data[0] as u16, 0, 1) != 0,
            bits::load(data[0] as u16, 1, 4) as u8,
            bits::load(data[0] as u16, 6, 1) != 0,
            bits::load(data[0] as u16, 7, 1) != 0,
        )
    }
}

/// The state of the firmware.
#[derive(Clone, Copy, Debug, PartialEq, Eq, Structural)]
pub struct InitStatus;

impl Readout for InitStatus {
    type Value = InitStatusVariant;

    open spec fn source(self) -> (u8, usize) {
        (INTERNAL_STATUS, 1)
    }

    open spec fn meaning(self, data: Seq<u8>) -> InitStatusVariant {
        InitStatusVariant::spec_from_bits(bits::field(data[0] as int, 1, 16) as u8)
    }

    fn locate(&self) -> (source: (u8, usize)) {
        (INTERNAL_STATUS, 1)
    }

    fn decode(&self, data: &[u8]) -> (value: InitStatusVariant) {
        InitStatusVariant::from_bits(bits::load(data[0] as u16, 0, 4) as u8)
    }
}

/// The sensor time, a counter of 24 bits.
#[derive(Clone, Copy, Debug, PartialEq, Eq, Structural)]
pub struct SensorTime;

impl Readout for SensorTime {
    type Value = u32;

    open spec fn source(self) -> (u8, usize) {
        (SENSORTIME, 3)
    }

    open spec fn meaning(self, data: Seq<u8>) -> u32 {
        (data[0] + 256 * data[1] + 65536 * data[2]) as u32
    }

    fn locate(&self) -> (source: (u8, usize)) {
        (SENSORTIME, 3)
    }

    fn decode(&self, data: &[u8]) -> (value: u32) {
        bits::join(data[0], data[1]) as u32 + 65536 * (data[2] as u32)
    }
}

/// How many bytes the FIFO holds, a number of 14 bits.
#[derive(Clone, Copy, Debug, PartialEq, Eq, Structural)]
pub struct FifoLength;

impl Readout for FifoLength {
    type Value = u16;

    open spec fn source(self) -> (u8, usize) {
        (FIFO_LENGTH, 2)
    }

    open spec fn meaning(self, data: Seq<u8>) -> u16 {
        bits::field(bits::pair(data[0], data[1]), 1, 16384) as u16
    }

    fn locate(&self) -> (source: (u8, usize)) {
        (FIFO_LENGTH, 2)
    }

    fn decode(&self, data: &[u8]) -> (value: u16) {
        bits::load(bits::join(data[0], data[1]), 0, 14)
    }
}

} // verus!

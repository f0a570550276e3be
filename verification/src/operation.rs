//! Operations on the chip.
//!
//! An operation says what it needs from the bus, one request at a time, and goes on with
//! the reply. Whoever runs it does the talking:
//!
//! ```text
//! loop {
//!     reply = perform(operation.request());
//!     match operation.resume(reply) {
//!         Progress::Pending(next) => operation = next,
//!         Progress::Done(outcome) => return outcome,
//!     }
//! }
//! ```
use crate::bits;
use crate::change::Change;
use crate::registers::{CmdVariant, CMD};
use vstd::prelude::*;

verus! {

/// What an operation needs next.
#[derive(Clone, Copy, Debug, PartialEq, Eq, Structural)]
pub enum Request {
    /// Read `len` bytes, beginning at the register `address`.
    Read { address: u8, len: usize },
    /// Write one byte to the register `address`.
    Write { address: u8, byte: u8 },
    /// Write two bytes, `low` first, beginning at the register `address`.
    WritePair { address: u8, low: u8, high: u8 },
    /// Wait for at least this many milliseconds.
    DelayMs(u32),
    /// Wait for at least this many microseconds.
    DelayUs(u32),
}

/// As many bytes as one request reads at most.
pub const LONGEST_READ: usize = 6;

/// How far an operation has come.
#[derive(Debug, PartialEq, Eq)]
pub enum Progress<O, T, F> {
    /// It has another request.
    Pending(O),
    /// It is over.
    Done(Result<T, F>),
}

/// A reply as contracts speak of it: the bytes that were read, or why the bus failed. The
/// bytes mean nothing after a request that reads none.
pub type Reply<E> = Result<Seq<u8>, E>;

/// The reply that an executable reply stands for.
pub open spec fn view_reply<E>(reply: Result<&[u8], E>) -> Reply<E> {
    match reply {
        Ok(data) => Ok(data@),
        Err(error) => Err(error),
    }
}

/// Whether a reply has as many bytes as the request asks for.
pub open spec fn fits<E>(request: Request, reply: Reply<E>) -> bool {
    match (request, reply) {
        (Request::Read { address, len }, Ok(data)) => data.len() == len,
        _ => true,
    }
}

/// An operation on a bus that fails with an `E`.
pub trait Operation<E>: Sized {
    /// What the operation yields when it succeeds.
    type Output;

    /// What it yields when it fails.
    type Failure;

    /// Whether the operation is in one of its states.
    spec fn wf(self) -> bool;

    /// What the operation needs next.
    spec fn asks(self) -> Request;

    /// How the operation goes on after the reply to what it asked.
    spec fn answered(self, reply: Reply<E>) -> Progress<Self, Self::Output, Self::Failure>;

    /// What the operation needs next.
    fn request(&self) -> (request: Request)
        requires
            self.wf(),
        ensures
            request == self.asks(),
    ;

    /// Goes on after the reply to the last request: the bytes that were read (any bytes
    /// where none were asked for), or why the bus failed.
    fn resume(self, reply: Result<&[u8], E>) -> (progress: Progress<
        Self,
        Self::Output,
        Self::Failure,
    >)
        requires
            self.wf(),
            fits(self.asks(), view_reply(reply)),
        ensures
            progress == self.answered(view_reply(reply)),
            progress matches Progress::Pending(next) ==> next.wf(),
    ;
}

/// Reads a register, changes some of its fields and writes it back.
#[derive(Clone, Copy, Debug, PartialEq, Eq, Structural)]
pub struct Modify {
    /// The change.
    pub change: Change,
    /// What to write back, once the register was read.
    pub staged: Option<u16>,
}

impl Modify {
    /// The operation that makes this change.
    pub open spec fn of(change: Change) -> Modify {
        Modify { change, staged: None }
    }

    /// The operation that makes this change.
    pub fn new(change: Change) -> (operation: Modify)
        ensures
            operation == Modify::of(change),
    {
        Modify { change, staged: None }
    }

    /// The word that the bytes of the register make.
    pub open spec fn word(self, data: Seq<u8>) -> int {
        if self.change.wide() {
            bits::pair(data[0], data[1])
        } else {
            data[0] as int
        }
    }
}

impl<E> Operation<E> for Modify {
    type Output = ();

    type Failure = E;

    open spec fn wf(self) -> bool {
        true
    }

    open spec fn asks(self) -> Request {
        let address = self.change.spec_address();
        match self.staged {
            None => Request::Read { address, len: if self.change.wide() { 2 } else { 1 } },
            Some(word) => if self.change.wide() {
                Request::WritePair { address, low: (word % 256) as u8, high: (word / 256) as u8 }
            } else {
                Request::Write { address, byte: (word % 256) as u8 }
            },
        }
    }

    open spec fn answered(self, reply: Reply<E>) -> Progress<Self, (), E> {
        match (self.staged, reply) {
            (_, Err(error)) => Progress::Done(Err(error)),
            (None, Ok(data)) => Progress::Pending(
                Modify {
                    change: self.change,
                    staged: Some(self.change.applied(self.word(data)) as u16),
                },
            ),
            (Some(_), Ok(_)) => Progress::Done(Ok(())),
        }
    }

    fn request(&self) -> (request: Request) {
        let address: u8 = self.change.address();
        match self.staged {
            None => Request::Read { address, len: if self.change.is_wide() { 2 } else { 1 } },
            Some(word) => {
                if self.change.is_wide() {
                    Request::WritePair {
                        address,
                        low: (word % 256) as u8,
                        high: (word / 256) as u8,
                    }
                } else {
                    Request::Write { address, byte: (word % 256) as u8 }
                }
            },
        }
    }

    fn resume(self, reply: Result<&[u8], E>) -> (progress: Progress<Self, (), E>) {
        match reply {
            Err(error) => Progress::Done(Err(error)),
            Ok(data) => match self.staged {
                None => {
                    let word: u16 = if self.change.is_wide() {
                        bits::join(data[0], data[1])
                    } else {
                        data[0] as u16
                    };
                    Progress::Pending(
                        Modify { change: self.change, staged: Some(self.change.apply(word)) },
                    )
                },
                Some(_) => Progress::Done(Ok(())),
            },
        }
    }
}

/// Writes a command to the `CMD` register.
#[derive(Clone, Copy, Debug, PartialEq, Eq, Structural)]
pub struct Command {
    /// The command.
    pub command: CmdVariant,
}

impl<E> Operation<E> for Command {
    type Output = ();

    type Failure = E;

    open spec fn wf(self) -> bool {
        true
    }

    open spec fn asks(self) -> Request {
        Request::Write { address: CMD, byte: self.command.code() }
    }

    open spec fn answered(self, reply: Reply<E>) -> Progress<Self, (), E> {
        match reply {
            Ok(_) => Progress::Done(Ok(())),
            Err(error) => Progress::Done(Err(error)),
        }
    }

    fn request(&self) -> (request: Request) {
        Request::Write { address: CMD, byte: self.command.bits() }
    }

    fn resume(self, reply: Result<&[u8], E>) -> (progress: Progress<Self, (), E>) {
        match reply {
            Ok(_) => Progress::Done(Ok(())),
            Err(error) => Progress::Done(Err(error)),
        }
    }
}

} // verus!

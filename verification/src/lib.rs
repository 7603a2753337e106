//! Instruction-level execution tracing for CPU emulators: emulator threads
//! send fine-grained events over a channel, and a background listener groups
//! them into per-instruction records encoded in a streaming trace format.
use vstd::prelude::*;

pub mod channel;
pub mod format;
pub mod instruction;
pub mod listener;
pub mod reader;
pub mod register;
pub mod tracer;

pub use crate::instruction::InsnInfo;
pub use crate::register::RegisterInfo;

verus! {

/// The parent trait above all of its associated types which enables the
/// ability to trace the given architecture.
pub trait Architecture: Clone + Sized + 'static {
    /// The associated register type of the architecture.
    type Register: RegisterInfo;

    /// The associated instruction type of the architecture.
    type Instruction: InsnInfo;

    /// The address width of the architecture.
    type AddressWidth: AddressMode;
}

/// All of the possible errors which could result from the tracer.
#[derive(Clone, Copy, PartialEq, Eq, Structural, Debug)]
pub enum Error {
    /// [`Event::InsnStart`] was sent, but there wasn't a [`Event::InsnEnd`] to
    /// end the preceding instruction's effect(s).
    Ordering,
    /// All of the senders for the stored receiver have been dropped.
    SendersDropped,
    /// A sender failed when attempting to send an effect to the tracing thread.
    SendFailure,
    /// An issue was encountered when serializing the effects or storing the
    /// architecture information.
    Serialization,
    /// An issue was encountered while creating or writing to the trace file.
    IO,
}

impl Error {
    /// The message that [`Error::describe`] returns for each variant.
    pub open spec fn describe_spec(self) -> Seq<char> {
        match self {
            Error::Ordering => "There was an attempt to send another Start effect before the previous was ended."@,
            Error::SendersDropped => "All of the effect senders were dropped."@,
            Error::SendFailure => "There was an issue when sending an effect to the tracer."@,
            Error::Serialization => "There was an issue serializing an effect."@,
            Error::IO => "There was an issue while creating or writing to the trace file."@,
        }
    }

    /// Returns a human-readable message for the error.
    pub fn describe(&self) -> (r: &'static str)
        ensures
            r@ == self.describe_spec(),
    {
        match self {
            Error::Ordering => "There was an attempt to send another Start effect before the previous was ended.",
            Error::SendersDropped => "All of the effect senders were dropped.",
            Error::SendFailure => "There was an issue when sending an effect to the tracer.",
            Error::Serialization => "There was an issue serializing an effect.",
            Error::IO => "There was an issue while creating or writing to the trace file.",
        }
    }
}

/// All of the given effects that can be communicated from the main emulator
/// thread.
pub enum Event<A: Architecture> {
    /// Indicates the starting of a given instruction at a given address.
    InsnStart(A::AddressWidth, A::Instruction),
    /// Indicates the end of an instruction's effects.
    InsnEnd,
    /// Signals to the tracer thread that emulation has finished and to wrap up
    /// work.
    Terminate,
    /// Indicates that a register read has taken place for a given register.
    RegRead(A::Register),
    /// Indicates that a register write has taken place for a given register.
    RegWrite(A::Register, Vec<u8>),
    /// Indicates that a memory read has taken place at a given memory address.
    MemRead(A::AddressWidth),
    /// Indicates that a memory write has taken place at a given memory
    /// address. The written value is carried as a second address-sized
    /// value, and the trace format stores it that way uniformly.
    MemWrite(A::AddressWidth, A::AddressWidth),
}

/// Whether the event is a register or memory effect, one that belongs to the
/// record that is open when it arrives.
pub open spec fn is_sub_event<A: Architecture>(e: Event<A>) -> bool {
    match e {
        Event::RegRead(_) => true,
        Event::RegWrite(_, _) => true,
        Event::MemRead(_) => true,
        Event::MemWrite(_, _) => true,
        _ => false,
    }
}

/// Equality of two events up to the view of the written-value buffer of a
/// `RegWrite`.
pub open spec fn event_equiv<A: Architecture>(x: Event<A>, y: Event<A>) -> bool {
    match (x, y) {
        (Event::RegWrite(r1, v1), Event::RegWrite(r2, v2)) => r1 == r2 && v1@ == v2@,
        _ => x == y,
    }
}

impl<A: Architecture> Clone for Event<A> {
    /// Clones the event, preserving its payload.
    fn clone(&self) -> (r: Self)
        ensures
            event_equiv(*self, r),
    {
        match self {
            Event::InsnStart(a, i) => Event::InsnStart(*a, i.duplicate()),
            Event::InsnEnd => Event::InsnEnd,
            Event::Terminate => Event::Terminate,
            Event::RegRead(r) => Event::RegRead(*r),
            Event::RegWrite(r, v) => Event::RegWrite(*r, v.clone()),
            Event::MemRead(a) => Event::MemRead(*a),
            Event::MemWrite(a, v) => Event::MemWrite(*a, *v),
        }
    }
}

/// Determines the size of memory addresses for the given architecture in
/// bytes.
pub trait AddressMode: Sized + Copy + Send + 'static {
    /// The addressing mode size in bytes, at the specification level.
    spec fn mode_spec() -> u8;

    /// The numeric value of this address, at the specification level.
    spec fn value_spec(&self) -> u64;

    /// Returns the addressing mode size in bytes.
    fn mode() -> (r: u8)
        ensures
            r == Self::mode_spec(),
    ;

    /// Returns the address as a plain number, as it is stored in the trace.
    fn value(&self) -> (r: u64)
        ensures
            r == self.value_spec(),
    ;
}

impl AddressMode for u8 {
    open spec fn mode_spec() -> u8 {
        1
    }

    open spec fn value_spec(&self) -> u64 {
        *self as u64
    }

    fn mode() -> u8 {
        1
    }

    fn value(&self) -> u64 {
        *self as u64
    }
}

impl AddressMode for u16 {
    open spec fn mode_spec() -> u8 {
        2
    }

    open spec fn value_spec(&self) -> u64 {
        *self as u64
    }

    fn mode() -> u8 {
        2
    }

    fn value(&self) -> u64 {
        *self as u64
    }
}

impl AddressMode for u32 {
    open spec fn mode_spec() -> u8 {
        4
    }

    open spec fn value_spec(&self) -> u64 {
        *self as u64
    }

    fn mode() -> u8 {
        4
    }

    fn value(&self) -> u64 {
        *self as u64
    }
}

impl AddressMode for u64 {
    open spec fn mode_spec() -> u8 {
        8
    }

    open spec fn value_spec(&self) -> u64 {
        *self
    }

    fn mode() -> u8 {
        8
    }

    fn value(&self) -> u64 {
        *self
    }
}

} // verus!

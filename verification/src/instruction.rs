//! The [`InsnInfo`] trait and the per-instruction record assembled by the
//! listener.
use vstd::prelude::*;

use crate::{Architecture, Event};

verus! {

/// All of the required methods for instructions of the target architecture.
///
/// `size` and `kind` are only meaningful for instructions which have a
/// branching effect; both return `None` otherwise.
pub trait InsnInfo: Sized + Send + 'static {
    /// The size of the instruction, at the specification level. An
    /// implementation that is not verified may leave the default model.
    open spec fn size_spec(&self) -> Option<u16> {
        None
    }

    /// The branch classification of the instruction, at the specification
    /// level. An implementation that is not verified may leave the default
    /// model.
    open spec fn kind_spec(&self) -> Option<JumpKind> {
        None
    }

    /// The payload bytes of the instruction, at the specification level. An
    /// implementation that is not verified may leave the default model.
    open spec fn payload_spec(&self) -> Seq<u8> {
        Seq::empty()
    }

    /// Returns the size of the instruction, this is **only** required for
    /// instructions which return a [`JumpKind`].
    fn size(&self) -> (r: Option<u16>)
        ensures
            r == self.size_spec(),
    ;

    /// If the instruction has any branching effect on the emulator, this
    /// should return a [`JumpKind`], otherwise it should return [`None`].
    fn kind(&self) -> (r: Option<JumpKind>)
        ensures
            r == self.kind_spec(),
    ;

    /// Returns the payload bytes of the instruction, as they are stored in
    /// the trace.
    fn payload(&self) -> (r: Vec<u8>)
        ensures
            r@ == self.payload_spec(),
    ;

    /// Returns a copy of the instruction equal to the original.
    fn duplicate(&self) -> (r: Self)
        ensures
            r == *self,
    ;
}

/// Indicates that an instruction has a branching effect in the target
/// architecture.
#[derive(Clone, Copy, PartialEq, Eq, Structural, Debug)]
pub enum JumpKind {
    /// The instruction calls another function.
    Call,
    /// The instruction returns from the current function.
    Return,
    /// The instruction jumps to another basic block in the function
    /// unconditionally.
    Unconditional,
    /// The instruction potentially jumps to another basic block or moves to
    /// the next instruction.
    Conditional,
}

/// The specification-level model of one instruction record: the instruction's
/// address and payload, its derived branch metadata, and its sub-events in
/// receipt order.
#[verifier::ext_equal]
pub struct RecordModel<A: Architecture> {
    /// The address the instruction starts at.
    pub addr: A::AddressWidth,
    /// The instruction itself.
    pub insn: A::Instruction,
    /// The size of the instruction, for branching instructions.
    pub size: Option<u16>,
    /// The branch classification, for branching instructions.
    pub kind: Option<JumpKind>,
    /// The register and memory events observed while the record was open.
    pub events: Seq<Event<A>>,
}

/// One instruction record while it is being accumulated: the instruction's
/// address and payload, the branch metadata computed once at open time, and
/// the sub-events received so far.
pub struct Info<A: Architecture> {
    /// The address the instruction starts at.
    pub addr: A::AddressWidth,
    /// The instruction itself.
    pub insn: A::Instruction,
    /// The size of the instruction, for branching instructions.
    pub size: Option<u16>,
    /// The branch classification, for branching instructions.
    pub kind: Option<JumpKind>,
    /// The register and memory events observed while the record was open.
    pub events: Vec<Event<A>>,
}

impl<A: Architecture> View for Info<A> {
    type V = RecordModel<A>;

    open spec fn view(&self) -> RecordModel<A> {
        RecordModel {
            addr: self.addr,
            insn: self.insn,
            size: self.size,
            kind: self.kind,
            events: self.events@,
        }
    }
}

/// The record that a single `InsnStart` opens: `size` and `kind` are computed
/// here, once, from the instruction.
pub open spec fn fresh_record<A: Architecture>(
    addr: A::AddressWidth,
    insn: A::Instruction,
) -> RecordModel<A> {
    RecordModel {
        addr,
        insn,
        size: insn.size_spec(),
        kind: insn.kind_spec(),
        events: Seq::empty(),
    }
}

impl<A: Architecture> Info<A> {
    /// Creates a new record for the given instruction, computing its size and
    /// branch kind from the instruction itself.
    pub fn new(addr: A::AddressWidth, insn: A::Instruction, events: Vec<Event<A>>) -> (r: Self)
        ensures
            r@ == (RecordModel {
                addr,
                insn,
                size: insn.size_spec(),
                kind: insn.kind_spec(),
                events: events@,
            }),
    {
        let size = insn.size();
        let kind = insn.kind();
        Info { addr, insn, size, kind, events }
    }
}

} // verus!

//! The session-facing half of the tracer: the event channel, the cloneable
//! send handle, and the architecture header that opens a new trace.
use vstd::prelude::*;

use crate::channel;
use crate::format::{header_json, info_views, put_header};
use crate::listener::EventListener;
use crate::register::Info;
use crate::{AddressMode, Architecture, Error, Event, register::RegisterInfo};

verus! {

/// A simple wrapper type around the internal sender.
#[verifier::reject_recursive_types(A)]
pub struct EventSender<A: Architecture>(flume::Sender<Event<A>>);

impl<A: Architecture> EventSender<A> {
    /// Sends the passed event to the receiver, only returning
    /// [`Error::SendFailure`] if the listener has unexpectedly gone away.
    pub fn send(&self, event: Event<A>) -> (r: Result<(), Error>)
        ensures
            r matches Err(e) ==> e == Error::SendFailure,
    {
        match channel::send_raw(&self.0, event) {
            Ok(()) => Ok(()),
            Err(()) => Err(Error::SendFailure),
        }
    }

    /// Allows access to the internal sender.
    pub fn inner_sender(&self) -> &flume::Sender<Event<A>> {
        &self.0
    }

    /// Returns another send handle into the same channel, increasing the
    /// sender count but allowing events to be sent separately.
    pub fn duplicate(&self) -> EventSender<A> {
        EventSender(channel::clone_sender(&self.0))
    }
}

/// The numeric values of the initial-memory pairs, in order.
pub open spec fn mem_model<A: Architecture>(mem: Seq<(A::AddressWidth, A::AddressWidth)>) -> Seq<
    (u64, u64),
> {
    mem.map_values(|p: (A::AddressWidth, A::AddressWidth)| (p.0.value_spec(), p.1.value_spec()))
}

/// Builds the architecture header of a new trace for architecture `A`: the
/// address width, the full register table, and the initial-memory snapshot,
/// followed by the opening of the record container.
pub fn header_bytes<A: Architecture>(init_mem: &Vec<(A::AddressWidth, A::AddressWidth)>) -> (r: Vec<
    u8,
>)
    ensures
        r@ == header_json(
            A::AddressWidth::mode_spec(),
            A::Register::table_spec(),
            mem_model::<A>(init_mem@),
        ),
{
    let ids = A::Register::iter();
    let mut regs: Vec<Info<A::Register>> = Vec::new();
    let mut k: usize = 0;
    while k < ids.len()
        invariant
            k <= ids.len(),
            ids@.len() == A::Register::table_spec().len(),
            forall|j: int|
                0 <= j < ids@.len() ==> #[trigger] ids@[j].info_spec()
                    == A::Register::table_spec()[j],
            regs@.len() == k,
            forall|j: int| 0 <= j < k ==> #[trigger] regs@[j]@ == A::Register::table_spec()[j],
        decreases ids.len() - k,
    {
        regs.push(ids[k].info());
        k = k + 1;
    }
    proof {
        assert(info_views(regs@) =~= A::Register::table_spec());
    }
    let mut mem: Vec<(u64, u64)> = Vec::new();
    let mut k: usize = 0;
    while k < init_mem.len()
        invariant
            k <= init_mem.len(),
            mem@ == mem_model::<A>(init_mem@.take(k as int)),
        decreases init_mem.len() - k,
    {
        let pair = (init_mem[k].0.value(), init_mem[k].1.value());
        mem.push(pair);
        proof {
            assert(mem_model::<A>(init_mem@.take(k as int + 1)) =~= mem_model::<A>(
                init_mem@.take(k as int),
            ).push((init_mem@[k as int].0.value_spec(), init_mem@[k as int].1.value_spec())));
        }
        k = k + 1;
    }
    proof {
        assert(init_mem@.take(init_mem@.len() as int) =~= init_mem@);
    }
    let mut out: Vec<u8> = Vec::new();
    put_header(&mut out, A::AddressWidth::mode(), &regs, &mem);
    out
}

/// Opens a new session for architecture `A`: creates the event channel,
/// binds a fresh listener to its receiving end, and builds the header bytes
/// that precede every record of the trace.
pub fn open_session<A: Architecture>(init_mem: &Vec<(A::AddressWidth, A::AddressWidth)>) -> (r: (
    EventSender<A>,
    EventListener<A>,
    Vec<u8>,
))
    ensures
        r.1.wf(),
        r.1.history() == Seq::<Event<A>>::empty(),
        r.1.emitted() == Seq::<crate::instruction::RecordModel<A>>::empty(),
        r.2@ == header_json(
            A::AddressWidth::mode_spec(),
            A::Register::table_spec(),
            mem_model::<A>(init_mem@),
        ),
{
    let (tx, rx) = channel::new_channel();
    let listener = EventListener::new(rx);
    let header = header_bytes::<A>(init_mem);
    (EventSender(tx), listener, header)
}

} // verus!

//! The background consumer of the event channel: a state machine that groups
//! loose events into instruction-scoped records and hands out the trace
//! bytes that encode them.
//!
//! The machine is specified twice: [`run_from`] gives the meaning of any
//! event sequence at the specification level, and [`EventListener`] is the
//! executable machine, proved to follow it event by event.
use vstd::prelude::*;

use crate::channel;
use crate::format::{
    body_json, header_json, lab_close, lemma_csv_push, record_items, record_json, put_closing,
    put_record, trace_json, COMMA,
};
use crate::instruction::{fresh_record, Info, InsnInfo, RecordModel};
use crate::register::InfoModel;
use crate::{is_sub_event, Architecture, Error, Event};

verus! {

/// The status of the state machine after consuming a sequence of events.
#[verifier::ext_equal]
pub enum RunStatus<A: Architecture> {
    /// Still consuming events, with the record that is open, if any.
    Running(Option<RecordModel<A>>),
    /// A `Terminate` event ended the session normally.
    Finished,
    /// A protocol violation ended the session with the given error.
    Failed(Error),
}

/// The outcome of running the state machine over a sequence of events.
#[verifier::ext_equal]
pub struct RunResult<A: Architecture> {
    /// The records completed, in completion order.
    pub records: Seq<RecordModel<A>>,
    /// The machine's status after the last consumed event.
    pub status: RunStatus<A>,
}

/// What a single event does to the machine, given the open record.
#[verifier::ext_equal]
pub enum StepSpec<A: Architecture> {
    /// Keep running, with the given open record.
    Stay(Option<RecordModel<A>>),
    /// Complete the open record, emit it, and return to idle.
    Emit(RecordModel<A>),
    /// End the session normally, discarding a still-open record.
    Finish,
    /// Fail: a second `InsnStart` arrived while a record was open.
    Violation,
}

/// The transition table of the listener: `InsnStart` opens a record when none
/// is open and is a fatal ordering violation otherwise; `InsnEnd` completes
/// the open record and is ignored when none is open; `Terminate` ends the
/// session, discarding a still-open partial record; register and memory
/// events are appended to the open record and ignored when none is open.
pub open spec fn step_spec<A: Architecture>(cur: Option<RecordModel<A>>, e: Event<A>) -> StepSpec<
    A,
> {
    match e {
        Event::InsnStart(addr, insn) => match cur {
            None => StepSpec::Stay(Some(fresh_record(addr, insn))),
            Some(_) => StepSpec::Violation,
        },
        Event::InsnEnd => match cur {
            Some(r) => StepSpec::Emit(r),
            None => StepSpec::Stay(None),
        },
        Event::Terminate => StepSpec::Finish,
        _ => match cur {
            Some(r) => StepSpec::Stay(
                Some(
                    RecordModel {
                        addr: r.addr,
                        insn: r.insn,
                        size: r.size,
                        kind: r.kind,
                        events: r.events.push(e),
                    },
                ),
            ),
            None => StepSpec::Stay(None),
        },
    }
}

/// The records and status that a sequence of events produces, starting from
/// a machine with the given open record. Events after a terminal status are
/// never consumed.
pub open spec fn run_from<A: Architecture>(
    cur: Option<RecordModel<A>>,
    evs: Seq<Event<A>>,
) -> RunResult<A>
    decreases evs.len(),
{
    if evs.len() == 0 {
        RunResult { records: Seq::empty(), status: RunStatus::Running(cur) }
    } else {
        match step_spec(cur, evs[0]) {
            StepSpec::Stay(c2) => run_from(c2, evs.drop_first()),
            StepSpec::Emit(r) => {
                let rest = run_from(None, evs.drop_first());
                RunResult { records: seq![r] + rest.records, status: rest.status }
            },
            StepSpec::Finish => RunResult { records: Seq::empty(), status: RunStatus::Finished },
            StepSpec::Violation => RunResult {
                records: Seq::empty(),
                status: RunStatus::Failed(Error::Ordering),
            },
        }
    }
}

/// The records and status that a sequence of events produces on a fresh
/// machine.
pub open spec fn run<A: Architecture>(evs: Seq<Event<A>>) -> RunResult<A> {
    run_from(None, evs)
}

/// Consuming one more event extends a still-running machine exactly as the
/// transition table says, and leaves a finished or failed machine unchanged.
pub proof fn lemma_run_push<A: Architecture>(
    cur: Option<RecordModel<A>>,
    evs: Seq<Event<A>>,
    e: Event<A>,
)
    ensures
        ({
            let base = run_from(cur, evs);
            match base.status {
                RunStatus::Running(c) => match step_spec(c, e) {
                    StepSpec::Stay(c2) => run_from(cur, evs.push(e)) == (RunResult {
                        records: base.records,
                        status: RunStatus::Running(c2),
                    }),
                    StepSpec::Emit(r) => run_from(cur, evs.push(e)) == (RunResult {
                        records: base.records.push(r),
                        status: RunStatus::Running(None),
                    }),
                    StepSpec::Finish => run_from(cur, evs.push(e)) == (RunResult {
                        records: base.records,
                        status: RunStatus::Finished,
                    }),
                    StepSpec::Violation => run_from(cur, evs.push(e)) == (RunResult {
                        records: base.records,
                        status: RunStatus::Failed(Error::Ordering),
                    }),
                },
                _ => run_from(cur, evs.push(e)) == base,
            }
        }),
    decreases evs.len(),
{
    if evs.len() == 0 {
        assert(evs.push(e).drop_first() =~= Seq::<Event<A>>::empty());
        assert(evs.push(e)[0] == e);
        match step_spec(cur, e) {
            StepSpec::Emit(r) => {
                assert(step_spec(cur, evs.push(e)[0]) == StepSpec::Emit(r));
                let rest = run_from(None, evs.push(e).drop_first());
                assert(rest == (RunResult::<A> {
                    records: Seq::empty(),
                    status: RunStatus::Running(None),
                }));
                assert(run_from(cur, evs.push(e)) == (RunResult::<A> {
                    records: seq![r] + rest.records,
                    status: rest.status,
                }));
                assert(run_from(cur, evs.push(e)).records =~= seq![r]);
                assert(run_from(cur, evs).records.push(r) =~= seq![r]);
                assert(run_from(cur, evs.push(e)) =~= (RunResult {
                    records: run_from(cur, evs).records.push(r),
                    status: RunStatus::Running(None),
                }));
            },
            _ => {},
        }
    } else {
        assert(evs.push(e)[0] == evs[0]);
        assert(evs.push(e).drop_first() =~= evs.drop_first().push(e));
        match step_spec(cur, evs[0]) {
            StepSpec::Stay(c2) => {
                lemma_run_push(c2, evs.drop_first(), e);
            },
            StepSpec::Emit(r) => {
                lemma_run_push(None, evs.drop_first(), e);
                let base = run_from(cur, evs);
                let rest = run_from(None, evs.drop_first());
                match rest.status {
                    RunStatus::Running(c) => match step_spec(c, e) {
                        StepSpec::Emit(r2) => {
                            assert(seq![r] + rest.records.push(r2) =~= (seq![r]
                                + rest.records).push(r2));
                            assert(run_from(cur, evs.push(e)) =~= (RunResult {
                                records: base.records.push(r2),
                                status: RunStatus::Running(None),
                            }));
                        },
                        _ => {},
                    },
                    _ => {},
                }
            },
            StepSpec::Finish => {},
            StepSpec::Violation => {},
        }
    }
}

/// Whether `evs` matches the grammar
/// `(InsnStart (RegRead|RegWrite|MemRead|MemWrite)* InsnEnd)* Terminate`,
/// with `cur` the record open so far; if it does, the records it groups
/// into, one per `InsnStart`/`InsnEnd` pair.
pub open spec fn parse_trace<A: Architecture>(
    cur: Option<RecordModel<A>>,
    evs: Seq<Event<A>>,
) -> Option<Seq<RecordModel<A>>>
    decreases evs.len(),
{
    if evs.len() == 0 {
        None
    } else {
        match evs[0] {
            Event::InsnStart(addr, insn) => match cur {
                None => parse_trace(Some(fresh_record(addr, insn)), evs.drop_first()),
                Some(_) => None,
            },
            Event::InsnEnd => match cur {
                Some(r) => match parse_trace(None, evs.drop_first()) {
                    Some(rs) => Some(seq![r] + rs),
                    None => None,
                },
                None => None,
            },
            Event::Terminate => if cur is None && evs.len() == 1 {
                Some(Seq::empty())
            } else {
                None
            },
            e => match cur {
                Some(r) => parse_trace(
                    Some(
                        RecordModel {
                            addr: r.addr,
                            insn: r.insn,
                            size: r.size,
                            kind: r.kind,
                            events: r.events.push(e),
                        },
                    ),
                    evs.drop_first(),
                ),
                None => None,
            },
        }
    }
}

proof fn lemma_parse_run<A: Architecture>(cur: Option<RecordModel<A>>, evs: Seq<Event<A>>)
    ensures
        match parse_trace(cur, evs) {
            Some(rs) => run_from(cur, evs) == (RunResult {
                records: rs,
                status: RunStatus::<A>::Finished,
            }),
            None => true,
        },
    decreases evs.len(),
{
    if evs.len() == 0 {
    } else {
        match evs[0] {
            Event::InsnStart(addr, insn) => {
                if cur is None {
                    lemma_parse_run(Some(fresh_record(addr, insn)), evs.drop_first());
                }
            },
            Event::InsnEnd => {
                lemma_parse_run(None::<RecordModel<A>>, evs.drop_first());
            },
            Event::Terminate => {},
            e => {
                match cur {
                    Some(r) => {
                        lemma_parse_run(
                            Some(
                                RecordModel {
                                    addr: r.addr,
                                    insn: r.insn,
                                    size: r.size,
                                    kind: r.kind,
                                    events: r.events.push(e),
                                },
                            ),
                            evs.drop_first(),
                        );
                    },
                    None => {},
                }
            },
        }
    }
}

/// Grammar conformance: an event sequence matching
/// `(InsnStart (RegRead|RegWrite|MemRead|MemWrite)* InsnEnd)* Terminate`
/// finishes with no error and emits exactly one record per
/// `InsnStart`/`InsnEnd` pair, each holding its sub-events in receipt order.
pub proof fn lemma_grammar_conformance<A: Architecture>(
    evs: Seq<Event<A>>,
    rs: Seq<RecordModel<A>>,
)
    requires
        parse_trace(None::<RecordModel<A>>, evs) == Some(rs),
    ensures
        run(evs) == (RunResult { records: rs, status: RunStatus::<A>::Finished }),
{
    lemma_parse_run(None::<RecordModel<A>>, evs);
}

/// Ordering violation detection: a second `InsnStart` with no intervening
/// `InsnEnd` terminates the run with the `Ordering` error, and no record,
/// partial or otherwise, is emitted for it, whatever events follow.
pub proof fn lemma_ordering_violation<A: Architecture>(
    a1: A::AddressWidth,
    i1: A::Instruction,
    a2: A::AddressWidth,
    i2: A::Instruction,
    rest: Seq<Event<A>>,
)
    ensures
        run(seq![Event::<A>::InsnStart(a1, i1), Event::<A>::InsnStart(a2, i2)] + rest)
            == (RunResult {
            records: Seq::<RecordModel<A>>::empty(),
            status: RunStatus::<A>::Failed(Error::Ordering),
        }),
{
    let s = seq![Event::<A>::InsnStart(a1, i1), Event::<A>::InsnStart(a2, i2)] + rest;
    assert(s[0] == Event::<A>::InsnStart(a1, i1));
    assert(s.drop_first() =~= seq![Event::<A>::InsnStart(a2, i2)] + rest);
    assert(s.drop_first()[0] == Event::<A>::InsnStart(a2, i2));
    assert(step_spec(None::<RecordModel<A>>, s[0]) == StepSpec::<A>::Stay(
        Some(fresh_record(a1, i1)),
    ));
    assert(run(s) == run_from(Some(fresh_record(a1, i1)), s.drop_first()));
    assert(step_spec(Some(fresh_record(a1, i1)), s.drop_first()[0]) == StepSpec::<A>::Violation);
    assert(run_from(Some(fresh_record(a1, i1)), s.drop_first()) == (RunResult {
        records: Seq::<RecordModel<A>>::empty(),
        status: RunStatus::<A>::Failed(Error::Ordering),
    }));
}

proof fn lemma_collects_subs<A: Architecture>(
    r: RecordModel<A>,
    subs: Seq<Event<A>>,
    rest: Seq<Event<A>>,
)
    requires
        forall|k: int| 0 <= k < subs.len() ==> is_sub_event(subs[k]),
    ensures
        run_from(Some(r), subs + seq![Event::<A>::InsnEnd] + rest) == (RunResult {
            records: seq![
                RecordModel {
                    addr: r.addr,
                    insn: r.insn,
                    size: r.size,
                    kind: r.kind,
                    events: r.events + subs,
                },
            ] + run(rest).records,
            status: run(rest).status,
        }),
    decreases subs.len(),
{
    let s = subs + seq![Event::<A>::InsnEnd] + rest;
    if subs.len() == 0 {
        assert(s[0] == Event::<A>::InsnEnd);
        assert(s.drop_first() =~= rest);
        assert(r.events + subs =~= r.events);
        assert((RecordModel {
            addr: r.addr,
            insn: r.insn,
            size: r.size,
            kind: r.kind,
            events: r.events + subs,
        }) =~= r);
    } else {
        let e0 = subs[0];
        assert(is_sub_event(subs[0]));
        assert(s[0] == e0);
        let r2 = RecordModel {
            addr: r.addr,
            insn: r.insn,
            size: r.size,
            kind: r.kind,
            events: r.events.push(e0),
        };
        assert(forall|k: int|
            0 <= k < subs.drop_first().len() ==> is_sub_event(subs.drop_first()[k]));
        assert(s.drop_first() =~= subs.drop_first() + seq![Event::<A>::InsnEnd] + rest);
        lemma_collects_subs(r2, subs.drop_first(), rest);
        assert(r2.events + subs.drop_first() =~= r.events + subs);
    }
}

/// Record fidelity: the sub-events sent between a matching `InsnStart` and
/// `InsnEnd` become exactly the sub-events of the emitted record, in their
/// original order, beside the size and branch kind that the decoder returns
/// for the instruction.
pub proof fn lemma_record_fidelity<A: Architecture>(
    addr: A::AddressWidth,
    insn: A::Instruction,
    subs: Seq<Event<A>>,
    rest: Seq<Event<A>>,
)
    requires
        forall|k: int| 0 <= k < subs.len() ==> is_sub_event(subs[k]),
    ensures
        run(seq![Event::<A>::InsnStart(addr, insn)] + subs + seq![Event::<A>::InsnEnd] + rest)
            == (RunResult {
            records: seq![
                RecordModel {
                    addr,
                    insn,
                    size: insn.size_spec(),
                    kind: insn.kind_spec(),
                    events: subs,
                },
            ] + run(rest).records,
            status: run(rest).status,
        }),
{
    let s = seq![Event::<A>::InsnStart(addr, insn)] + subs + seq![Event::<A>::InsnEnd] + rest;
    assert(s[0] == Event::<A>::InsnStart(addr, insn));
    assert(s.drop_first() =~= subs + seq![Event::<A>::InsnEnd] + rest);
    lemma_collects_subs(fresh_record(addr, insn), subs, rest);
    assert(fresh_record::<A>(addr, insn).events + subs =~= subs);
}

/// Idempotent empty trace: a session that receives only `Terminate` finishes
/// with no error and no records, and its whole trace is the header followed
/// at once by the closing of an empty, well-formed record container.
pub proof fn lemma_empty_trace<A: Architecture>(
    width: u8,
    regs: Seq<InfoModel<A::Register>>,
    mem: Seq<(u64, u64)>,
)
    ensures
        run(seq![Event::<A>::Terminate]) == (RunResult {
            records: Seq::<RecordModel<A>>::empty(),
            status: RunStatus::<A>::Finished,
        }),
        trace_json::<A>(width, regs, mem, Seq::empty()) == header_json(width, regs, mem)
            + lab_close(),
{
    assert(seq![Event::<A>::Terminate][0] == Event::<A>::Terminate);
    assert(record_items(Seq::<RecordModel<A>>::empty()) =~= Seq::<Seq<u8>>::empty());
    assert(body_json(Seq::<RecordModel<A>>::empty()) =~= Seq::<u8>::empty());
    assert(trace_json::<A>(width, regs, mem, Seq::empty()) =~= header_json(width, regs, mem)
        + lab_close());
}

/// The model of an optional open record.
pub open spec fn opt_model<A: Architecture>(o: Option<Info<A>>) -> Option<RecordModel<A>> {
    match o {
        Some(i) => Some(i@),
        None => None,
    }
}

/// What one wait on the channel produced: trace bytes to append, the final
/// bytes of a finished trace, a fatal error, or nothing yet.
pub enum Chunk {
    /// No output was produced; the session continues.
    Quiet,
    /// Bytes to append to the trace; the session continues.
    Bytes(Vec<u8>),
    /// The final bytes of the trace; the session ended normally.
    Last(Vec<u8>),
    /// The session ended with the given fatal error; nothing more is written.
    Fatal(Error),
}

/// The main workhorse for the tracer, lives on a separate thread awaiting
/// events being sent over a channel.
///
/// This is responsible for handling all of the event logic along with
/// encoding completed records as trace bytes, which the caller appends to the
/// trace file.
#[verifier::reject_recursive_types(A)]
pub struct EventListener<A: Architecture> {
    /// The internal receiver which listens for events.
    receiver: flume::Receiver<Event<A>>,
    /// The current instruction being executed by the target architecture.
    insn: Option<Info<A>>,
    /// The spare sub-event buffer, reused across instructions: cleared when
    /// a record completes, not reallocated.
    buffer: Vec<Event<A>>,
    /// Whether any record has been handed out yet.
    started: bool,
    /// The events received so far, for specification purposes.
    history: Ghost<Seq<Event<A>>>,
    /// The records completed so far, for specification purposes.
    emitted: Ghost<Seq<RecordModel<A>>>,
}

/// The relation that consuming one event establishes between the machine
/// before and after it, and the chunk it hands back: the history grows by
/// exactly that event, the completed records of the history are the emitted
/// ones, and the chunk follows the transition table, with the bytes of a
/// completed record stated exactly.
pub open spec fn step_post<A: Architecture>(
    pre: EventListener<A>,
    post: EventListener<A>,
    event: Event<A>,
    r: Chunk,
) -> bool {
    &&& post.history() == pre.history().push(event)
    &&& run(post.history()).records == post.emitted()
    &&& match step_spec(pre.open_record(), event) {
        StepSpec::Stay(_) => r is Quiet && post.wf() && post.emitted() == pre.emitted(),
        StepSpec::Emit(rec) => (r matches Chunk::Bytes(b) && b@ == (if pre.emitted().len() == 0 {
            Seq::<u8>::empty()
        } else {
            seq![COMMA]
        }) + record_json(rec) && body_json(post.emitted()) == body_json(pre.emitted()) + b@)
            && post.wf() && post.emitted() == pre.emitted().push(rec),
        StepSpec::Finish => (r matches Chunk::Last(b) && b@ == lab_close()) && post.emitted()
            == pre.emitted() && run(post.history()).status == RunStatus::<A>::Finished,
        StepSpec::Violation => r == Chunk::Fatal(Error::Ordering) && post.emitted()
            == pre.emitted() && run(post.history()).status == RunStatus::<A>::Failed(
            Error::Ordering,
        ),
    }
}

impl<A: Architecture> EventListener<A> {
    /// The events this listener has received so far.
    pub closed spec fn history(&self) -> Seq<Event<A>> {
        self.history@
    }

    /// The records this listener has completed and handed out so far.
    pub closed spec fn emitted(&self) -> Seq<RecordModel<A>> {
        self.emitted@
    }

    /// The record that is open, if any, as a model.
    pub closed spec fn open_record(&self) -> Option<RecordModel<A>> {
        opt_model(self.insn)
    }

    /// The machine is still running and corresponds, record for record, to
    /// the events received so far.
    pub closed spec fn wf(&self) -> bool {
        &&& run(self.history@) == (RunResult {
            records: self.emitted@,
            status: RunStatus::Running(opt_model(self.insn)),
        })
        &&& (self.started <==> self.emitted@.len() > 0)
        &&& self.buffer@ == Seq::<Event<A>>::empty()
    }

    /// Everything the listener has received so far has been handed out:
    /// the completed records of the received events are exactly the emitted
    /// ones.
    pub proof fn lemma_wf_records(&self)
        requires
            self.wf(),
        ensures
            run(self.history()).records == self.emitted(),
            run(self.history()).status matches RunStatus::Running(_),
    {
    }

    /// Creates a new listener with the provided receiver.
    pub fn new(receiver: flume::Receiver<Event<A>>) -> (r: Self)
        ensures
            r.wf(),
            r.history() == Seq::<Event<A>>::empty(),
            r.emitted() == Seq::<RecordModel<A>>::empty(),
    {
        EventListener {
            receiver,
            insn: None,
            buffer: Vec::new(),
            started: false,
            history: Ghost(Seq::empty()),
            emitted: Ghost(Seq::empty()),
        }
    }

    /// Runs one transition of the state machine for a received event.
    ///
    /// The response to each event value is fixed by the transition table
    /// [`step_spec`]: a completed record comes back as [`Chunk::Bytes`],
    /// holding exactly the bytes that extend the body of the trace by that
    /// record; `Terminate` comes back as [`Chunk::Last`] with the bytes that
    /// close the record container, a still-open partial record being
    /// discarded, by policy; a second `InsnStart` under an open record comes
    /// back as the fatal `Ordering` error, and nothing more is written.
    pub fn step(&mut self, event: Event<A>) -> (r: Chunk)
        requires
            old(self).wf(),
        ensures
            step_post(*old(self), *final(self), event, r),
    {
        let ghost h0 = self.history@;
        proof {
            lemma_run_push(None, h0, event);
        }
        self.history = Ghost(h0.push(event));
        match event {
            Event::InsnStart(addr, insn) => {
                if self.insn.is_some() {
                    Chunk::Fatal(Error::Ordering)
                } else {
                    let mut events: Vec<Event<A>> = Vec::new();
                    core::mem::swap(&mut events, &mut self.buffer);
                    let rec = Info::new(addr, insn, events);
                    proof {
                        assert(rec@ =~= fresh_record::<A>(addr, insn));
                    }
                    self.insn = Some(rec);
                    Chunk::Quiet
                }
            },
            Event::InsnEnd => {
                match self.insn.take() {
                    Some(rec) => {
                        let mut b: Vec<u8> = Vec::new();
                        if self.started {
                            b.push(COMMA);
                        }
                        put_record(&mut b, &rec);
                        self.started = true;
                        let ghost e0 = self.emitted@;
                        self.emitted = Ghost(e0.push(rec@));
                        proof {
                            assert(record_items(e0.push(rec@)) =~= record_items(
                                e0,
                            ).push(record_json(rec@)));
                            lemma_csv_push(record_items(e0), record_json(rec@));
                            assert(b@ =~= (if e0.len() == 0 {
                                Seq::<u8>::empty()
                            } else {
                                seq![COMMA]
                            }) + record_json(rec@));
                            assert(body_json(self.emitted@) =~= body_json(e0) + b@);
                        }
                        let Info { addr: _, insn: _, size: _, kind: _, events: mut spare } = rec;
                        spare.clear();
                        self.buffer = spare;
                        Chunk::Bytes(b)
                    },
                    None => Chunk::Quiet,
                }
            },
            Event::Terminate => {
                let mut b: Vec<u8> = Vec::new();
                put_closing(&mut b);
                Chunk::Last(b)
            },
            e => {
                match &mut self.insn {
                    Some(rec) => {
                        rec.events.push(e);
                    },
                    None => {},
                }
                Chunk::Quiet
            },
        }
    }

    /// Waits on the channel and handles its answer: a received event is
    /// consumed by one call of [`EventListener::step`], whose contract fixes
    /// the response to it, and the channel's failure answer - every sender
    /// dropped and the queue drained - comes back as the fatal
    /// `SendersDropped` error, with the machine left unchanged; nothing else
    /// produces that error.
    pub fn poll_event(&mut self) -> (r: Chunk)
        requires
            old(self).wf(),
        ensures
            r == Chunk::Fatal(Error::SendersDropped) ==> *final(self) == *old(self),
            r != Chunk::Fatal(Error::SendersDropped) ==> exists|event: Event<A>|
                #[trigger] step_post(*old(self), *final(self), event, r),
    {
        match channel::recv_raw(&self.receiver) {
            Err(()) => Chunk::Fatal(Error::SendersDropped),
            Ok(event) => self.step(event),
        }
    }
}

} // verus!


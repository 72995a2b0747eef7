//! Ladder-style logic pipelines with a verified observability layer.
//!
//! A [`Rack`] holds the most recent trace of every named line and hands out
//! per-tick [`Processor`] working buffers.  A caller starts a line with
//! [`Processor::line`], chains guarded [`Step`]s with [`Step::then`] and
//! [`Step::then_any`], reads the terminal [`Step::is_active`], and commits
//! the tick's traces back with [`Rack::ingress`].

pub mod laws;
pub mod ops;
pub mod parse;
pub mod order;
pub mod recording;
pub mod render;
pub mod table;
pub mod value;
pub mod wire;

pub use recording::{InputKind, LineState, StepState, StepStateInfo, VLine, VStep, VStepInfo};
pub use value::{InputValue, StepInput, VInput};

use vstd::prelude::*;
use vstd::pervasive::cloned;
use core::marker::PhantomData;
use core::sync::atomic::{AtomicBool, Ordering};
use std::sync::Arc;
use crate::table::{append_step, find_line, lines_sorted, lines_view, LineTable};

verus! {

/// The record left by an action that was never run: the chain had already
/// halted, so nothing was read and nothing passed.
pub open spec fn skipped_info(name: Seq<char>, kind: InputKind) -> VStepInfo {
    VStepInfo { name, input: VInput::Null, kind, passed: false }
}

/// The record left by an action that ran with the given recorded input.
pub open spec fn run_info(name: Seq<char>, kind: InputKind, input: VInput, passed: bool) -> VStepInfo {
    VStepInfo { name, input, kind, passed }
}

/// What an action records as its input: the externally supplied value if one
/// was attached, otherwise the flow value's own recorded form.
pub open spec fn recorded_input_of<INPUT: StepInput>(rec: Option<VInput>, flow: INPUT) -> VInput {
    match rec {
        Some(v) => v,
        None => flow.recorded_view(),
    }
}

/// Appends a step to the named line of the table, if the step belongs to a
/// line at all; a step without a line leaves the table unchanged.
pub open spec fn append_if_named(lines: Seq<VLine>, line: Option<Seq<char>>, st: VStep) -> Seq<
    VLine,
> {
    match line {
        None => lines,
        Some(n) => append_step(lines, n, st),
    }
}

/// Binding of a name, a one-shot function from input to optional output,
/// and an optional externally supplied recorded input.
#[verifier::reject_recursive_types(INPUT)]
#[verifier::reject_recursive_types(OUTPUT)]
pub struct Action<F, INPUT, OUTPUT> where F: FnOnce(INPUT) -> Option<OUTPUT> {
    f: F,
    name: String,
    recorded_input: Option<InputValue>,
    _marker: PhantomData<(INPUT, OUTPUT)>,
}

impl<F, INPUT, OUTPUT> Action<F, INPUT, OUTPUT> where F: FnOnce(INPUT) -> Option<OUTPUT> {
    /// The action's function.
    pub closed spec fn func(&self) -> F {
        self.f
    }

    /// The action's name.
    pub closed spec fn name_view(&self) -> Seq<char> {
        self.name@
    }

    /// The externally supplied recorded input, if any.
    pub closed spec fn recorded(&self) -> Option<VInput> {
        match &self.recorded_input {
            Some(v) => Some(v@),
            None => None,
        }
    }

    /// `External` if a recorded input is attached, else `Flow`.
    pub open spec fn kind(&self) -> InputKind {
        if self.recorded() is Some {
            InputKind::External
        } else {
            InputKind::Flow
        }
    }

    /// Creates a new action; the name may be empty.
    pub fn new(name: &str, f: F) -> (r: Self)
        ensures
            r.func() == f,
            r.name_view() == name@,
            r.recorded() is None,
    {
        Action { f, name: name.to_owned(), recorded_input: None, _marker: PhantomData }
    }

    /// Attaches the recorded (actual) input for the action function.
    pub fn with_recorded_input(self, input: InputValue) -> (r: Self)
        ensures
            r.func() == self.func(),
            r.name_view() == self.name_view(),
            r.recorded() == Some(input@),
    {
        Action {
            f: self.f,
            name: self.name,
            recorded_input: Some(input),
            _marker: PhantomData,
        }
    }
}

/// Logical step in a line: an in-flight value and an active flag, plus the
/// name of the line the step belongs to (when it was started by
/// [`Processor::line`]).
pub struct Step<INPUT> {
    active: bool,
    input: Option<INPUT>,
    line_name: Option<String>,
}

impl<INPUT> Step<INPUT> {
    /// Whether the step is active.
    pub closed spec fn spec_active(&self) -> bool {
        self.active
    }

    /// The in-flight value, if the step still carries one.
    pub closed spec fn spec_input(&self) -> Option<INPUT> {
        self.input
    }

    /// The name of the line the step belongs to, if any.
    pub closed spec fn spec_line(&self) -> Option<Seq<char>> {
        match &self.line_name {
            Some(n) => Some(n@),
            None => None,
        }
    }

    /// A step is active exactly while it holds a value.
    pub open spec fn wf(&self) -> bool {
        self.spec_active() <==> self.spec_input() is Some
    }

    /// Creates a new line-less step holding `value`.
    pub fn new(value: INPUT) -> (r: Self)
        ensures
            r.spec_active(),
            r.spec_input() == Some(value),
            r.spec_line() is None,
            r.wf(),
    {
        Step { active: true, input: Some(value), line_name: None }
    }

    /// Returns whether the step is active (can be passed).
    pub fn is_active(&self) -> (r: bool)
        ensures
            r == self.spec_active(),
    {
        self.active
    }
}

impl<INPUT: StepInput> Step<INPUT> {
    /// Passes the step if the action returns `Some`.
    ///
    /// The action's function runs only while the step is active; a halted
    /// chain still records a placeholder entry (input `null`, not passed),
    /// so the line's full template stays observable.
    pub fn then<OUTPUT, F: FnOnce(INPUT) -> Option<OUTPUT>>(
        self,
        processor: &mut Processor,
        action: Action<F, INPUT, OUTPUT>,
    ) -> (r: Step<OUTPUT>)
        requires
            old(processor).wf(),
            self.wf(),
            self.spec_input() matches Some(v) ==> call_requires(action.func(), (v,)),
        ensures
            final(processor).wf(),
            r.wf(),
            r.spec_line() == self.spec_line(),
            !self.spec_active() ==> {
                &&& !r.spec_active()
                &&& final(processor).spec_lines() == append_if_named(
                    old(processor).spec_lines(),
                    self.spec_line(),
                    VStep::Single(skipped_info(action.name_view(), action.kind())),
                )
            },
            self.spec_active() ==> (exists|o: Option<OUTPUT>|
                {
                    &&& #[trigger] call_ensures(action.func(), (self.spec_input()->Some_0,), o)
                    &&& r.spec_active() == (o is Some)
                    &&& r.spec_input() == o
                    &&& final(processor).spec_lines() == append_if_named(
                        old(processor).spec_lines(),
                        self.spec_line(),
                        VStep::Single(
                            run_info(
                                action.name_view(),
                                action.kind(),
                                recorded_input_of(action.recorded(), self.spec_input()->Some_0),
                                o is Some,
                            ),
                        ),
                    )
                }),
    {
        let Step { active, input, line_name } = self;
        let Action { f, name, recorded_input, _marker } = action;
        let kind = if recorded_input.is_some() {
            InputKind::External
        } else {
            InputKind::Flow
        };
        match input {
            Some(value) => {
                let ghost gin = value;
                let rec: InputValue = match recorded_input {
                    Some(v) => v,
                    None => value.to_recorded(),
                };
                let out = f(value);
                let ghost gout = out;
                let passed = out.is_some();
                if let Some(ln) = &line_name {
                    processor.append(
                        ln.as_str(),
                        StepState::single(StepStateInfo::new(name.as_str(), rec, kind, passed)),
                    );
                }
                proof {
                    assert(call_ensures(action.func(), (gin,), gout));
                }
                Step { active: passed, input: out, line_name }
            },
            None => {
                if let Some(ln) = &line_name {
                    processor.append(
                        ln.as_str(),
                        StepState::single(
                            StepStateInfo::new(name.as_str(), InputValue::Null, kind, false),
                        ),
                    );
                }
                Step { active: false, input: None, line_name }
            },
        }
    }

    /// Passes the step if any of the two actions returns `Some`.
    ///
    /// Both branches always run on the same input (one branch on a clone);
    /// the first successful branch's output is carried forward.  The
    /// recorded multi-branch step holds one record per branch.
    pub fn then_any<OUTPUT, F, F2>(
        self,
        processor: &mut Processor,
        action1: Action<F, INPUT, OUTPUT>,
        action2: Action<F2, INPUT, OUTPUT>,
    ) -> (r: Step<OUTPUT>) where
        F: FnOnce(INPUT) -> Option<OUTPUT>,
        F2: FnOnce(INPUT) -> Option<OUTPUT>,
        INPUT: Clone,

        requires
            old(processor).wf(),
            self.wf(),
            self.spec_input() matches Some(v) ==> (forall|c: INPUT|
                cloned(v, c) ==> call_requires(action1.func(), (c,)) && call_requires(
                    action2.func(),
                    (c,),
                )),
        ensures
            final(processor).wf(),
            r.wf(),
            r.spec_line() == self.spec_line(),
            !self.spec_active() ==> {
                &&& !r.spec_active()
                &&& final(processor).spec_lines() == append_if_named(
                    old(processor).spec_lines(),
                    self.spec_line(),
                    VStep::Multi(
                        seq![
                            skipped_info(action1.name_view(), action1.kind()),
                            skipped_info(action2.name_view(), action2.kind()),
                        ],
                    ),
                )
            },
            self.spec_active() ==> (exists|c1: INPUT, c2: INPUT, o1: Option<OUTPUT>, o2: Option<
                OUTPUT,
            >|
                {
                    &&& cloned(self.spec_input()->Some_0, c1)
                    &&& cloned(self.spec_input()->Some_0, c2)
                    &&& #[trigger] call_ensures(action1.func(), (c1,), o1)
                    &&& #[trigger] call_ensures(action2.func(), (c2,), o2)
                    &&& r.spec_active() == (o1 is Some || o2 is Some)
                    &&& r.spec_input() == (if o1 is Some {
                        o1
                    } else {
                        o2
                    })
                    &&& final(processor).spec_lines() == append_if_named(
                        old(processor).spec_lines(),
                        self.spec_line(),
                        VStep::Multi(
                            seq![
                                run_info(
                                    action1.name_view(),
                                    action1.kind(),
                                    recorded_input_of(
                                        action1.recorded(),
                                        self.spec_input()->Some_0,
                                    ),
                                    o1 is Some,
                                ),
                                run_info(
                                    action2.name_view(),
                                    action2.kind(),
                                    recorded_input_of(
                                        action2.recorded(),
                                        self.spec_input()->Some_0,
                                    ),
                                    o2 is Some,
                                ),
                            ],
                        ),
                    )
                }),
    {
        let Step { active, input, line_name } = self;
        let Action { f: f1, name: name1, recorded_input: rec_in1, _marker: _m1 } = action1;
        let Action { f: f2, name: name2, recorded_input: rec_in2, _marker: _m2 } = action2;
        let kind1 = if rec_in1.is_some() {
            InputKind::External
        } else {
            InputKind::Flow
        };
        let kind2 = if rec_in2.is_some() {
            InputKind::External
        } else {
            InputKind::Flow
        };
        match input {
            Some(value) => {
                let ghost gin = value;
                let rec1: InputValue = match rec_in1 {
                    Some(v) => v,
                    None => value.to_recorded(),
                };
                let rec2: InputValue = match rec_in2 {
                    Some(v) => v,
                    None => value.to_recorded(),
                };
                let c1 = value.clone();
                let ghost gc1 = c1;
                proof {
                    assert(cloned(gin, c1));
                    assert(cloned(gin, gin));
                    assert(call_requires(action1.func(), (gc1,)));
                    assert(call_requires(action2.func(), (gin,)));
                }
                let o1 = f1(c1);
                let o2 = f2(value);
                let ghost go1 = o1;
                let ghost go2 = o2;
                proof {
                    assert(call_ensures(action1.func(), (gc1,), go1));
                    assert(call_ensures(action2.func(), (gin,), go2));
                }
                let passed1 = o1.is_some();
                let passed2 = o2.is_some();
                let out = if passed1 {
                    o1
                } else {
                    o2
                };
                let active2 = passed1 || passed2;
                if let Some(ln) = &line_name {
                    let mut infos: Vec<StepStateInfo> = Vec::new();
                    infos.push(StepStateInfo::new(name1.as_str(), rec1, kind1, passed1));
                    infos.push(StepStateInfo::new(name2.as_str(), rec2, kind2, passed2));
                    proof {
                        assert(crate::recording::infos_view(infos@) =~= seq![
                            infos@[0]@,
                            infos@[1]@,
                        ]);
                    }
                    processor.append(ln.as_str(), StepState::multi(infos));
                }
                Step { active: active2, input: out, line_name }
            },
            None => {
                if let Some(ln) = &line_name {
                    let mut infos: Vec<StepStateInfo> = Vec::new();
                    infos.push(StepStateInfo::new(name1.as_str(), InputValue::Null, kind1, false));
                    infos.push(StepStateInfo::new(name2.as_str(), InputValue::Null, kind2, false));
                    proof {
                        assert(crate::recording::infos_view(infos@) =~= seq![
                            infos@[0]@,
                            infos@[1]@,
                        ]);
                    }
                    processor.append(ln.as_str(), StepState::multi(infos));
                }
                Step { active: false, input: None, line_name }
            },
        }
    }
}

/// Per-tick working buffer: collects line traces keyed by name and shares
/// its rack's recording flag.
pub struct Processor {
    result: LineTable,
    recording: Arc<AtomicBool>,
}

impl Processor {
    /// The traces collected so far, in name order.
    pub closed spec fn spec_lines(&self) -> Seq<VLine> {
        self.result@
    }

    /// Well-formedness: the trace table is sorted by name.
    pub open spec fn wf(&self) -> bool {
        lines_sorted(self.spec_lines())
    }

    /// Creates a new processor, independent of any rack, with a recording
    /// flag of its own that starts off.
    pub fn new() -> (r: Self)
        ensures
            r.spec_lines() == Seq::<VLine>::empty(),
            r.wf(),
    {
        Processor { result: LineTable::new(), recording: Arc::new(AtomicBool::new(false)) }
    }

    /// Resets the processor recordings.
    pub fn reset(&mut self)
        ensures
            final(self).spec_lines() == Seq::<VLine>::empty(),
            final(self).wf(),
    {
        self.result.clear();
    }

    /// Returns `true` if the shared recording flag is set at this moment.
    /// The flag lives in one atomic cell shared with the rack that produced
    /// this processor, so a toggle on the rack is visible here at once;
    /// nothing can be promised about the value itself, since another thread
    /// may store to it at any time.
    pub fn is_recording(&self) -> bool {
        self.recording.load(Ordering::SeqCst)
    }

    /// Returns the trace of the named line, if one was collected.
    pub fn line_state(&self, name: &str) -> (r: Option<&LineState>)
        requires
            self.wf(),
        ensures
            match r {
                Some(l) => find_line(self.spec_lines(), name@) == Some(l@),
                None => find_line(self.spec_lines(), name@) is None,
            },
    {
        self.result.get(name)
    }

    /// Appends a step to the named line's trace; without a trace for that
    /// name (recording off, or the line never started) this is a no-op.
    fn append(&mut self, name: &str, st: StepState)
        requires
            old(self).wf(),
        ensures
            final(self).wf(),
            final(self).spec_lines() == append_step(old(self).spec_lines(), name@, st@),
    {
        self.result.append_to(name, st);
    }

    /// Creates a new logical line: if the shared recording flag is read as
    /// set, the line's trace is created fresh (an existing trace of the
    /// same name from this tick is discarded), otherwise no trace is
    /// touched.  Either way the returned step is active, holds `input`, and
    /// belongs to the line.  Which of the two outcomes happened depends on
    /// the flag's value at the moment of the read, which another thread may
    /// change at any time, so the contract promises the disjunction of the
    /// two.
    pub fn line<INPUT>(&mut self, name: &str, input: INPUT) -> (r: Step<INPUT>)
        requires
            old(self).wf(),
        ensures
            final(self).wf(),
            r.spec_active(),
            r.spec_input() == Some(input),
            r.spec_line() == Some(name@),
            r.wf(),
            final(self).spec_lines() == old(self).spec_lines() || (forall|n: Seq<char>|
                #[trigger] find_line(final(self).spec_lines(), n) == (if n == name@ {
                    Some(VLine { name: name@, steps: Seq::<VStep>::empty() })
                } else {
                    find_line(old(self).spec_lines(), n)
                })),
    {
        if self.recording.load(Ordering::SeqCst) {
            self.result.insert(LineState::new(name));
        }
        Step { active: true, input: Some(input), line_name: Some(name.to_owned()) }
    }
}

/// Persistent store of the most recent trace of every line across ticks;
/// factory for [`Processor`]s; holds the recording flag, one atomic cell
/// shared by reference with every processor it produces.
pub struct Rack {
    lines: LineTable,
    recording: Arc<AtomicBool>,
}

/// Serializable, clonable view of all line traces at a moment in time.
pub struct Snapshot {
    lines: LineTable,
}

impl Rack {
    /// The stored traces, in name order.
    pub closed spec fn spec_lines(&self) -> Seq<VLine> {
        self.lines@
    }

    /// Well-formedness: the trace table is sorted by name.
    pub open spec fn wf(&self) -> bool {
        lines_sorted(self.spec_lines())
    }

    /// Creates a new rack with no traces and recording off.
    pub fn new() -> (r: Self)
        ensures
            r.spec_lines() == Seq::<VLine>::empty(),
            r.wf(),
    {
        Rack { lines: LineTable::new(), recording: Arc::new(AtomicBool::new(false)) }
    }

    /// Moves every trace of the processor into the rack, overwriting any
    /// existing trace of the same name, and leaves the processor empty.
    pub fn ingress(&mut self, processor: &mut Processor)
        requires
            old(self).wf(),
            old(processor).wf(),
        ensures
            final(self).wf(),
            final(processor).wf(),
            final(processor).spec_lines() == Seq::<VLine>::empty(),
            forall|n: Seq<char>| #[trigger] find_line(final(self).spec_lines(), n) == (
            match find_line(old(processor).spec_lines(), n) {
                Some(l) => Some(l),
                None => find_line(old(self).spec_lines(), n),
            }),
            old(processor).spec_lines().len() == 0 ==> final(self).spec_lines() == old(
                self,
            ).spec_lines(),
    {
        self.lines.merge_from(&mut processor.result);
    }

    /// Returns the stored trace of the named line.
    pub fn line_state(&self, name: &str) -> (r: Option<&LineState>)
        requires
            self.wf(),
        ensures
            match r {
                Some(l) => find_line(self.spec_lines(), name@) == Some(l@),
                None => find_line(self.spec_lines(), name@) is None,
            },
    {
        self.lines.get(name)
    }

    /// All stored traces, in name order.
    pub fn lines(&self) -> (r: &Vec<LineState>)
        ensures
            lines_view(r@) == self.spec_lines(),
    {
        self.lines.entries()
    }

    /// Creates a snapshot of the current state of the lines.
    pub fn snapshot(&self) -> (r: Snapshot)
        ensures
            r@ == self.spec_lines(),
    {
        Snapshot { lines: self.lines.duplicate() }
    }

    /// Creates a new processor with an empty trace buffer, sharing this
    /// rack's recording flag by reference: a later [`Rack::set_recording`]
    /// is visible to the processor at once.
    pub fn processor(&self) -> (r: Processor)
        ensures
            r.spec_lines() == Seq::<VLine>::empty(),
            r.wf(),
    {
        Processor { result: LineTable::new(), recording: self.recording.clone() }
    }

    /// Enables recording for the rack.  Stores into the shared flag, so
    /// every live processor of this rack sees recording on at once.
    pub fn with_recording_enabled(self) -> (r: Self)
        ensures
            r.spec_lines() == self.spec_lines(),
            self.wf() ==> r.wf(),
    {
        self.recording.store(true, Ordering::SeqCst);
        self
    }

    /// Sets the recording state for the rack.  Stores into the shared flag
    /// (sequentially consistent), so the new value is immediately visible
    /// to every live processor this rack has produced; the stored traces do
    /// not move.  The flag's value itself cannot stand in the contract:
    /// it lives in an atomic cell that other threads may store to.
    pub fn set_recording(&mut self, recording: bool)
        ensures
            final(self).spec_lines() == old(self).spec_lines(),
            old(self).wf() ==> final(self).wf(),
    {
        self.recording.store(recording, Ordering::SeqCst);
    }
}

impl View for Snapshot {
    type V = Seq<VLine>;

    closed spec fn view(&self) -> Seq<VLine> {
        self.lines@
    }
}

impl Clone for Snapshot {
    /// Clones preserve the snapshot's model.
    fn clone(&self) -> (r: Self)
        ensures
            r@ == self@,
    {
        Snapshot { lines: self.lines.duplicate() }
    }
}

impl Snapshot {
    /// Well-formedness: the snapshot's lines are sorted by name.
    pub open spec fn wf(&self) -> bool {
        lines_sorted(self@)
    }

    /// Creates an empty snapshot.
    pub fn new() -> (r: Self)
        ensures
            r@ == Seq::<VLine>::empty(),
            r.wf(),
    {
        Snapshot { lines: LineTable::new() }
    }

    /// Inserts a line trace, replacing any line of the same name.  Together
    /// with [`Snapshot::new`], [`LineState`]'s constructors and
    /// [`LineState::set_step`], this lets a [`SnapshotFormatter`] rebuild
    /// or edit a snapshot before it is served.
    pub fn insert_line(&mut self, line: LineState)
        requires
            old(self).wf(),
        ensures
            final(self).wf(),
            forall|n: Seq<char>| #[trigger] find_line(final(self)@, n) == (if n == line@.name {
                Some(line@)
            } else {
                find_line(old(self)@, n)
            }),
    {
        self.lines.insert(line);
    }

    /// Returns the snapshot's trace of the named line.
    pub fn line_state(&self, name: &str) -> (r: Option<&LineState>)
        requires
            self.wf(),
        ensures
            match r {
                Some(l) => find_line(self@, name@) == Some(l@),
                None => find_line(self@, name@) is None,
            },
    {
        self.lines.get(name)
    }

    /// All traces in the snapshot, in name order.
    pub fn lines(&self) -> (r: &Vec<LineState>)
        ensures
            lines_view(r@) == self@,
    {
        self.lines.entries()
    }

    /// Reads a snapshot back from its JSON wire form; the payload must be
    /// in the canonical form [`Snapshot::to_json`] emits.
    ///
    /// Every accepted payload is exactly the canonical serialization of the
    /// parsed snapshot, so parsing and serializing again returns the input
    /// byte for byte.  An empty snapshot's payload is always accepted;
    /// acceptance of every other canonical payload is exercised by tests,
    /// not stated here.
    pub fn from_json(s: &str) -> (r: Option<Snapshot>)
        ensures
            r matches Some(x) ==> {
                &&& x.wf()
                &&& s@ == crate::wire::json_of_snapshot(x@)
            },
            s@ == crate::wire::json_of_snapshot(Seq::<VLine>::empty()) ==> r is Some,
    {
        match crate::parse::parse_snapshot(s) {
            Some(t) => Some(Snapshot { lines: t }),
            None => None,
        }
    }
}

/// Modifies snapshots before serving or displaying.  An implementation
/// reads a snapshot through [`Snapshot::lines`] and rebuilds or edits it
/// with [`Snapshot::new`], [`Snapshot::insert_line`] and
/// [`LineState::set_step`].
pub trait SnapshotFormatter {
    /// Formats the snapshot.
    fn format(&self, snapshot: Snapshot) -> Snapshot;
}

} // verus!

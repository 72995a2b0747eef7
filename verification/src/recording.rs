//! Trace records: what one evaluated action left behind, and the per-line
//! sequences those records form.

use vstd::prelude::*;
use crate::value::{InputValue, VInput};

verus! {

/// Input kind.  `Flow`: taken from the previous action; `External`:
/// supplied by the caller alongside the action.
#[derive(Clone, Copy, PartialEq, Eq, Structural, Debug)]
pub enum InputKind {
    /// Taken from the previous action.
    Flow,
    /// Specified by the user.
    External,
}

/// The model of a [`StepStateInfo`].
pub struct VStepInfo {
    /// The action's name.
    pub name: Seq<char>,
    /// The recorded input.
    pub input: VInput,
    /// Where the input came from.
    pub kind: InputKind,
    /// Whether the action passed.
    pub passed: bool,
}

/// Immutable record of one executed action: name, recorded input, input
/// kind, and whether the action passed.
pub struct StepStateInfo {
    name: String,
    input: InputValue,
    input_kind: InputKind,
    passed: bool,
}

impl View for StepStateInfo {
    type V = VStepInfo;

    closed spec fn view(&self) -> VStepInfo {
        VStepInfo { name: self.name@, input: self.input@, kind: self.input_kind, passed: self.passed }
    }
}

impl Clone for StepStateInfo {
    /// Clones preserve the record's model.
    fn clone(&self) -> (r: Self)
        ensures
            r@ == self@,
    {
        StepStateInfo {
            name: self.name.clone(),
            input: self.input.clone(),
            input_kind: self.input_kind,
            passed: self.passed,
        }
    }
}

impl StepStateInfo {
    /// Creates a record of one executed action.
    pub fn new(name: &str, input: InputValue, input_kind: InputKind, passed: bool) -> (r: Self)
        ensures
            r@ == (VStepInfo { name: name@, input: input@, kind: input_kind, passed }),
    {
        StepStateInfo { name: name.to_owned(), input, input_kind, passed }
    }

    /// Step name.
    pub fn name(&self) -> (r: &str)
        ensures
            r@ == self@.name,
    {
        self.name.as_str()
    }

    /// Step input, as a recorded JSON value.
    pub fn input(&self) -> (r: &InputValue)
        ensures
            r@ == self@.input,
    {
        &self.input
    }

    /// Step input kind (flow or external).
    pub fn input_kind(&self) -> (r: InputKind)
        ensures
            r == self@.kind,
    {
        self.input_kind
    }

    /// Has the step been passed.
    pub fn passed(&self) -> (r: bool)
        ensures
            r == self@.passed,
    {
        self.passed
    }

    /// Returns a modified version of the record: each `Some` field replaces
    /// the original's, each `None` keeps it.
    pub fn to_modified(
        &self,
        name: Option<&str>,
        input: Option<InputValue>,
        input_kind: Option<InputKind>,
        passed: Option<bool>,
    ) -> (r: Self)
        ensures
            r@.name == (if name is Some { name->Some_0@ } else { self@.name }),
            r@.input == (if input is Some { input->Some_0@ } else { self@.input }),
            r@.kind == (if input_kind is Some { input_kind->Some_0 } else { self@.kind }),
            r@.passed == (if passed is Some { passed->Some_0 } else { self@.passed }),
    {
        StepStateInfo {
            name: match name {
                Some(n) => n.to_owned(),
                None => self.name.clone(),
            },
            input: match input {
                Some(i) => i,
                None => self.input.clone(),
            },
            input_kind: match input_kind {
                Some(k) => k,
                None => self.input_kind,
            },
            passed: match passed {
                Some(p) => p,
                None => self.passed,
            },
        }
    }
}

/// The model of a [`StepState`].
pub enum VStep {
    /// One record.
    Single(VStepInfo),
    /// Several records from a multi-branch step.
    Multi(Seq<VStepInfo>),
}

/// The models of a sequence of records.
pub open spec fn infos_view(v: Seq<StepStateInfo>) -> Seq<VStepInfo> {
    v.map_values(|i: StepStateInfo| i@)
}

/// The aggregate pass flag of a step model: a single record's own flag, or,
/// for a multi-branch step, whether every branch passed.
pub open spec fn vstep_passed(s: VStep) -> bool {
    match s {
        VStep::Single(i) => i.passed,
        VStep::Multi(ss) => forall|i: int| 0 <= i < ss.len() ==> (#[trigger] ss[i]).passed,
    }
}

/// The records inside a step model, in order.
pub open spec fn vstep_infos(s: VStep) -> Seq<VStepInfo> {
    match s {
        VStep::Single(i) => seq![i],
        VStep::Multi(ss) => ss,
    }
}

/// A slot in a line's trace: either one record (single flow) or several
/// (logical OR over branches).
pub enum StepState {
    /// Single step state (single flow).
    Single(StepStateInfo),
    /// Multiple step state (logical OR).
    Multi(Vec<StepStateInfo>),
}

impl View for StepState {
    type V = VStep;

    closed spec fn view(&self) -> VStep {
        match self {
            StepState::Single(i) => VStep::Single(i@),
            StepState::Multi(v) => VStep::Multi(infos_view(v@)),
        }
    }
}

/// Clones a record vector, preserving the models.
fn clone_infos(v: &Vec<StepStateInfo>) -> (r: Vec<StepStateInfo>)
    ensures
        infos_view(r@) == infos_view(v@),
{
    let mut out: Vec<StepStateInfo> = Vec::new();
    let mut i: usize = 0;
    while i < v.len()
        invariant
            i <= v.len(),
            infos_view(out@) =~= infos_view(v@).take(i as int),
        decreases v.len() - i,
    {
        let c = v[i].clone();
        let ghost pre = out@;
        proof {
            assert(infos_view(pre).len() == pre.len());
            assert(pre.len() == i as int);
        }
        out.push(c);
        assert(infos_view(out@) =~= infos_view(v@).take(i + 1));
        i = i + 1;
    }
    assert(infos_view(v@).take(v@.len() as int) =~= infos_view(v@));
    out
}

impl Clone for StepState {
    /// Clones preserve the step's model.
    fn clone(&self) -> (r: Self)
        ensures
            r@ == self@,
    {
        match self {
            StepState::Single(i) => StepState::Single(i.clone()),
            StepState::Multi(v) => StepState::Multi(clone_infos(v)),
        }
    }
}

impl StepState {
    /// Wraps one record as a single-flow step.
    pub fn single(i: StepStateInfo) -> (r: StepState)
        ensures
            r@ == VStep::Single(i@),
    {
        StepState::Single(i)
    }

    /// Wraps the given records as one multi-branch step.
    pub fn multi(v: Vec<StepStateInfo>) -> (r: StepState)
        ensures
            r@ == VStep::Multi(infos_view(v@)),
    {
        StepState::Multi(v)
    }

    /// Whether the step is a multi-branch step.
    pub fn is_multi(&self) -> (r: bool)
        ensures
            r == (self@ is Multi),
    {
        matches!(self, StepState::Multi(_))
    }

    /// Has the step been passed: a single record's own flag; for a
    /// multi-branch step, true iff every branch passed.
    pub fn passed(&self) -> (r: bool)
        ensures
            r == vstep_passed(self@),
    {
        match self {
            StepState::Single(i) => i.passed(),
            StepState::Multi(v) => {
                let mut i: usize = 0;
                let mut all = true;
                while i < v.len()
                    invariant
                        i <= v.len(),
                        all == (forall|j: int| 0 <= j < i ==> (#[trigger] infos_view(v@)[j]).passed),
                    decreases v.len() - i,
                {
                    if !v[i].passed() {
                        all = false;
                    }
                    assert(infos_view(v@)[i as int] == v@[i as int]@);
                    i = i + 1;
                }
                all
            },
        }
    }

    /// The records of the step: one entry for a single step, one per branch
    /// for a multi-branch step.
    pub fn info(&self) -> (r: Vec<&StepStateInfo>)
        ensures
            r@.map_values(|p: &StepStateInfo| p@) == vstep_infos(self@),
    {
        match self {
            StepState::Single(i) => {
                let mut out: Vec<&StepStateInfo> = Vec::new();
                out.push(i);
                proof {
                    assert(out@.map_values(|p: &StepStateInfo| p@) =~= vstep_infos(self@));
                }
                out
            },
            StepState::Multi(v) => {
                let mut out: Vec<&StepStateInfo> = Vec::new();
                let mut i: usize = 0;
                while i < v.len()
                    invariant
                        i <= v.len(),
                        out@.map_values(|p: &StepStateInfo| p@) =~= infos_view(v@).take(i as int),
                    decreases v.len() - i,
                {
                    let p = &v[i];
                    let ghost pre = out@;
                    proof {
                        assert(pre.map_values(|q: &StepStateInfo| q@).len() == pre.len());
                        assert(pre.len() == i as int);
                    }
                    out.push(p);
                    assert(out@.map_values(|p: &StepStateInfo| p@) =~= infos_view(v@).take(i + 1));
                    i = i + 1;
                }
                proof {
                    assert(infos_view(v@).take(v@.len() as int) =~= infos_view(v@));
                }
                out
            },
        }
    }
}

/// The model of a [`LineState`].
pub struct VLine {
    /// The line's name.
    pub name: Seq<char>,
    /// The trace, in evaluation order.
    pub steps: Seq<VStep>,
}

/// The models of a sequence of steps.
pub open spec fn steps_view(v: Seq<StepState>) -> Seq<VStep> {
    v.map_values(|s: StepState| s@)
}

/// Ordered trace of one named line: the steps appear in the order they were
/// evaluated; empty at creation.
pub struct LineState {
    name: String,
    steps: Vec<StepState>,
}

impl View for LineState {
    type V = VLine;

    closed spec fn view(&self) -> VLine {
        VLine { name: self.name@, steps: steps_view(self.steps@) }
    }
}

/// Clones a step vector, preserving the models.
fn clone_steps(v: &Vec<StepState>) -> (r: Vec<StepState>)
    ensures
        steps_view(r@) == steps_view(v@),
{
    let mut out: Vec<StepState> = Vec::new();
    let mut i: usize = 0;
    while i < v.len()
        invariant
            i <= v.len(),
            steps_view(out@) =~= steps_view(v@).take(i as int),
        decreases v.len() - i,
    {
        let c = v[i].clone();
        let ghost pre = out@;
        proof {
            assert(steps_view(pre).len() == pre.len());
            assert(pre.len() == i as int);
        }
        out.push(c);
        assert(steps_view(out@) =~= steps_view(v@).take(i + 1));
        i = i + 1;
    }
    assert(steps_view(v@).take(v@.len() as int) =~= steps_view(v@));
    out
}

impl Clone for LineState {
    /// Clones preserve the line's model.
    fn clone(&self) -> (r: Self)
        ensures
            r@ == self@,
    {
        let r = LineState { name: self.name.clone(), steps: clone_steps(&self.steps) };
        proof {
            assert(r@ == self@);
        }
        r
    }
}

impl LineState {
    /// Creates an empty trace for the named line.
    pub fn new(name: &str) -> (r: Self)
        ensures
            r@ == (VLine { name: name@, steps: Seq::empty() }),
    {
        let r = LineState { name: name.to_owned(), steps: Vec::new() };
        proof {
            assert(steps_view(Seq::empty()) =~= Seq::<VStep>::empty());
        }
        r
    }

    /// Name of the line.
    pub fn name(&self) -> (r: &str)
        ensures
            r@ == self@.name,
    {
        self.name.as_str()
    }

    /// Step states of the line, in evaluation order.
    pub fn steps(&self) -> (r: &Vec<StepState>)
        ensures
            steps_view(r@) == self@.steps,
    {
        &self.steps
    }

    /// Appends a single record to the trace.
    pub fn push_step_state(
        &mut self,
        name: &str,
        input: InputValue,
        input_kind: InputKind,
        passed: bool,
    )
        ensures
            final(self)@.name == old(self)@.name,
            final(self)@.steps == old(self)@.steps.push(
                VStep::Single(VStepInfo { name: name@, input: input@, kind: input_kind, passed }),
            ),
    {
        let ghost iv = input@;
        self.steps.push(StepState::Single(StepStateInfo::new(name, input, input_kind, passed)));
        proof {
            assert(self@.steps =~= old(self)@.steps.push(
                VStep::Single(VStepInfo { name: name@, input: iv, kind: input_kind, passed }),
            ));
        }
    }

    /// Appends the given records to the trace as one multi-branch step.
    pub fn extend(&mut self, step_states: Vec<StepStateInfo>)
        ensures
            final(self)@.name == old(self)@.name,
            final(self)@.steps == old(self)@.steps.push(VStep::Multi(infos_view(step_states@))),
    {
        let ghost g = infos_view(step_states@);
        self.steps.push(StepState::Multi(step_states));
        proof {
            assert(self@.steps =~= old(self)@.steps.push(VStep::Multi(g)));
        }
    }

    /// Appends one step to the trace.
    pub fn push_step(&mut self, s: StepState)
        ensures
            final(self)@.name == old(self)@.name,
            final(self)@.steps == old(self)@.steps.push(s@),
    {
        let ghost sv = s@;
        let ghost pre = self.steps@;
        proof {
            assert(steps_view(pre).len() == pre.len());
        }
        self.steps.push(s);
        proof {
            assert(self@.steps =~= old(self)@.steps.push(sv));
        }
    }

    /// Replaces the step at position `i`: with [`LineState::steps`],
    /// [`LineState::push_step`] and [`StepStateInfo::to_modified`] this is
    /// the mutation surface a snapshot formatter needs to rewrite a trace.
    pub fn set_step(&mut self, i: usize, s: StepState)
        requires
            i < old(self)@.steps.len(),
        ensures
            final(self)@.name == old(self)@.name,
            final(self)@.steps == old(self)@.steps.update(i as int, s@),
    {
        let ghost sv = s@;
        let ghost pre = self.steps@;
        proof {
            assert(steps_view(pre).len() == pre.len());
        }
        self.steps.set(i, s);
        proof {
            assert(self@.steps =~= old(self)@.steps.update(i as int, sv));
        }
    }

    /// Removes every step from the trace.
    pub fn clear(&mut self)
        ensures
            final(self)@.name == old(self)@.name,
            final(self)@.steps == Seq::<VStep>::empty(),
    {
        self.steps.clear();
        proof {
            assert(steps_view(Seq::empty()) =~= Seq::<VStep>::empty());
        }
    }
}

} // verus!

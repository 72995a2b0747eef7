//! The canonical text display of traces:
//! `<line_name>: <step1> -> <step2> -> …`, with ` !` marking the first
//! failing step and multi-branch steps rendered as `( a | b )`.

use vstd::prelude::*;
use crate::recording::{InputKind, LineState, StepState, StepStateInfo, VLine, VStep, VStepInfo,
    vstep_passed};
use crate::table::lines_view;
use crate::value::{json_of, push_json_of, push_chars};
use crate::{Rack, Snapshot};

verus! {

/// Relies on `String::from_iter` to collect characters into a string: the
/// string's characters are exactly the collected ones.
#[verifier::external_body]
pub fn chars_to_string(v: Vec<char>) -> (r: String)
    ensures
        r@ == v@,
{
    v.into_iter().collect()
}

/// The display form of one record inside a multi-branch step: the name,
/// then the input in parentheses when there is one, with `\->` marking an
/// externally supplied input.
pub open spec fn render_branch(i: VStepInfo) -> Seq<char> {
    i.name + if i.input is Null {
        Seq::<char>::empty()
    } else {
        seq!['('] + (if i.kind is External {
            seq!['\\', '-', '>']
        } else {
            Seq::<char>::empty()
        }) + json_of(i.input) + seq![')']
    }
}

/// The display form of the branches of a multi-branch step, from index `i`,
/// separated by ` | `.
pub open spec fn render_branches(ss: Seq<VStepInfo>, i: int) -> Seq<char>
    decreases ss.len() - i,
{
    if i < 0 || i >= ss.len() {
        Seq::<char>::empty()
    } else {
        (if i > 0 {
            seq![' ', '|', ' ']
        } else {
            Seq::<char>::empty()
        }) + render_branch(ss[i]) + render_branches(ss, i + 1)
    }
}

/// The display form of one step: a single record's name with its input in
/// parentheses when not `null`, or `( b1 | b2 | … )` for a multi-branch
/// step.
pub open spec fn render_step(s: VStep) -> Seq<char> {
    match s {
        VStep::Single(i) => i.name + if i.input is Null {
            Seq::<char>::empty()
        } else {
            seq!['('] + json_of(i.input) + seq![')']
        },
        VStep::Multi(ss) => seq!['(', ' '] + render_branches(ss, 0) + seq![' ', ')'],
    }
}

/// The display form of a line's steps from index `i`, separated by ` -> `;
/// `ok` is whether every earlier step passed, so the ` !` marker lands
/// right after the first failing step and nowhere else.
pub open spec fn render_steps(steps: Seq<VStep>, i: int, ok: bool) -> Seq<char>
    decreases steps.len() - i,
{
    if i < 0 || i >= steps.len() {
        Seq::<char>::empty()
    } else {
        (if i > 0 {
            seq![' ', '-', '>', ' ']
        } else {
            Seq::<char>::empty()
        }) + render_step(steps[i]) + (if ok && !vstep_passed(steps[i]) {
            seq![' ', '!']
        } else {
            Seq::<char>::empty()
        }) + render_steps(steps, i + 1, ok && vstep_passed(steps[i]))
    }
}

/// The display form of a whole line.
pub open spec fn render_line(l: VLine) -> Seq<char> {
    l.name + seq![':', ' '] + render_steps(l.steps, 0, true)
}

/// The display form of a set of lines from index `i`, one line per row.
pub open spec fn render_lines(ls: Seq<VLine>, i: int) -> Seq<char>
    decreases ls.len() - i,
{
    if i < 0 || i >= ls.len() {
        Seq::<char>::empty()
    } else {
        (if i > 0 {
            seq!['\n']
        } else {
            Seq::<char>::empty()
        }) + render_line(ls[i]) + render_lines(ls, i + 1)
    }
}

/// Appends the display form of one record of a multi-branch step.
fn push_branch(info: &StepStateInfo, out: &mut Vec<char>)
    ensures
        final(out)@ == old(out)@ + render_branch(info@),
{
    push_chars(info.name(), out);
    let iv = info.input();
    if !iv.is_null() {
        out.push('(');
        if matches!(info.input_kind(), InputKind::External) {
            out.push('\\');
            out.push('-');
            out.push('>');
        }
        push_json_of(iv, out);
        out.push(')');
    }
    assert(out@ =~= old(out)@ + render_branch(info@));
}

/// Appends the display forms of the branches from index `i` on.
fn push_branches(infos: &Vec<&StepStateInfo>, i: usize, out: &mut Vec<char>)
    requires
        i <= infos@.len(),
    ensures
        final(out)@ == old(out)@ + render_branches(
            infos@.map_values(|p: &StepStateInfo| p@),
            i as int,
        ),
    decreases infos@.len() - i,
{
    let ghost ss = infos@.map_values(|p: &StepStateInfo| p@);
    proof {
        assert(ss.len() == infos@.len());
    }
    if i < infos.len() {
        if i > 0 {
            out.push(' ');
            out.push('|');
            out.push(' ');
        }
        push_branch(infos[i], out);
        push_branches(infos, i + 1, out);
        assert(out@ =~= old(out)@ + render_branches(ss, i as int));
    }
}

/// Appends the display form of one step.
fn push_step(s: &StepState, out: &mut Vec<char>)
    ensures
        final(out)@ == old(out)@ + render_step(s@),
{
    let infos = s.info();
    proof {
        assert(infos@.map_values(|p: &StepStateInfo| p@).len() == infos@.len());
    }
    if !s.is_multi() {
        let info = infos[0];
        proof {
            assert(infos@.map_values(|p: &StepStateInfo| p@)[0] == info@);
        }
        push_chars(info.name(), out);
        let iv = info.input();
        if !iv.is_null() {
            out.push('(');
            push_json_of(iv, out);
            out.push(')');
        }
        assert(out@ =~= old(out)@ + render_step(s@));
    } else {
        out.push('(');
        out.push(' ');
        push_branches(&infos, 0, out);
        out.push(' ');
        out.push(')');
        assert(out@ =~= old(out)@ + render_step(s@));
    }
}

/// Appends the display forms of a line's steps from index `i` on.
fn push_steps(steps: &Vec<StepState>, i: usize, ok: bool, out: &mut Vec<char>)
    requires
        i <= steps@.len(),
    ensures
        final(out)@ == old(out)@ + render_steps(
            crate::recording::steps_view(steps@),
            i as int,
            ok,
        ),
    decreases steps@.len() - i,
{
    let ghost sv = crate::recording::steps_view(steps@);
    proof {
        assert(sv.len() == steps@.len());
    }
    if i < steps.len() {
        if i > 0 {
            out.push(' ');
            out.push('-');
            out.push('>');
            out.push(' ');
        }
        push_step(&steps[i], out);
        let passed = steps[i].passed();
        if ok && !passed {
            out.push(' ');
            out.push('!');
        }
        push_steps(steps, i + 1, ok && passed, out);
        assert(out@ =~= old(out)@ + render_steps(sv, i as int, ok));
    }
}

/// Appends the display form of one line.
fn push_line(l: &LineState, out: &mut Vec<char>)
    ensures
        final(out)@ == old(out)@ + render_line(l@),
{
    push_chars(l.name(), out);
    out.push(':');
    out.push(' ');
    push_steps(l.steps(), 0, true, out);
    assert(out@ =~= old(out)@ + render_line(l@));
}

/// Appends the display forms of the lines from index `i` on.
fn push_lines(ls: &Vec<LineState>, i: usize, out: &mut Vec<char>)
    requires
        i <= ls@.len(),
    ensures
        final(out)@ == old(out)@ + render_lines(lines_view(ls@), i as int),
    decreases ls@.len() - i,
{
    let ghost lv = lines_view(ls@);
    proof {
        assert(lv.len() == ls@.len());
    }
    if i < ls.len() {
        if i > 0 {
            out.push('\n');
        }
        proof {
            assert(lv[i as int] == ls@[i as int]@);
        }
        push_line(&ls[i], out);
        push_lines(ls, i + 1, out);
        assert(out@ =~= old(out)@ + render_lines(lv, i as int));
    }
}

impl LineState {
    /// The canonical display form of the line:
    /// `<name>: <step1> -> <step2> -> …`, with ` !` after the first failing
    /// step.
    pub fn display(&self) -> (r: String)
        ensures
            r@ == render_line(self@),
    {
        let mut out: Vec<char> = Vec::new();
        push_line(self, &mut out);
        proof {
            assert(out@ =~= render_line(self@));
        }
        chars_to_string(out)
    }
}

impl Snapshot {
    /// The display form of the snapshot: every line's display, one per row,
    /// in name order.
    pub fn display(&self) -> (r: String)
        ensures
            r@ == render_lines(self@, 0),
    {
        let mut out: Vec<char> = Vec::new();
        push_lines(self.lines(), 0, &mut out);
        proof {
            assert(out@ =~= render_lines(self@, 0));
        }
        chars_to_string(out)
    }
}

impl Rack {
    /// The display form of the rack's stored traces, one line per row, in
    /// name order.
    pub fn display(&self) -> (r: String)
        ensures
            r@ == render_lines(self.spec_lines(), 0),
    {
        let mut out: Vec<char> = Vec::new();
        push_lines(self.lines(), 0, &mut out);
        proof {
            assert(out@ =~= render_lines(self.spec_lines(), 0));
        }
        chars_to_string(out)
    }
}

} // verus!

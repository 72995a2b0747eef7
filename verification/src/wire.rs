//! The snapshot wire format: the JSON payload an exporter serves, and the
//! parser that reads a payload back into a snapshot.
//!
//! A record serializes as
//! `{"name":…,"input":…,"input_kind":"flow"|"external","passed":…}`; a step
//! is untagged (an object for a single record, an array for a multi-branch
//! step); a snapshot is `{"lines":{"<name>":{"name":…,"steps":[…]},…}}`
//! with the lines in name order.

use vstd::prelude::*;
use crate::recording::{InputKind, LineState, StepState, StepStateInfo, VLine, VStep, VStepInfo};
use crate::render::chars_to_string;
use crate::table::lines_view;
use crate::value::{esc_str, json_of, push_esc, push_json_of, VInput};
use crate::Snapshot;

verus! {

/// The JSON text of an input kind.
pub open spec fn json_of_kind(k: InputKind) -> Seq<char> {
    match k {
        InputKind::Flow => seq!['"', 'f', 'l', 'o', 'w', '"'],
        InputKind::External => seq!['"', 'e', 'x', 't', 'e', 'r', 'n', 'a', 'l', '"'],
    }
}

/// The JSON text of one record.
pub open spec fn json_of_info(i: VStepInfo) -> Seq<char> {
    seq!['{', '"', 'n', 'a', 'm', 'e', '"', ':', '"'] + esc_str(i.name) + seq![
        '"',
        ',',
        '"',
        'i',
        'n',
        'p',
        'u',
        't',
        '"',
        ':',
    ] + json_of(i.input) + seq![
        ',',
        '"',
        'i',
        'n',
        'p',
        'u',
        't',
        '_',
        'k',
        'i',
        'n',
        'd',
        '"',
        ':',
    ] + json_of_kind(i.kind) + seq![',', '"', 'p', 'a', 's', 's', 'e', 'd', '"', ':'] + json_of(
        VInput::Bool(i.passed),
    ) + seq!['}']
}

/// The JSON texts of a multi-branch step's records from index `i`,
/// comma-separated.
pub open spec fn json_of_infos(ss: Seq<VStepInfo>, i: int) -> Seq<char>
    decreases ss.len() - i,
{
    if i < 0 || i >= ss.len() {
        Seq::<char>::empty()
    } else {
        (if i > 0 {
            seq![',']
        } else {
            Seq::<char>::empty()
        }) + json_of_info(ss[i]) + json_of_infos(ss, i + 1)
    }
}

/// The JSON text of one step: untagged, an object for a single record and
/// an array for a multi-branch step.
pub open spec fn json_of_step(s: VStep) -> Seq<char> {
    match s {
        VStep::Single(i) => json_of_info(i),
        VStep::Multi(ss) => seq!['['] + json_of_infos(ss, 0) + seq![']'],
    }
}

/// The JSON texts of a line's steps from index `i`, comma-separated.
pub open spec fn json_of_steps(steps: Seq<VStep>, i: int) -> Seq<char>
    decreases steps.len() - i,
{
    if i < 0 || i >= steps.len() {
        Seq::<char>::empty()
    } else {
        (if i > 0 {
            seq![',']
        } else {
            Seq::<char>::empty()
        }) + json_of_step(steps[i]) + json_of_steps(steps, i + 1)
    }
}

/// The JSON text of one line's trace.
pub open spec fn json_of_line(l: VLine) -> Seq<char> {
    seq!['{', '"', 'n', 'a', 'm', 'e', '"', ':', '"'] + esc_str(l.name) + seq![
        '"',
        ',',
        '"',
        's',
        't',
        'e',
        'p',
        's',
        '"',
        ':',
        '[',
    ] + json_of_steps(l.steps, 0) + seq![']', '}']
}

/// The JSON entries of a snapshot's lines map from index `i`,
/// comma-separated, each `"<name>":<line>`.
pub open spec fn json_of_entries(ls: Seq<VLine>, i: int) -> Seq<char>
    decreases ls.len() - i,
{
    if i < 0 || i >= ls.len() {
        Seq::<char>::empty()
    } else {
        (if i > 0 {
            seq![',']
        } else {
            Seq::<char>::empty()
        }) + seq!['"'] + esc_str(ls[i].name) + seq!['"', ':'] + json_of_line(ls[i])
            + json_of_entries(ls, i + 1)
    }
}

/// The JSON text of a whole snapshot.
pub open spec fn json_of_snapshot(ls: Seq<VLine>) -> Seq<char> {
    seq!['{', '"', 'l', 'i', 'n', 'e', 's', '"', ':', '{'] + json_of_entries(ls, 0) + seq![
        '}',
        '}',
    ]
}

/// Appends the JSON text of an input kind.
fn push_kind(k: InputKind, out: &mut Vec<char>)
    ensures
        final(out)@ == old(out)@ + json_of_kind(k),
{
    out.push('"');
    match k {
        InputKind::Flow => {
            out.push('f');
            out.push('l');
            out.push('o');
            out.push('w');
        },
        InputKind::External => {
            out.push('e');
            out.push('x');
            out.push('t');
            out.push('e');
            out.push('r');
            out.push('n');
            out.push('a');
            out.push('l');
        },
    }
    out.push('"');
    assert(out@ =~= old(out)@ + json_of_kind(k));
}

/// Appends the JSON text of one record.
#[verifier::rlimit(80)]
fn push_info(info: &StepStateInfo, out: &mut Vec<char>)
    ensures
        final(out)@ == old(out)@ + json_of_info(info@),
{
    out.push('{');
    out.push('"');
    out.push('n');
    out.push('a');
    out.push('m');
    out.push('e');
    out.push('"');
    out.push(':');
    out.push('"');
    push_esc(info.name(), out);
    out.push('"');
    out.push(',');
    out.push('"');
    out.push('i');
    out.push('n');
    out.push('p');
    out.push('u');
    out.push('t');
    out.push('"');
    out.push(':');
    push_json_of(info.input(), out);
    out.push(',');
    out.push('"');
    out.push('i');
    out.push('n');
    out.push('p');
    out.push('u');
    out.push('t');
    out.push('_');
    out.push('k');
    out.push('i');
    out.push('n');
    out.push('d');
    out.push('"');
    out.push(':');
    push_kind(info.input_kind(), out);
    out.push(',');
    out.push('"');
    out.push('p');
    out.push('a');
    out.push('s');
    out.push('s');
    out.push('e');
    out.push('d');
    out.push('"');
    out.push(':');
    if info.passed() {
        out.push('t');
        out.push('r');
        out.push('u');
        out.push('e');
    } else {
        out.push('f');
        out.push('a');
        out.push('l');
        out.push('s');
        out.push('e');
    }
    out.push('}');
    assert(out@ =~= old(out)@ + json_of_info(info@));
}

/// Appends the JSON texts of a multi-branch step's records from index `i`.
fn push_infos(infos: &Vec<&StepStateInfo>, i: usize, out: &mut Vec<char>)
    requires
        i <= infos@.len(),
    ensures
        final(out)@ == old(out)@ + json_of_infos(
            infos@.map_values(|p: &StepStateInfo| p@),
            i as int,
        ),
    decreases infos@.len() - i,
{
    let ghost ss = infos@.map_values(|p: &StepStateInfo| p@);
    proof {
        assert(ss.len() == infos@.len());
    }
    if i < infos.len() {
        if i > 0 {
            out.push(',');
        }
        push_info(infos[i], out);
        push_infos(infos, i + 1, out);
        assert(out@ =~= old(out)@ + json_of_infos(ss, i as int));
    }
}

/// Appends the JSON text of one step.
fn push_step_json(s: &StepState, out: &mut Vec<char>)
    ensures
        final(out)@ == old(out)@ + json_of_step(s@),
{
    let infos = s.info();
    proof {
        assert(infos@.map_values(|p: &StepStateInfo| p@).len() == infos@.len());
    }
    if !s.is_multi() {
        let info = infos[0];
        proof {
            assert(infos@.map_values(|p: &StepStateInfo| p@)[0] == info@);
        }
        push_info(info, out);
    } else {
        out.push('[');
        push_infos(&infos, 0, out);
        out.push(']');
        assert(out@ =~= old(out)@ + json_of_step(s@));
    }
}

/// Appends the JSON texts of a line's steps from index `i`.
fn push_steps_json(steps: &Vec<StepState>, i: usize, out: &mut Vec<char>)
    requires
        i <= steps@.len(),
    ensures
        final(out)@ == old(out)@ + json_of_steps(
            crate::recording::steps_view(steps@),
            i as int,
        ),
    decreases steps@.len() - i,
{
    let ghost sv = crate::recording::steps_view(steps@);
    proof {
        assert(sv.len() == steps@.len());
    }
    if i < steps.len() {
        if i > 0 {
            out.push(',');
        }
        push_step_json(&steps[i], out);
        push_steps_json(steps, i + 1, out);
        assert(out@ =~= old(out)@ + json_of_steps(sv, i as int));
    }
}

/// Appends the JSON text of one line.
fn push_line_json(l: &LineState, out: &mut Vec<char>)
    ensures
        final(out)@ == old(out)@ + json_of_line(l@),
{
    out.push('{');
    out.push('"');
    out.push('n');
    out.push('a');
    out.push('m');
    out.push('e');
    out.push('"');
    out.push(':');
    out.push('"');
    push_esc(l.name(), out);
    out.push('"');
    out.push(',');
    out.push('"');
    out.push('s');
    out.push('t');
    out.push('e');
    out.push('p');
    out.push('s');
    out.push('"');
    out.push(':');
    out.push('[');
    push_steps_json(l.steps(), 0, out);
    out.push(']');
    out.push('}');
    assert(out@ =~= old(out)@ + json_of_line(l@));
}

/// Appends the JSON entries of the lines map from index `i`.
fn push_entries(ls: &Vec<LineState>, i: usize, out: &mut Vec<char>)
    requires
        i <= ls@.len(),
    ensures
        final(out)@ == old(out)@ + json_of_entries(lines_view(ls@), i as int),
    decreases ls@.len() - i,
{
    let ghost lv = lines_view(ls@);
    proof {
        assert(lv.len() == ls@.len());
    }
    if i < ls.len() {
        proof {
            assert(lv[i as int] == ls@[i as int]@);
        }
        if i > 0 {
            out.push(',');
        }
        out.push('"');
        push_esc(ls[i].name(), out);
        out.push('"');
        out.push(':');
        push_line_json(&ls[i], out);
        push_entries(ls, i + 1, out);
        assert(out@ =~= old(out)@ + json_of_entries(lv, i as int));
    }
}

impl Snapshot {
    /// Serializes the snapshot to its JSON wire form.  The result is a
    /// function of the snapshot's model alone, so equal snapshots always
    /// serialize to equal byte sequences.
    pub fn to_json(&self) -> (r: String)
        ensures
            r@ == json_of_snapshot(self@),
    {
        let mut out: Vec<char> = Vec::new();
        out.push('{');
        out.push('"');
        out.push('l');
        out.push('i');
        out.push('n');
        out.push('e');
        out.push('s');
        out.push('"');
        out.push(':');
        out.push('{');
        push_entries(self.lines(), 0, &mut out);
        out.push('}');
        out.push('}');
        proof {
            assert(out@ =~= json_of_snapshot(self@));
        }
        chars_to_string(out)
    }
}

} // verus!

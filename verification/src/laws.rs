//! The library's laws: what holds of every chain, every trace and every
//! tick, proved over the same spec functions that the executable
//! functions' contracts use.

use vstd::prelude::*;
use crate::recording::{InputKind, VLine, VStep};
use crate::table::{append_step, find_line};
use crate::value::VInput;
use crate::wire::json_of_snapshot;
use crate::{run_info, skipped_info};

verus! {

/// One `.then` call of a chain, as the trace sees it: the action's name and
/// input kind, the input that would be recorded, and whether the action
/// passed (returned an output).
pub struct ChainAction {
    /// The action's name.
    pub name: Seq<char>,
    /// The action's input kind.
    pub kind: InputKind,
    /// The input recorded when the action runs.
    pub input: VInput,
    /// Whether the action returned an output.
    pub ok: bool,
}

/// Whether every action before index `i` passed.
pub open spec fn chain_prefix_ok(c: Seq<ChainAction>, i: int) -> bool {
    forall|j: int| 0 <= j < i ==> (#[trigger] c[j]).ok
}

/// The trace entry a chain records at index `i`: the action's own record
/// while the chain is still live, a placeholder (input `null`, not passed)
/// once an earlier action has halted the chain.
///
/// This is exactly what [`crate::Step::then`] appends at each position, as
/// its contract states.
pub open spec fn chain_entry(c: Seq<ChainAction>, i: int) -> VStep {
    if chain_prefix_ok(c, i) {
        VStep::Single(run_info(c[i].name, c[i].kind, c[i].input, c[i].ok))
    } else {
        VStep::Single(skipped_info(c[i].name, c[i].kind))
    }
}

/// The whole trace of a chain.
pub open spec fn chain_trace(c: Seq<ChainAction>) -> Seq<VStep> {
    Seq::new(c.len(), |i: int| chain_entry(c, i))
}

/// Whether the terminal step of a chain is active: every action passed.
pub open spec fn chain_active(c: Seq<ChainAction>) -> bool {
    chain_prefix_ok(c, c.len() as int)
}

/// Once an action returns no output, the terminal step is inactive and
/// every later trace entry is a placeholder: `passed` false and input
/// `null`.
pub proof fn lemma_halt_propagates(c: Seq<ChainAction>, i: int)
    requires
        0 <= i < c.len(),
        !c[i].ok,
    ensures
        !chain_active(c),
        forall|j: int|
            i < j < c.len() ==> chain_trace(c)[j] == VStep::Single(
                skipped_info(c[j].name, c[j].kind),
            ),
{
    assert(!chain_prefix_ok(c, c.len() as int));
    assert forall|j: int| i < j < c.len() implies chain_trace(c)[j] == VStep::Single(
        skipped_info(c[j].name, c[j].kind),
    ) by {
        assert(!chain_prefix_ok(c, j));
    }
}

/// A chain records exactly one trace entry per `.then` call.
pub proof fn lemma_one_entry_per_call(c: Seq<ChainAction>)
    ensures
        chain_trace(c).len() == c.len(),
{
}

/// Whether a chain's terminal step is active depends only on which actions
/// passed — never on the names, kinds or recorded inputs that make up the
/// recording side of the chain.
pub proof fn lemma_recording_transparent(c1: Seq<ChainAction>, c2: Seq<ChainAction>)
    requires
        c1.len() == c2.len(),
        forall|i: int| 0 <= i < c1.len() ==> (#[trigger] c1[i]).ok == c2[i].ok,
    ensures
        chain_active(c1) == chain_active(c2),
{
    if chain_active(c1) {
        assert forall|j: int| 0 <= j < c2.len() implies (#[trigger] c2[j]).ok by {
            assert(c1[j].ok);
        }
    }
    if chain_active(c2) {
        assert forall|j: int| 0 <= j < c1.len() implies (#[trigger] c1[j]).ok by {
            assert(c2[j].ok);
        }
    }
}

/// A successful lookup returns a line carrying the looked-up name.
pub proof fn lemma_find_name(s: Seq<VLine>, n: Seq<char>)
    ensures
        find_line(s, n) matches Some(l) ==> l.name == n,
    decreases s.len(),
{
    if s.len() > 0 && s[0].name != n {
        lemma_find_name(s.skip(1), n);
    }
}

/// How appending a step to one line changes every lookup: the named line
/// gains the step, every other lookup is untouched.
pub proof fn lemma_find_append(s: Seq<VLine>, n: Seq<char>, st: VStep, q: Seq<char>)
    ensures
        find_line(append_step(s, n, st), q) == (match find_line(s, q) {
            Some(l) => if l.name == n {
                Some(VLine { name: l.name, steps: l.steps.push(st) })
            } else {
                Some(l)
            },
            None => None,
        }),
    decreases s.len(),
{
    if s.len() == 0 {
        assert(append_step(s, n, st) =~= s);
    } else {
        let t = append_step(s, n, st);
        assert(t.skip(1) =~= append_step(s.skip(1), n, st));
        lemma_find_append(s.skip(1), n, st, q);
        if s[0].name == q {
            lemma_find_name(s, q);
        }
    }
}

/// The table after a whole run of appends to one line, starting at call
/// index `i`.
pub open spec fn append_all(s: Seq<VLine>, n: Seq<char>, sts: Seq<VStep>, i: int) -> Seq<VLine>
    decreases sts.len() - i,
{
    if i < 0 || i >= sts.len() {
        s
    } else {
        append_all(append_step(s, n, sts[i]), n, sts, i + 1)
    }
}

/// Appends build the line's trace verbatim: if the line's entry currently
/// holds `pre`, then after appending `sts[i..]` it holds `pre + sts[i..]`,
/// and no other line moves.  In particular, a line restarted by
/// [`crate::Processor::line`] (entry reset to empty) ends the tick holding
/// exactly the steps of its second chain: the last writer wins.
pub proof fn lemma_append_all(s: Seq<VLine>, n: Seq<char>, sts: Seq<VStep>, i: int, pre: Seq<VStep>)
    requires
        0 <= i <= sts.len(),
        find_line(s, n) == Some(VLine { name: n, steps: pre }),
    ensures
        find_line(append_all(s, n, sts, i), n) == Some(
            VLine { name: n, steps: pre + sts.skip(i) },
        ),
        forall|q: Seq<char>| q != n ==> #[trigger] find_line(append_all(s, n, sts, i), q)
            == find_line(s, q),
    decreases sts.len() - i,
{
    if i >= sts.len() {
        assert(pre + sts.skip(i) =~= pre);
    } else {
        let s2 = append_step(s, n, sts[i]);
        lemma_find_append(s, n, sts[i], n);
        assert(find_line(s2, n) == Some(VLine { name: n, steps: pre.push(sts[i]) }));
        lemma_append_all(s2, n, sts, i + 1, pre.push(sts[i]));
        assert(pre.push(sts[i]) + sts.skip(i + 1) =~= pre + sts.skip(i));
        assert forall|q: Seq<char>| q != n implies #[trigger] find_line(append_all(s, n, sts, i), q)
            == find_line(s, q) by {
            lemma_find_append(s, n, sts[i], q);
            lemma_find_name(s, q);
        }
    }
}

/// A snapshot's JSON wire form is a function of its model alone: two
/// snapshots with the same model serialize to the same character sequence,
/// so a snapshot taken before any later mutation of the rack keeps
/// serializing to the same payload.
pub proof fn lemma_snapshot_stability(a: Seq<VLine>, b: Seq<VLine>)
    requires
        a == b,
    ensures
        json_of_snapshot(a) == json_of_snapshot(b),
{
}

/// Committing a tick keeps the rack's other lines and takes the
/// processor's entry for each line it traced; with the last chain's trace
/// as the processor's entry, the rack reflects only that chain.
pub proof fn lemma_ingress_takes_processor_entry(
    proc_lines: Seq<VLine>,
    rack_before: Seq<VLine>,
    rack_after: Seq<VLine>,
    n: Seq<char>,
    l: VLine,
)
    requires
        find_line(proc_lines, n) == Some(l),
        forall|q: Seq<char>| #[trigger] find_line(rack_after, q) == (match find_line(
            proc_lines,
            q,
        ) {
            Some(x) => Some(x),
            None => find_line(rack_before, q),
        }),
    ensures
        find_line(rack_after, n) == Some(l),
{
}

} // verus!

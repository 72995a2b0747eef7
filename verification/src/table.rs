//! A table of line traces keyed by line name, kept sorted by name so that
//! iteration (and therefore display and serialization) is deterministic.

use vstd::prelude::*;
use crate::order::{lex_lt, lemma_lex_transitive, lemma_lex_trichotomy, str_eq, str_lt};
use crate::recording::{LineState, StepState, VLine};

verus! {

/// The models of a sequence of lines.
pub open spec fn lines_view(v: Seq<LineState>) -> Seq<VLine> {
    v.map_values(|l: LineState| l@)
}

/// The first line in `s` named `n`, if any.  With unique names this is the
/// table's lookup function.
pub open spec fn find_line(s: Seq<VLine>, n: Seq<char>) -> Option<VLine>
    decreases s.len(),
{
    if s.len() == 0 {
        None
    } else if s[0].name == n {
        Some(s[0])
    } else {
        find_line(s.skip(1), n)
    }
}

/// Whether the lines are in strictly increasing name order.
pub open spec fn lines_sorted(s: Seq<VLine>) -> bool {
    forall|i: int, j: int| 0 <= i < j < s.len() ==> #[trigger] lex_lt(s[i].name, s[j].name)
}

/// If `s[i]` is the first line named `n`, the lookup finds it.
pub proof fn lemma_find_at(s: Seq<VLine>, n: Seq<char>, i: int)
    requires
        0 <= i < s.len(),
        s[i].name == n,
        forall|j: int| 0 <= j < i ==> (#[trigger] s[j]).name != n,
    ensures
        find_line(s, n) == Some(s[i]),
    decreases i,
{
    if i == 0 {
    } else {
        assert(s[0].name != n);
        assert forall|j: int| 0 <= j < i - 1 implies (#[trigger] s.skip(1)[j]).name != n by {
            assert(s.skip(1)[j] == s[j + 1]);
        }
        lemma_find_at(s.skip(1), n, i - 1);
    }
}

/// If no line is named `n`, the lookup finds nothing.
pub proof fn lemma_find_none(s: Seq<VLine>, n: Seq<char>)
    requires
        forall|j: int| 0 <= j < s.len() ==> (#[trigger] s[j]).name != n,
    ensures
        find_line(s, n) is None,
    decreases s.len(),
{
    if s.len() == 0 {
    } else {
        assert forall|j: int| 0 <= j < s.len() - 1 implies (#[trigger] s.skip(1)[j]).name != n by {
            assert(s.skip(1)[j] == s[j + 1]);
        }
        lemma_find_none(s.skip(1), n);
    }
}

/// What a successful or failed lookup says about the sequence itself.
pub proof fn lemma_find_char(s: Seq<VLine>, n: Seq<char>)
    ensures
        match find_line(s, n) {
            Some(l) => exists|i: int|
                0 <= i < s.len() && #[trigger] s[i] == l && s[i].name == n && (forall|j: int|
                    0 <= j < i ==> (#[trigger] s[j]).name != n),
            None => forall|j: int| 0 <= j < s.len() ==> (#[trigger] s[j]).name != n,
        },
    decreases s.len(),
{
    if s.len() == 0 {
    } else if s[0].name == n {
        let i = 0int;
        assert(s[i] == find_line(s, n)->Some_0 && s[i].name == n && (forall|j: int|
            0 <= j < i ==> (#[trigger] s[j]).name != n));
    } else {
        lemma_find_char(s.skip(1), n);
        match find_line(s.skip(1), n) {
            Some(l) => {
                let i = choose|i: int|
                    0 <= i < s.skip(1).len() && #[trigger] s.skip(1)[i] == l && s.skip(1)[i].name
                        == n && (forall|j: int|
                        0 <= j < i ==> (#[trigger] s.skip(1)[j]).name != n);
                assert forall|j: int| 0 <= j < i + 1 implies (#[trigger] s[j]).name != n by {
                    if j > 0 {
                        assert(s.skip(1)[j - 1] == s[j]);
                    }
                }
                assert(s[i + 1] == l && s[i + 1].name == n);
            },
            None => {
                assert forall|j: int| 0 <= j < s.len() implies (#[trigger] s[j]).name != n by {
                    if j > 0 {
                        assert(s.skip(1)[j - 1] == s[j]);
                    }
                }
            },
        }
    }
}

/// The table after appending `st` to the trace of the line named `n`:
/// every line with that name gains the step, every other line is unchanged.
pub open spec fn append_step(s: Seq<VLine>, n: Seq<char>, st: crate::recording::VStep) -> Seq<
    VLine,
> {
    Seq::new(
        s.len(),
        |i: int|
            if s[i].name == n {
                VLine { name: s[i].name, steps: s[i].steps.push(st) }
            } else {
                s[i]
            },
    )
}

/// A name-sorted table of line traces.
pub struct LineTable {
    entries: Vec<LineState>,
}

impl View for LineTable {
    type V = Seq<VLine>;

    closed spec fn view(&self) -> Seq<VLine> {
        lines_view(self.entries@)
    }
}

impl LineTable {
    /// Well-formedness: the table's entries are sorted by name.
    pub open spec fn wf(&self) -> bool {
        lines_sorted(self@)
    }

    /// Creates an empty table.
    pub fn new() -> (r: Self)
        ensures
            r@ == Seq::<VLine>::empty(),
            r.wf(),
    {
        let entries: Vec<LineState> = Vec::new();
        proof {
            assert(lines_view(entries@) =~= Seq::<VLine>::empty());
        }
        LineTable { entries }
    }

    /// The number of lines in the table.
    pub fn len(&self) -> (r: usize)
        ensures
            r == self@.len(),
    {
        proof {
            assert(lines_view(self.entries@).len() == self.entries@.len());
        }
        self.entries.len()
    }

    /// The lines of the table, in name order.
    pub fn entries(&self) -> (r: &Vec<LineState>)
        ensures
            lines_view(r@) == self@,
    {
        &self.entries
    }

    /// Builds a table from lines already sorted by name.
    pub(crate) fn from_sorted(entries: Vec<LineState>) -> (r: Self)
        requires
            lines_sorted(lines_view(entries@)),
        ensures
            r@ == lines_view(entries@),
            r.wf(),
    {
        LineTable { entries }
    }

    /// Copies the table; the copy has the same model.
    pub fn duplicate(&self) -> (r: Self)
        ensures
            r@ == self@,
    {
        let mut out: Vec<LineState> = Vec::new();
        let mut i: usize = 0;
        proof {
            assert(lines_view(self.entries@).len() == self.entries@.len());
        }
        while i < self.entries.len()
            invariant
                i <= self.entries@.len(),
                lines_view(out@) =~= lines_view(self.entries@).take(i as int),
            decreases self.entries@.len() - i,
        {
            let c = self.entries[i].clone();
            let ghost pre = out@;
            proof {
                assert(lines_view(pre).len() == pre.len());
            }
            out.push(c);
            assert(lines_view(out@) =~= lines_view(self.entries@).take(i + 1));
            i = i + 1;
        }
        proof {
            assert(lines_view(self.entries@).take(self.entries@.len() as int) =~= lines_view(
                self.entries@,
            ));
        }
        LineTable { entries: out }
    }

    /// Removes every line from the table.
    pub fn clear(&mut self)
        ensures
            final(self)@ == Seq::<VLine>::empty(),
            final(self).wf(),
    {
        self.entries.clear();
        proof {
            assert(lines_view(self.entries@) =~= Seq::<VLine>::empty());
        }
    }

    /// The position of the first entry whose name is not below `name`.
    fn lower_bound(&self, name: &str) -> (p: usize)
        ensures
            p <= self@.len(),
            forall|j: int| 0 <= j < p ==> lex_lt((#[trigger] self@[j]).name, name@),
            p < self@.len() ==> !lex_lt(self@[p as int].name, name@),
    {
        proof {
            assert(lines_view(self.entries@).len() == self.entries@.len());
        }
        let n = self.entries.len();
        let mut p: usize = 0;
        loop
            invariant
                p <= n,
                n == self@.len(),
                n == self.entries@.len(),
                forall|j: int| 0 <= j < p ==> lex_lt((#[trigger] self@[j]).name, name@),
            ensures
                p <= n,
                forall|j: int| 0 <= j < p ==> lex_lt((#[trigger] self@[j]).name, name@),
                p < n ==> !lex_lt(self@[p as int].name, name@),
            decreases n - p,
        {
            if p == n {
                break ;
            }
            proof {
                assert(self@[p as int] == self.entries@[p as int]@);
            }
            if !str_lt(self.entries[p].name(), name) {
                break ;
            }
            p = p + 1;
        }
        p
    }

    /// Looks up the trace of the named line.
    pub fn get(&self, name: &str) -> (r: Option<&LineState>)
        requires
            self.wf(),
        ensures
            match r {
                Some(l) => find_line(self@, name@) == Some(l@),
                None => find_line(self@, name@) is None,
            },
    {
        proof {
            assert(lines_view(self.entries@).len() == self.entries@.len());
        }
        let p = self.lower_bound(name);
        if p < self.entries.len() && str_eq(self.entries[p].name(), name) {
            proof {
                assert(self@[p as int] == self.entries@[p as int]@);
                assert forall|j: int| 0 <= j < p implies (#[trigger] self@[j]).name != name@ by {
                    lemma_lex_trichotomy(self@[j].name, name@);
                }
                lemma_find_at(self@, name@, p as int);
            }
            Some(&self.entries[p])
        } else {
            proof {
                assert forall|j: int| 0 <= j < self@.len() implies (#[trigger] self@[j]).name
                    != name@ by {
                    if j < p {
                        lemma_lex_trichotomy(self@[j].name, name@);
                    } else {
                        assert(self@[p as int] == self.entries@[p as int]@);
                        if self@[p as int].name == name@ {
                            assert(false);
                        }
                        lemma_lex_trichotomy(self@[p as int].name, name@);
                        if j > p {
                            assert(lex_lt(self@[p as int].name, self@[j].name));
                            lemma_lex_transitive(name@, self@[p as int].name, self@[j].name);
                        }
                        lemma_lex_trichotomy(self@[j].name, name@);
                    }
                }
                lemma_find_none(self@, name@);
            }
            None
        }
    }

    /// Inserts a line, replacing any line of the same name.
    pub fn insert(&mut self, line: LineState)
        requires
            old(self).wf(),
        ensures
            final(self).wf(),
            forall|n: Seq<char>| #[trigger] find_line(final(self)@, n) == (if n == line@.name {
                Some(line@)
            } else {
                find_line(old(self)@, n)
            }),
    {
        proof {
            assert(lines_view(self.entries@).len() == self.entries@.len());
        }
        let ghost olds = self@;
        let ghost nm = line@.name;
        let ghost lv = line@;
        let p = self.lower_bound(line.name());
        let replace = p < self.entries.len() && str_eq(self.entries[p].name(), line.name());
        proof {
            if p < olds.len() {
                assert(olds[p as int] == self.entries@[p as int]@);
            }
        }
        if replace {
            self.entries.set(p, line);
        } else {
            self.entries.insert(p, line);
        }
        proof {
            let news = self@;
            assert(lines_view(self.entries@).len() == self.entries@.len());
            if replace {
                assert(news =~= olds.update(p as int, lv));
            } else {
                assert(news =~= olds.insert(p as int, lv));
                assert(news.len() == olds.len() + 1);
                assert forall|k: int| 0 <= k < news.len() implies #[trigger] news[k] == (if k < p {
                    olds[k]
                } else if k == p {
                    lv
                } else {
                    olds[k - 1]
                }) by {}
            }
            // names below p are strictly below nm, names at or above are strictly above
            // (or, in the replace case, equal at p)
            if p < olds.len() && olds[p as int].name != nm {
                lemma_lex_trichotomy(olds[p as int].name, nm);
            }
            // sortedness of the new table
            assert forall|i: int, j: int| 0 <= i < j < news.len() implies #[trigger] lex_lt(
                news[i].name,
                news[j].name,
            ) by {
                if replace {
                    assert(news[i].name == olds[i].name);
                    assert(news[j].name == olds[j].name);
                } else {
                    if i < p && j == p {
                    } else if i == p && j > p {
                        assert(lex_lt(nm, olds[p as int].name) || p == olds.len());
                        if j - 1 > p {
                            lemma_lex_transitive(nm, olds[p as int].name, olds[j - 1].name);
                        }
                    } else if i < p && j > p {
                        assert(lex_lt(olds[i].name, nm));
                        assert(lex_lt(nm, olds[p as int].name) || p == olds.len());
                        if j - 1 == p {
                            lemma_lex_transitive(olds[i].name, nm, news[j].name);
                        } else {
                            lemma_lex_transitive(olds[i].name, olds[p as int].name, olds[j - 1].name);
                        }
                    }
                }
            }
            // the lookup ensures
            assert forall|n: Seq<char>| #[trigger] find_line(news, n) == (if n == nm {
                Some(lv)
            } else {
                find_line(olds, n)
            }) by {
                if n == nm {
                    assert forall|j: int| 0 <= j < p implies (#[trigger] news[j]).name != n by {
                        lemma_lex_trichotomy(olds[j].name, n);
                    }
                    assert(news[p as int] == lv);
                    lemma_find_at(news, n, p as int);
                } else {
                    lemma_find_char(olds, n);
                    match find_line(olds, n) {
                        Some(l) => {
                            let i = choose|i: int|
                                0 <= i < olds.len() && #[trigger] olds[i] == l && olds[i].name == n
                                    && (forall|j: int|
                                    0 <= j < i ==> (#[trigger] olds[j]).name != n);
                            if replace {
                                assert(i != p);
                                assert(news[i] == olds[i]);
                                assert forall|j: int| 0 <= j < i implies (#[trigger] news[j]).name
                                    != n by {
                                    if j == p {
                                        assert(news[j].name == nm);
                                    } else {
                                        assert(news[j] == olds[j]);
                                    }
                                }
                                lemma_find_at(news, n, i);
                            } else {
                                let i2 = if i < p {
                                    i
                                } else {
                                    i + 1
                                };
                                assert(news[i2] == olds[i]);
                                assert forall|j: int| 0 <= j < i2 implies (#[trigger] news[j]).name
                                    != n by {
                                    if j < p {
                                        assert(news[j] == olds[j]);
                                    } else if j == p {
                                        assert(news[j].name == nm);
                                    } else {
                                        assert(news[j] == olds[j - 1]);
                                    }
                                }
                                lemma_find_at(news, n, i2);
                            }
                        },
                        None => {
                            assert forall|j: int| 0 <= j < news.len() implies (#[trigger] news[j]).name
                                != n by {
                                if replace {
                                    if j == p {
                                        assert(news[j].name == nm);
                                    } else {
                                        assert(news[j] == olds[j]);
                                    }
                                } else {
                                    if j < p {
                                        assert(news[j] == olds[j]);
                                    } else if j == p {
                                        assert(news[j].name == nm);
                                    } else {
                                        assert(news[j] == olds[j - 1]);
                                    }
                                }
                            }
                            lemma_find_none(news, n);
                        },
                    }
                }
            }
        }
    }

    /// Appends one step to the trace of the named line; a name with no
    /// trace in the table is left untouched.
    pub fn append_to(&mut self, name: &str, step: StepState)
        requires
            old(self).wf(),
        ensures
            final(self)@ == append_step(old(self)@, name@, step@),
            final(self).wf(),
    {
        proof {
            assert(lines_view(self.entries@).len() == self.entries@.len());
        }
        let ghost olds = self@;
        let ghost sv = step@;
        let p = self.lower_bound(name);
        if p < self.entries.len() && str_eq(self.entries[p].name(), name) {
            proof {
                assert(olds[p as int] == self.entries@[p as int]@);
            }
            let mut l = self.entries.remove(p);
            l.push_step(step);
            let ghost lv = l@;
            self.entries.insert(p, l);
            proof {
                let news = self@;
                assert(lines_view(self.entries@).len() == self.entries@.len());
                assert(news =~= olds.update(p as int, lv));
                // only position p is named `name`
                assert forall|k: int| 0 <= k < olds.len() && k != p implies (#[trigger] olds[k]).name
                    != name@ by {
                    if k < p {
                        lemma_lex_trichotomy(olds[k].name, name@);
                    } else {
                        assert(lex_lt(olds[p as int].name, olds[k].name));
                        lemma_lex_trichotomy(olds[p as int].name, olds[k].name);
                    }
                }
                assert(news =~= append_step(olds, name@, sv));
                assert forall|i: int, j: int| 0 <= i < j < news.len() implies #[trigger] lex_lt(
                    news[i].name,
                    news[j].name,
                ) by {
                    assert(news[i].name == olds[i].name);
                    assert(news[j].name == olds[j].name);
                }
            }
        } else {
            proof {
                assert forall|k: int| 0 <= k < olds.len() implies (#[trigger] olds[k]).name
                    != name@ by {
                    if k < p {
                        lemma_lex_trichotomy(olds[k].name, name@);
                    } else {
                        assert(olds[p as int] == self.entries@[p as int]@);
                        if olds[p as int].name == name@ {
                            assert(false);
                        }
                        lemma_lex_trichotomy(olds[p as int].name, name@);
                        if k > p {
                            assert(lex_lt(olds[p as int].name, olds[k].name));
                            lemma_lex_transitive(name@, olds[p as int].name, olds[k].name);
                        }
                        lemma_lex_trichotomy(olds[k].name, name@);
                    }
                }
                assert(self@ =~= append_step(olds, name@, sv));
            }
        }
    }

    /// Moves every line of `other` into this table, overwriting lines of
    /// the same name, and leaves `other` empty.
    pub fn merge_from(&mut self, other: &mut LineTable)
        requires
            old(self).wf(),
        ensures
            final(self).wf(),
            final(other).wf(),
            forall|n: Seq<char>| #[trigger] find_line(final(self)@, n) == (match find_line(
                old(other)@,
                n,
            ) {
                Some(l) => Some(l),
                None => find_line(old(self)@, n),
            }),
            final(other)@ == Seq::<VLine>::empty(),
            old(other)@.len() == 0 ==> final(self)@ == old(self)@,
    {
        proof {
            assert(lines_view(other.entries@).len() == other.entries@.len());
        }
        let ghost oall = other@;
        let ghost oself = self@;
        loop
            invariant
                self.wf(),
                lines_view(other.entries@).len() == other.entries@.len(),
                other@.len() <= oall.len(),
                other@ == oall.take(other@.len() as int),
                oall.len() == 0 ==> self@ == oself,
                forall|n: Seq<char>| #[trigger] find_line(self@, n) == (match find_line(
                    oall.skip(other@.len() as int),
                    n,
                ) {
                    Some(l) => Some(l),
                    None => find_line(oself, n),
                }),
            ensures
                self.wf(),
                other@.len() == 0,
                oall.len() == 0 ==> self@ == oself,
                forall|n: Seq<char>| #[trigger] find_line(self@, n) == (match find_line(
                    oall.skip(0),
                    n,
                ) {
                    Some(l) => Some(l),
                    None => find_line(oself, n),
                }),
            decreases other@.len(),
        {
            proof {
                assert(oall.skip(oall.len() as int) =~= Seq::<VLine>::empty());
            }
            let ghost r = other@.len() as int;
            let ghost pre_entries = other.entries@;
            proof {
                assert(lines_view(pre_entries).len() == pre_entries.len());
            }
            match other.entries.pop() {
                Some(l) => {
                    proof {
                        assert(lines_view(other.entries@).len() == other.entries@.len());
                        assert(l == pre_entries[r - 1]);
                        assert(lines_view(pre_entries)[r - 1] == pre_entries[r - 1]@);
                        assert(oall.take(r)[r - 1] == oall[r - 1]);
                        assert(l@ == oall[r - 1]);
                        assert forall|k: int| 0 <= k < r - 1 implies #[trigger] other@[k] == oall[k] by {
                            assert(other@[k] == other.entries@[k]@);
                            assert(other.entries@[k] == pre_entries[k]);
                            assert(lines_view(pre_entries)[k] == pre_entries[k]@);
                            assert(oall.take(r)[k] == oall[k]);
                        }
                        assert(other@ =~= oall.take(r - 1));
                    }
                    let ghost lv = l@;
                    self.insert(l);
                    proof {
                        let rest = oall.skip(r - 1);
                        assert(rest.len() > 0);
                        assert(rest[0] == lv);
                        assert(rest.skip(1) =~= oall.skip(r));
                        assert forall|n: Seq<char>| #[trigger] find_line(self@, n) == (match find_line(
                            rest,
                            n,
                        ) {
                            Some(x) => Some(x),
                            None => find_line(oself, n),
                        }) by {
                            if n == lv.name {
                                assert(find_line(rest, n) == Some(lv));
                            } else {
                                assert(find_line(rest, n) == find_line(oall.skip(r), n));
                            }
                        }
                    }
                },
                None => {
                    proof {
                        assert(other@ =~= Seq::<VLine>::empty());
                        assert(oall.skip(0) =~= oall);
                    }
                    break ;
                },
            }
        }
        proof {
            assert(other@ =~= Seq::<VLine>::empty());
            assert(oall.skip(0) =~= oall);
        }
    }
}

} // verus!

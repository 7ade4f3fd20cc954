//! Chart data: usage time split into time slots and, within each slot, into
//! groups (applications or categories).

use vstd::prelude::*;
use crate::color::Color;
use crate::models::{AppUsage, WindowEvent};
use crate::text::{
    decimal, lemma_seq_lt_total, lemma_seq_lt_transitive, push_decimal, push_str, seq_lt, str_lt,
    string_of,
};
use crate::time::{
    calendar_date, date_of_day_number, local_offset_at, local_parts, offset_fits, spec_local_parts,
};

verus! {

/// How finely a chart splits time.
#[derive(Debug, Clone, Copy, PartialEq, Eq, Structural)]
pub enum ChartTimeGranularity {
    /// A year, shown as twelve months.
    Year,
    /// A month, shown as its weeks (at most six).
    Month,
    /// A week, shown as seven days.
    Week,
    /// A day, shown as 24 hours.
    Day,
    /// An hour, shown as 60 minutes.
    Hour,
}

impl ChartTimeGranularity {
    /// The number of slots of this granularity.
    pub open spec fn spec_slot_count(self) -> nat {
        match self {
            ChartTimeGranularity::Year => 12,
            ChartTimeGranularity::Month => 6,
            ChartTimeGranularity::Week => 7,
            ChartTimeGranularity::Day => 24,
            ChartTimeGranularity::Hour => 60,
        }
    }

    /// The number of slots of this granularity.
    pub fn slot_count(&self) -> (n: usize)
        ensures
            n == self.spec_slot_count(),
    {
        match self {
            ChartTimeGranularity::Year => 12,
            ChartTimeGranularity::Month => 6,
            ChartTimeGranularity::Week => 7,
            ChartTimeGranularity::Day => 24,
            ChartTimeGranularity::Hour => 60,
        }
    }
}

/// The slots of a chart whose axis shows a label: every tenth minute of an
/// hour, every sixth hour of a day, every slot otherwise.
pub open spec fn spec_label_indices(gran: ChartTimeGranularity, slot_count: int) -> Seq<usize> {
    match gran {
        ChartTimeGranularity::Hour => Seq::new(
            ((slot_count + 9) / 10) as nat,
            |i: int| (10 * i) as usize,
        ),
        ChartTimeGranularity::Day => seq![0usize, 6, 12, 18],
        _ => Seq::new(slot_count as nat, |i: int| i as usize),
    }
}

impl ChartTimeGranularity {
    /// The slots whose axis label is shown, of `slot_count` slots.
    pub fn label_indices(&self, slot_count: usize) -> (v: Vec<usize>)
        ensures
            v@ == spec_label_indices(*self, slot_count as int),
    {
        match self {
            ChartTimeGranularity::Day => vec![0, 6, 12, 18],
            _ => {
                let step: usize = match self {
                    ChartTimeGranularity::Hour => 10,
                    _ => 1,
                };
                let n: usize = slot_count / step + if slot_count % step != 0 {
                    1
                } else {
                    0
                };
                proof {
                    assert(n as int == (slot_count as int + step as int - 1) / step as int) by (nonlinear_arith)
                        requires
                            step == 1 || step == 10,
                            n as int == slot_count as int / step as int + if slot_count as int % step as int != 0 {
                                1int
                            } else {
                                0
                            },
                            slot_count >= 0,
                    ;
                }
                let mut v: Vec<usize> = Vec::new();
                let mut k: usize = 0;
                while k < n
                    invariant
                        step == 1 || step == 10,
                        n as int == (slot_count as int + step as int - 1) / step as int,
                        k <= n,
                        v@.len() == k,
                        forall|j: int| 0 <= j < k ==> #[trigger] v@[j] == step * j,
                    decreases n - k,
                {
                    proof {
                        assert(step as int * k as int <= slot_count as int - 1) by (nonlinear_arith)
                            requires
                                step == 1 || step == 10,
                                k < n,
                                n as int == (slot_count as int + step as int - 1) / step as int,
                        ;
                    }
                    v.push(step * k);
                    k = k + 1;
                }
                proof {
                    assert(v@ =~= spec_label_indices(*self, slot_count as int));
                }
                v
            },
        }
    }
}

/// What a chart groups usage by.
#[derive(Debug, Clone, Copy, PartialEq, Eq, Structural)]
pub enum ChartGroupMode {
    /// One group per application.
    ByApp,
    /// One group per category.
    ByCategory,
}

/// The seconds recorded for group `g` in a list of `(group, seconds)` entries.
pub open spec fn group_seconds(gs: Seq<(String, i64)>, g: Seq<char>) -> int
    decreases gs.len(),
{
    if gs.len() == 0 {
        0
    } else {
        group_seconds(gs.drop_last(), g) + if gs.last().0@ == g {
            gs.last().1 as int
        } else {
            0
        }
    }
}

/// The seconds of all entries of a list of `(group, seconds)` entries.
pub open spec fn sum_seconds(gs: Seq<(String, i64)>) -> int
    decreases gs.len(),
{
    if gs.len() == 0 {
        0
    } else {
        sum_seconds(gs.drop_last()) + gs.last().1 as int
    }
}

/// Whether group `g` has an entry.
pub open spec fn has_group(gs: Seq<(String, i64)>, g: Seq<char>) -> bool {
    exists|i: int| 0 <= i < gs.len() && #[trigger] gs[i].0@ == g
}

/// Whether no group has two entries.
pub open spec fn keys_distinct(gs: Seq<(String, i64)>) -> bool {
    forall|i: int, j: int| 0 <= i < j < gs.len() ==> #[trigger] gs[i].0@ != #[trigger] gs[j].0@
}

/// A group without entries has no seconds.
pub proof fn lemma_group_seconds_absent(gs: Seq<(String, i64)>, g: Seq<char>)
    requires
        !has_group(gs, g),
    ensures
        group_seconds(gs, g) == 0,
    decreases gs.len(),
{
    if gs.len() > 0 {
        assert(!has_group(gs.drop_last(), g)) by {
            if has_group(gs.drop_last(), g) {
                let i = choose|i: int| 0 <= i < gs.drop_last().len() && #[trigger] gs.drop_last()[i].0@ == g;
                assert(gs[i].0@ == g);
            }
        }
        assert(gs[gs.len() - 1].0@ != g);
        lemma_group_seconds_absent(gs.drop_last(), g);
    }
}

/// With distinct groups, a group's seconds are those of its one entry.
pub proof fn lemma_group_seconds_at(gs: Seq<(String, i64)>, i: int)
    requires
        keys_distinct(gs),
        0 <= i < gs.len(),
    ensures
        group_seconds(gs, gs[i].0@) == gs[i].1,
    decreases gs.len(),
{
    let g = gs[i].0@;
    let init = gs.drop_last();
    if i == gs.len() - 1 {
        assert(!has_group(init, g)) by {
            if has_group(init, g) {
                let k = choose|k: int| 0 <= k < init.len() && #[trigger] init[k].0@ == g;
                assert(gs[k].0@ == gs[i].0@);
            }
        }
        lemma_group_seconds_absent(init, g);
    } else {
        assert(keys_distinct(init)) by {
            assert forall|a: int, b: int| 0 <= a < b < init.len() implies #[trigger] init[a].0@
                != #[trigger] init[b].0@ by {
                assert(gs[a].0@ != gs[b].0@);
            }
        }
        assert(init[i] == gs[i]);
        lemma_group_seconds_at(init, i);
        assert(gs.last().0@ != g);
    }
}

/// Replacing entry `i` changes the seconds of its group by the difference.
pub proof fn lemma_group_seconds_update(
    gs: Seq<(String, i64)>,
    i: int,
    e: (String, i64),
    g: Seq<char>,
)
    requires
        0 <= i < gs.len(),
        e.0@ == gs[i].0@,
    ensures
        group_seconds(gs.update(i, e), g) == group_seconds(gs, g) + if gs[i].0@ == g {
            e.1 - gs[i].1
        } else {
            0
        },
        sum_seconds(gs.update(i, e)) == sum_seconds(gs) + e.1 - gs[i].1,
    decreases gs.len(),
{
    let u = gs.update(i, e);
    if i == gs.len() - 1 {
        assert(u.drop_last() =~= gs.drop_last());
    } else {
        lemma_group_seconds_update(gs.drop_last(), i, e, g);
        assert(u.drop_last() =~= gs.drop_last().update(i, e));
    }
}

/// Adding an entry adds its seconds to its group.
pub proof fn lemma_group_seconds_push(gs: Seq<(String, i64)>, e: (String, i64), g: Seq<char>)
    ensures
        group_seconds(gs.push(e), g) == group_seconds(gs, g) + if e.0@ == g {
            e.1 as int
        } else {
            0
        },
        sum_seconds(gs.push(e)) == sum_seconds(gs) + e.1,
{
    assert(gs.push(e).drop_last() =~= gs);
}

/// Adds `seconds` to the entry of group `name`, or adds an entry for it.
pub fn add_seconds(gs: &mut Vec<(String, i64)>, name: String, seconds: i64)
    requires
        keys_distinct(old(gs)@),
        i64::MIN <= group_seconds(old(gs)@, name@) + seconds <= i64::MAX,
    ensures
        keys_distinct(final(gs)@),
        forall|g: Seq<char>| #[trigger]
            group_seconds(final(gs)@, g) == group_seconds(old(gs)@, g) + if g == name@ {
                seconds as int
            } else {
                0
            },
        sum_seconds(final(gs)@) == sum_seconds(old(gs)@) + seconds,
        forall|g: Seq<char>| #[trigger]
            has_group(final(gs)@, g) == (has_group(old(gs)@, g) || g == name@),
{
    let ghost old_gs = gs@;
    let n = gs.len();
    let mut i: usize = 0;
    while i < n && !(gs[i].0 == name)
        invariant
            n == gs@.len(),
            gs@ == old_gs,
            i <= n,
            forall|k: int| 0 <= k < i ==> #[trigger] old_gs[k].0@ != name@,
        decreases n - i,
    {
        i = i + 1;
    }
    if i < n {
        proof {
            lemma_group_seconds_at(old_gs, i as int);
        }
        let v = gs[i].1;
        let e = (name, v + seconds);
        gs.set(i, e);
        proof {
            assert forall|g: Seq<char>| #[trigger]
                group_seconds(gs@, g) == group_seconds(old_gs, g)
                    + if g == e.0@ {
                    seconds as int
                } else {
                    0
                } by {
                lemma_group_seconds_update(old_gs, i as int, e, g);
            }
            lemma_group_seconds_update(old_gs, i as int, e, Seq::empty());
            assert forall|a: int, b: int|
                0 <= a < b < gs@.len() implies #[trigger] gs@[a].0@
                != #[trigger] gs@[b].0@ by {
                assert(old_gs[a].0@ != old_gs[b].0@);
            }
            assert forall|g: Seq<char>| #[trigger]
                has_group(gs@, g) == (has_group(old_gs, g) || g == e.0@) by {
                if has_group(old_gs, g) {
                    let k = choose|k: int| 0 <= k < old_gs.len() && #[trigger] old_gs[k].0@ == g;
                    assert(gs@[k].0@ == g);
                }
                if has_group(gs@, g) {
                    let k = choose|k: int|
                        0 <= k < gs@.len() && #[trigger] gs@[k].0@
                            == g;
                    assert(old_gs[k].0@ == g);
                }
                if g == e.0@ {
                    assert(gs@[i as int].0@ == g);
                }
            }
        }
    } else {
        proof {
            assert(!has_group(old_gs, name@));
            lemma_group_seconds_absent(old_gs, name@);
        }
        let e = (name, seconds);
        gs.push(e);
        proof {
            assert forall|g: Seq<char>| #[trigger]
                group_seconds(gs@, g) == group_seconds(old_gs, g)
                    + if g == e.0@ {
                    seconds as int
                } else {
                    0
                } by {
                lemma_group_seconds_push(old_gs, e, g);
            }
            lemma_group_seconds_push(old_gs, e, Seq::empty());
            assert forall|g: Seq<char>| #[trigger]
                has_group(gs@, g) == (has_group(old_gs, g) || g == e.0@) by {
                if has_group(old_gs, g) {
                    let k = choose|k: int| 0 <= k < old_gs.len() && #[trigger] old_gs[k].0@ == g;
                    assert(gs@[k].0@ == g);
                }
                if has_group(gs@, g) {
                    let k = choose|k: int|
                        0 <= k < gs@.len() && #[trigger] gs@[k].0@
                            == g;
                    if k < old_gs.len() {
                        assert(old_gs[k].0@ == g);
                    }
                }
                if g == e.0@ {
                    assert(gs@[n as int].0@ == g);
                }
            }
        }
    }
}

/// Whether `r` holds the `limit` entries of `gs` with the most seconds (all of
/// them when there are fewer), most first: entries of `gs`, one per group, in
/// non-increasing order of seconds, none left out with more seconds than one
/// taken.
pub open spec fn is_top(r: Seq<(String, i64)>, gs: Seq<(String, i64)>, limit: int) -> bool {
    &&& r.len() == if limit < gs.len() {
        limit
    } else {
        gs.len() as int
    }
    &&& keys_distinct(r)
    &&& forall|i: int| 0 <= i < r.len() ==> gs.contains(#[trigger] r[i])
    &&& forall|i: int, j: int| 0 <= i < j < r.len() ==> #[trigger] r[i].1 >= #[trigger] r[j].1
    &&& forall|k: int, i: int|
        0 <= k < gs.len() && 0 <= i < r.len() && !has_group(r, gs[k].0@) ==> #[trigger] gs[k].1
            <= #[trigger] r[i].1
}

/// The usage of one time slot.
#[derive(Debug, Clone)]
pub struct ChartTimeSlot {
    /// The slot's label.
    pub label: String,
    /// The slot's position.
    pub index: usize,
    /// Seconds per group, one entry per group.
    pub group_durations: Vec<(String, i64)>,
    /// The slot's total seconds.
    pub total_seconds: i64,
}

impl ChartTimeSlot {
    /// Each group has at most one entry.
    pub open spec fn wf(&self) -> bool {
        keys_distinct(self.group_durations@)
    }

    /// The seconds recorded for group `g`.
    pub open spec fn seconds_of(&self, g: Seq<char>) -> int {
        group_seconds(self.group_durations@, g)
    }

    /// An empty slot.
    pub fn new(label: String, index: usize) -> (s: Self)
        ensures
            s.wf(),
            s.label == label,
            s.index == index,
            s.group_durations@.len() == 0,
            s.total_seconds == 0,
    {
        ChartTimeSlot { label, index, group_durations: Vec::new(), total_seconds: 0 }
    }

    /// Adds `seconds` to group `group_name` and to the slot's total.
    pub fn add_group(&mut self, group_name: String, seconds: i64)
        requires
            old(self).wf(),
            i64::MIN <= old(self).total_seconds + seconds <= i64::MAX,
            i64::MIN <= old(self).seconds_of(group_name@) + seconds <= i64::MAX,
        ensures
            final(self).wf(),
            final(self).label == old(self).label,
            final(self).index == old(self).index,
            final(self).total_seconds == old(self).total_seconds + seconds,
            forall|g: Seq<char>| #[trigger]
                final(self).seconds_of(g) == old(self).seconds_of(g) + if g == group_name@ {
                    seconds as int
                } else {
                    0
                },
            sum_seconds(final(self).group_durations@) == sum_seconds(old(self).group_durations@)
                + seconds,
            forall|g: Seq<char>| #[trigger]
                has_group(final(self).group_durations@, g) == (has_group(
                    old(self).group_durations@,
                    g,
                ) || g == group_name@),
    {
        self.total_seconds = self.total_seconds + seconds;
        add_seconds(&mut self.group_durations, group_name, seconds);
    }

    /// The `limit` groups with the most seconds, most first (fewer when the
    /// slot has fewer groups). Groups with equal seconds come in no stated order.
    pub fn top_groups(&self, limit: usize) -> (r: Vec<(String, i64)>)
        requires
            self.wf(),
        ensures
            is_top(r@, self.group_durations@, limit as int),
    {
        top_entries(&self.group_durations, limit)
    }
}

/// The `limit` entries with the most seconds, most first (fewer when the
/// list has fewer entries). Groups with equal seconds come in no stated order.
pub fn top_entries(gs_vec: &Vec<(String, i64)>, limit: usize) -> (r: Vec<(String, i64)>)
    requires
        keys_distinct(gs_vec@),
    ensures
        is_top(r@, gs_vec@, limit as int),
{
    let ghost gs = gs_vec@;
    let n = gs_vec.len();
    let mut rest: Vec<(String, i64)> = Vec::new();
    let mut c: usize = 0;
    while c < n
        invariant
            n == gs.len(),
            gs == gs_vec@,
            c <= n,
            rest@ == gs.take(c as int),
        decreases n - c,
    {
        let k = gs_vec[c].0.clone();
        let v = gs_vec[c].1;
        rest.push((k, v));
        assert(gs.take(c + 1) == gs.take(c as int).push(gs[c as int]));
        c = c + 1;
    }
    assert(gs.take(n as int) == gs);
    let take = if limit < n {
        limit
    } else {
        n
    };
    let mut r: Vec<(String, i64)> = Vec::new();
    while r.len() < take
        invariant
            take <= n == gs.len(),
            r@.len() <= take,
            take == if limit < n { limit } else { n },
            keys_distinct(gs),
            rest@.len() + r@.len() == n,
            forall|i: int| 0 <= i < r@.len() ==> gs.contains(#[trigger] r@[i]),
            forall|k: int| 0 <= k < rest@.len() ==> gs.contains(#[trigger] rest@[k]),
            keys_distinct(r@),
            keys_distinct(rest@),
            forall|i: int, k: int|
                0 <= i < r@.len() && 0 <= k < rest@.len() ==> #[trigger] r@[i].0@
                    != #[trigger] rest@[k].0@,
            forall|i: int, j: int| 0 <= i < j < r@.len() ==> #[trigger] r@[i].1 >= #[trigger] r@[j].1,
            forall|k: int, i: int|
                0 <= k < rest@.len() && 0 <= i < r@.len() ==> #[trigger] rest@[k].1
                    <= #[trigger] r@[i].1,
            forall|j: int| 0 <= j < n ==> r@.contains(#[trigger] gs[j]) || rest@.contains(gs[j]),
        decreases take - r@.len(),
    {
        let mut best: usize = 0;
        let mut j: usize = 1;
        while j < rest.len()
            invariant
                1 <= rest@.len(),
                best < j <= rest@.len(),
                forall|m: int| 0 <= m < j ==> #[trigger] rest@[m].1 <= rest@[best as int].1,
            decreases rest@.len() - j,
        {
            if rest[j].1 > rest[best].1 {
                best = j;
            }
            j = j + 1;
        }
        let ghost old_rest = rest@;
        let ghost old_r = r@;
        let x = rest.remove(best);
        r.push(x);
        proof {
            assert(rest@ == old_rest.remove(best as int));
            assert(r@ == old_r.push(x));
            assert forall|k: int| 0 <= k < rest@.len() implies gs.contains(#[trigger] rest@[k]) by {
                if k < best {
                    assert(rest@[k] == old_rest[k]);
                } else {
                    assert(rest@[k] == old_rest[k + 1]);
                }
            }
            assert forall|i: int| 0 <= i < r@.len() implies gs.contains(#[trigger] r@[i]) by {
                if i < old_r.len() {
                    assert(r@[i] == old_r[i]);
                }
            }
            assert forall|a: int, b: int| 0 <= a < b < r@.len() implies #[trigger] r@[a].0@
                != #[trigger] r@[b].0@ by {
                if b == old_r.len() {
                    assert(old_r[a].0@ != old_rest[best as int].0@);
                } else {
                    assert(old_r[a].0@ != old_r[b].0@);
                }
            }
            assert forall|a: int, b: int| 0 <= a < b < rest@.len() implies #[trigger] rest@[a].0@
                != #[trigger] rest@[b].0@ by {
                let a0 = if a < best { a } else { a + 1 };
                let b0 = if b < best { b } else { b + 1 };
                assert(rest@[a] == old_rest[a0]);
                assert(rest@[b] == old_rest[b0]);
                assert(old_rest[a0].0@ != old_rest[b0].0@);
            }
            assert forall|i: int, k: int|
                0 <= i < r@.len() && 0 <= k < rest@.len() implies #[trigger] r@[i].0@
                    != #[trigger] rest@[k].0@ by {
                let k0 = if k < best { k } else { k + 1 };
                assert(rest@[k] == old_rest[k0]);
                if i < old_r.len() {
                    assert(r@[i] == old_r[i]);
                    assert(old_r[i].0@ != old_rest[k0].0@);
                } else {
                    assert(old_rest[best as int].0@ != old_rest[k0].0@);
                }
            }
            assert forall|a: int, b: int| 0 <= a < b < r@.len() implies #[trigger] r@[a].1
                >= #[trigger] r@[b].1 by {
                if b == old_r.len() {
                    assert(old_rest[best as int].1 <= old_r[a].1);
                } else {
                    assert(old_r[a].1 >= old_r[b].1);
                }
            }
            assert forall|k: int, i: int|
                0 <= k < rest@.len() && 0 <= i < r@.len() implies #[trigger] rest@[k].1
                    <= #[trigger] r@[i].1 by {
                let k0 = if k < best { k } else { k + 1 };
                assert(rest@[k] == old_rest[k0]);
                if i < old_r.len() {
                    assert(old_rest[k0].1 <= old_r[i].1);
                } else {
                    assert(old_rest[k0].1 <= old_rest[best as int].1);
                }
            }
            assert forall|j: int| 0 <= j < n implies r@.contains(#[trigger] gs[j]) || rest@.contains(
                gs[j],
            ) by {
                if old_r.contains(gs[j]) {
                    let i = choose|i: int| 0 <= i < old_r.len() && old_r[i] == gs[j];
                    assert(r@[i] == gs[j]);
                } else {
                    assert(old_rest.contains(gs[j]));
                    let k = choose|k: int| 0 <= k < old_rest.len() && old_rest[k] == gs[j];
                    if k == best {
                        assert(r@[old_r.len() as int] == gs[j]);
                    } else if k < best {
                        assert(rest@[k] == gs[j]);
                    } else {
                        assert(rest@[k - 1] == gs[j]);
                    }
                }
            }
        }
    }
    proof {
        assert forall|k: int, i: int|
            0 <= k < gs.len() && 0 <= i < r@.len() && !has_group(r@, gs[k].0@) implies #[trigger] gs[k].1
                <= #[trigger] r@[i].1 by {
            if r@.contains(gs[k]) {
                let a = choose|a: int| 0 <= a < r@.len() && r@[a] == gs[k];
                assert(r@[a].0@ == gs[k].0@);
            } else {
                assert(rest@.contains(gs[k]));
                let b = choose|b: int| 0 <= b < rest@.len() && rest@[b] == gs[k];
                assert(rest@[b].1 <= r@[i].1);
            }
        }
    }
    r
}

/// Whether the strings of `v` are in strictly increasing order (and so distinct).
pub open spec fn strictly_sorted(v: Seq<String>) -> bool {
    forall|i: int, j: int| 0 <= i < j < v.len() ==> seq_lt(#[trigger] v[i]@, #[trigger] v[j]@)
}

/// Whether `v` holds a string equal to `g`.
pub open spec fn has_name(v: Seq<String>, g: Seq<char>) -> bool {
    exists|i: int| 0 <= i < v.len() && #[trigger] v[i]@ == g
}

/// Inserts `x` into the strictly sorted `v`, unless it is there already.
pub fn insert_sorted(v: &mut Vec<String>, x: String)
    requires
        strictly_sorted(old(v)@),
    ensures
        strictly_sorted(final(v)@),
        forall|g: Seq<char>| #[trigger] has_name(final(v)@, g) == (has_name(old(v)@, g) || g == x@),
{
    let ghost old_v = v@;
    let mut p: usize = 0;
    while p < v.len() && str_lt(v[p].as_str(), x.as_str())
        invariant
            v@ == old_v,
            p <= v@.len(),
            forall|i: int| 0 <= i < p ==> seq_lt(#[trigger] v@[i]@, x@),
        decreases v@.len() - p,
    {
        p = p + 1;
    }
    if p < v.len() && v[p] == x {
        proof {
            assert forall|g: Seq<char>| #[trigger] has_name(v@, g) == (has_name(old_v, g) || g == x@) by {
                if g == x@ {
                    assert(v@[p as int]@ == g);
                }
            }
        }
        return;
    }
    let ghost xv = x@;
    v.insert(p, x);
    proof {
        assert(v@ == old_v.insert(p as int, v@[p as int]));
        if p < old_v.len() {
            lemma_seq_lt_total(old_v[p as int]@, xv);
        }
        assert forall|a: int, b: int| 0 <= a < b < v@.len() implies seq_lt(
            #[trigger] v@[a]@,
            #[trigger] v@[b]@,
        ) by {
            if b < p {
                assert(v@[a] == old_v[a] && v@[b] == old_v[b]);
            } else if b == p {
                assert(v@[a] == old_v[a]);
            } else if a > p {
                assert(v@[a] == old_v[a - 1] && v@[b] == old_v[b - 1]);
            } else if a == p {
                assert(v@[b] == old_v[b - 1]);
                if b - 1 > p {
                    lemma_seq_lt_transitive(xv, old_v[p as int]@, old_v[b - 1]@);
                }
            } else {
                assert(v@[a] == old_v[a] && v@[b] == old_v[b - 1]);
                lemma_seq_lt_transitive(old_v[a]@, xv, old_v[p as int]@);
                if b - 1 > p {
                    lemma_seq_lt_transitive(old_v[a]@, old_v[p as int]@, old_v[b - 1]@);
                }
            }
        }
        assert forall|g: Seq<char>| #[trigger] has_name(v@, g) == (has_name(old_v, g) || g == xv) by {
            if has_name(old_v, g) {
                let k = choose|k: int| 0 <= k < old_v.len() && #[trigger] old_v[k]@ == g;
                if k < p {
                    assert(v@[k]@ == g);
                } else {
                    assert(v@[k + 1]@ == g);
                }
            }
            if g == xv {
                assert(v@[p as int]@ == g);
            }
            if has_name(v@, g) {
                let k = choose|k: int| 0 <= k < v@.len() && #[trigger] v@[k]@ == g;
                if k < p {
                    assert(old_v[k]@ == g);
                } else if k > p {
                    assert(old_v[k - 1]@ == g);
                }
            }
        }
    }
}

/// Whether some slot records group `g`.
pub open spec fn slots_have_group(slots: Seq<ChartTimeSlot>, g: Seq<char>) -> bool {
    exists|s: int| 0 <= s < slots.len() && has_group(#[trigger] slots[s].group_durations@, g)
}

/// Chart data: the time slots of a period.
#[derive(Debug, Clone)]
pub struct ChartData {
    /// The slots, in order.
    pub time_slots: Vec<ChartTimeSlot>,
    /// The total seconds.
    pub total_seconds: i64,
    /// How finely time is split.
    pub granularity: ChartTimeGranularity,
    /// What the slots' groups are.
    pub group_mode: ChartGroupMode,
}

impl ChartData {
    /// Chart data without slots.
    pub fn new(granularity: ChartTimeGranularity, group_mode: ChartGroupMode) -> (d: Self)
        ensures
            d.time_slots@.len() == 0,
            d.total_seconds == 0,
            d.granularity == granularity,
            d.group_mode == group_mode,
    {
        ChartData { time_slots: Vec::new(), total_seconds: 0, granularity, group_mode }
    }

    /// Appends a slot and adds its seconds to the total.
    pub fn add_slot(&mut self, slot: ChartTimeSlot)
        requires
            i64::MIN <= old(self).total_seconds + slot.total_seconds <= i64::MAX,
        ensures
            final(self).time_slots@ == old(self).time_slots@.push(slot),
            final(self).total_seconds == old(self).total_seconds + slot.total_seconds,
            final(self).granularity == old(self).granularity,
            final(self).group_mode == old(self).group_mode,
    {
        self.total_seconds = self.total_seconds + slot.total_seconds;
        self.time_slots.push(slot);
    }

    /// The largest slot total, 0 without slots.
    pub fn max_seconds(&self) -> (m: i64)
        ensures
            self.time_slots@.len() == 0 ==> m == 0,
            self.time_slots@.len() > 0 ==> exists|i: int|
                0 <= i < self.time_slots@.len() && m == #[trigger] self.time_slots@[i].total_seconds,
            forall|i: int|
                0 <= i < self.time_slots@.len() ==> #[trigger] self.time_slots@[i].total_seconds <= m,
    {
        let n = self.time_slots.len();
        if n == 0 {
            return 0;
        }
        let mut m = self.time_slots[0].total_seconds;
        let mut i: usize = 1;
        while i < n
            invariant
                n == self.time_slots@.len(),
                1 <= i <= n,
                exists|k: int| 0 <= k < i && m == #[trigger] self.time_slots@[k].total_seconds,
                forall|k: int| 0 <= k < i ==> #[trigger] self.time_slots@[k].total_seconds <= m,
            decreases n - i,
        {
            if self.time_slots[i].total_seconds > m {
                m = self.time_slots[i].total_seconds;
            }
            i = i + 1;
        }
        m
    }

    /// Every group recorded in some slot, once each, in string order.
    pub fn all_groups(&self) -> (r: Vec<String>)
        ensures
            strictly_sorted(r@),
            forall|g: Seq<char>| #[trigger] has_name(r@, g) == slots_have_group(self.time_slots@, g),
    {
        let ghost slots = self.time_slots@;
        let mut r: Vec<String> = Vec::new();
        let n = self.time_slots.len();
        let mut s: usize = 0;
        while s < n
            invariant
                n == slots.len(),
                slots == self.time_slots@,
                s <= n,
                strictly_sorted(r@),
                forall|g: Seq<char>| #[trigger]
                    has_name(r@, g) == slots_have_group(slots.take(s as int), g),
            decreases n - s,
        {
            let gs = &self.time_slots[s].group_durations;
            let m = gs.len();
            let mut k: usize = 0;
            while k < m
                invariant
                    n == slots.len(),
                    s < n,
                    gs@ == slots[s as int].group_durations@,
                    m == gs@.len(),
                    k <= m,
                    strictly_sorted(r@),
                    forall|g: Seq<char>| #[trigger]
                        has_name(r@, g) == (slots_have_group(slots.take(s as int), g) || has_group(
                            gs@.take(k as int),
                            g,
                        )),
                decreases m - k,
            {
                let name = gs[k].0.clone();
                let ghost r0 = r@;
                insert_sorted(&mut r, name);
                proof {
                    assert forall|g: Seq<char>| #[trigger]
                        has_group(gs@.take(k + 1), g) == (has_group(gs@.take(k as int), g) || g
                            == gs@[k as int].0@) by {
                        if has_group(gs@.take(k + 1), g) {
                            let j = choose|j: int| 0 <= j < k + 1 && #[trigger] gs@.take(k + 1)[j].0@ == g;
                            if j < k {
                                assert(gs@.take(k as int)[j].0@ == g);
                            }
                        }
                        if has_group(gs@.take(k as int), g) {
                            let j = choose|j: int| 0 <= j < k && #[trigger] gs@.take(k as int)[j].0@ == g;
                            assert(gs@.take(k + 1)[j].0@ == g);
                        }
                        if g == gs@[k as int].0@ {
                            assert(gs@.take(k + 1)[k as int].0@ == g);
                        }
                    }
                }
                k = k + 1;
            }
            proof {
                assert(gs@.take(m as int) == gs@);
                assert forall|g: Seq<char>| #[trigger]
                    slots_have_group(slots.take(s + 1), g) == (slots_have_group(slots.take(s as int), g)
                        || has_group(gs@, g)) by {
                    if slots_have_group(slots.take(s + 1), g) {
                        let t = choose|t: int|
                            0 <= t < s + 1 && has_group(#[trigger] slots.take(s + 1)[t].group_durations@, g);
                        if t < s {
                            assert(has_group(slots.take(s as int)[t].group_durations@, g));
                        }
                    }
                    if slots_have_group(slots.take(s as int), g) {
                        let t = choose|t: int|
                            0 <= t < s && has_group(#[trigger] slots.take(s as int)[t].group_durations@, g);
                        assert(has_group(slots.take(s + 1)[t].group_durations@, g));
                    }
                    if has_group(gs@, g) {
                        assert(has_group(slots.take(s + 1)[s as int].group_durations@, g));
                    }
                }
            }
            s = s + 1;
        }
        proof {
            assert(slots.take(n as int) == slots);
        }
        r
    }
}

/// One event's contribution to a chart: its group, its slot and its seconds.
pub type EntryModel = (Seq<char>, int, int);

/// The group an application's time counts for. Applications have no category
/// assigned here, so by category all of it counts as uncategorised.
pub open spec fn group_of(mode: ChartGroupMode, app: Seq<char>) -> Seq<char> {
    match mode {
        ChartGroupMode::ByApp => app,
        ChartGroupMode::ByCategory => "未分类"@,
    }
}

/// Whether `start..end` is a time range to filter by: both after the epoch,
/// and `start` before `end`.
pub open spec fn filters_by_range(start: i64, end: i64) -> bool {
    start > 0 && end > 0 && start < end
}

/// Whether an event at `ts` falls into the range (every event does when the
/// range does not filter).
pub open spec fn in_time_range(start: i64, end: i64, ts: i64) -> bool {
    !filters_by_range(start, end) || (start <= ts && ts < end)
}

/// The slot an instant falls into when the local offset is `off`: the hour of
/// the day, the minute of the hour, the weekday, the month or the week of the
/// month of its local time; `None` when its local time is unknown.
pub open spec fn event_slot(gran: ChartTimeGranularity, ts: i64, off: Option<i32>) -> Option<int> {
    match off {
        None => None,
        Some(o) => {
            let p = spec_local_parts(ts as int, o as int);
            match gran {
                ChartTimeGranularity::Day => Some(p.hour as int),
                ChartTimeGranularity::Hour => Some(p.minute as int),
                ChartTimeGranularity::Week => Some(p.weekday as int),
                ChartTimeGranularity::Year => if i32::MIN <= p.days_ce <= i32::MAX {
                    match calendar_date(p.days_ce as i32) {
                        Some((y, m, d)) => if 1 <= m <= 12 {
                            Some(m - 1)
                        } else {
                            None
                        },
                        None => None,
                    }
                } else {
                    None
                },
                ChartTimeGranularity::Month => if i32::MIN <= p.days_ce <= i32::MAX {
                    match calendar_date(p.days_ce as i32) {
                        Some((y, m, d)) => if 1 <= d && (d - 1) / 7 < 6 {
                            Some((d - 1) / 7)
                        } else {
                            None
                        },
                        None => None,
                    }
                } else {
                    None
                },
            }
        },
    }
}

/// The entry event `e` of application `app` contributes, if any: none for an
/// unnamed application, an away-from-keyboard event, an event out of range or
/// one whose local time is unknown.
pub open spec fn entry_of(
    gran: ChartTimeGranularity,
    mode: ChartGroupMode,
    start: i64,
    end: i64,
    app: Seq<char>,
    e: WindowEvent,
    off: Option<i32>,
) -> Option<EntryModel> {
    if app.len() == 0 || e.is_afk || !in_time_range(start, end, e.timestamp) {
        None
    } else {
        match event_slot(gran, e.timestamp, off) {
            Some(slot) => Some((group_of(mode, app), slot, e.duration_secs as int)),
            None => None,
        }
    }
}

/// The entries of the first `j` events of `u`.
pub open spec fn usage_entries(
    gran: ChartTimeGranularity,
    mode: ChartGroupMode,
    start: i64,
    end: i64,
    u: AppUsage,
    offs: Seq<Option<i32>>,
    j: int,
) -> Seq<EntryModel>
    decreases j,
{
    if j <= 0 {
        Seq::empty()
    } else {
        let prev = usage_entries(gran, mode, start, end, u, offs, j - 1);
        match entry_of(gran, mode, start, end, u.app_name@, u.window_events@[j - 1], offs[j - 1]) {
            Some(x) => prev.push(x),
            None => prev,
        }
    }
}

/// The entries of the first `i` applications.
pub open spec fn all_entries(
    gran: ChartTimeGranularity,
    mode: ChartGroupMode,
    start: i64,
    end: i64,
    us: Seq<AppUsage>,
    offs: Seq<Vec<Option<i32>>>,
    i: int,
) -> Seq<EntryModel>
    decreases i,
{
    if i <= 0 {
        Seq::empty()
    } else {
        all_entries(gran, mode, start, end, us, offs, i - 1) + usage_entries(
            gran,
            mode,
            start,
            end,
            us[i - 1],
            offs[i - 1]@,
            us[i - 1].window_events@.len() as int,
        )
    }
}

/// The seconds that entries give group `g` in slot `s`.
pub open spec fn bucket(es: Seq<EntryModel>, s: int, g: Seq<char>) -> int
    decreases es.len(),
{
    if es.len() == 0 {
        0
    } else {
        bucket(es.drop_last(), s, g) + if es.last().1 == s && es.last().0 == g {
            es.last().2
        } else {
            0
        }
    }
}

/// The seconds that entries give slot `s`.
pub open spec fn slot_total(es: Seq<EntryModel>, s: int) -> int
    decreases es.len(),
{
    if es.len() == 0 {
        0
    } else {
        slot_total(es.drop_last(), s) + if es.last().1 == s {
            es.last().2
        } else {
            0
        }
    }
}

/// Whether some entry gives group `g` seconds in slot `s` (a slot lists
/// exactly these groups, even where their seconds add up to 0).
pub open spec fn bucket_used(es: Seq<EntryModel>, s: int, g: Seq<char>) -> bool
    decreases es.len(),
{
    if es.len() == 0 {
        false
    } else {
        bucket_used(es.drop_last(), s, g) || (es.last().1 == s && es.last().0 == g)
    }
}

/// Whether some entry falls into slot `s`.
pub open spec fn slot_used(es: Seq<EntryModel>, s: int) -> bool {
    exists|k: int| 0 <= k < es.len() && #[trigger] es[k].1 == s
}

/// The sum of the absolute values of the entries' seconds.
pub open spec fn entries_abs(es: Seq<EntryModel>) -> int
    decreases es.len(),
{
    if es.len() == 0 {
        0
    } else {
        entries_abs(es.drop_last()) + if es.last().2 < 0 {
            -es.last().2
        } else {
            es.last().2
        }
    }
}

/// The sum of the absolute durations of the first `j` events.
pub open spec fn events_abs(es: Seq<WindowEvent>, j: int) -> int
    decreases j,
{
    if j <= 0 {
        0
    } else {
        events_abs(es, j - 1) + if es[j - 1].duration_secs < 0 {
            -es[j - 1].duration_secs
        } else {
            es[j - 1].duration_secs as int
        }
    }
}

/// The sum of the absolute durations of all events of the first `i` applications.
pub open spec fn usages_abs(us: Seq<AppUsage>, i: int) -> int
    decreases i,
{
    if i <= 0 {
        0
    } else {
        usages_abs(us, i - 1) + events_abs(us[i - 1].window_events@, us[i - 1].window_events@.len() as int)
    }
}

/// The sum of the totals of the first `i` applications.
pub open spec fn usages_total(us: Seq<AppUsage>, i: int) -> int
    decreases i,
{
    if i <= 0 {
        0
    } else {
        usages_total(us, i - 1) + us[i - 1].total_seconds
    }
}

/// Whether each running sum of the applications' totals fits in an `i64`.
pub open spec fn totals_fit(us: Seq<AppUsage>) -> bool {
    forall|i: int| 0 <= i <= us.len() ==> i64::MIN <= #[trigger] usages_total(us, i) <= i64::MAX
}

/// What a chart's sums must fit into: the absolute durations of all events
/// add up to an `i64`, and so does each running sum of the applications'
/// totals.
pub open spec fn sums_fit(us: Seq<AppUsage>) -> bool {
    usages_abs(us, us.len() as int) <= i64::MAX && totals_fit(us)
}

/// Whether every entry falls into one of the slots `0..n`.
pub open spec fn entries_in_slots(es: Seq<EntryModel>, n: int) -> bool {
    forall|k: int| 0 <= k < es.len() ==> 0 <= #[trigger] es[k].1 < n
}

/// The seconds of all entries.
pub open spec fn entries_total(es: Seq<EntryModel>) -> int
    decreases es.len(),
{
    if es.len() == 0 {
        0
    } else {
        entries_total(es.drop_last()) + es.last().2
    }
}

/// The seconds the entries give slots `0..n` together.
pub open spec fn slots_total_upto(es: Seq<EntryModel>, n: int) -> int
    decreases n,
{
    if n <= 0 {
        0
    } else {
        slots_total_upto(es, n - 1) + slot_total(es, n - 1)
    }
}

/// The sum of the totals of the first `n` slots.
pub open spec fn slot_totals(slots: Seq<ChartTimeSlot>, n: int) -> int
    decreases n,
{
    if n <= 0 {
        0
    } else {
        slot_totals(slots, n - 1) + slots[n - 1].total_seconds
    }
}

proof fn lemma_slots_total_step(es: Seq<EntryModel>, n: int)
    requires
        es.len() > 0,
        n >= 0,
    ensures
        slots_total_upto(es, n) == slots_total_upto(es.drop_last(), n) + if 0 <= es.last().1 < n {
            es.last().2
        } else {
            0
        },
    decreases n,
{
    if n > 0 {
        lemma_slots_total_step(es, n - 1);
    }
}

/// Every entry lands in exactly one slot: when all entries fall into slots
/// `0..n`, the slots together hold the seconds of all entries.
pub proof fn lemma_slots_partition(es: Seq<EntryModel>, n: int)
    requires
        n >= 0,
        entries_in_slots(es, n),
    ensures
        slots_total_upto(es, n) == entries_total(es),
    decreases es.len(),
{
    if es.len() > 0 {
        assert(entries_in_slots(es.drop_last(), n)) by {
            assert forall|k: int| 0 <= k < es.drop_last().len() implies 0 <= #[trigger] es.drop_last()[k].1 < n by {
                assert(es.drop_last()[k] == es[k]);
            }
        }
        lemma_slots_partition(es.drop_last(), n);
        lemma_slots_total_step(es, n);
        assert(es.last() == es[es.len() - 1]);
    } else {
        lemma_slots_zero(es, n);
    }
}

proof fn lemma_slots_zero(es: Seq<EntryModel>, n: int)
    requires
        es.len() == 0,
    ensures
        slots_total_upto(es, n) == 0,
    decreases n,
{
    if n > 0 {
        lemma_slots_zero(es, n - 1);
    }
}

/// A chart by hour, minute, weekday or month conserves time: its slots'
/// totals add up to the seconds of all the entries it is made of.
pub proof fn lemma_chart_conserves_time(
    d: ChartData,
    gran: ChartTimeGranularity,
    mode: ChartGroupMode,
    es: Seq<EntryModel>,
    total: int,
)
    requires
        gran != ChartTimeGranularity::Month,
        chart_of(d, gran, mode, es, total),
        entries_in_slots(es, gran.spec_slot_count() as int),
    ensures
        slot_totals(d.time_slots@, d.time_slots@.len() as int) == entries_total(es),
{
    lemma_slots_partition(es, gran.spec_slot_count() as int);
    lemma_slot_totals_match(d.time_slots@, gran, es, d.time_slots@.len() as int);
}

/// Whether two lists of entries put the same seconds into the same slots,
/// entry by entry, whatever their groups.
pub open spec fn same_slots(a: Seq<EntryModel>, b: Seq<EntryModel>) -> bool {
    &&& a.len() == b.len()
    &&& forall|k: int| 0 <= k < a.len() ==> (#[trigger] a[k]).1 == b[k].1 && a[k].2 == b[k].2
}

/// Whether every entry counts for group `c`.
pub open spec fn all_in_group(es: Seq<EntryModel>, c: Seq<char>) -> bool {
    forall|k: int| 0 <= k < es.len() ==> (#[trigger] es[k]).0 == c
}

proof fn lemma_usage_entries_modes(
    gran: ChartTimeGranularity,
    start: i64,
    end: i64,
    u: AppUsage,
    offs: Seq<Option<i32>>,
    j: int,
)
    ensures
        same_slots(
            usage_entries(gran, ChartGroupMode::ByApp, start, end, u, offs, j),
            usage_entries(gran, ChartGroupMode::ByCategory, start, end, u, offs, j),
        ),
        all_in_group(usage_entries(gran, ChartGroupMode::ByCategory, start, end, u, offs, j), "未分类"@),
    decreases j,
{
    if j > 0 {
        lemma_usage_entries_modes(gran, start, end, u, offs, j - 1);
    }
}

proof fn lemma_all_entries_modes(
    gran: ChartTimeGranularity,
    start: i64,
    end: i64,
    us: Seq<AppUsage>,
    offs: Seq<Vec<Option<i32>>>,
    i: int,
)
    ensures
        same_slots(
            all_entries(gran, ChartGroupMode::ByApp, start, end, us, offs, i),
            all_entries(gran, ChartGroupMode::ByCategory, start, end, us, offs, i),
        ),
        all_in_group(all_entries(gran, ChartGroupMode::ByCategory, start, end, us, offs, i), "未分类"@),
    decreases i,
{
    if i > 0 {
        lemma_all_entries_modes(gran, start, end, us, offs, i - 1);
        let n = us[i - 1].window_events@.len() as int;
        lemma_usage_entries_modes(gran, start, end, us[i - 1], offs[i - 1]@, n);
        let a0 = all_entries(gran, ChartGroupMode::ByApp, start, end, us, offs, i - 1);
        let b0 = all_entries(gran, ChartGroupMode::ByCategory, start, end, us, offs, i - 1);
        let a1 = usage_entries(gran, ChartGroupMode::ByApp, start, end, us[i - 1], offs[i - 1]@, n);
        let b1 = usage_entries(gran, ChartGroupMode::ByCategory, start, end, us[i - 1], offs[i - 1]@, n);
        let a = a0 + a1;
        let b = b0 + b1;
        assert forall|k: int| 0 <= k < a.len() implies (#[trigger] a[k]).1 == b[k].1 && a[k].2 == b[k].2 by {
            if k < a0.len() {
                assert(a[k] == a0[k] && b[k] == b0[k]);
            } else {
                assert(a[k] == a1[k - a0.len()] && b[k] == b1[k - a0.len()]);
            }
        }
        assert forall|k: int| 0 <= k < b.len() implies (#[trigger] b[k]).0 == "未分类"@ by {
            if k < b0.len() {
                assert(b[k] == b0[k]);
            } else {
                assert(b[k] == b1[k - b0.len()]);
            }
        }
    }
}

proof fn lemma_same_slots_totals(a: Seq<EntryModel>, b: Seq<EntryModel>, s: int)
    requires
        same_slots(a, b),
    ensures
        slot_total(a, s) == slot_total(b, s),
        slot_used(a, s) == slot_used(b, s),
    decreases a.len(),
{
    if a.len() > 0 {
        let a0 = a.drop_last();
        let b0 = b.drop_last();
        assert forall|k: int| 0 <= k < a0.len() implies (#[trigger] a0[k]).1 == b0[k].1 && a0[k].2 == b0[k].2 by {
            assert(a0[k] == a[k] && b0[k] == b[k]);
        }
        lemma_same_slots_totals(a0, b0, s);
        assert(a.last() == a[a.len() - 1] && b.last() == b[b.len() - 1]);
    }
    if slot_used(a, s) {
        let k = choose|k: int| 0 <= k < a.len() && #[trigger] a[k].1 == s;
        assert(b[k].1 == s);
    }
    if slot_used(b, s) {
        let k = choose|k: int| 0 <= k < b.len() && #[trigger] b[k].1 == s;
        assert(a[k].1 == s);
    }
}

proof fn lemma_bucket_used_group(es: Seq<EntryModel>, c: Seq<char>, s: int, g: Seq<char>)
    requires
        all_in_group(es, c),
        bucket_used(es, s, g),
    ensures
        g == c,
    decreases es.len(),
{
    let e0 = es.drop_last();
    assert forall|k: int| 0 <= k < e0.len() implies (#[trigger] e0[k]).0 == c by {
        assert(e0[k] == es[k]);
    }
    assert(es.last() == es[es.len() - 1]);
    if bucket_used(e0, s, g) {
        lemma_bucket_used_group(e0, c, s, g);
    }
}

/// By application and by category, the same usage puts the same seconds into
/// the same slots: each slot's total, and whether any entry falls into it,
/// agree; and by category every slot lists only the uncategorised group.
pub proof fn lemma_group_modes_agree(
    gran: ChartTimeGranularity,
    start: i64,
    end: i64,
    us: Seq<AppUsage>,
    offs: Seq<Vec<Option<i32>>>,
    s: int,
    g: Seq<char>,
)
    ensures
        slot_total(all_entries(gran, ChartGroupMode::ByApp, start, end, us, offs, us.len() as int), s)
            == slot_total(all_entries(gran, ChartGroupMode::ByCategory, start, end, us, offs, us.len() as int), s),
        slot_used(all_entries(gran, ChartGroupMode::ByApp, start, end, us, offs, us.len() as int), s)
            == slot_used(all_entries(gran, ChartGroupMode::ByCategory, start, end, us, offs, us.len() as int), s),
        bucket_used(all_entries(gran, ChartGroupMode::ByCategory, start, end, us, offs, us.len() as int), s, g)
            ==> g == "未分类"@,
{
    let n = us.len() as int;
    lemma_all_entries_modes(gran, start, end, us, offs, n);
    lemma_same_slots_totals(
        all_entries(gran, ChartGroupMode::ByApp, start, end, us, offs, n),
        all_entries(gran, ChartGroupMode::ByCategory, start, end, us, offs, n),
        s,
    );
    if bucket_used(all_entries(gran, ChartGroupMode::ByCategory, start, end, us, offs, n), s, g) {
        lemma_bucket_used_group(
            all_entries(gran, ChartGroupMode::ByCategory, start, end, us, offs, n),
            "未分类"@,
            s,
            g,
        );
    }
}

/// The top of the chart's time axis: the longest slot's seconds, at least
/// one minute.
pub open spec fn axis_top(max_seconds: int) -> int {
    if max_seconds < 60 {
        60
    } else {
        max_seconds
    }
}

/// The five ticks of the time axis, from 0 to the axis top in quarters
/// (rounded down).
pub fn y_axis_ticks(max_seconds: i64) -> (v: Vec<i64>)
    requires
        max_seconds <= i64::MAX / 4,
    ensures
        v@.len() == 5,
        forall|i: int| 0 <= i < 5 ==> #[trigger] v@[i] == axis_top(max_seconds as int) * i / 4,
{
    let top: i64 = if max_seconds < 60 {
        60
    } else {
        max_seconds
    };
    let mut v: Vec<i64> = Vec::new();
    let mut i: i64 = 0;
    while i < 5
        invariant
            0 <= i <= 5,
            top == axis_top(max_seconds as int),
            60 <= top <= i64::MAX / 4,
            v@.len() == i,
            forall|k: int| 0 <= k < i ==> #[trigger] v@[k] == top * k / 4,
        decreases 5 - i,
    {
        assert(0 <= top * i <= top * 4) by (nonlinear_arith)
            requires
                0 <= i <= 4,
                60 <= top,
        ;
        v.push(top * i / 4);
        i = i + 1;
    }
    v
}

/// In a month chart an event lands in the week slot of its local day of the
/// month: days 1 to 7 in slot 0, days 8 to 14 in slot 1, and so on, so that
/// slot `w` holds exactly the days `7w + 1` to `7w + 7`; every day of a month
/// (1 to 31) has a slot.
pub proof fn lemma_month_slot_by_day(ts: i64, o: i32)
    ensures
        ({
            let dce = spec_local_parts(ts as int, o as int).days_ce;
            &&& event_slot(ChartTimeGranularity::Month, ts, Some(o)) matches Some(w) ==> (i32::MIN <= dce
                <= i32::MAX && (calendar_date(dce as i32) matches Some((y, m, d)) && 0 <= w < 6 && 7 * w < d
                <= 7 * w + 7))
            &&& forall|y: i32, m: u32, d: u32|
                i32::MIN <= dce <= i32::MAX && calendar_date(dce as i32) == Some((y, m, d)) && 1 <= d <= 31
                    ==> (event_slot(ChartTimeGranularity::Month, ts, Some(o)) matches Some(w) && 7 * w < d <= 7
                    * w + 7)
        }),
{
}

/// The slots of the other charts follow the local clock and calendar: by
/// day, the hour `h` whose hour of local time holds the instant; by hour, the
/// minute; by week, the weekday, Monday (such as 1970-01-05) being slot 0 and
/// the next day always the next weekday; by year, the local month minus one.
pub proof fn lemma_slots_follow_local_time(ts: i64, o: i32)
    requires
        -86400 < o < 86400,
    ensures
        event_slot(ChartTimeGranularity::Day, ts, Some(o)) matches Some(h) && 0 <= h < 24 && 3600 * h <= (ts + o)
            % 86400 < 3600 * (h + 1),
        event_slot(ChartTimeGranularity::Hour, ts, Some(o)) matches Some(m) && 0 <= m < 60 && 60 * m <= (ts + o)
            % 3600 < 60 * (m + 1),
        event_slot(ChartTimeGranularity::Week, ts, Some(o)) matches Some(w) && 0 <= w < 7,
        (ts + o) / 86400 == 4 ==> event_slot(ChartTimeGranularity::Week, ts, Some(o)) == Some(0int),
        ts <= i64::MAX - 86400 ==> (event_slot(ChartTimeGranularity::Week, ts, Some(o)) matches Some(w)
            && event_slot(ChartTimeGranularity::Week, (ts + 86400) as i64, Some(o)) == Some((w + 1) % 7)),
        event_slot(ChartTimeGranularity::Year, ts, Some(o)) matches Some(s) ==> ({
            let dce = spec_local_parts(ts as int, o as int).days_ce;
            i32::MIN <= dce <= i32::MAX && (calendar_date(dce as i32) matches Some((y, m, d)) && s == m - 1
                && 0 <= s < 12)
        }),
{
    let l = ts + o;
    assert((l + 86400) / 86400 == l / 86400 + 1);
}

/// The slot indices of a chart, in order.
pub open spec fn slot_indices(slots: Seq<ChartTimeSlot>) -> Seq<int> {
    slots.map_values(|t: ChartTimeSlot| t.index as int)
}

/// Whether a list of integers is strictly increasing.
pub open spec fn strictly_increasing(a: Seq<int>) -> bool {
    forall|i: int, j: int| 0 <= i < j < a.len() ==> #[trigger] a[i] < #[trigger] a[j]
}

/// Whether every element of `a` is among `b`.
pub open spec fn listed_in(a: Seq<int>, b: Seq<int>) -> bool {
    forall|i: int| 0 <= i < a.len() ==> b.contains(#[trigger] a[i])
}

proof fn lemma_listing_prefix(a: Seq<int>, b: Seq<int>, n: int)
    requires
        strictly_increasing(a),
        strictly_increasing(b),
        listed_in(a, b),
        listed_in(b, a),
        0 <= n <= a.len(),
        n <= b.len(),
    ensures
        forall|i: int| 0 <= i < n ==> a[i] == b[i],
    decreases n,
{
    if n > 0 {
        lemma_listing_prefix(a, b, n - 1);
        let t = n - 1;
        if a[t] < b[t] {
            let j = choose|j: int| 0 <= j < b.len() && #[trigger] b[j] == a[t];
            if j >= t {
                if j > t {
                    assert(b[t] < b[j]);
                }
            } else {
                assert(a[j] == b[j]);
                assert(a[j] < a[t]);
            }
        } else if b[t] < a[t] {
            let j = choose|j: int| 0 <= j < a.len() && #[trigger] a[j] == b[t];
            if j >= t {
                if j > t {
                    assert(a[t] < a[j]);
                }
            } else {
                assert(a[j] == b[j]);
                assert(b[j] < b[t]);
            }
        }
    }
}

/// Two strictly increasing lists that list the same integers are equal.
proof fn lemma_same_listing(a: Seq<int>, b: Seq<int>)
    requires
        strictly_increasing(a),
        strictly_increasing(b),
        listed_in(a, b),
        listed_in(b, a),
    ensures
        a == b,
{
    let n = if a.len() < b.len() {
        a.len() as int
    } else {
        b.len() as int
    };
    lemma_listing_prefix(a, b, n);
    if a.len() > b.len() {
        let t = b.len() as int;
        let j = choose|j: int| 0 <= j < b.len() && #[trigger] b[j] == a[t];
        assert(a[j] == b[j]);
        assert(a[j] < a[t]);
    }
    if b.len() > a.len() {
        let t = a.len() as int;
        let j = choose|j: int| 0 <= j < a.len() && #[trigger] a[j] == b[t];
        assert(a[j] == b[j]);
        assert(b[j] < b[t]);
    }
    assert(a =~= b);
}

/// The charts of the same usage by application and by category have the same
/// slots (the same number, at the same positions), the same total, and the
/// same total in each slot; by category each slot lists only the
/// uncategorised group.
pub proof fn lemma_chart_modes_agree(
    x: ChartData,
    y: ChartData,
    gran: ChartTimeGranularity,
    start: i64,
    end: i64,
    us: Seq<AppUsage>,
    offs: Seq<Vec<Option<i32>>>,
    total: int,
)
    requires
        chart_of(x, gran, ChartGroupMode::ByApp, all_entries(gran, ChartGroupMode::ByApp, start, end, us, offs, us.len() as int), total),
        chart_of(y, gran, ChartGroupMode::ByCategory, all_entries(gran, ChartGroupMode::ByCategory, start, end, us, offs, us.len() as int), total),
    ensures
        x.time_slots@.len() == y.time_slots@.len(),
        x.total_seconds == y.total_seconds,
        forall|t: int|
            0 <= t < x.time_slots@.len() ==> (#[trigger] x.time_slots@[t]).index == y.time_slots@[t].index
                && x.time_slots@[t].total_seconds == y.time_slots@[t].total_seconds,
        forall|t: int, g: Seq<char>|
            0 <= t < y.time_slots@.len() && #[trigger] has_group(y.time_slots@[t].group_durations@, g) ==> g
                == "未分类"@,
{
    let n = us.len() as int;
    let ea = all_entries(gran, ChartGroupMode::ByApp, start, end, us, offs, n);
    let ec = all_entries(gran, ChartGroupMode::ByCategory, start, end, us, offs, n);
    let xs = x.time_slots@;
    let ys = y.time_slots@;
    if gran == ChartTimeGranularity::Month {
        let a = slot_indices(xs);
        let b = slot_indices(ys);
        assert forall|i: int, j: int| 0 <= i < j < a.len() implies #[trigger] a[i] < #[trigger] a[j] by {
            assert(xs[i].index < xs[j].index);
        }
        assert forall|i: int, j: int| 0 <= i < j < b.len() implies #[trigger] b[i] < #[trigger] b[j] by {
            assert(ys[i].index < ys[j].index);
        }
        assert forall|i: int| 0 <= i < a.len() implies b.contains(#[trigger] a[i]) by {
            let w = xs[i].index as int;
            assert(w < 6 && slot_used(ea, w));
            lemma_group_modes_agree(gran, start, end, us, offs, w, "未分类"@);
            assert(slot_used(ec, w));
            let j = choose|j: int| 0 <= j < ys.len() && #[trigger] ys[j].index == w;
            assert(b[j] == a[i]);
        }
        assert forall|i: int| 0 <= i < b.len() implies a.contains(#[trigger] b[i]) by {
            let w = ys[i].index as int;
            assert(w < 6 && slot_used(ec, w));
            lemma_group_modes_agree(gran, start, end, us, offs, w, "未分类"@);
            assert(slot_used(ea, w));
            let j = choose|j: int| 0 <= j < xs.len() && #[trigger] xs[j].index == w;
            assert(a[j] == b[i]);
        }
        lemma_same_listing(a, b);
        assert forall|t: int| 0 <= t < xs.len() implies (#[trigger] xs[t]).index == ys[t].index
            && xs[t].total_seconds == ys[t].total_seconds by {
            assert(a[t] == b[t]);
            let w = xs[t].index as int;
            assert(slot_matches(xs[t], gran, ea, w));
            assert(slot_matches(ys[t], gran, ec, ys[t].index as int));
            lemma_group_modes_agree(gran, start, end, us, offs, w, "未分类"@);
        }
        assert forall|t: int, g: Seq<char>|
            0 <= t < ys.len() && #[trigger] has_group(ys[t].group_durations@, g) implies g == "未分类"@ by {
            let w = ys[t].index as int;
            assert(slot_matches(ys[t], gran, ec, w));
            lemma_group_modes_agree(gran, start, end, us, offs, w, g);
        }
    } else {
        assert forall|t: int| 0 <= t < xs.len() implies (#[trigger] xs[t]).index == ys[t].index
            && xs[t].total_seconds == ys[t].total_seconds by {
            assert(slot_matches(xs[t], gran, ea, t));
            assert(slot_matches(ys[t], gran, ec, t));
            lemma_group_modes_agree(gran, start, end, us, offs, t, "未分类"@);
        }
        assert forall|t: int, g: Seq<char>|
            0 <= t < ys.len() && #[trigger] has_group(ys[t].group_durations@, g) implies g == "未分类"@ by {
            assert(slot_matches(ys[t], gran, ec, t));
            lemma_group_modes_agree(gran, start, end, us, offs, t, g);
        }
    }
}

proof fn lemma_slot_totals_match(slots: Seq<ChartTimeSlot>, gran: ChartTimeGranularity, es: Seq<EntryModel>, n: int)
    requires
        0 <= n <= slots.len(),
        forall|s: int| 0 <= s < slots.len() ==> slot_matches(#[trigger] slots[s], gran, es, s),
    ensures
        slot_totals(slots, n) == slots_total_upto(es, n),
    decreases n,
{
    if n > 0 {
        lemma_slot_totals_match(slots, gran, es, n - 1);
        assert(slot_matches(slots[n - 1], gran, es, n - 1));
    }
}

/// The label of slot `s` of a granularity (for a month, `s` is the week index).
pub open spec fn slot_label(gran: ChartTimeGranularity, s: int) -> Seq<char> {
    match gran {
        ChartTimeGranularity::Day => decimal(s as nat) + "h"@,
        ChartTimeGranularity::Hour => decimal(s as nat) + "m"@,
        ChartTimeGranularity::Week => weekday_label(s),
        ChartTimeGranularity::Year => decimal((s + 1) as nat) + "月"@,
        ChartTimeGranularity::Month => "第"@ + decimal((s + 1) as nat) + "周"@,
    }
}

/// The label of a weekday, counted from Monday as 0.
pub open spec fn weekday_label(s: int) -> Seq<char> {
    if s == 0 {
        "周一"@
    } else if s == 1 {
        "周二"@
    } else if s == 2 {
        "周三"@
    } else if s == 3 {
        "周四"@
    } else if s == 4 {
        "周五"@
    } else if s == 5 {
        "周六"@
    } else {
        "周日"@
    }
}

/// Whether `slot` is slot `s` of the chart the entries make.
pub open spec fn slot_matches(
    slot: ChartTimeSlot,
    gran: ChartTimeGranularity,
    es: Seq<EntryModel>,
    s: int,
) -> bool {
    &&& slot.wf()
    &&& slot.index == s
    &&& slot.label@ == slot_label(gran, s)
    &&& slot.total_seconds == slot_total(es, s)
    &&& sum_seconds(slot.group_durations@) == slot.total_seconds
    &&& forall|g: Seq<char>| #[trigger] slot.seconds_of(g) == bucket(es, s, g)
    &&& forall|g: Seq<char>| #[trigger] has_group(slot.group_durations@, g) == bucket_used(es, s, g)
}

/// Whether `d` is the chart of granularity `gran` and mode `mode` that the
/// entries make, with total `total`: a slot for each hour, minute, weekday or
/// month; for a month, a slot for each week that some entry falls into, in order.
pub open spec fn chart_of(
    d: ChartData,
    gran: ChartTimeGranularity,
    mode: ChartGroupMode,
    es: Seq<EntryModel>,
    total: int,
) -> bool {
    &&& d.granularity == gran
    &&& d.group_mode == mode
    &&& d.total_seconds == total
    &&& if gran == ChartTimeGranularity::Month {
        &&& forall|t: int|
            0 <= t < d.time_slots@.len() ==> {
                let w = #[trigger] d.time_slots@[t].index as int;
                w < 6 && slot_used(es, w) && slot_matches(d.time_slots@[t], gran, es, w)
            }
        &&& forall|t1: int, t2: int|
            0 <= t1 < t2 < d.time_slots@.len() ==> #[trigger] d.time_slots@[t1].index
                < #[trigger] d.time_slots@[t2].index
        &&& forall|w: int|
            0 <= w < 6 && #[trigger] slot_used(es, w) ==> exists|t: int|
                0 <= t < d.time_slots@.len() && #[trigger] d.time_slots@[t].index == w
    } else {
        &&& d.time_slots@.len() == gran.spec_slot_count()
        &&& forall|s: int|
            0 <= s < d.time_slots@.len() ==> slot_matches(#[trigger] d.time_slots@[s], gran, es, s)
    }
}

/// The entries, as the mathematical values they stand for.
pub open spec fn entries_view(v: Seq<(String, usize, i64)>) -> Seq<EntryModel> {
    v.map_values(|e: (String, usize, i64)| (e.0@, e.1 as int, e.2 as int))
}

/// Whether `offs` holds a local offset for each event of each application,
/// each in the range `chrono` gives.
pub open spec fn offsets_for(us: Seq<AppUsage>, offs: Seq<Vec<Option<i32>>>) -> bool {
    &&& offs.len() == us.len()
    &&& forall|i: int| 0 <= i < us.len() ==> #[trigger] offs[i]@.len() == us[i].window_events@.len()
    &&& forall|i: int, j: int|
        0 <= i < us.len() && 0 <= j < us[i].window_events@.len() ==> offset_fits(
            #[trigger] offs[i]@[j],
            us[i].window_events@[j].timestamp,
        )
}

proof fn lemma_bucket_bound(es: Seq<EntryModel>, s: int, g: Seq<char>)
    ensures
        -entries_abs(es) <= bucket(es, s, g) <= entries_abs(es),
        -entries_abs(es) <= slot_total(es, s) <= entries_abs(es),
        0 <= entries_abs(es),
    decreases es.len(),
{
    if es.len() > 0 {
        lemma_bucket_bound(es.drop_last(), s, g);
    }
}

proof fn lemma_abs_take(es: Seq<EntryModel>, k: int)
    requires
        0 <= k <= es.len(),
    ensures
        entries_abs(es.take(k)) <= entries_abs(es),
    decreases es.len(),
{
    if k < es.len() {
        assert(es.drop_last().take(k) =~= es.take(k));
        lemma_abs_take(es.drop_last(), k);
        lemma_bucket_bound(es.drop_last(), 0, Seq::empty());
    } else {
        assert(es.take(k) =~= es);
    }
}

proof fn lemma_abs_concat(a: Seq<EntryModel>, b: Seq<EntryModel>)
    ensures
        entries_abs(a + b) == entries_abs(a) + entries_abs(b),
    decreases b.len(),
{
    if b.len() > 0 {
        assert((a + b).drop_last() =~= a + b.drop_last());
        lemma_abs_concat(a, b.drop_last());
    } else {
        assert(a + b =~= a);
    }
}

proof fn lemma_usage_entries_abs(
    gran: ChartTimeGranularity,
    mode: ChartGroupMode,
    start: i64,
    end: i64,
    u: AppUsage,
    offs: Seq<Option<i32>>,
    j: int,
)
    requires
        0 <= j <= u.window_events@.len(),
    ensures
        entries_abs(usage_entries(gran, mode, start, end, u, offs, j)) <= events_abs(
            u.window_events@,
            j,
        ),
    decreases j,
{
    if j > 0 {
        lemma_usage_entries_abs(gran, mode, start, end, u, offs, j - 1);
        let prev = usage_entries(gran, mode, start, end, u, offs, j - 1);
        match entry_of(gran, mode, start, end, u.app_name@, u.window_events@[j - 1], offs[j - 1]) {
            Some(x) => {
                assert(prev.push(x).drop_last() =~= prev);
            },
            None => {},
        }
        assert(events_abs(u.window_events@, j) >= events_abs(u.window_events@, j - 1));
    }
}

pub(crate) proof fn lemma_all_entries_abs(
    gran: ChartTimeGranularity,
    mode: ChartGroupMode,
    start: i64,
    end: i64,
    us: Seq<AppUsage>,
    offs: Seq<Vec<Option<i32>>>,
    i: int,
)
    requires
        0 <= i <= us.len(),
    ensures
        entries_abs(all_entries(gran, mode, start, end, us, offs, i)) <= usages_abs(us, i),
    decreases i,
{
    if i > 0 {
        lemma_all_entries_abs(gran, mode, start, end, us, offs, i - 1);
        let u = us[i - 1];
        let m = u.window_events@.len() as int;
        lemma_abs_concat(
            all_entries(gran, mode, start, end, us, offs, i - 1),
            usage_entries(gran, mode, start, end, u, offs[i - 1]@, m),
        );
        lemma_usage_entries_abs(gran, mode, start, end, u, offs[i - 1]@, m);
    }
}

/// The group an application's time counts for.
fn group_name(mode: ChartGroupMode, app: &String) -> (g: String)
    ensures
        g@ == group_of(mode, app@),
{
    match mode {
        ChartGroupMode::ByApp => app.clone(),
        ChartGroupMode::ByCategory => string_of("未分类"),
    }
}

/// The slot an instant falls into, given the local offset.
fn slot_for(gran: ChartTimeGranularity, ts: i64, off: Option<i32>) -> (r: Option<usize>)
    requires
        offset_fits(off, ts),
    ensures
        match r {
            Some(x) => event_slot(gran, ts, off) == Some(x as int) && x < gran.spec_slot_count(),
            None => event_slot(gran, ts, off) is None,
        },
{
    match off {
        None => None,
        Some(o) => {
            let p = local_parts(ts, o);
            match gran {
                ChartTimeGranularity::Day => Some(p.hour as usize),
                ChartTimeGranularity::Hour => Some(p.minute as usize),
                ChartTimeGranularity::Week => Some(p.weekday as usize),
                _ => {
                    if p.days_ce < i32::MIN as i64 || p.days_ce > i32::MAX as i64 {
                        return None;
                    }
                    match date_of_day_number(p.days_ce as i32) {
                        None => None,
                        Some((_y, m, d)) => {
                            if gran == ChartTimeGranularity::Year {
                                if 1 <= m && m <= 12 {
                                    Some((m - 1) as usize)
                                } else {
                                    None
                                }
                            } else if d >= 1 && (d - 1) / 7 < 6 {
                                Some(((d - 1) / 7) as usize)
                            } else {
                                None
                            }
                        },
                    }
                },
            }
        },
    }
}

/// The label of slot `s`.
pub(crate) fn make_label(gran: ChartTimeGranularity, s: usize) -> (l: String)
    requires
        s < gran.spec_slot_count(),
    ensures
        l@ == slot_label(gran, s as int),
{
    let mut l = String::new();
    match gran {
        ChartTimeGranularity::Day => {
            push_decimal(&mut l, s as u64);
            push_str(&mut l, "h");
        },
        ChartTimeGranularity::Hour => {
            push_decimal(&mut l, s as u64);
            push_str(&mut l, "m");
        },
        ChartTimeGranularity::Year => {
            push_decimal(&mut l, (s + 1) as u64);
            push_str(&mut l, "月");
        },
        ChartTimeGranularity::Month => {
            push_str(&mut l, "第");
            push_decimal(&mut l, (s + 1) as u64);
            push_str(&mut l, "周");
        },
        ChartTimeGranularity::Week => {
            let t = if s == 0 {
                "周一"
            } else if s == 1 {
                "周二"
            } else if s == 2 {
                "周三"
            } else if s == 3 {
                "周四"
            } else if s == 4 {
                "周五"
            } else if s == 5 {
                "周六"
            } else {
                "周日"
            };
            push_str(&mut l, t);
        },
    }
    assert(Seq::<char>::empty() + slot_label(gran, s as int) == slot_label(gran, s as int));
    l
}

/// Builds chart data from application usage.
pub struct ChartDataBuilder<'a> {
    app_usage: &'a [AppUsage],
    start: i64,
    end: i64,
    granularity: ChartTimeGranularity,
    group_mode: ChartGroupMode,
}

impl<'a> ChartDataBuilder<'a> {
    /// The usage the chart is built from.
    pub closed spec fn usage(&self) -> Seq<AppUsage> {
        self.app_usage@
    }

    /// The start of the time range, in seconds since the epoch.
    pub closed spec fn range_start(&self) -> i64 {
        self.start
    }

    /// The end of the time range, in seconds since the epoch.
    pub closed spec fn range_end(&self) -> i64 {
        self.end
    }

    /// The granularity of the chart.
    pub closed spec fn spec_granularity(&self) -> ChartTimeGranularity {
        self.granularity
    }

    /// The group mode of the chart.
    pub closed spec fn spec_group_mode(&self) -> ChartGroupMode {
        self.group_mode
    }

    /// The entries the chart is made of, given a local offset for each event.
    pub open spec fn entries(&self, offs: Seq<Vec<Option<i32>>>) -> Seq<EntryModel> {
        all_entries(
            self.spec_granularity(),
            self.spec_group_mode(),
            self.range_start(),
            self.range_end(),
            self.usage(),
            offs,
            self.usage().len() as int,
        )
    }

    /// A builder for hourly slots by application, over all of `app_usage`.
    pub closed spec fn new_spec(app_usage: &'a [AppUsage]) -> Self {
        ChartDataBuilder {
            app_usage,
            start: 0,
            end: 0,
            granularity: ChartTimeGranularity::Day,
            group_mode: ChartGroupMode::ByApp,
        }
    }

    /// A builder for hourly slots by application, over all of `app_usage`.
    pub fn new(app_usage: &'a [AppUsage]) -> (b: Self)
        ensures
            b == Self::new_spec(app_usage),
            b.usage() == app_usage@,
            b.range_start() == 0,
            b.range_end() == 0,
            b.spec_granularity() == ChartTimeGranularity::Day,
            b.spec_group_mode() == ChartGroupMode::ByApp,
    {
        ChartDataBuilder {
            app_usage,
            start: 0,
            end: 0,
            granularity: ChartTimeGranularity::Day,
            group_mode: ChartGroupMode::ByApp,
        }
    }

    /// Restricts the chart to the events from `start` (inclusive) to `end`
    /// (exclusive), in seconds since the epoch; ignored unless both are after
    /// the epoch and `start` is before `end`.
    pub fn with_time_range(self, start: i64, end: i64) -> (b: Self)
        ensures
            b.usage() == self.usage(),
            b.range_start() == start,
            b.range_end() == end,
            b.spec_granularity() == self.spec_granularity(),
            b.spec_group_mode() == self.spec_group_mode(),
    {
        ChartDataBuilder { start, end, ..self }
    }

    /// Sets the granularity.
    pub fn with_granularity(self, granularity: ChartTimeGranularity) -> (b: Self)
        ensures
            b.usage() == self.usage(),
            b.range_start() == self.range_start(),
            b.range_end() == self.range_end(),
            b.spec_granularity() == granularity,
            b.spec_group_mode() == self.spec_group_mode(),
    {
        ChartDataBuilder { granularity, ..self }
    }

    /// Sets the group mode.
    pub fn with_group_mode(self, mode: ChartGroupMode) -> (b: Self)
        ensures
            b.usage() == self.usage(),
            b.range_start() == self.range_start(),
            b.range_end() == self.range_end(),
            b.spec_granularity() == self.spec_granularity(),
            b.spec_group_mode() == mode,
    {
        ChartDataBuilder { group_mode: mode, ..self }
    }

    /// Whether the time range filters events.
    fn should_filter_by_time_range(&self) -> (b: bool)
        ensures
            b == filters_by_range(self.start, self.end),
    {
        self.start > 0 && self.end > 0 && self.start < self.end
    }

    /// Whether an event at `ts` counts.
    fn is_event_in_range(&self, ts: i64) -> (b: bool)
        ensures
            b == in_time_range(self.start, self.end, ts),
    {
        if !self.should_filter_by_time_range() {
            return true;
        }
        ts >= self.start && ts < self.end
    }

    /// The entries of all events, given their local offsets.
    pub(crate) fn collect_entries(&self, offs: &Vec<Vec<Option<i32>>>) -> (v: Vec<(String, usize, i64)>)
        requires
            offsets_for(self.usage(), offs@),
        ensures
            entries_view(v@) == self.entries(offs@),
            forall|k: int| 0 <= k < v@.len() ==> #[trigger] v@[k].1 < self.spec_granularity().spec_slot_count(),
    {
        let ghost us = self.app_usage@;
        let ghost gran = self.granularity;
        let ghost mode = self.group_mode;
        let mut v: Vec<(String, usize, i64)> = Vec::new();
        let n = self.app_usage.len();
        let mut i: usize = 0;
        while i < n
            invariant
                n == us.len(),
                us == self.app_usage@,
                gran == self.granularity,
                mode == self.group_mode,
                offsets_for(us, offs@),
                i <= n,
                entries_view(v@) == all_entries(gran, mode, self.start, self.end, us, offs@, i as int),
                forall|k: int| 0 <= k < v@.len() ==> #[trigger] v@[k].1 < gran.spec_slot_count(),
            decreases n - i,
        {
            let u = &self.app_usage[i];
            let named = !u.app_name.as_str().is_empty();
            let m = u.window_events.len();
            let ghost before = entries_view(v@);
            let mut j: usize = 0;
            while j < m
                invariant
                    n == us.len(),
                    i < n,
                    *u == us[i as int],
                    m == u.window_events@.len(),
                    named == (u.app_name@.len() > 0),
                    gran == self.granularity,
                    mode == self.group_mode,
                    offsets_for(us, offs@),
                    j <= m,
                    entries_view(v@) == before + usage_entries(
                        gran,
                        mode,
                        self.start,
                        self.end,
                        *u,
                        offs@[i as int]@,
                        j as int,
                    ),
                    forall|k: int| 0 <= k < v@.len() ==> #[trigger] v@[k].1 < gran.spec_slot_count(),
                decreases m - j,
            {
                let e = &u.window_events[j];
                let ghost prev = usage_entries(gran, mode, self.start, self.end, *u, offs@[i as int]@, j as int);
                if named && !e.is_afk && self.is_event_in_range(e.timestamp) {
                    match slot_for(self.granularity, e.timestamp, offs[i][j]) {
                        Some(slot) => {
                            let g = group_name(self.group_mode, &u.app_name);
                            let ghost v0 = v@;
                            let x = (g, slot, e.duration_secs);
                            v.push(x);
                            proof {
                                assert(entries_view(v@) =~= entries_view(v0).push(
                                    (x.0@, x.1 as int, x.2 as int),
                                ));
                                assert(before + prev.push((x.0@, x.1 as int, x.2 as int)) =~= (before
                                    + prev).push((x.0@, x.1 as int, x.2 as int)));
                            }
                        },
                        None => {},
                    }
                }
                j = j + 1;
            }
            proof {
                assert(us[i as int] == *u);
            }
            i = i + 1;
        }
        v
    }

    /// The chart, given a local offset for each event (for events whose local
    /// time is unknown, `None`).
    pub fn build_with_offsets(self, offs: &Vec<Vec<Option<i32>>>) -> (d: ChartData)
        requires
            offsets_for(self.usage(), offs@),
            sums_fit(self.usage()),
        ensures
            chart_of(
                d,
                self.spec_granularity(),
                self.spec_group_mode(),
                self.entries(offs@),
                usages_total(self.usage(), self.usage().len() as int),
            ),
            entries_in_slots(self.entries(offs@), self.spec_granularity().spec_slot_count() as int),
    {
        let gran = self.granularity;
        let v = self.collect_entries(offs);
        let ghost es = entries_view(v@);
        proof {
            assert forall|k: int| 0 <= k < es.len() implies 0 <= #[trigger] es[k].1 < gran.spec_slot_count() by {
                assert(es[k].1 == v@[k].1);
            }
            lemma_all_entries_abs(
                gran,
                self.group_mode,
                self.start,
                self.end,
                self.app_usage@,
                offs@,
                self.app_usage@.len() as int,
            );
        }
        let cnt = gran.slot_count();
        let mut slots: Vec<ChartTimeSlot> = Vec::new();
        let mut s: usize = 0;
        while s < cnt
            invariant
                cnt == gran.spec_slot_count(),
                s <= cnt,
                slots@.len() == s,
                forall|t: int| 0 <= t < s ==> slot_matches(#[trigger] slots@[t], gran, es.take(0), t),
            decreases cnt - s,
        {
            let slot = ChartTimeSlot::new(make_label(gran, s), s);
            slots.push(slot);
            s = s + 1;
        }
        fill_slots(&mut slots, gran, &v);
        let total = total_of(self.app_usage);
        if gran != ChartTimeGranularity::Month {
            return ChartData { time_slots: slots, total_seconds: total, granularity: gran, group_mode: self.group_mode };
        }
        let mut kept: Vec<ChartTimeSlot> = Vec::new();
        let mut w: usize = 0;
        while w < 6
            invariant
                gran == ChartTimeGranularity::Month,
                es == entries_view(v@),
                w <= 6,
                slots@.len() == 6 - w,
                forall|t: int| 0 <= t < slots@.len() ==> slot_matches(#[trigger] slots@[t], gran, es, t + w),
                forall|t: int|
                    0 <= t < kept@.len() ==> {
                        let x = #[trigger] kept@[t].index as int;
                        x < w && slot_used(es, x) && slot_matches(kept@[t], gran, es, x)
                    },
                forall|t1: int, t2: int|
                    0 <= t1 < t2 < kept@.len() ==> #[trigger] kept@[t1].index < #[trigger] kept@[t2].index,
                forall|x: int|
                    0 <= x < w && #[trigger] slot_used(es, x) ==> exists|t: int|
                        0 <= t < kept@.len() && #[trigger] kept@[t].index == x,
            decreases 6 - w,
        {
            let ghost s0 = slots@;
            let slot = slots.remove(0);
            proof {
                assert forall|t: int| 0 <= t < slots@.len() implies slot_matches(
                    #[trigger] slots@[t],
                    gran,
                    es,
                    t + w + 1,
                ) by {
                    assert(slots@[t] == s0[t + 1]);
                }
                assert(slot_matches(s0[0], gran, es, w as int));
            }
            let ghost k0 = kept@;
            assert(slot == s0[0]);
            if any_in_slot(&v, w) {
                kept.push(slot);
                proof {
                    assert(kept@[k0.len() as int] == slot);
                    assert(slot_used(es, w as int));
                    assert forall|t: int| 0 <= t < kept@.len() implies {
                        let x = #[trigger] kept@[t].index as int;
                        x < w + 1 && slot_used(es, x) && slot_matches(kept@[t], gran, es, x)
                    } by {
                        if t < k0.len() {
                            assert(kept@[t] == k0[t]);
                        }
                    }
                    assert forall|t1: int, t2: int|
                        0 <= t1 < t2 < kept@.len() implies #[trigger] kept@[t1].index
                            < #[trigger] kept@[t2].index by {
                        assert(kept@[t1] == k0[t1]);
                        if t2 < k0.len() {
                            assert(kept@[t2] == k0[t2]);
                        }
                    }
                    assert forall|x: int|
                        0 <= x < w + 1 && #[trigger] slot_used(es, x) implies exists|t: int|
                            0 <= t < kept@.len() && #[trigger] kept@[t].index == x by {
                        if x < w {
                            let t = choose|t: int| 0 <= t < k0.len() && #[trigger] k0[t].index == x;
                            assert(kept@[t].index == x);
                        } else {
                            assert(kept@[k0.len() as int].index == x);
                        }
                    }
                }
            } else {
                proof {
                    assert forall|x: int|
                        0 <= x < w + 1 && #[trigger] slot_used(es, x) implies exists|t: int|
                            0 <= t < kept@.len() && #[trigger] kept@[t].index == x by {
                        if x < w {
                            let t = choose|t: int| 0 <= t < k0.len() && #[trigger] k0[t].index == x;
                            assert(kept@[t].index == x);
                        }
                    }
                }
            }
            w = w + 1;
        }
        let d = ChartData { time_slots: kept, total_seconds: total, granularity: gran, group_mode: self.group_mode };
        proof {
            assert(es == self.entries(offs@));
            assert forall|t: int| 0 <= t < d.time_slots@.len() implies {
                let x = #[trigger] d.time_slots@[t].index as int;
                x < 6 && slot_used(es, x) && slot_matches(d.time_slots@[t], gran, es, x)
            } by {
                assert(d.time_slots@[t] == kept@[t]);
            }
        }
        d
    }

    /// The chart, with each event placed by its local time in the machine's
    /// time zone. Which offsets the time zone gives is not stated; the chart
    /// is the one [`Self::build_with_offsets`] makes of them.
    pub fn build(self) -> (d: ChartData)
        requires
            sums_fit(self.usage()),
        ensures
            exists|offs: Seq<Vec<Option<i32>>>|
                offsets_for(self.usage(), offs) && chart_of(
                    d,
                    self.spec_granularity(),
                    self.spec_group_mode(),
                    self.entries(offs),
                    usages_total(self.usage(), self.usage().len() as int),
                ) && entries_in_slots(self.entries(offs), self.spec_granularity().spec_slot_count() as int),
    {
        let offs = local_offsets(self.app_usage);
        let ghost us = self.app_usage@;
        let ghost o = offs@;
        let d = self.build_with_offsets(&offs);
        assert(offsets_for(us, o));
        d
    }
}

/// The local time zone's offset at each event of each application.
pub fn local_offsets(app_usage: &[AppUsage]) -> (offs: Vec<Vec<Option<i32>>>)
    ensures
        offsets_for(app_usage@, offs@),
{
    let ghost us = app_usage@;
    let n = app_usage.len();
    let mut offs: Vec<Vec<Option<i32>>> = Vec::new();
    let mut i: usize = 0;
    while i < n
        invariant
            n == us.len(),
            us == app_usage@,
            i <= n,
            offs@.len() == i,
            forall|a: int| 0 <= a < i ==> #[trigger] offs@[a]@.len() == us[a].window_events@.len(),
            forall|a: int, j: int|
                0 <= a < i && 0 <= j < us[a].window_events@.len() ==> offset_fits(
                    #[trigger] offs@[a]@[j],
                    us[a].window_events@[j].timestamp,
                ),
        decreases n - i,
    {
        let evs = &app_usage[i].window_events;
        let m = evs.len();
        let mut row: Vec<Option<i32>> = Vec::new();
        let mut j: usize = 0;
        while j < m
            invariant
                m == evs@.len(),
                j <= m,
                row@.len() == j,
                forall|b: int| 0 <= b < j ==> offset_fits(#[trigger] row@[b], evs@[b].timestamp),
            decreases m - j,
        {
            row.push(local_offset_at(evs[j].timestamp));
            j = j + 1;
        }
        let ghost o0 = offs@;
        offs.push(row);
        proof {
            assert(us[i as int].window_events@ == evs@);
            assert forall|a: int, j: int|
                0 <= a < i + 1 && 0 <= j < us[a].window_events@.len() implies offset_fits(
                    #[trigger] offs@[a]@[j],
                    us[a].window_events@[j].timestamp,
                ) by {
                if a < i {
                    assert(offs@[a] == o0[a]);
                } else {
                    assert(offs@[a]@ == row@);
                }
            }
            assert forall|a: int| 0 <= a < i + 1 implies #[trigger] offs@[a]@.len() == us[a].window_events@.len() by {
                if a < i {
                    assert(offs@[a] == o0[a]);
                }
            }
        }
        i = i + 1;
    }
    offs
}

/// Whether some entry falls into slot `w`.
fn any_in_slot(v: &Vec<(String, usize, i64)>, w: usize) -> (b: bool)
    ensures
        b == slot_used(entries_view(v@), w as int),
{
    let mut k: usize = 0;
    while k < v.len()
        invariant
            k <= v@.len(),
            forall|j: int| 0 <= j < k ==> #[trigger] v@[j].1 != w,
        decreases v@.len() - k,
    {
        if v[k].1 == w {
            assert(entries_view(v@)[k as int].1 == w);
            return true;
        }
        k = k + 1;
    }
    proof {
        assert forall|j: int| 0 <= j < entries_view(v@).len() implies #[trigger] entries_view(v@)[j].1 != w by {
            assert(v@[j].1 != w);
        }
    }
    false
}

/// The sum of the applications' totals.
fn total_of(us: &[AppUsage]) -> (t: i64)
    requires
        totals_fit(us@),
    ensures
        t == usages_total(us@, us@.len() as int),
{
    let n = us.len();
    let mut t: i64 = 0;
    let mut i: usize = 0;
    while i < n
        invariant
            n == us@.len(),
            i <= n,
            t == usages_total(us@, i as int),
            totals_fit(us@),
        decreases n - i,
    {
        assert(i64::MIN <= usages_total(us@, i + 1) <= i64::MAX);
        t = t + us[i].total_seconds;
        i = i + 1;
    }
    t
}

/// Adds every entry to its slot.
pub(crate) fn fill_slots(slots: &mut Vec<ChartTimeSlot>, gran: ChartTimeGranularity, v: &Vec<(String, usize, i64)>)
    requires
        old(slots)@.len() == gran.spec_slot_count(),
        forall|t: int|
            0 <= t < old(slots)@.len() ==> slot_matches(
                #[trigger] old(slots)@[t],
                gran,
                entries_view(v@).take(0),
                t,
            ),
        forall|k: int| 0 <= k < v@.len() ==> #[trigger] v@[k].1 < gran.spec_slot_count(),
        entries_abs(entries_view(v@)) <= i64::MAX,
    ensures
        final(slots)@.len() == gran.spec_slot_count(),
        forall|t: int|
            0 <= t < final(slots)@.len() ==> slot_matches(#[trigger] final(slots)@[t], gran, entries_view(v@), t),
{
    let ghost es = entries_view(v@);
    let n = v.len();
    let mut k: usize = 0;
    while k < n
        invariant
            n == v@.len(),
            es == entries_view(v@),
            k <= n,
            slots@.len() == gran.spec_slot_count(),
            forall|j: int| 0 <= j < v@.len() ==> #[trigger] v@[j].1 < gran.spec_slot_count(),
            entries_abs(es) <= i64::MAX,
            forall|t: int| 0 <= t < slots@.len() ==> slot_matches(#[trigger] slots@[t], gran, es.take(k as int), t),
        decreases n - k,
    {
        let idx = v[k].1;
        let ghost pre = es.take(k as int);
        let ghost post = es.take(k + 1);
        proof {
            assert(post.drop_last() =~= pre);
            assert(post.last() == es[k as int]);
            lemma_abs_take(es, k + 1);
            lemma_bucket_bound(post, idx as int, v@[k as int].0@);
        }
        let ghost s0 = slots@;
        let mut slot = slots.remove(idx);
        assert(slot == s0[idx as int]);
        slot.add_group(v[k].0.clone(), v[k].2);
        slots.insert(idx, slot);
        proof {
            assert forall|t: int| 0 <= t < slots@.len() implies slot_matches(
                #[trigger] slots@[t],
                gran,
                post,
                t,
            ) by {
                if t == idx {
                    assert forall|g: Seq<char>| #[trigger] slots@[t].seconds_of(g) == bucket(post, t, g) by {
                        assert(slots@[t].seconds_of(g) == s0[t].seconds_of(g) + if g == v@[k as int].0@ {
                            v@[k as int].2 as int
                        } else {
                            0
                        });
                    }
                    assert forall|g: Seq<char>| #[trigger] has_group(slots@[t].group_durations@, g)
                        == bucket_used(post, t, g) by {
                        assert(has_group(slots@[t].group_durations@, g) == (has_group(
                            s0[t].group_durations@,
                            g,
                        ) || g == v@[k as int].0@));
                        assert(has_group(s0[t].group_durations@, g) == bucket_used(pre, t, g));
                    }
                } else {
                    assert(slots@[t] == s0[t]);
                    assert forall|g: Seq<char>| #[trigger] slots@[t].seconds_of(g) == bucket(post, t, g) by {
                        assert(slots@[t].seconds_of(g) == s0[t].seconds_of(g));
                    }
                    assert forall|g: Seq<char>| #[trigger] has_group(slots@[t].group_durations@, g)
                        == bucket_used(post, t, g) by {
                        assert(has_group(s0[t].group_durations@, g) == bucket_used(pre, t, g));
                    }
                }
            }
        }
        k = k + 1;
    }
    proof {
        assert(es.take(n as int) =~= es);
    }
}

/// The colour a list of `(name, colour)` entries gives `g`: that of its last entry.
pub open spec fn color_lookup(v: Seq<(String, Color)>, g: Seq<char>) -> Option<Color>
    decreases v.len(),
{
    if v.len() == 0 {
        None
    } else if v.last().0@ == g {
        Some(v.last().1)
    } else {
        color_lookup(v.drop_last(), g)
    }
}

/// Whether no name has two entries.
pub open spec fn color_keys_distinct(v: Seq<(String, Color)>) -> bool {
    forall|i: int, j: int| 0 <= i < j < v.len() ==> #[trigger] v[i].0@ != #[trigger] v[j].0@
}

proof fn lemma_color_lookup_update(v: Seq<(String, Color)>, i: int, e: (String, Color), g: Seq<char>)
    requires
        color_keys_distinct(v),
        0 <= i < v.len(),
        e.0@ == v[i].0@,
    ensures
        color_lookup(v.update(i, e), g) == if g == e.0@ {
            Some(e.1)
        } else {
            color_lookup(v, g)
        },
    decreases v.len(),
{
    let u = v.update(i, e);
    if i == v.len() - 1 {
        assert(u.drop_last() =~= v.drop_last());
        if g == e.0@ {
        } else {
        }
    } else {
        assert(u.drop_last() =~= v.drop_last().update(i, e));
        assert(color_keys_distinct(v.drop_last())) by {
            assert forall|a: int, b: int| 0 <= a < b < v.drop_last().len() implies #[trigger] v.drop_last()[a].0@
                != #[trigger] v.drop_last()[b].0@ by {
                assert(v[a].0@ != v[b].0@);
            }
        }
        assert(v.last().0@ != v[i].0@);
        lemma_color_lookup_update(v.drop_last(), i, e, g);
    }
}

proof fn lemma_color_lookup_absent(v: Seq<(String, Color)>, g: Seq<char>)
    requires
        forall|k: int| 0 <= k < v.len() ==> #[trigger] v[k].0@ != g,
    ensures
        color_lookup(v, g) is None,
    decreases v.len(),
{
    if v.len() > 0 {
        assert(v.last().0@ != g);
        lemma_color_lookup_absent(v.drop_last(), g);
    }
}

/// Sets the colour of `k` in a list of `(name, colour)` entries.
fn color_insert(v: &mut Vec<(String, Color)>, k: String, c: Color)
    requires
        color_keys_distinct(old(v)@),
    ensures
        color_keys_distinct(final(v)@),
        forall|g: Seq<char>| #[trigger] color_lookup(final(v)@, g) == if g == k@ {
            Some(c)
        } else {
            color_lookup(old(v)@, g)
        },
{
    let ghost v0 = v@;
    let n = v.len();
    let mut i: usize = 0;
    while i < n && !(v[i].0 == k)
        invariant
            n == v@.len(),
            v@ == v0,
            i <= n,
            forall|j: int| 0 <= j < i ==> #[trigger] v0[j].0@ != k@,
        decreases n - i,
    {
        i = i + 1;
    }
    let ghost kv = k@;
    if i < n {
        let e = (k, c);
        v.set(i, e);
        proof {
            assert forall|g: Seq<char>| #[trigger] color_lookup(v@, g) == if g == kv {
                Some(c)
            } else {
                color_lookup(v0, g)
            } by {
                lemma_color_lookup_update(v0, i as int, e, g);
            }
            assert forall|a: int, b: int| 0 <= a < b < v@.len() implies #[trigger] v@[a].0@
                != #[trigger] v@[b].0@ by {
                assert(v0[a].0@ != v0[b].0@);
            }
        }
    } else {
        v.push((k, c));
        proof {
            assert(v@.drop_last() =~= v0);
            assert forall|a: int, b: int| 0 <= a < b < v@.len() implies #[trigger] v@[a].0@
                != #[trigger] v@[b].0@ by {
                if b < n {
                    assert(v0[a].0@ != v0[b].0@);
                } else {
                    assert(v0[a].0@ != kv);
                }
            }
        }
    }
}

/// Colours for chart groups: fixed colours for the usual categories, and a
/// palette for other groups.
#[derive(Debug, Clone)]
pub struct CategoryColorMap {
    colors: Vec<(String, Color)>,
    default_colors: Vec<Color>,
    other_color: Color,
}

/// The colour of a category in the default map.
pub open spec fn default_category_color(g: Seq<char>) -> Option<Color> {
    if g == "未分类"@ {
        Some(Color { r: 150, g: 150, b: 150, a: 255 })
    } else if g == "学习"@ {
        Some(Color { r: 255, g: 205, b: 86, a: 255 })
    } else if g == "社交"@ {
        Some(Color { r: 155, g: 89, b: 182, a: 255 })
    } else if g == "娱乐"@ {
        Some(Color { r: 255, g: 99, b: 71, a: 255 })
    } else if g == "开发"@ {
        Some(Color { r: 52, g: 168, b: 83, a: 255 })
    } else if g == "工作"@ {
        Some(Color { r: 74, g: 144, b: 226, a: 255 })
    } else {
        None
    }
}

/// The default palette for groups without a colour of their own.
pub open spec fn default_palette() -> Seq<Color> {
    seq![
        Color { r: 74, g: 144, b: 226, a: 255 },
        Color { r: 52, g: 168, b: 83, a: 255 },
        Color { r: 255, g: 205, b: 86, a: 255 },
        Color { r: 255, g: 99, b: 71, a: 255 },
        Color { r: 155, g: 89, b: 182, a: 255 },
        Color { r: 255, g: 152, b: 0, a: 255 },
        Color { r: 220, g: 57, b: 218, a: 255 },
        Color { r: 0, g: 200, b: 150, a: 255 },
    ]
}

impl CategoryColorMap {
    /// The colour of category `g`, if it has one.
    pub closed spec fn color_of(&self, g: Seq<char>) -> Option<Color> {
        color_lookup(self.colors@, g)
    }

    /// The palette.
    pub closed spec fn palette(&self) -> Seq<Color> {
        self.default_colors@
    }

    /// The colour for "other".
    pub closed spec fn spec_other_color(&self) -> Color {
        self.other_color
    }

    /// Internal consistency: one colour per category.
    pub closed spec fn wf(&self) -> bool {
        color_keys_distinct(self.colors@)
    }

    /// The colour group `groups[i]` gets: its own, or else the palette's colour
    /// at `i`, wrapping around (the "other" colour if the palette is empty).
    pub open spec fn color_for(&self, i: int, g: Seq<char>) -> Color {
        match self.color_of(g) {
            Some(c) => c,
            None => if self.palette().len() > 0 {
                self.palette()[i % self.palette().len() as int]
            } else {
                self.spec_other_color()
            },
        }
    }

    /// The map with the default colours.
    pub fn new() -> (m: Self)
        ensures
            m.wf(),
            forall|g: Seq<char>| #[trigger] m.color_of(g) == default_category_color(g),
            m.palette() == default_palette(),
            m.spec_other_color() == (Color { r: 150, g: 150, b: 150, a: 255 }),
    {
        let mut colors: Vec<(String, Color)> = Vec::new();
        let ghost c0 = colors@;
        color_insert(&mut colors, string_of("工作"), Color::from_rgb(74, 144, 226));
        let ghost c1 = colors@;
        color_insert(&mut colors, string_of("开发"), Color::from_rgb(52, 168, 83));
        let ghost c2 = colors@;
        color_insert(&mut colors, string_of("娱乐"), Color::from_rgb(255, 99, 71));
        let ghost c3 = colors@;
        color_insert(&mut colors, string_of("社交"), Color::from_rgb(155, 89, 182));
        let ghost c4 = colors@;
        color_insert(&mut colors, string_of("学习"), Color::from_rgb(255, 205, 86));
        let ghost c5 = colors@;
        color_insert(&mut colors, string_of("未分类"), Color::from_gray(150));
        let default_colors = vec![
            Color::from_rgb(74, 144, 226),
            Color::from_rgb(52, 168, 83),
            Color::from_rgb(255, 205, 86),
            Color::from_rgb(255, 99, 71),
            Color::from_rgb(155, 89, 182),
            Color::from_rgb(255, 152, 0),
            Color::from_rgb(220, 57, 218),
            Color::from_rgb(0, 200, 150),
        ];
        let m = CategoryColorMap { colors, default_colors, other_color: Color::from_gray(150) };
        proof {
            assert(m.palette() =~= default_palette());
            assert forall|g: Seq<char>| #[trigger] m.color_of(g) == default_category_color(g) by {
                lemma_color_lookup_absent(c0, g);
                assert(color_lookup(c1, g) == if g == "工作"@ { Some(Color { r: 74, g: 144, b: 226, a: 255 }) } else { color_lookup(c0, g) });
                assert(color_lookup(c2, g) == if g == "开发"@ { Some(Color { r: 52, g: 168, b: 83, a: 255 }) } else { color_lookup(c1, g) });
                assert(color_lookup(c3, g) == if g == "娱乐"@ { Some(Color { r: 255, g: 99, b: 71, a: 255 }) } else { color_lookup(c2, g) });
                assert(color_lookup(c4, g) == if g == "社交"@ { Some(Color { r: 155, g: 89, b: 182, a: 255 }) } else { color_lookup(c3, g) });
                assert(color_lookup(c5, g) == if g == "学习"@ { Some(Color { r: 255, g: 205, b: 86, a: 255 }) } else { color_lookup(c4, g) });
                assert(color_lookup(m.colors@, g) == if g == "未分类"@ { Some(Color { r: 150, g: 150, b: 150, a: 255 }) } else { color_lookup(c5, g) });
            }
        }
        m
    }

    /// Sets the colour of a category.
    pub fn insert(&mut self, category: String, color: Color)
        requires
            old(self).wf(),
        ensures
            final(self).wf(),
            forall|g: Seq<char>| #[trigger] final(self).color_of(g) == if g == category@ {
                Some(color)
            } else {
                old(self).color_of(g)
            },
            final(self).palette() == old(self).palette(),
            final(self).spec_other_color() == old(self).spec_other_color(),
    {
        color_insert(&mut self.colors, category, color);
    }

    /// The colour of a category, if it has one.
    pub fn get(&self, category: &str) -> (c: Option<Color>)
        requires
            self.wf(),
        ensures
            c == self.color_of(category@),
    {
        let cat = string_of(category);
        let n = self.colors.len();
        let mut i: usize = n;
        assert(self.colors@.take(n as int) =~= self.colors@);
        while i > 0
            invariant
                n == self.colors@.len(),
                i <= n,
                cat@ == category@,
                color_lookup(self.colors@, category@) == color_lookup(self.colors@.take(i as int), category@),
            decreases i,
        {
            assert(self.colors@.take(i as int).drop_last() =~= self.colors@.take(i - 1));
            assert(self.colors@.take(i as int).last() == self.colors@[i - 1]);
            if self.colors[i - 1].0 == cat {
                return Some(self.colors[i - 1].1);
            }
            i = i - 1;
        }
        None
    }

    /// The colour for "other".
    pub fn other_color(&self) -> (c: Color)
        ensures
            c == self.spec_other_color(),
    {
        self.other_color
    }

    /// A colour for each group: its own colour, or else the palette colour at
    /// its position. A group listed twice gets the colour of its last position.
    pub fn assign_colors(&self, groups: &[String]) -> (r: Vec<(String, Color)>)
        requires
            self.wf(),
        ensures
            color_keys_distinct(r@),
            forall|g: Seq<char>| #[trigger] color_lookup(r@, g) == self.assigned(groups@, groups@.len() as int, g),
    {
        let mut r: Vec<(String, Color)> = Vec::new();
        let n = groups.len();
        let mut i: usize = 0;
        while i < n
            invariant
                n == groups@.len(),
                i <= n,
                self.wf(),
                color_keys_distinct(r@),
                forall|g: Seq<char>| #[trigger] color_lookup(r@, g) == self.assigned(groups@, i as int, g),
            decreases n - i,
        {
            let g = &groups[i];
            let color = match self.get(g.as_str()) {
                Some(c) => c,
                None => {
                    let len = self.default_colors.len();
                    if len > 0 {
                        self.default_colors[i % len]
                    } else {
                        self.other_color
                    }
                },
            };
            color_insert(&mut r, g.clone(), color);
            i = i + 1;
        }
        r
    }

    /// The colour the first `k` groups give `g`, if any of them is `g`.
    pub open spec fn assigned(&self, groups: Seq<String>, k: int, g: Seq<char>) -> Option<Color>
        decreases k,
    {
        if k <= 0 {
            None
        } else if groups[k - 1]@ == g {
            Some(self.color_for(k - 1, g))
        } else {
            self.assigned(groups, k - 1, g)
        }
    }
}

impl Default for CategoryColorMap {
    fn default() -> (m: Self)
        ensures
            m.wf(),
            forall|g: Seq<char>| #[trigger] m.color_of(g) == default_category_color(g),
            m.palette() == default_palette(),
            m.spec_other_color() == (Color { r: 150, g: 150, b: 150, a: 255 }),
    {
        Self::new()
    }
}

/// The tooltip of a slot of a stacked bar chart.
pub struct StackedBarTooltip<'a> {
    /// The slot.
    pub slot: &'a ChartTimeSlot,
}

/// The most groups a tooltip lists.
pub const TOOLTIP_GROUPS: usize = 6;

impl<'a> StackedBarTooltip<'a> {
    /// The tooltip of `slot`.
    pub fn new(slot: &'a ChartTimeSlot) -> (t: Self)
        ensures
            t.slot == slot,
    {
        StackedBarTooltip { slot }
    }

    /// The groups the tooltip lists: the six with the most seconds, most first.
    pub fn rows(&self) -> (r: Vec<(String, i64)>)
        requires
            self.slot.wf(),
        ensures
            is_top(r@, self.slot.group_durations@, TOOLTIP_GROUPS as int),
    {
        self.slot.top_groups(TOOLTIP_GROUPS)
    }
}

} // verus!

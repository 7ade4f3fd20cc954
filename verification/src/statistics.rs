//! The application table of the statistics page: time away from the keyboard
//! left out, the longest-used application first.

use crate::models::{AppUsage, WindowEvent};
use vstd::prelude::*;

verus! {

/// Seconds of the first `j` events that were not spent away from the keyboard.
pub open spec fn non_afk_seconds(es: Seq<WindowEvent>, j: int) -> int
    decreases j,
{
    if j <= 0 {
        0
    } else {
        non_afk_seconds(es, j - 1) + if es[j - 1].is_afk {
            0
        } else {
            es[j - 1].duration_secs as int
        }
    }
}

/// Seconds of an application's events not spent away from the keyboard.
pub open spec fn app_non_afk(u: AppUsage) -> int {
    non_afk_seconds(u.window_events@, u.window_events@.len() as int)
}

/// Non-away seconds of the first `i` applications together.
pub open spec fn usages_non_afk(us: Seq<AppUsage>, i: int) -> int
    decreases i,
{
    if i <= 0 {
        0
    } else {
        usages_non_afk(us, i - 1) + app_non_afk(us[i - 1])
    }
}

/// Whether a value fits in an `i64`.
pub open spec fn fits_i64(x: int) -> bool {
    i64::MIN <= x <= i64::MAX
}

/// Whether every running sum the table takes fits in an `i64`: those over the
/// events of each application, and those over the applications.
pub open spec fn non_afk_sums_fit(us: Seq<AppUsage>) -> bool {
    &&& forall|i: int, j: int|
        0 <= i < us.len() && 0 <= j <= us[i].window_events@.len() ==> fits_i64(
            #[trigger] non_afk_seconds(us[i].window_events@, j),
        )
    &&& forall|i: int| 0 <= i <= us.len() ==> fits_i64(#[trigger] usages_non_afk(us, i))
}

/// The table's rows for the first `i` applications, in their order: each named
/// application with its non-away seconds.
pub open spec fn table_rows(us: Seq<AppUsage>, i: int) -> Seq<(Seq<char>, int)>
    decreases i,
{
    if i <= 0 {
        Seq::empty()
    } else if us[i - 1].app_name@.len() == 0 {
        table_rows(us, i - 1)
    } else {
        table_rows(us, i - 1).push((us[i - 1].app_name@, app_non_afk(us[i - 1])))
    }
}

/// Where a row of `t` seconds goes in `s`: before the first row with fewer
/// seconds, so that rows with equal seconds keep their order.
pub open spec fn row_position(s: Seq<(Seq<char>, int)>, t: int) -> int
    decreases s.len(),
{
    if s.len() == 0 {
        0
    } else if s[0].1 < t {
        0
    } else {
        1 + row_position(s.drop_first(), t)
    }
}

/// The rows with the most seconds first, rows with equal seconds in their
/// given order (a stable sort).
pub open spec fn longest_first(s: Seq<(Seq<char>, int)>) -> Seq<(Seq<char>, int)>
    decreases s.len(),
{
    if s.len() == 0 {
        Seq::empty()
    } else {
        let sorted = longest_first(s.drop_last());
        sorted.insert(row_position(sorted, s.last().1), s.last())
    }
}

/// Whether the rows go from the most seconds to the fewest.
pub open spec fn is_longest_first(s: Seq<(Seq<char>, int)>) -> bool {
    forall|i: int, j: int| 0 <= i < j < s.len() ==> #[trigger] s[i].1 >= #[trigger] s[j].1
}

/// The rows as names and seconds.
pub open spec fn rows_view(v: Seq<(String, i64)>) -> Seq<(Seq<char>, int)> {
    v.map_values(|r: (String, i64)| (r.0@, r.1 as int))
}

proof fn lemma_row_position(s: Seq<(Seq<char>, int)>, t: int)
    requires
        is_longest_first(s),
    ensures
        0 <= row_position(s, t) <= s.len(),
        forall|i: int| 0 <= i < row_position(s, t) ==> #[trigger] s[i].1 >= t,
        forall|i: int| row_position(s, t) <= i < s.len() ==> #[trigger] s[i].1 < t,
    decreases s.len(),
{
    if s.len() > 0 && s[0].1 >= t {
        let r = s.drop_first();
        assert(is_longest_first(r)) by {
            assert forall|i: int, j: int| 0 <= i < j < r.len() implies #[trigger] r[i].1
                >= #[trigger] r[j].1 by {
                assert(s[i + 1].1 >= s[j + 1].1);
            }
        }
        lemma_row_position(r, t);
        assert forall|i: int| 0 <= i < row_position(s, t) implies #[trigger] s[i].1 >= t by {
            if i > 0 {
                assert(s[i] == r[i - 1]);
            }
        }
        assert forall|i: int| row_position(s, t) <= i < s.len() implies #[trigger] s[i].1 < t by {
            assert(s[i] == r[i - 1]);
        }
    } else if s.len() > 0 {
        assert forall|i: int| 0 <= i < s.len() implies #[trigger] s[i].1 < t by {
            if i > 0 {
                assert(s[0].1 >= s[i].1);
            }
        }
    }
}

/// The stable sort puts the rows with the most seconds first and keeps every
/// row it was given, each as often as it was given.
pub proof fn lemma_longest_first_sorted(s: Seq<(Seq<char>, int)>)
    ensures
        is_longest_first(longest_first(s)),
        longest_first(s).to_multiset() == s.to_multiset(),
        longest_first(s).len() == s.len(),
    decreases s.len(),
{
    broadcast use vstd::seq_lib::group_to_multiset_ensures;

    if s.len() > 0 {
        let init = s.drop_last();
        lemma_longest_first_sorted(init);
        let sorted = longest_first(init);
        let x = s.last();
        let p = row_position(sorted, x.1);
        lemma_row_position(sorted, x.1);
        let r = sorted.insert(p, x);
        assert forall|i: int, j: int| 0 <= i < j < r.len() implies #[trigger] r[i].1
            >= #[trigger] r[j].1 by {
            if j < p {
                assert(r[i] == sorted[i] && r[j] == sorted[j]);
            } else if j == p {
                assert(r[i] == sorted[i]);
            } else if i < p {
                assert(r[i] == sorted[i] && r[j] == sorted[j - 1]);
            } else if i == p {
                assert(r[j] == sorted[j - 1]);
            } else {
                assert(r[i] == sorted[i - 1] && r[j] == sorted[j - 1]);
            }
        }
        assert(s =~= init.push(x));
        assert(r.to_multiset() == sorted.to_multiset().insert(x));
    }
}

/// The non-away seconds of one application's events.
fn events_non_afk(es: &Vec<WindowEvent>) -> (s: i64)
    requires
        forall|j: int| 0 <= j <= es@.len() ==> fits_i64(#[trigger] non_afk_seconds(es@, j)),
    ensures
        s == non_afk_seconds(es@, es@.len() as int),
{
    let mut s: i64 = 0;
    let mut j: usize = 0;
    while j < es.len()
        invariant
            j <= es@.len(),
            s == non_afk_seconds(es@, j as int),
            forall|k: int| 0 <= k <= es@.len() ==> fits_i64(#[trigger] non_afk_seconds(es@, k)),
        decreases es@.len() - j,
    {
        assert(fits_i64(non_afk_seconds(es@, j + 1)));
        if !es[j].is_afk {
            s = s + es[j].duration_secs;
        }
        j = j + 1;
    }
    s
}

/// The non-away seconds of all applications together: what the table's
/// shares are taken of.
pub fn non_afk_total(app_usage: &[AppUsage]) -> (total: i64)
    requires
        non_afk_sums_fit(app_usage@),
    ensures
        total == usages_non_afk(app_usage@, app_usage@.len() as int),
{
    let ghost us = app_usage@;
    let mut total: i64 = 0;
    let mut i: usize = 0;
    while i < app_usage.len()
        invariant
            us == app_usage@,
            i <= us.len(),
            non_afk_sums_fit(us),
            total == usages_non_afk(us, i as int),
        decreases us.len() - i,
    {
        let u = &app_usage[i];
        assert forall|j: int| 0 <= j <= u.window_events@.len() implies fits_i64(
            #[trigger] non_afk_seconds(u.window_events@, j),
        ) by {
            assert(fits_i64(non_afk_seconds(us[i as int].window_events@, j)));
        }
        let s = events_non_afk(&u.window_events);
        assert(fits_i64(usages_non_afk(us, i + 1)));
        total = total + s;
        i = i + 1;
    }
    total
}

/// The table's rows: each named application with its non-away seconds, the
/// most seconds first, rows with equal seconds in the order of `app_usage`.
pub fn app_table_rows(app_usage: &[AppUsage]) -> (rows: Vec<(String, i64)>)
    requires
        non_afk_sums_fit(app_usage@),
    ensures
        rows_view(rows@) == longest_first(table_rows(app_usage@, app_usage@.len() as int)),
{
    let ghost us = app_usage@;
    let mut rows: Vec<(String, i64)> = Vec::new();
    let mut i: usize = 0;
    while i < app_usage.len()
        invariant
            us == app_usage@,
            i <= us.len(),
            non_afk_sums_fit(us),
            rows_view(rows@) == longest_first(table_rows(us, i as int)),
        decreases us.len() - i,
    {
        let u = &app_usage[i];
        if u.app_name.as_str().is_empty() {
            assert(table_rows(us, i + 1) == table_rows(us, i as int));
        } else {
            assert forall|j: int| 0 <= j <= u.window_events@.len() implies fits_i64(
                #[trigger] non_afk_seconds(u.window_events@, j),
            ) by {
                assert(fits_i64(non_afk_seconds(us[i as int].window_events@, j)));
            }
            let secs = events_non_afk(&u.window_events);
            let ghost seen = table_rows(us, i as int);
            let ghost sorted = rows_view(rows@);
            let ghost x = (u.app_name@, secs as int);
            proof {
                lemma_longest_first_sorted(seen);
            }
            let mut p: usize = 0;
            assert(sorted.skip(0) =~= sorted);
            while p < rows.len() && !(rows[p].1 < secs)
                invariant
                    rows_view(rows@) == sorted,
                    p <= sorted.len(),
                    x.1 == secs,
                    row_position(sorted, x.1) == p + row_position(sorted.skip(p as int), x.1),
                decreases sorted.len() - p,
            {
                assert(sorted.skip(p as int).drop_first() =~= sorted.skip(p + 1));
                assert(sorted[p as int].1 == rows@[p as int].1);
                p = p + 1;
            }
            proof {
                if p < sorted.len() {
                    assert(sorted.skip(p as int)[0] == sorted[p as int]);
                    assert(sorted[p as int].1 == rows@[p as int].1);
                }
                assert(row_position(sorted, x.1) == p);
                assert(table_rows(us, i + 1) == seen.push(x));
                assert(seen.push(x).drop_last() =~= seen);
            }
            let name = u.app_name.clone();
            rows.insert(p, (name, secs));
            assert(rows_view(rows@) =~= sorted.insert(p as int, x));
        }
        i = i + 1;
    }
    rows
}

} // verus!

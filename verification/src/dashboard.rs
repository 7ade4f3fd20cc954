//! The dashboard's figures: total time, active applications, average per
//! application, productivity score.

use vstd::prelude::*;
use crate::models::AppUsage;
use crate::stores::named_count;

verus! {

/// The sum of the totals of the named applications among the first `i`.
pub open spec fn named_total(us: Seq<AppUsage>, i: int) -> int
    decreases i,
{
    if i <= 0 {
        0
    } else {
        named_total(us, i - 1) + if us[i - 1].app_name@.len() > 0 {
            us[i - 1].total_seconds as int
        } else {
            0
        }
    }
}

/// Whether every partial sum of the named applications' totals fits in an `i64`.
pub open spec fn named_totals_fit(us: Seq<AppUsage>) -> bool {
    forall|i: int| 0 <= i <= us.len() ==> i64::MIN <= #[trigger] named_total(us, i) <= i64::MAX
}

/// The dashboard's key figures.
#[derive(Debug, Clone, Copy, PartialEq, Eq, Structural)]
pub struct KpiFigures {
    /// Total seconds of the named applications.
    pub total_seconds: i64,
    /// The number of named applications.
    pub app_count: usize,
    /// Seconds per named application (truncated), 0 without any.
    pub avg_per_app: i64,
}

/// Division truncating toward zero, as Rust's `/` on integers.
pub open spec fn trunc_div(a: int, b: int) -> int {
    if a >= 0 {
        a / b
    } else {
        -((-a) / b)
    }
}

/// The dashboard's figures over the named applications of `app_usage`.
pub fn kpi_figures(app_usage: &[AppUsage]) -> (k: KpiFigures)
    requires
        named_totals_fit(app_usage@),
        app_usage@.len() <= i64::MAX,
    ensures
        k.total_seconds == named_total(app_usage@, app_usage@.len() as int),
        k.app_count == named_count(app_usage@, app_usage@.len() as int),
        k.avg_per_app == if k.app_count > 0 {
            trunc_div(k.total_seconds as int, k.app_count as int)
        } else {
            0
        },
{
    let n = app_usage.len();
    let mut total: i64 = 0;
    let mut count: usize = 0;
    let mut i: usize = 0;
    while i < n
        invariant
            n == app_usage@.len(),
            i <= n,
            named_totals_fit(app_usage@),
            total == named_total(app_usage@, i as int),
            count == named_count(app_usage@, i as int),
            count <= i,
        decreases n - i,
    {
        if !app_usage[i].app_name.as_str().is_empty() {
            assert(i64::MIN <= named_total(app_usage@, i + 1) <= i64::MAX);
            total = total + app_usage[i].total_seconds;
            count = count + 1;
        }
        i = i + 1;
    }
    let avg = if count > 0 {
        let c = count as i64;
        let a = total / c;
        assert(a == trunc_div(total as int, c as int));
        a
    } else {
        0
    };
    KpiFigures { total_seconds: total, app_count: count, avg_per_app: avg }
}

/// The productivity score: 0 without time; otherwise 50, plus 20 when the most
/// used application has more than half of the time, plus 15 for 5 to 15
/// applications or 5 for more, plus 15 for 4 to 10 whole hours; at most 100.
pub open spec fn spec_productivity_score(total_seconds: int, app_count: int, top_over_half: bool) -> int {
    if total_seconds == 0 {
        0
    } else {
        let s = 50 + (if top_over_half { 20int } else { 0 }) + (if 5 <= app_count <= 15 {
            15int
        } else if app_count > 15 {
            5
        } else {
            0
        }) + (if 4 <= trunc_div(total_seconds, 3600) <= 10 { 15int } else { 0 });
        if s < 100 { s } else { 100 }
    }
}

/// The productivity score of a day; `top_over_half` tells whether the most
/// used application has more than half of the total time.
pub fn productivity_score(total_seconds: i64, app_count: usize, top_over_half: bool) -> (s: u32)
    ensures
        s == spec_productivity_score(total_seconds as int, app_count as int, top_over_half),
        s <= 100,
{
    if total_seconds == 0 {
        return 0;
    }
    let mut score: u32 = 50;
    if top_over_half {
        score = score + 20;
    }
    if 5 <= app_count && app_count <= 15 {
        score = score + 15;
    } else if app_count > 15 {
        score = score + 5;
    }
    let hours = total_seconds / 3600;
    if 4 <= hours && hours <= 10 {
        score = score + 15;
    }
    if score < 100 {
        score
    } else {
        100
    }
}

/// The duration bonus is given for 4 to 10 whole hours and no other total:
/// with any other (non-zero) total the score is that of one hour; from 4
/// hours up to just under 11 it is that of one hour plus 15.
pub proof fn lemma_duration_bonus_band(total_seconds: int, app_count: int, top_over_half: bool)
    requires
        total_seconds != 0,
    ensures
        (total_seconds < 4 * 3600 || total_seconds >= 11 * 3600) ==> spec_productivity_score(
            total_seconds,
            app_count,
            top_over_half,
        ) == spec_productivity_score(3600, app_count, top_over_half),
        4 * 3600 <= total_seconds < 11 * 3600 ==> spec_productivity_score(total_seconds, app_count, top_over_half)
            == spec_productivity_score(3600, app_count, top_over_half) + 15,
{
    if total_seconds < 0 {
        assert((-total_seconds) / 3600 >= 0);
    }
}

/// How the other parts of the score add up: no time scores 0; one hour with
/// few applications and no dominant one scores 50; a dominant application
/// adds 20, 5 to 15 applications add 15 and more than 15 add 5, the score
/// never going over 100.
pub proof fn lemma_score_parts(total_seconds: int, app_count: int)
    requires
        total_seconds != 0,
    ensures
        spec_productivity_score(0, app_count, true) == 0,
        spec_productivity_score(3600, 0, false) == 50,
        ({
            let without = spec_productivity_score(total_seconds, app_count, false);
            let with = spec_productivity_score(total_seconds, app_count, true);
            with == if without + 20 < 100 {
                without + 20
            } else {
                100
            }
        }),
        ({
            let few = spec_productivity_score(total_seconds, 0, false);
            let s = spec_productivity_score(total_seconds, app_count, false);
            &&& app_count < 5 ==> s == few
            &&& 5 <= app_count <= 15 ==> s == few + 15
            &&& app_count > 15 ==> s == few + 5
        }),
{
}

} // verus!

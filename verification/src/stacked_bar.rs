//! Hourly usage for the dashboard's stacked bar chart, and the charts'
//! tooltips.

use vstd::prelude::*;
use crate::chart_data::{
    add_seconds, bucket, entries_view, fill_slots, group_seconds, has_group, is_top, keys_distinct,
    lemma_all_entries_abs, local_offsets, make_label, offsets_for, slot_matches, slot_total, sum_seconds, top_entries,
    usages_abs, ChartDataBuilder, ChartGroupMode, ChartTimeGranularity, ChartTimeSlot, EntryModel,
};
use crate::models::AppUsage;

verus! {

/// The usage of one hour.
#[derive(Debug, Clone)]
pub struct TimeSlotData {
    /// The hour, 0 to 23.
    pub hour: u32,
    /// Seconds per application, one entry per application.
    pub app_durations: Vec<(String, i64)>,
    /// The hour's total seconds.
    pub total_seconds: i64,
}

impl TimeSlotData {
    /// Each application has at most one entry.
    pub open spec fn wf(&self) -> bool {
        keys_distinct(self.app_durations@)
    }

    /// An empty hour.
    pub fn new(hour: u32) -> (s: Self)
        ensures
            s.wf(),
            s.hour == hour,
            s.app_durations@.len() == 0,
            s.total_seconds == 0,
    {
        TimeSlotData { hour, app_durations: Vec::new(), total_seconds: 0 }
    }

    /// Adds `seconds` to application `app_name` and to the hour's total.
    pub fn add_app(&mut self, app_name: String, seconds: i64)
        requires
            old(self).wf(),
            i64::MIN <= old(self).total_seconds + seconds <= i64::MAX,
            i64::MIN <= group_seconds(old(self).app_durations@, app_name@) + seconds <= i64::MAX,
        ensures
            final(self).wf(),
            final(self).hour == old(self).hour,
            final(self).total_seconds == old(self).total_seconds + seconds,
            forall|g: Seq<char>| #[trigger]
                group_seconds(final(self).app_durations@, g) == group_seconds(old(self).app_durations@, g)
                    + if g == app_name@ {
                    seconds as int
                } else {
                    0
                },
            sum_seconds(final(self).app_durations@) == sum_seconds(old(self).app_durations@) + seconds,
            forall|g: Seq<char>| #[trigger]
                has_group(final(self).app_durations@, g) == (has_group(old(self).app_durations@, g) || g
                    == app_name@),
    {
        self.total_seconds = self.total_seconds + seconds;
        add_seconds(&mut self.app_durations, app_name, seconds);
    }
}

/// Whether `slots` are the 24 hours the entries make.
pub open spec fn hours_of_entries(slots: Seq<TimeSlotData>, es: Seq<EntryModel>) -> bool {
    &&& slots.len() == 24
    &&& forall|h: int|
        0 <= h < 24 ==> {
            &&& (#[trigger] slots[h]).wf()
            &&& slots[h].hour == h
            &&& slots[h].total_seconds == slot_total(es, h)
            &&& sum_seconds(slots[h].app_durations@) == slots[h].total_seconds
            &&& forall|g: Seq<char>| #[trigger] group_seconds(slots[h].app_durations@, g) == bucket(es, h, g)
        }
}

/// The usage of each hour of the day by application, given a local offset for
/// each event: events of named applications, not away from the keyboard, by
/// the hour of their local time.
pub fn create_time_slots_with_offsets(app_usage: &[AppUsage], offs: &Vec<Vec<Option<i32>>>) -> (r: Vec<
    TimeSlotData,
>)
    requires
        offsets_for(app_usage@, offs@),
        usages_abs(app_usage@, app_usage@.len() as int) <= i64::MAX,
    ensures
        hours_of_entries(r@, ChartDataBuilder::new_spec(app_usage).entries(offs@)),
{
    let b = ChartDataBuilder::new(app_usage);
    let v = b.collect_entries(offs);
    let ghost es = entries_view(v@);
    proof {
        lemma_all_entries_abs(
            ChartTimeGranularity::Day,
            ChartGroupMode::ByApp,
            0,
            0,
            app_usage@,
            offs@,
            app_usage@.len() as int,
        );
    }
    let mut slots: Vec<ChartTimeSlot> = Vec::new();
    let mut s: usize = 0;
    while s < 24
        invariant
            s <= 24,
            slots@.len() == s,
            forall|t: int|
                0 <= t < s ==> slot_matches(#[trigger] slots@[t], ChartTimeGranularity::Day, es.take(0), t),
        decreases 24 - s,
    {
        slots.push(ChartTimeSlot::new(make_label(ChartTimeGranularity::Day, s), s));
        s = s + 1;
    }
    fill_slots(&mut slots, ChartTimeGranularity::Day, &v);
    let mut r: Vec<TimeSlotData> = Vec::new();
    let mut h: usize = 0;
    while h < 24
        invariant
            h <= 24,
            slots@.len() == 24 - h,
            forall|t: int|
                0 <= t < slots@.len() ==> slot_matches(#[trigger] slots@[t], ChartTimeGranularity::Day, es, t + h),
            r@.len() == h,
            forall|t: int|
                0 <= t < h ==> {
                    &&& (#[trigger] r@[t]).wf()
                    &&& r@[t].hour == t
                    &&& r@[t].total_seconds == slot_total(es, t)
                    &&& sum_seconds(r@[t].app_durations@) == r@[t].total_seconds
                    &&& forall|g: Seq<char>| #[trigger] group_seconds(r@[t].app_durations@, g) == bucket(es, t, g)
                },
        decreases 24 - h,
    {
        let ghost s0 = slots@;
        let slot = slots.remove(0);
        proof {
            assert(slot == s0[0]);
            assert(slot_matches(s0[0], ChartTimeGranularity::Day, es, h as int));
            assert forall|t: int| 0 <= t < slots@.len() implies slot_matches(
                #[trigger] slots@[t],
                ChartTimeGranularity::Day,
                es,
                t + h + 1,
            ) by {
                assert(slots@[t] == s0[t + 1]);
            }
        }
        let ghost sl = slot;
        let ghost r0 = r@;
        let ChartTimeSlot { label: _, index: _, group_durations, total_seconds } = slot;
        r.push(TimeSlotData { hour: h as u32, app_durations: group_durations, total_seconds });
        proof {
            assert forall|t: int| 0 <= t < h + 1 implies {
                &&& (#[trigger] r@[t]).wf()
                &&& r@[t].hour == t
                &&& r@[t].total_seconds == slot_total(es, t)
                &&& sum_seconds(r@[t].app_durations@) == r@[t].total_seconds
                &&& forall|g: Seq<char>| #[trigger] group_seconds(r@[t].app_durations@, g) == bucket(es, t, g)
            } by {
                if t < h {
                    assert(r@[t] == r0[t]);
                } else {
                    assert(r@[t].app_durations@ == sl.group_durations@);
                    assert forall|g: Seq<char>| #[trigger] group_seconds(r@[t].app_durations@, g) == bucket(es, t, g) by {
                        assert(sl.seconds_of(g) == bucket(es, t, g));
                    }
                }
            }
        }
        h = h + 1;
    }
    r
}

/// The usage of each hour of the day by application, each event placed by its
/// local time in the machine's time zone. Which offsets the time zone gives is
/// not stated; the hours are those [`create_time_slots_with_offsets`] makes of
/// them.
pub fn create_time_slots(app_usage: &[AppUsage]) -> (r: Vec<TimeSlotData>)
    requires
        usages_abs(app_usage@, app_usage@.len() as int) <= i64::MAX,
    ensures
        exists|offs: Seq<Vec<Option<i32>>>|
            offsets_for(app_usage@, offs) && hours_of_entries(
                r@,
                ChartDataBuilder::new_spec(app_usage).entries(offs),
            ),
{
    let offs = local_offsets(app_usage);
    let ghost o = offs@;
    let r = create_time_slots_with_offsets(app_usage, &offs);
    assert(offsets_for(app_usage@, o));
    r
}

/// The tooltip of an hour of the dashboard's chart: the hour, its total and
/// its applications.
pub struct StackedBarTooltip {
    /// The hour.
    pub hour: u32,
    /// The hour's total seconds.
    pub total_seconds: i64,
    /// The applications, most used first.
    pub top_apps: Vec<(String, i64)>,
}

impl StackedBarTooltip {
    /// The tooltip of `slot`: every application, most used first
    /// (applications with equal seconds in no stated order).
    pub fn for_slot(slot: &TimeSlotData) -> (t: Self)
        requires
            slot.wf(),
        ensures
            t.hour == slot.hour,
            t.total_seconds == slot.total_seconds,
            is_top(t.top_apps@, slot.app_durations@, slot.app_durations@.len() as int),
    {
        let top_apps = top_entries(&slot.app_durations, slot.app_durations.len());
        StackedBarTooltip { hour: slot.hour, total_seconds: slot.total_seconds, top_apps }
    }
}

} // verus!

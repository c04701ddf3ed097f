//! Properties that hold of every sheet and every week, proved over the same
//! models that the contracts of the fold and of the transposition use.

use vstd::prelude::*;

use crate::events::Event;
use crate::options::JobType;
use crate::time::{weekday_of, Timestamp};
use crate::viewer::{
    day_total, empty_week, entry, fold_events, in_week, initial_fold, is_running, no_work, report,
    resolve_id, row_of, step, total_below, DaysProjectWork, FoldModel, ReportError, ReportErrorKind,
    TransposedWeeksProjectWork, WeekModel,
};

verus! {

/// The combined length of a run of pauses, in nanoseconds.
pub open spec fn pause_total(pauses: Seq<u64>) -> int
    decreases pauses.len(),
{
    if pauses.len() == 0 {
        0
    } else {
        pause_total(pauses.drop_last()) + pauses.last()
    }
}

/// A begin at `t0`, the given pauses, an end at `t1`.
pub open spec fn session(t0: Timestamp, pauses: Seq<u64>, t1: Timestamp) -> Seq<Event> {
    seq![Event::BEGIN(t0)] + pauses.map_values(|p: u64| Event::PAUSE(p)) + seq![Event::END(t1)]
}

/// Whether every event of `pre` is a switch to a registered project.
pub open spec fn switches_only(pre: Seq<Event>, projects: Seq<JobType>) -> bool {
    forall|i: int|
        0 <= i < pre.len() ==> (#[trigger] pre[i]) is SWITCH && resolve_id(pre[i]->SWITCH_1, projects) is Some
}

/// The project active after the switches `pre`: the last one's, or the
/// default project (id 0) where there is none.
pub open spec fn project_after(pre: Seq<Event>, projects: Seq<JobType>) -> usize {
    if pre.len() == 0 {
        0
    } else {
        resolve_id(pre.last()->SWITCH_1, projects)->Some_0
    }
}

/// Where the fold stands after a begin at `t0` on project `p` and pauses of
/// `paused` in all: the interval on `p` starts `paused` after `t0`.
pub open spec fn after_pauses(t0: Timestamp, paused: int, p: usize) -> FoldModel {
    FoldModel {
        begun: true,
        week: WeekModel { week_number: t0.week, ..empty_week(0) },
        dow: weekday_of(t0.nanos),
        day: map![p => DaysProjectWork { total_day: 0, start: Some((t0.nanos + paused) as i64) }],
        project: p,
        ..initial_fold()
    }
}

proof fn lemma_pause_total_monotone(pauses: Seq<u64>, n: int)
    requires
        0 <= n <= pauses.len(),
    ensures
        0 <= pause_total(pauses.take(n)) <= pause_total(pauses),
    decreases pauses.len(),
{
    if n < pauses.len() {
        assert(pauses.drop_last().take(n) =~= pauses.take(n));
        lemma_pause_total_monotone(pauses.drop_last(), n);
    } else {
        assert(pauses.take(n) =~= pauses);
    }
    if pauses.len() > 0 {
        lemma_pause_total_monotone(pauses.drop_last(), pauses.len() - 1);
    }
}

proof fn lemma_fold_switches(pre: Seq<Event>, projects: Seq<JobType>)
    requires
        switches_only(pre, projects),
    ensures
        fold_events(pre, projects) == Ok::<FoldModel, ReportError>(
            FoldModel { project: project_after(pre, projects), ..initial_fold() },
        ),
    decreases pre.len(),
{
    if pre.len() > 0 {
        let rest = pre.drop_last();
        assert(switches_only(rest, projects)) by {
            assert forall|i: int| 0 <= i < rest.len() implies (#[trigger] rest[i]) is SWITCH && resolve_id(
                rest[i]->SWITCH_1,
                projects,
            ) is Some by {
                assert(rest[i] == pre[i]);
            }
        }
        lemma_fold_switches(rest, projects);
        assert(pre.last() == pre[pre.len() - 1]);
    }
}

proof fn lemma_fold_pauses(pre: Seq<Event>, t0: Timestamp, pauses: Seq<u64>, projects: Seq<JobType>)
    requires
        switches_only(pre, projects),
        t0.nanos + pause_total(pauses) <= i64::MAX,
    ensures
        fold_events(pre + seq![Event::BEGIN(t0)] + pauses.map_values(|p: u64| Event::PAUSE(p)), projects)
            == Ok::<FoldModel, ReportError>(after_pauses(t0, pause_total(pauses), project_after(pre, projects))),
    decreases pauses.len(),
{
    let p = project_after(pre, projects);
    let events = pre + seq![Event::BEGIN(t0)] + pauses.map_values(|x: u64| Event::PAUSE(x));
    if pauses.len() == 0 {
        lemma_fold_switches(pre, projects);
        assert(events.drop_last() =~= pre);
        assert(events.last() == Event::BEGIN(t0));
        let s0 = FoldModel { project: p, ..initial_fold() };
        assert(after_pauses(t0, 0, p).day =~= crate::viewer::opened(Map::empty(), p, t0.nanos));
        assert(step(s0, Event::BEGIN(t0), projects) == Ok::<FoldModel, ReportErrorKind>(
            after_pauses(t0, 0, p),
        ));
    } else {
        let rest = pauses.drop_last();
        lemma_pause_total_monotone(pauses, pauses.len() - 1);
        assert(pauses.take(pauses.len() - 1) =~= rest);
        lemma_fold_pauses(pre, t0, rest, projects);
        assert(events.drop_last() =~= pre + seq![Event::BEGIN(t0)] + rest.map_values(|x: u64| Event::PAUSE(x)));
        assert(events.last() == Event::PAUSE(pauses.last()));
        let s = after_pauses(t0, pause_total(rest), p);
        assert(s.day.contains_key(p));
        assert(after_pauses(t0, pause_total(pauses), p).day =~= s.day.insert(
            p,
            DaysProjectWork { start: Some((t0.nanos + pause_total(pauses)) as i64), ..s.day[p] },
        ));
        assert(step(s, Event::PAUSE(pauses.last()), projects) == Ok::<FoldModel, ReportErrorKind>(
            after_pauses(t0, pause_total(pauses), p),
        ));
    }
}

/// After any switches to registered projects, a begin, any number of pauses
/// and an end book exactly the time from begin to end less the pauses, on the
/// project switched to last (the default project where there was no switch)
/// and on the day of the begin, whatever the report's date.
pub proof fn lemma_conservation(
    pre: Seq<Event>,
    t0: Timestamp,
    pauses: Seq<u64>,
    t1: Timestamp,
    projects: Seq<JobType>,
    now: Timestamp,
)
    requires
        switches_only(pre, projects),
        t0.nanos + pause_total(pauses) <= t1.nanos,
    ensures
        report(pre + session(t0, pauses, t1), projects, now) matches Ok(m) && m.weeks.len() == 1
            && m.weeks[0].days[weekday_of(t0.nanos)][project_after(pre, projects)].total_day == t1.nanos
            - t0.nanos - pause_total(pauses),
{
    let p = project_after(pre, projects);
    let events = pre + session(t0, pauses, t1);
    let head = pre + seq![Event::BEGIN(t0)] + pauses.map_values(|x: u64| Event::PAUSE(x));
    lemma_fold_pauses(pre, t0, pauses, projects);
    lemma_pause_total_monotone(pauses, 0);
    assert(events.drop_last() =~= head);
    assert(events.last() == Event::END(t1));
    let s = after_pauses(t0, pause_total(pauses), p);
    assert(s.day.contains_key(p));
    let day = s.day.insert(
        p,
        DaysProjectWork { total_day: (t1.nanos - t0.nanos - pause_total(pauses)) as u64, start: None },
    );
    assert(crate::viewer::closed(s.day, p, t1.nanos) == Ok::<Map<usize, DaysProjectWork>, ReportErrorKind>(
        day,
    ));
    let fin = FoldModel { day, ..s };
    assert(step(s, Event::END(t1), projects) == Ok::<FoldModel, ReportErrorKind>(fin));
    assert(fold_events(events, projects) == Ok::<FoldModel, ReportError>(fin));
    assert(!is_running(fin));
    assert(fin.weeks.len() == 0);
}

/// Whether the fold of a sheet succeeds and leaves no work running.
pub open spec fn fully_closed(events: Seq<Event>, projects: Seq<JobType>) -> bool {
    fold_events(events, projects) matches Ok(s) && !is_running(s)
}

/// Reporting on a sheet with no work running gives the same report at any
/// time: the weeks, the active project and the warnings.
pub proof fn lemma_report_idempotent(events: Seq<Event>, projects: Seq<JobType>, now1: Timestamp, now2: Timestamp)
    requires
        fully_closed(events, projects),
    ensures
        report(events, projects, now1) == report(events, projects, now2),
{
}

/// Project `p`'s time on day `d` in the rows of a transposed week, or zero
/// where there is no row for `p`.
pub open spec fn row_entry(rows: Map<usize, TransposedWeeksProjectWork>, p: usize, d: int) -> int {
    if rows.contains_key(p) {
        rows[p].days@[d].total_day as int
    } else {
        0
    }
}

/// Day `d`'s column summed over the rows of projects with an id below `bound`.
pub open spec fn column_below(rows: Map<usize, TransposedWeeksProjectWork>, d: int, bound: int) -> int
    decreases bound,
{
    if bound <= 0 {
        0
    } else {
        column_below(rows, d, bound - 1) + row_entry(rows, (bound - 1) as usize, d)
    }
}

/// Day `d`'s column summed over all project rows.
pub open spec fn column_total(rows: Map<usize, TransposedWeeksProjectWork>, d: int) -> int {
    column_below(rows, d, usize::MAX + 1)
}

/// The rows that the transposition makes of week `w`, whatever their number:
/// summing one day's column over the projects gives that day's total, so no
/// time is booked on two projects and none is lost.
pub proof fn lemma_disjointness(w: WeekModel, rows: Map<usize, TransposedWeeksProjectWork>, d: int)
    requires
        0 <= d < 7,
        w.days.len() == 7,
        forall|p: usize| #[trigger] rows.contains_key(p) <==> in_week(w, p),
        forall|p: usize| #[trigger] rows.contains_key(p) ==> rows[p].days@ == row_of(w, p),
    ensures
        column_total(rows, d) == day_total(w.days[d]),
{
    lemma_column_below(w, rows, d, usize::MAX + 1);
}

proof fn lemma_column_below(w: WeekModel, rows: Map<usize, TransposedWeeksProjectWork>, d: int, bound: int)
    requires
        0 <= d < 7,
        w.days.len() == 7,
        0 <= bound <= usize::MAX + 1,
        forall|p: usize| #[trigger] rows.contains_key(p) <==> in_week(w, p),
        forall|p: usize| #[trigger] rows.contains_key(p) ==> rows[p].days@ == row_of(w, p),
    ensures
        column_below(rows, d, bound) == total_below(w.days[d], bound),
    decreases bound,
{
    if bound > 0 {
        lemma_column_below(w, rows, d, bound - 1);
        let p = (bound - 1) as usize;
        if rows.contains_key(p) {
            assert(rows[p].days@[d] == entry(w.days[d], p));
        } else if w.days[d].contains_key(p) {
            assert(in_week(w, p));
        } else {
            assert(entry(w.days[d], p) == no_work());
        }
    }
}

} // verus!

//! The fold that turns a sheet into weekly reports, and the reshaping of a
//! week into one row per project.

use vstd::prelude::*;
use vstd::std_specs::cmp::OrdSpec;
use vstd::std_specs::iter::IteratorSpec;

use std::collections::BTreeMap;

use crate::events::{resolve, Event, JobIdentifier, Sheet};
use crate::options::{JobType, Options};
use crate::time::{weekday_of, Timestamp};

verus! {

broadcast use vstd::std_specs::btree::group_btree_axioms, vstd::laws_cmp::group_laws_cmp;

/// The work booked on one project on one day: the time closed so far, and the
/// start of the interval still running, if any.  Pauses move the start
/// forward, so that they drop out of every later measurement.
#[derive(Clone, Copy, Debug, PartialEq, Eq, Structural)]
pub struct DaysProjectWork {
    pub total_day: u64,
    pub start: Option<i64>,
}

/// One day's work, keyed by project internal id.
pub type DaysWork = BTreeMap<usize, DaysProjectWork>;

/// One week's work, Monday first.
pub struct WeeksWork {
    pub days: [DaysWork; 7],
    pub week_number: u32,
}

/// A week as the contracts see it: seven maps from project id to that day's work.
pub struct WeekModel {
    pub week_number: u32,
    pub days: Seq<Map<usize, DaysProjectWork>>,
}

impl View for WeeksWork {
    type V = WeekModel;

    open spec fn view(&self) -> WeekModel {
        WeekModel { week_number: self.week_number, days: self.days@.map_values(|d: DaysWork| d@) }
    }
}

/// Where an open interval was dropped.
#[derive(Clone, Copy, Debug, PartialEq, Eq, Structural)]
pub enum Boundary {
    /// A later event fell on another day of the same week.
    Day,
    /// A later event fell in another week.
    Week,
    /// The sheet ended while the interval was open, and not on the day of the
    /// report.
    Log,
}

/// A warning: work on `project` was still running when the fold crossed
/// `boundary`, and the running part was left out.
#[derive(Clone, Copy, Debug, PartialEq, Eq, Structural)]
pub struct Unfinished {
    pub project: usize,
    pub boundary: Boundary,
}

/// Why a sheet could not be folded.
#[derive(Clone, Copy, Debug, PartialEq, Eq, Structural)]
pub enum ReportErrorKind {
    /// A switch names no registered project.
    UnknownProject,
    /// An end or a pause before the first begin.
    BeforeBegin,
    /// An end while no work is running.
    NothingRunning,
    /// An interval that closes before it starts (pauses longer than the work).
    NegativeInterval,
    /// A time or a total beyond the range of the clock.
    Overflow,
}

/// The event at `position` of the sheet could not be folded, for `kind`.
#[derive(Clone, Copy, Debug, PartialEq, Eq, Structural)]
pub struct ReportError {
    pub position: usize,
    pub kind: ReportErrorKind,
}

/// What the fold is in the middle of a sheet: the weeks done, the week and the
/// day in progress, the active project, and whether a begin has been seen.
pub struct FoldModel {
    pub weeks: Seq<WeekModel>,
    pub week: WeekModel,
    pub day: Map<usize, DaysProjectWork>,
    pub dow: int,
    pub project: usize,
    pub begun: bool,
    pub warnings: Seq<Unfinished>,
}

/// The result of the fold: the weeks, oldest first, the project active at the
/// end, and the warnings in the order they arose.
pub struct ReportModel {
    pub weeks: Seq<WeekModel>,
    pub current_project: usize,
    pub warnings: Seq<Unfinished>,
}

pub open spec fn empty_week(week_number: u32) -> WeekModel {
    WeekModel { week_number, days: Seq::new(7, |i: int| Map::<usize, DaysProjectWork>::empty()) }
}

/// Before the first event: no week done, the default project (id 0) active.
pub open spec fn initial_fold() -> FoldModel {
    FoldModel {
        weeks: Seq::empty(),
        week: empty_week(0),
        day: Map::empty(),
        dow: 0,
        project: 0,
        begun: false,
        warnings: Seq::empty(),
    }
}

/// Start of the interval running on project `p`, if one is.
pub open spec fn running_start(day: Map<usize, DaysProjectWork>, p: usize) -> Option<i64> {
    if day.contains_key(p) {
        day[p].start
    } else {
        None
    }
}

pub open spec fn is_running(s: FoldModel) -> bool {
    running_start(s.day, s.project) is Some
}

/// Opens an interval on `p` at `t`, keeping the time closed so far.
pub open spec fn opened(day: Map<usize, DaysProjectWork>, p: usize, t: i64) -> Map<usize, DaysProjectWork> {
    let total = if day.contains_key(p) {
        day[p].total_day
    } else {
        0
    };
    day.insert(p, DaysProjectWork { total_day: total, start: Some(t) })
}

/// Closes the interval running on `p` at `t`, adding its length to the total.
pub open spec fn closed(day: Map<usize, DaysProjectWork>, p: usize, t: i64) -> Result<
    Map<usize, DaysProjectWork>,
    ReportErrorKind,
> {
    match running_start(day, p) {
        None => Err(ReportErrorKind::NothingRunning),
        Some(start) => if t < start {
            Err(ReportErrorKind::NegativeInterval)
        } else if day[p].total_day + (t - start) > u64::MAX {
            Err(ReportErrorKind::Overflow)
        } else {
            Ok(day.insert(p, DaysProjectWork { total_day: (day[p].total_day + (t - start)) as u64, start: None }))
        },
    }
}

/// The week in progress with the current day written into it.
pub open spec fn week_with_day(s: FoldModel) -> WeekModel {
    WeekModel { week_number: s.week.week_number, days: s.week.days.update(s.dow, s.day) }
}

/// The warnings after leaving the current day behind.
pub open spec fn warned(s: FoldModel, boundary: Boundary) -> Seq<Unfinished> {
    if is_running(s) {
        s.warnings.push(Unfinished { project: s.project, boundary })
    } else {
        s.warnings
    }
}

/// Whether `t` falls on the day in progress.
pub open spec fn same_day(s: FoldModel, t: Timestamp) -> bool {
    t.week == s.week.week_number && weekday_of(t.nanos) == s.dow
}

/// Moves the fold to the day of `t`: a new week closes the week in progress, a
/// new day of the same week closes the day; either starts with no work
/// booked.  An interval still running is dropped, with a warning.
pub open spec fn moved_to(s: FoldModel, t: Timestamp) -> FoldModel {
    if t.week != s.week.week_number {
        FoldModel {
            weeks: s.weeks.push(week_with_day(s)),
            week: empty_week(t.week),
            day: Map::empty(),
            dow: weekday_of(t.nanos),
            warnings: warned(s, Boundary::Week),
            ..s
        }
    } else if weekday_of(t.nanos) != s.dow {
        FoldModel {
            week: week_with_day(s),
            day: Map::empty(),
            dow: weekday_of(t.nanos),
            warnings: warned(s, Boundary::Day),
            ..s
        }
    } else {
        s
    }
}

/// The internal id of the first registered project that answers to `ident`.
pub open spec fn resolve_id(ident: JobIdentifier, projects: Seq<JobType>) -> Option<usize> {
    match resolve(ident, projects) {
        Some(job) => Some(job.internal_id),
        None => None,
    }
}

/// One step of the fold.  A begin or a switch whose time falls on another
/// day or week moves the fold there; an end never does: it closes the running
/// interval on the day in progress, so a session that runs past midnight is
/// booked whole on the day it began.  A pause while no work runs changes
/// nothing.
pub open spec fn step(s: FoldModel, e: Event, projects: Seq<JobType>) -> Result<FoldModel, ReportErrorKind> {
    match e {
        Event::BEGIN(t) => if !s.begun {
            Ok(
                FoldModel {
                    begun: true,
                    week: WeekModel { week_number: t.week, ..s.week },
                    dow: weekday_of(t.nanos),
                    day: opened(s.day, s.project, t.nanos),
                    ..s
                },
            )
        } else {
            let s1 = moved_to(s, t);
            Ok(FoldModel { day: opened(s1.day, s1.project, t.nanos), ..s1 })
        },
        Event::END(t) => if !s.begun {
            Err(ReportErrorKind::BeforeBegin)
        } else {
            match closed(s.day, s.project, t.nanos) {
                Ok(day) => Ok(FoldModel { day, ..s }),
                Err(k) => Err(k),
            }
        },
        Event::PAUSE(length) => if !s.begun {
            Err(ReportErrorKind::BeforeBegin)
        } else {
            match running_start(s.day, s.project) {
                None => Ok(s),
                Some(start) => if start + length > i64::MAX {
                    Err(ReportErrorKind::Overflow)
                } else {
                    Ok(
                        FoldModel {
                            day: s.day.insert(
                                s.project,
                                DaysProjectWork { start: Some((start + length) as i64), ..s.day[s.project] },
                            ),
                            ..s
                        },
                    )
                },
            }
        },
        Event::SWITCH(t, ident) => match resolve_id(ident, projects) {
            None => Err(ReportErrorKind::UnknownProject),
            Some(id) => if !s.begun {
                Ok(FoldModel { project: id, ..s })
            } else if id == s.project {
                Ok(s)
            } else if same_day(s, t) {
                if is_running(s) {
                    match closed(s.day, s.project, t.nanos) {
                        Ok(day) => Ok(FoldModel { project: id, day: opened(day, id, t.nanos), ..s }),
                        Err(k) => Err(k),
                    }
                } else {
                    Ok(FoldModel { project: id, ..s })
                }
            } else {
                let s1 = moved_to(s, t);
                Ok(
                    FoldModel {
                        project: id,
                        day: if is_running(s) {
                            opened(s1.day, id, t.nanos)
                        } else {
                            s1.day
                        },
                        ..s1
                    },
                )
            },
        },
    }
}

/// The fold over a whole sheet, or the first event that cannot be folded.
pub open spec fn fold_events(events: Seq<Event>, projects: Seq<JobType>) -> Result<FoldModel, ReportError>
    decreases events.len(),
{
    if events.len() == 0 {
        Ok(initial_fold())
    } else {
        match fold_events(events.drop_last(), projects) {
            Err(e) => Err(e),
            Ok(s) => match step(s, events.last(), projects) {
                Ok(s2) => Ok(s2),
                Err(kind) => Err(ReportError { position: (events.len() - 1) as usize, kind }),
            },
        }
    }
}

/// Whether the day in progress is the day of `now`, so that work still
/// running is work going on right now.
pub open spec fn is_live(s: FoldModel, now: Timestamp) -> bool {
    s.begun && same_day(s, now)
}

/// The end of the fold.  Work still running today is counted up to `now`, for
/// the report only; work still running on an earlier day is left out, with a
/// warning.  The week in progress is then closed.
pub open spec fn finished(s: FoldModel, now: Timestamp) -> ReportModel {
    let s1 = match running_start(s.day, s.project) {
        None => s,
        Some(start) => if is_live(s, now) {
            if start <= now.nanos && s.day[s.project].total_day + (now.nanos - start) <= u64::MAX {
                FoldModel {
                    day: s.day.insert(
                        s.project,
                        DaysProjectWork {
                            total_day: (s.day[s.project].total_day + (now.nanos - start)) as u64,
                            ..s.day[s.project]
                        },
                    ),
                    ..s
                }
            } else {
                s
            }
        } else {
            FoldModel { warnings: warned(s, Boundary::Log), ..s }
        },
    };
    ReportModel { weeks: s1.weeks.push(week_with_day(s1)), current_project: s1.project, warnings: s1.warnings }
}

/// The report on a sheet as of `now`, or the first event that cannot be
/// folded.
pub open spec fn report(events: Seq<Event>, projects: Seq<JobType>, now: Timestamp) -> Result<
    ReportModel,
    ReportError,
> {
    match fold_events(events, projects) {
        Ok(s) => Ok(finished(s, now)),
        Err(e) => Err(e),
    }
}


/// The weeks of a sheet, oldest first, with the project active at the end
/// and the warnings raised on the way.
pub struct ParsedSheet {
    pub weeks: Vec<WeeksWork>,
    pub current_project: usize,
    pub warnings: Vec<Unfinished>,
}

impl View for ParsedSheet {
    type V = ReportModel;

    open spec fn view(&self) -> ReportModel {
        ReportModel {
            weeks: self.weeks@.map_values(|w: WeeksWork| w@),
            current_project: self.current_project,
            warnings: self.warnings@,
        }
    }
}

impl ParsedSheet {
    /// The project active at the end of the sheet.
    pub fn current(&self) -> (r: JobIdentifier)
        ensures
            r == JobIdentifier::InternalId(self.current_project),
    {
        JobIdentifier::InternalId(self.current_project)
    }
}

impl WeeksWork {
    /// A week with no work booked.
    pub fn new(week_number: u32) -> (r: WeeksWork)
        ensures
            r@ == empty_week(week_number),
    {
        let r = WeeksWork {
            days: [
                BTreeMap::new(),
                BTreeMap::new(),
                BTreeMap::new(),
                BTreeMap::new(),
                BTreeMap::new(),
                BTreeMap::new(),
                BTreeMap::new(),
            ],
            week_number,
        };
        assert(r@.days =~= empty_week(week_number).days);
        r
    }
}

/// The fold in progress; see [`FoldModel`].
struct Fold {
    weeks: Vec<WeeksWork>,
    week: WeeksWork,
    day: DaysWork,
    dow: usize,
    project: usize,
    begun: bool,
    warnings: Vec<Unfinished>,
}

impl View for Fold {
    type V = FoldModel;

    closed spec fn view(&self) -> FoldModel {
        FoldModel {
            weeks: self.weeks@.map_values(|w: WeeksWork| w@),
            week: self.week@,
            day: self.day@,
            dow: self.dow as int,
            project: self.project,
            begun: self.begun,
            warnings: self.warnings@,
        }
    }
}

impl Fold {
    spec fn wf(&self) -> bool {
        self.dow < 7
    }

    fn new() -> (r: Fold)
        ensures
            r@ == initial_fold(),
            r.wf(),
    {
        let r = Fold {
            weeks: Vec::new(),
            week: WeeksWork::new(0),
            day: BTreeMap::new(),
            dow: 0,
            project: JobType::default().internal_id,
            begun: false,
            warnings: Vec::new(),
        };
        assert(r@.weeks =~= Seq::<WeekModel>::empty());
        r
    }

    fn running_start(&self) -> (r: Option<i64>)
        ensures
            r == running_start(self.day@, self.project),
    {
        match self.day.get(&self.project) {
            Some(w) => w.start,
            None => None,
        }
    }

    /// Opens an interval on `p` at `t`.
    fn open(&mut self, p: usize, t: i64)
        ensures
            final(self)@ == (FoldModel { day: opened(old(self)@.day, p, t), ..old(self)@ }),
            final(self).wf() == old(self).wf(),
    {
        let total = match self.day.get(&p) {
            Some(w) => w.total_day,
            None => 0,
        };
        self.day.insert(p, DaysProjectWork { total_day: total, start: Some(t) });
    }

    /// Closes the interval running on the active project at `t`.
    fn close(&mut self, t: i64) -> (r: Result<(), ReportErrorKind>)
        ensures
            match closed(old(self)@.day, old(self)@.project, t) {
                Ok(day) => r is Ok && final(self)@ == (FoldModel { day, ..old(self)@ }),
                Err(k) => r == Err::<(), ReportErrorKind>(k),
            },
            final(self).wf() == old(self).wf(),
    {
        let w = match self.day.get(&self.project) {
            Some(w) => *w,
            None => return Err(ReportErrorKind::NothingRunning),
        };
        let start = match w.start {
            Some(start) => start,
            None => return Err(ReportErrorKind::NothingRunning),
        };
        if t < start {
            return Err(ReportErrorKind::NegativeInterval);
        }
        let elapsed = (t as i128 - start as i128) as u64;
        if w.total_day > u64::MAX - elapsed {
            return Err(ReportErrorKind::Overflow);
        }
        self.day.insert(self.project, DaysProjectWork { total_day: w.total_day + elapsed, start: None });
        Ok(())
    }

    /// Writes the current day into the week in progress, and starts the day
    /// `dow` with nothing booked.
    fn store_day(&mut self, dow: usize, boundary: Boundary)
        requires
            old(self).wf(),
            dow < 7,
        ensures
            final(self)@ == (FoldModel {
                week: week_with_day(old(self)@),
                day: Map::empty(),
                dow: dow as int,
                warnings: warned(old(self)@, boundary),
                ..old(self)@
            }),
            final(self).wf(),
    {
        if self.running_start().is_some() {
            self.warnings.push(Unfinished { project: self.project, boundary });
        }
        let mut day: DaysWork = BTreeMap::new();
        std::mem::swap(&mut self.day, &mut day);
        self.week.days[self.dow] = day;
        self.dow = dow;
        assert(self.week@.days =~= week_with_day(old(self)@).days);
    }

    /// Moves to the day of `t`; see [`moved_to`].
    fn move_to(&mut self, t: &Timestamp)
        requires
            old(self).wf(),
        ensures
            final(self)@ == moved_to(old(self)@, *t),
            final(self).wf(),
    {
        let dow = t.weekday();
        if t.week != self.week.week_number {
            self.store_day(dow, Boundary::Week);
            let mut week = WeeksWork::new(t.week);
            std::mem::swap(&mut self.week, &mut week);
            self.weeks.push(week);
            assert(self@.weeks =~= old(self)@.weeks.push(week_with_day(old(self)@)));
        } else if dow != self.dow {
            self.store_day(dow, Boundary::Day);
        }
    }

    /// Folds one event; see [`step`].
    fn step(&mut self, e: &Event, config: &Options) -> (r: Result<(), ReportErrorKind>)
        requires
            old(self).wf(),
        ensures
            match step(old(self)@, *e, config.projects@) {
                Ok(s) => r is Ok && final(self)@ == s,
                Err(k) => r == Err::<(), ReportErrorKind>(k),
            },
            final(self).wf(),
    {
        match e {
            Event::BEGIN(t) => {
                if !self.begun {
                    self.begun = true;
                    self.week.week_number = t.week;
                    self.dow = t.weekday();
                    let p = self.project;
                    self.open(p, t.nanos);
                } else {
                    self.move_to(t);
                    let p = self.project;
                    self.open(p, t.nanos);
                }
                Ok(())
            },
            Event::END(t) => {
                if !self.begun {
                    return Err(ReportErrorKind::BeforeBegin);
                }
                self.close(t.nanos)
            },
            Event::PAUSE(length) => {
                if !self.begun {
                    return Err(ReportErrorKind::BeforeBegin);
                }
                let w = match self.day.get(&self.project) {
                    Some(w) => *w,
                    None => return Ok(()),
                };
                let start = match w.start {
                    Some(start) => start,
                    None => return Ok(()),
                };
                if start as i128 + *length as i128 > i64::MAX as i128 {
                    return Err(ReportErrorKind::Overflow);
                }
                let moved = (start as i128 + *length as i128) as i64;
                self.day.insert(self.project, DaysProjectWork { start: Some(moved), ..w });
                Ok(())
            },
            Event::SWITCH(t, ident) => {
                let id = match ident.get_jobtype(config) {
                    Some(job) => job.internal_id,
                    None => return Err(ReportErrorKind::UnknownProject),
                };
                if !self.begun {
                    self.project = id;
                    return Ok(());
                }
                if id == self.project {
                    return Ok(());
                }
                let running = self.running_start().is_some();
                if t.week == self.week.week_number && t.weekday() == self.dow {
                    if running {
                        match self.close(t.nanos) {
                            Ok(()) => {},
                            Err(k) => return Err(k),
                        }
                        self.project = id;
                        self.open(id, t.nanos);
                    } else {
                        self.project = id;
                    }
                } else {
                    self.move_to(t);
                    self.project = id;
                    if running {
                        self.open(id, t.nanos);
                    }
                }
                Ok(())
            },
        }
    }

    /// Ends the fold at `now`; see [`finished`].
    fn finish(self, now: &Timestamp) -> (r: ParsedSheet)
        requires
            self.wf(),
        ensures
            r@ == finished(self@, *now),
    {
        let mut fold = self;
        match fold.running_start() {
            None => {},
            Some(start) => {
                if fold.begun && now.week == fold.week.week_number && now.weekday() == fold.dow {
                    let w = *fold.day.get(&fold.project).unwrap();
                    if start <= now.nanos {
                        let elapsed = (now.nanos as i128 - start as i128) as u64;
                        if w.total_day <= u64::MAX - elapsed {
                            fold.day.insert(fold.project, DaysProjectWork { total_day: w.total_day + elapsed, ..w });
                        }
                    }
                } else {
                    fold.warnings.push(Unfinished { project: fold.project, boundary: Boundary::Log });
                }
            },
        }
        let ghost before = fold@;
        let mut day: DaysWork = BTreeMap::new();
        std::mem::swap(&mut fold.day, &mut day);
        fold.week.days[fold.dow] = day;
        assert(fold.week@.days =~= week_with_day(before).days);
        assert(fold.week@ == week_with_day(before));
        fold.weeks.push(fold.week);
        let r = ParsedSheet { weeks: fold.weeks, current_project: fold.project, warnings: fold.warnings };
        assert(r@.weeks =~= before.weeks.push(week_with_day(before)));
        r
    }
}

/// Folds `sheet` into weekly reports as of `now`: see [`report`] for what is
/// booked where, and when a sheet is refused.
pub fn parse_sheet(sheet: &Sheet, config: &Options, now: Timestamp) -> (r: Result<ParsedSheet, ReportError>)
    ensures
        match report(sheet@, config.projects@, now) {
            Ok(m) => r is Ok && r->Ok_0@ == m,
            Err(e) => r == Err::<ParsedSheet, ReportError>(e),
        },
{
    let mut fold = Fold::new();
    let mut i: usize = 0;
    assert(sheet@.take(0) =~= Seq::<Event>::empty());
    while i < sheet.len()
        invariant
            0 <= i <= sheet.len(),
            fold.wf(),
            fold_events(sheet@.take(i as int), config.projects@) == Ok::<FoldModel, ReportError>(fold@),
        decreases sheet.len() - i,
    {
        let ghost before = fold@;
        assert(sheet@.take(i + 1).drop_last() =~= sheet@.take(i as int));
        assert(sheet@.take(i + 1).last() == sheet@[i as int]);
        match fold.step(&sheet[i], config) {
            Ok(()) => {},
            Err(kind) => {
                assert(sheet@.take(sheet.len() as int) =~= sheet@);
                assert(fold_events(sheet@.take(i + 1), config.projects@) == Err::<FoldModel, ReportError>(
                    ReportError { position: i, kind },
                ));
                proof {
                    lemma_fold_error_persists(sheet@, config.projects@, i + 1);
                }
                return Err(ReportError { position: i, kind });
            },
        }
        i = i + 1;
    }
    assert(sheet@.take(sheet.len() as int) =~= sheet@);
    Ok(fold.finish(&now))
}

/// Once a prefix of a sheet fails to fold, the whole sheet fails with the
/// same error.
proof fn lemma_fold_error_persists(events: Seq<Event>, projects: Seq<JobType>, n: int)
    requires
        0 <= n <= events.len(),
        fold_events(events.take(n), projects) is Err,
    ensures
        fold_events(events, projects) == fold_events(events.take(n), projects),
    decreases events.len() - n,
{
    if n < events.len() {
        assert(events.take(n + 1).drop_last() =~= events.take(n));
        lemma_fold_error_persists(events, projects, n + 1);
    } else {
        assert(events.take(n) =~= events);
    }
}

/// A day on which nothing was booked.
pub open spec fn no_work() -> DaysProjectWork {
    DaysProjectWork { total_day: 0, start: None }
}

/// What `day` books on project `p`.
pub open spec fn entry(day: Map<usize, DaysProjectWork>, p: usize) -> DaysProjectWork {
    if day.contains_key(p) {
        day[p]
    } else {
        no_work()
    }
}

/// The time booked in `day` on projects with an id below `bound`.
pub open spec fn total_below(day: Map<usize, DaysProjectWork>, bound: int) -> int
    decreases bound,
{
    if bound <= 0 {
        0
    } else {
        total_below(day, bound - 1) + entry(day, (bound - 1) as usize).total_day
    }
}

/// The time booked in `day`, over all projects.
pub open spec fn day_total(day: Map<usize, DaysProjectWork>) -> int {
    total_below(day, usize::MAX + 1)
}

/// The time booked in the first `n` days of week `w`.
pub open spec fn days_total(w: WeekModel, n: int) -> int
    decreases n,
{
    if n <= 0 {
        0
    } else {
        days_total(w, n - 1) + day_total(w.days[n - 1])
    }
}

/// The time booked in week `w`.
pub open spec fn week_total(w: WeekModel) -> int {
    days_total(w, 7)
}

/// Whether some day of week `w` books work on project `p`.
pub open spec fn in_week(w: WeekModel, p: usize) -> bool {
    exists|d: int| 0 <= d < 7 && (#[trigger] w.days[d]).contains_key(p)
}

/// Project `p`'s row of week `w`: what each day, Monday first, books on it.
pub open spec fn row_of(w: WeekModel, p: usize) -> Seq<DaysProjectWork> {
    Seq::new(7, |d: int| entry(w.days[d], p))
}

/// One project's week, Monday first.
#[derive(Clone, Copy, Debug)]
pub struct TransposedWeeksProjectWork {
    pub days: [DaysProjectWork; 7],
}

impl TransposedWeeksProjectWork {
    /// A week with nothing booked.
    pub fn new() -> (r: TransposedWeeksProjectWork)
        ensures
            r.days@ == Seq::new(7, |d: int| no_work()),
    {
        let none = DaysProjectWork { total_day: 0, start: None };
        let r = TransposedWeeksProjectWork { days: [none, none, none, none, none, none, none] };
        assert(r.days@ =~= Seq::new(7, |d: int| no_work()));
        r
    }

    /// The time booked over the whole week.
    pub fn total_time(&self) -> (r: u128)
        ensures
            r == self.days@[0].total_day + self.days@[1].total_day + self.days@[2].total_day
                + self.days@[3].total_day + self.days@[4].total_day + self.days@[5].total_day
                + self.days@[6].total_day,
    {
        self.days[0].total_day as u128 + self.days[1].total_day as u128 + self.days[2].total_day as u128
            + self.days[3].total_day as u128 + self.days[4].total_day as u128
            + self.days[5].total_day as u128 + self.days[6].total_day as u128
    }
}

/// A week reshaped for display: one row per project, in ascending order of
/// internal id, with the total of each day and of the week.
pub struct TransposedWeeksWork {
    pub total: TransposedWeeksProjectWork,
    pub total_time: u64,
    pub projects: BTreeMap<usize, TransposedWeeksProjectWork>,
    pub week_number: u32,
}

/// The ids of the projects `day` books work on, ascending.
fn day_keys(day: &DaysWork) -> (r: Vec<usize>)
    ensures
        forall|k: usize| day@.contains_key(k) <==> r@.contains(k),
        forall|i: int, j: int| 0 <= i < j < r.len() ==> r[i] < r[j],
{
    let mut out: Vec<usize> = Vec::new();
    let iter = day.iter();
    let ghost s = iter.remaining();
    assert(forall|k: usize| #[trigger] day@.contains_key(k) ==> s.contains((&k, &day@[k])));
    for kv in it: iter
        invariant
            out@.len() == it.index(),
            it.seq() == s,
            forall|i: int| 0 <= i < it.index() ==> out@[i] == *s[i].0,
    {
        let (k, _) = kv;
        out.push(*k);
    }
    proof {
        assert(forall|i: int| 0 <= i < out.len() ==> day@.contains_key(out@[i]));
        assert forall|k: usize| day@.contains_key(k) implies out@.contains(k) by {
            let i = choose|i: int| 0 <= i < s.len() && s[i] == (&k, &day@[k]);
            assert(out@[i] == k);
        }
        let ks = s.map_values(|kv: (&usize, &DaysProjectWork)| *kv.0);
        assert forall|i: int, j: int| 0 <= i < j < out.len() implies out[i] < out[j] by {
            assert(ks[i] == out[i]);
            assert(ks[j] == out[j]);
            vstd::std_specs::btree::axiom_increasing_seq_meaning(ks);
            assert(ks[i].cmp_spec(&ks[j]) is Less);
        }
    }
    out
}

proof fn lemma_total_below_gap(day: Map<usize, DaysProjectWork>, a: int, b: int)
    requires
        0 <= a <= b <= usize::MAX + 1,
        forall|k: usize| a <= k < b ==> !(#[trigger] day.contains_key(k)),
    ensures
        total_below(day, b) == total_below(day, a),
    decreases b - a,
{
    if a < b {
        assert(!day.contains_key((b - 1) as usize));
        lemma_total_below_gap(day, a, b - 1);
    }
}

proof fn lemma_total_below_monotone(day: Map<usize, DaysProjectWork>, a: int, b: int)
    requires
        a <= b,
    ensures
        total_below(day, a) <= total_below(day, b),
    decreases b - a,
{
    if a < b {
        lemma_total_below_monotone(day, a, b - 1);
    }
}

proof fn lemma_days_total_monotone(w: WeekModel, a: int, b: int)
    requires
        0 <= a <= b,
        forall|d: int| 0 <= d < b ==> day_total(#[trigger] w.days[d]) >= 0,
    ensures
        days_total(w, a) <= days_total(w, b),
    decreases b - a,
{
    if a < b {
        lemma_days_total_monotone(w, a, b - 1);
    }
}

proof fn lemma_total_below_nonnegative(day: Map<usize, DaysProjectWork>, b: int)
    ensures
        total_below(day, b) >= 0,
    decreases b,
{
    if b > 0 {
        lemma_total_below_nonnegative(day, b - 1);
    }
}

/// Adds day `d` to the rows, and sums it.  `None` when the sum does not fit.
fn transpose_day(rows: &mut BTreeMap<usize, TransposedWeeksProjectWork>, day: &DaysWork, d: usize) -> (r: Option<u64>)
    requires
        d < 7,
        forall|p: usize| #[trigger] old(rows)@.contains_key(p) ==> old(rows)@[p].days@[d as int] == no_work(),
    ensures
        r is None ==> day_total(day@) > u64::MAX,
        r matches Some(t) ==> {
            &&& t == day_total(day@)
            &&& forall|p: usize| #[trigger] final(rows)@.contains_key(p) <==> old(rows)@.contains_key(p) || day@.contains_key(p)
            &&& forall|p: usize| #[trigger] final(rows)@.contains_key(p) ==> {
                &&& final(rows)@[p].days@[d as int] == entry(day@, p)
                &&& forall|e: int| 0 <= e < 7 && e != d ==> (#[trigger] final(rows)@[p].days@[e]) == if old(rows)@.contains_key(p) {
                    old(rows)@[p].days@[e]
                } else {
                    no_work()
                }
            }
        },
{
    let keys = day_keys(day);
    let mut sum: u64 = 0;
    let mut j: usize = 0;
    let ghost mut bound: int = 0;
    while j < keys.len()
        invariant
            d < 7,
            j <= keys.len(),
            forall|k: usize| day@.contains_key(k) <==> keys@.contains(k),
            forall|a: int, b: int| 0 <= a < b < keys.len() ==> keys[a] < keys[b],
            bound == if j == 0 { 0 } else { keys[j - 1] + 1 },
            forall|a: int| 0 <= a < j ==> keys[a] < bound,
            sum == total_below(day@, bound),
            forall|p: usize| #[trigger] rows@.contains_key(p) <==> old(rows)@.contains_key(p) || (day@.contains_key(p) && p < bound),
            forall|p: usize| #[trigger] rows@.contains_key(p) ==> {
                &&& rows@[p].days@[d as int] == if day@.contains_key(p) && p < bound { entry(day@, p) } else { no_work() }
                &&& forall|e: int| 0 <= e < 7 && e != d ==> (#[trigger] rows@[p].days@[e]) == if old(rows)@.contains_key(p) {
                    old(rows)@[p].days@[e]
                } else {
                    no_work()
                }
            },
        decreases keys.len() - j,
    {
        let k = keys[j];
        proof {
            assert(keys@.contains(k));
            assert forall|q: usize| bound <= q < k implies !(#[trigger] day@.contains_key(q)) by {
                if day@.contains_key(q) {
                    assert(keys@.contains(q));
                    let m = choose|m: int| 0 <= m < keys.len() && keys[m] == q;
                    if m < j {
                        assert(keys[m] < bound);
                    } else if m == j {
                    } else {
                        assert(keys[j as int] < keys[m]);
                    }
                }
            }
            if j > 0 {
                assert(keys[j - 1] < keys[j as int]);
            }
            lemma_total_below_gap(day@, bound, k as int);
        }
        let w = *day.get(&k).unwrap();
        if sum > u64::MAX - w.total_day {
            proof {
                lemma_total_below_monotone(day@, k + 1, usize::MAX + 1);
            }
            return None;
        }
        sum = sum + w.total_day;
        let mut row = match rows.get(&k) {
            Some(row) => *row,
            None => TransposedWeeksProjectWork::new(),
        };
        row.days[d] = w;
        rows.insert(k, row);
        proof {
            bound = k + 1;
        }
        j = j + 1;
    }
    proof {
        assert forall|q: usize| bound <= q < usize::MAX + 1 implies !(#[trigger] day@.contains_key(q)) by {
            if day@.contains_key(q) {
                assert(keys@.contains(q));
                let m = choose|m: int| 0 <= m < keys.len() && keys[m] == q;
                assert(keys[m] < bound);
            }
        }
        lemma_total_below_gap(day@, bound, usize::MAX + 1);
        assert forall|p: usize| day@.contains_key(p) implies p < bound by {
            assert(keys@.contains(p));
            let m = choose|m: int| 0 <= m < keys.len() && keys[m] == p;
            assert(keys[m] < bound);
        }
    }
    Some(sum)
}

impl WeeksWork {
    /// Reshapes the week into one row per project that some day books work
    /// on, with the total of each day and of the week.  `None` when the
    /// week's total does not fit in 64 bits of nanoseconds.
    pub fn transpose(self) -> (r: Option<TransposedWeeksWork>)
        ensures
            r is None <==> week_total(self@) > u64::MAX,
            r matches Some(t) ==> {
                &&& t.week_number == self.week_number
                &&& forall|p: usize| #[trigger] t.projects@.contains_key(p) <==> in_week(self@, p)
                &&& forall|p: usize| #[trigger] t.projects@.contains_key(p) ==> t.projects@[p].days@ == row_of(self@, p)
                &&& forall|d: int| 0 <= d < 7 ==> #[trigger] t.total.days@[d] == (DaysProjectWork {
                    total_day: day_total(self@.days[d]) as u64,
                    start: None,
                })
                &&& t.total_time == week_total(self@)
            },
    {
        let mut rows: BTreeMap<usize, TransposedWeeksProjectWork> = BTreeMap::new();
        let mut total = TransposedWeeksProjectWork::new();
        let mut total_time: u64 = 0;
        let mut d: usize = 0;
        while d < 7
            invariant
                d <= 7,
                total_time == days_total(self@, d as int),
                forall|e: int| 0 <= e < d ==> #[trigger] total.days@[e] == (DaysProjectWork {
                    total_day: day_total(self@.days[e]) as u64,
                    start: None,
                }),
                forall|e: int| 0 <= e < d ==> day_total(#[trigger] self@.days[e]) >= 0,
                forall|p: usize| #[trigger] rows@.contains_key(p) <==> exists|e: int| 0 <= e < d && (#[trigger] self@.days[e]).contains_key(p),
                forall|p: usize| #[trigger] rows@.contains_key(p) ==> forall|e: int| 0 <= e < 7 ==> (#[trigger] rows@[p].days@[e]) == if e < d {
                    entry(self@.days[e], p)
                } else {
                    no_work()
                },
            decreases 7 - d,
        {
            assert(self@.days[d as int] == self.days[d as int]@);
            let day_sum = match transpose_day(&mut rows, &self.days[d], d) {
                Some(t) => t,
                None => {
                    proof {
                        lemma_total_below_nonnegative(self@.days[d as int], usize::MAX + 1);
                        lemma_days_total_nonneg_all(self@);
                        lemma_days_total_monotone(self@, d + 1, 7);
                    }
                    return None;
                },
            };
            proof {
                lemma_total_below_nonnegative(self@.days[d as int], usize::MAX + 1);
            }
            if total_time > u64::MAX - day_sum {
                proof {
                    lemma_days_total_nonneg_all(self@);
                    lemma_days_total_monotone(self@, d + 1, 7);
                }
                return None;
            }
            total_time = total_time + day_sum;
            total.days[d] = DaysProjectWork { total_day: day_sum, start: None };
            d = d + 1;
        }
        let t = TransposedWeeksWork { total, total_time, projects: rows, week_number: self.week_number };
        assert forall|p: usize| #[trigger] t.projects@.contains_key(p) implies t.projects@[p].days@ == row_of(self@, p) by {
            assert(t.projects@[p].days@ =~= row_of(self@, p));
        }
        Some(t)
    }
}

proof fn lemma_days_total_nonneg_all(w: WeekModel)
    ensures
        forall|d: int| 0 <= d < 7 ==> day_total(#[trigger] w.days[d]) >= 0,
{
    assert forall|d: int| 0 <= d < 7 implies day_total(#[trigger] w.days[d]) >= 0 by {
        lemma_total_below_nonnegative(w.days[d], usize::MAX + 1);
    }
}

/// Whole hours, and the minutes left over, in a length of `nanos`
/// nanoseconds, as reports show it.
pub fn hours_and_minutes(nanos: u128) -> (r: (u128, u128))
    ensures
        r.0 == nanos / 3_600_000_000_000,
        r.1 == (nanos / 60_000_000_000) % 60,
{
    (nanos / 3_600_000_000_000, (nanos / 60_000_000_000) % 60)
}

} // verus!

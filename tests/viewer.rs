use timetrack::events::{Event, JobIdentifier, Sheet};
use timetrack::options::{new_job, JobType, Options};
use timetrack::time::{Timestamp, NANOS_PER_DAY, NANOS_PER_SECOND};
use timetrack::viewer::{
    hours_and_minutes, parse_sheet, Boundary, DaysProjectWork, ParsedSheet, ReportError, ReportErrorKind,
    TransposedWeeksProjectWork, Unfinished, WeeksWork,
};

// 2024-01-01, a Monday, in days after 1970-01-01.
const MONDAY: i64 = 19723;

fn nanos(day: i64, hour: i64, minute: i64) -> i64 {
    (MONDAY + day) * NANOS_PER_DAY + (hour * 3600 + minute * 60) * NANOS_PER_SECOND
}

fn at(day: i64, hour: i64, minute: i64) -> Timestamp {
    Timestamp::at(nanos(day, hour, minute))
}

fn minutes(m: i64) -> u64 {
    (m * 60 * NANOS_PER_SECOND) as u64
}

fn config_with_b() -> Options {
    let mut config = Options::for_home("/home/user");
    let job = JobType {
        internal_id: 7,
        u_name: String::from("ProjectB"),
        project_id: String::from("B-1"),
        category: String::from("dev"),
        description: String::from("second project"),
    };
    new_job(&mut config, job).unwrap();
    config
}

// A moment a month later, far from every day in these sheets.
fn later() -> Timestamp {
    at(30, 12, 0)
}

fn total(parsed: &ParsedSheet, week: usize, day: usize, project: usize) -> Option<u64> {
    parsed.weeks[week].days[day].get(&project).map(|w| w.total_day)
}

#[test]
fn pause_is_taken_off_the_day() {
    let config = Options::for_home("/home/user");
    let sheet: Sheet = vec![Event::BEGIN(at(0, 9, 0)), Event::PAUSE(minutes(30)), Event::END(at(0, 17, 0))];
    let parsed = parse_sheet(&sheet, &config, later()).unwrap();
    assert_eq!(parsed.weeks.len(), 1);
    assert_eq!(total(&parsed, 0, 0, 0), Some(minutes(450)));
    for day in 1..7 {
        assert!(parsed.weeks[0].days[day].is_empty());
    }
    assert!(parsed.warnings.is_empty());
    assert_eq!(parsed.current_project, 0);
}

#[test]
fn switch_splits_the_day() {
    let config = config_with_b();
    let sheet: Sheet = vec![
        Event::BEGIN(at(0, 9, 0)),
        Event::SWITCH(at(0, 11, 0), JobIdentifier::UName(String::from("ProjectB"))),
        Event::END(at(0, 17, 0)),
    ];
    let parsed = parse_sheet(&sheet, &config, later()).unwrap();
    assert_eq!(total(&parsed, 0, 0, 0), Some(minutes(120)));
    assert_eq!(total(&parsed, 0, 0, 7), Some(minutes(360)));
    assert_eq!(parsed.weeks[0].days[0].len(), 2);
    assert_eq!(parsed.current_project, 7);
    assert!(matches!(parsed.current(), JobIdentifier::InternalId(7)));
}

#[test]
fn session_past_midnight_is_booked_on_its_first_day() {
    // Sunday 2023-12-31 23:00 (ISO week 52) to Monday 2024-01-01 01:00 (week
    // 1): no event falls on Monday before the end, so nothing is split.
    let config = Options::for_home("/home/user");
    let sheet: Sheet = vec![Event::BEGIN(at(-1, 23, 0)), Event::END(at(0, 1, 0))];
    let parsed = parse_sheet(&sheet, &config, later()).unwrap();
    assert_eq!(parsed.weeks.len(), 1);
    assert_eq!(parsed.weeks[0].week_number, 52);
    assert_eq!(total(&parsed, 0, 6, 0), Some(minutes(120)));
    assert!(parsed.weeks[0].days[0].is_empty());
    assert!(parsed.warnings.is_empty());
}

#[test]
fn pause_while_nothing_runs_changes_nothing() {
    let config = Options::for_home("/home/user");
    let sheet: Sheet = vec![
        Event::BEGIN(at(0, 9, 0)),
        Event::END(at(0, 10, 0)),
        Event::PAUSE(minutes(30)),
        Event::BEGIN(at(0, 11, 0)),
        Event::END(at(0, 12, 0)),
    ];
    let parsed = parse_sheet(&sheet, &config, later()).unwrap();
    assert_eq!(total(&parsed, 0, 0, 0), Some(minutes(120)));
}

#[test]
fn session_open_over_midnight_is_not_split() {
    // No event falls on Tuesday before the report, so nothing is booked there.
    let config = Options::for_home("/home/user");
    let sheet: Sheet = vec![Event::BEGIN(at(0, 23, 0))];
    let parsed = parse_sheet(&sheet, &config, later()).unwrap();
    assert_eq!(total(&parsed, 0, 0, 0), Some(0));
    assert!(parsed.weeks[0].days[1].is_empty());
    assert_eq!(parsed.warnings, vec![Unfinished { project: 0, boundary: Boundary::Log }]);
}

#[test]
fn conservation_with_several_pauses() {
    let config = Options::for_home("/home/user");
    let sheet: Sheet = vec![
        Event::BEGIN(at(2, 8, 0)),
        Event::PAUSE(minutes(15)),
        Event::PAUSE(minutes(45)),
        Event::PAUSE(minutes(5)),
        Event::END(at(2, 16, 30)),
    ];
    let parsed = parse_sheet(&sheet, &config, later()).unwrap();
    assert_eq!(total(&parsed, 0, 2, 0), Some(minutes(8 * 60 + 30 - 65)));
}

#[test]
fn several_sessions_in_a_day_add_up() {
    let config = Options::for_home("/home/user");
    let sheet: Sheet = vec![
        Event::BEGIN(at(1, 8, 0)),
        Event::END(at(1, 12, 0)),
        Event::BEGIN(at(1, 13, 0)),
        Event::END(at(1, 15, 30)),
    ];
    let parsed = parse_sheet(&sheet, &config, later()).unwrap();
    assert_eq!(total(&parsed, 0, 1, 0), Some(minutes(390)));
}

#[test]
fn days_and_weeks_are_kept_apart() {
    let config = Options::for_home("/home/user");
    let sheet: Sheet = vec![
        Event::BEGIN(at(0, 9, 0)),
        Event::END(at(0, 10, 0)),
        Event::BEGIN(at(3, 9, 0)),
        Event::END(at(3, 11, 0)),
        Event::BEGIN(at(8, 9, 0)),
        Event::END(at(8, 12, 0)),
    ];
    let parsed = parse_sheet(&sheet, &config, later()).unwrap();
    assert_eq!(parsed.weeks.len(), 2);
    assert_eq!(parsed.weeks[0].week_number, 1);
    assert_eq!(parsed.weeks[1].week_number, 2);
    assert_eq!(total(&parsed, 0, 0, 0), Some(minutes(60)));
    assert_eq!(total(&parsed, 0, 3, 0), Some(minutes(120)));
    assert_eq!(total(&parsed, 1, 1, 0), Some(minutes(180)));
    assert!(parsed.warnings.is_empty());
}

#[test]
fn unfinished_work_is_dropped_with_a_warning() {
    let config = Options::for_home("/home/user");
    let sheet: Sheet = vec![
        Event::BEGIN(at(0, 9, 0)),
        Event::BEGIN(at(1, 9, 0)),
        Event::END(at(1, 10, 0)),
        Event::BEGIN(at(8, 9, 0)),
        Event::END(at(8, 10, 0)),
        Event::BEGIN(at(9, 9, 0)),
        Event::BEGIN(at(15, 9, 0)),
        Event::END(at(15, 9, 30)),
    ];
    let parsed = parse_sheet(&sheet, &config, later()).unwrap();
    assert_eq!(
        parsed.warnings,
        vec![
            Unfinished { project: 0, boundary: Boundary::Day },
            Unfinished { project: 0, boundary: Boundary::Week },
        ]
    );
    assert_eq!(total(&parsed, 0, 0, 0), Some(0));
    assert_eq!(total(&parsed, 0, 1, 0), Some(minutes(60)));
    assert_eq!(total(&parsed, 1, 1, 0), Some(minutes(60)));
    assert_eq!(total(&parsed, 1, 2, 0), Some(0));
    assert_eq!(total(&parsed, 2, 1, 0), Some(minutes(30)));
}

#[test]
fn work_running_today_counts_up_to_now() {
    let config = Options::for_home("/home/user");
    let sheet: Sheet = vec![Event::BEGIN(at(0, 9, 0)), Event::PAUSE(minutes(20))];
    let parsed = parse_sheet(&sheet, &config, at(0, 12, 0)).unwrap();
    assert_eq!(total(&parsed, 0, 0, 0), Some(minutes(160)));
    assert!(parsed.warnings.is_empty());
    // The sheet itself is untouched.
    assert_eq!(sheet.len(), 2);
}

#[test]
fn switch_before_the_first_begin_sets_the_project() {
    let config = config_with_b();
    let sheet: Sheet = vec![
        Event::SWITCH(at(0, 8, 0), JobIdentifier::InternalId(7)),
        Event::BEGIN(at(0, 9, 0)),
        Event::END(at(0, 10, 0)),
    ];
    let parsed = parse_sheet(&sheet, &config, later()).unwrap();
    assert_eq!(total(&parsed, 0, 0, 7), Some(minutes(60)));
    assert_eq!(total(&parsed, 0, 0, 0), None);
}

#[test]
fn switch_to_the_active_project_changes_nothing() {
    let config = config_with_b();
    let sheet: Sheet = vec![
        Event::BEGIN(at(0, 9, 0)),
        Event::SWITCH(at(0, 10, 0), JobIdentifier::UName(String::from("example"))),
        Event::END(at(0, 11, 0)),
    ];
    let parsed = parse_sheet(&sheet, &config, later()).unwrap();
    assert_eq!(total(&parsed, 0, 0, 0), Some(minutes(120)));
    assert_eq!(parsed.weeks[0].days[0].len(), 1);
}

#[test]
fn switch_back_and_forth_accumulates() {
    let config = config_with_b();
    let sheet: Sheet = vec![
        Event::BEGIN(at(0, 9, 0)),
        Event::SWITCH(at(0, 10, 0), JobIdentifier::InternalId(7)),
        Event::SWITCH(at(0, 11, 0), JobIdentifier::InternalId(0)),
        Event::SWITCH(at(0, 13, 0), JobIdentifier::InternalId(7)),
        Event::END(at(0, 14, 0)),
    ];
    let parsed = parse_sheet(&sheet, &config, later()).unwrap();
    assert_eq!(total(&parsed, 0, 0, 0), Some(minutes(180)));
    assert_eq!(total(&parsed, 0, 0, 7), Some(minutes(120)));
}

#[test]
fn report_errors_name_the_event() {
    let config = config_with_b();
    let cases: Vec<(Sheet, ReportError)> = vec![
        (
            vec![Event::END(at(0, 9, 0))],
            ReportError { position: 0, kind: ReportErrorKind::BeforeBegin },
        ),
        (
            vec![Event::PAUSE(5)],
            ReportError { position: 0, kind: ReportErrorKind::BeforeBegin },
        ),
        (
            vec![Event::BEGIN(at(0, 9, 0)), Event::END(at(0, 10, 0)), Event::END(at(0, 11, 0))],
            ReportError { position: 2, kind: ReportErrorKind::NothingRunning },
        ),
        (
            vec![Event::BEGIN(at(0, 9, 0)), Event::PAUSE(minutes(600)), Event::END(at(0, 17, 0))],
            ReportError { position: 2, kind: ReportErrorKind::NegativeInterval },
        ),
        (
            vec![Event::BEGIN(at(0, 9, 0)), Event::PAUSE(u64::MAX)],
            ReportError { position: 1, kind: ReportErrorKind::Overflow },
        ),
        (
            vec![Event::BEGIN(at(0, 9, 0)), Event::SWITCH(at(0, 10, 0), JobIdentifier::InternalId(99))],
            ReportError { position: 1, kind: ReportErrorKind::UnknownProject },
        ),
        (
            vec![Event::BEGIN(at(1, 9, 0)), Event::END(at(0, 9, 0))],
            ReportError { position: 1, kind: ReportErrorKind::NegativeInterval },
        ),
    ];
    for (sheet, expected) in cases {
        assert_eq!(parse_sheet(&sheet, &config, later()).err(), Some(expected));
    }
}

#[test]
fn empty_sheet_gives_one_empty_week() {
    let config = Options::for_home("/home/user");
    let sheet: Sheet = Vec::new();
    let parsed = parse_sheet(&sheet, &config, later()).unwrap();
    assert_eq!(parsed.weeks.len(), 1);
    assert_eq!(parsed.weeks[0].week_number, 0);
    assert!(parsed.weeks[0].days.iter().all(|d| d.is_empty()));
    assert_eq!(parsed.current_project, 0);
}

#[test]
fn reporting_a_closed_sheet_twice_gives_the_same_weeks() {
    let config = config_with_b();
    let sheet: Sheet = vec![
        Event::BEGIN(at(0, 9, 0)),
        Event::SWITCH(at(0, 12, 0), JobIdentifier::InternalId(7)),
        Event::END(at(0, 15, 0)),
    ];
    let first = parse_sheet(&sheet, &config, at(0, 16, 0)).unwrap();
    let second = parse_sheet(&sheet, &config, later()).unwrap();
    assert_eq!(format!("{:?}", first.weeks.iter().map(|w| &w.days).collect::<Vec<_>>()),
        format!("{:?}", second.weeks.iter().map(|w| &w.days).collect::<Vec<_>>()));
    assert_eq!(first.current_project, second.current_project);
    assert_eq!(first.warnings, second.warnings);
}

fn week_of(days: Vec<(usize, usize, u64)>) -> WeeksWork {
    let mut week = WeeksWork::new(12);
    for (day, project, total_day) in days {
        week.days[day].insert(project, DaysProjectWork { total_day, start: None });
    }
    week
}

#[test]
fn transpose_makes_one_row_per_project() {
    let week = week_of(vec![(0, 3, 100), (0, 1, 20), (2, 3, 5), (6, 9, 7)]);
    let t = week.transpose().unwrap();
    assert_eq!(t.week_number, 12);
    assert_eq!(t.projects.keys().copied().collect::<Vec<_>>(), vec![1, 3, 9]);
    assert_eq!(t.projects[&3].days[0].total_day, 100);
    assert_eq!(t.projects[&3].days[2].total_day, 5);
    assert_eq!(t.projects[&3].days[1].total_day, 0);
    assert_eq!(t.projects[&1].days[0].total_day, 20);
    assert_eq!(t.projects[&9].days[6].total_day, 7);
    assert_eq!(t.total.days[0].total_day, 120);
    assert_eq!(t.total.days[2].total_day, 5);
    assert_eq!(t.total.days[6].total_day, 7);
    assert_eq!(t.total_time, 132);
    assert_eq!(t.projects[&3].total_time(), 105);
}

#[test]
fn day_columns_add_up_over_projects() {
    let week = week_of(vec![(1, 0, 11), (1, 4, 22), (1, 8, 33), (5, 4, 1)]);
    let t = week.transpose().unwrap();
    for day in 0..7 {
        let column: u64 = t.projects.values().map(|row| row.days[day].total_day).sum();
        assert_eq!(column, t.total.days[day].total_day);
    }
    assert_eq!(t.total.days[1].total_day, 66);
}

#[test]
fn transpose_of_an_overflowing_week_is_none() {
    let week = week_of(vec![(0, 1, u64::MAX), (1, 1, 1)]);
    assert!(week.transpose().is_none());
    let week = week_of(vec![(0, 1, u64::MAX)]);
    assert_eq!(week.transpose().unwrap().total_time, u64::MAX);
}

#[test]
fn row_total_sums_seven_days() {
    let mut row = TransposedWeeksProjectWork::new();
    row.days[0].total_day = u64::MAX;
    row.days[6].total_day = 2;
    assert_eq!(row.total_time(), u64::MAX as u128 + 2);
}

#[test]
fn hours_and_minutes_of_a_length() {
    assert_eq!(hours_and_minutes(minutes(450) as u128), (7, 30));
    assert_eq!(hours_and_minutes(minutes(59) as u128 + 59_000_000_000), (0, 59));
    assert_eq!(hours_and_minutes(0), (0, 0));
}

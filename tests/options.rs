use timetrack::cli::Subcommands;
use timetrack::options::{new_job, open_sheet, sorted_jobs, JobType, LogType, NewJobError, Options};
use timetrack::time::{Timestamp, NANOS_PER_DAY};

fn job(id: usize, name: &str) -> JobType {
    JobType {
        internal_id: id,
        u_name: String::from(name),
        project_id: format!("prj-{}", id),
        category: String::from("c"),
        description: String::from("d"),
    }
}

#[test]
fn default_configuration_lives_in_the_home_directory() {
    let config = Options::for_home("/home/ann");
    assert_eq!(config.timesheet, "/home/ann/Timesheet.time");
    assert_eq!(config.config_path, "/home/ann/.config/timetrack");
    assert_eq!(config.current_project, "example");
    assert_eq!(config.default_output, LogType::Default);
    assert_eq!(config.projects.len(), 1);
    assert_eq!(config.projects[0].internal_id, 0);
    assert_eq!(config.projects[0].u_name, "example");
}

#[test]
fn default_job_is_the_phony_one() {
    let j = JobType::default();
    assert_eq!(j.internal_id, 0);
    assert_eq!(j.u_name, "example");
    assert_eq!(j.project_id, "0");
    assert_eq!(j.category, "0");
    assert_eq!(j.description, "A phony job type for when none is given.");
    assert_eq!(LogType::default(), LogType::Default);
}

#[test]
fn open_sheet_changes_only_the_sheet() {
    let config = Options::for_home("/home/ann");
    let config = open_sheet(config, "/tmp/other.time");
    assert_eq!(config.timesheet, "/tmp/other.time");
    assert_eq!(config.config_path, "/home/ann/.config/timetrack");
    assert_eq!(config.projects.len(), 1);
}

#[test]
fn new_job_refuses_duplicates() {
    let mut config = Options::for_home("/home/ann");
    assert_eq!(new_job(&mut config, job(3, "alpha")), Ok(()));
    assert_eq!(new_job(&mut config, job(3, "beta")), Err(NewJobError::DuplicateId));
    assert_eq!(new_job(&mut config, job(4, "alpha")), Err(NewJobError::DuplicateName));
    assert_eq!(new_job(&mut config, job(0, "alpha")), Err(NewJobError::DuplicateId));
    assert_eq!(config.projects.len(), 2);
    assert_eq!(config.projects[1].u_name, "alpha");
}

#[test]
fn jobs_are_listed_by_internal_id() {
    let jobs = vec![job(5, "e"), job(1, "a"), job(3, "c"), job(0, "z")];
    let sorted = sorted_jobs(jobs);
    let ids: Vec<usize> = sorted.iter().map(|j| j.internal_id).collect();
    assert_eq!(ids, vec![0, 1, 3, 5]);
    assert_eq!(sorted[0].u_name, "z");
}

#[test]
fn jobs_with_equal_ids_keep_their_order() {
    let jobs = vec![job(2, "b1"), job(1, "a"), job(2, "b2"), job(2, "b3"), job(0, "z")];
    let names: Vec<String> = sorted_jobs(jobs).into_iter().map(|j| j.u_name).collect();
    assert_eq!(names, vec!["z", "a", "b1", "b2", "b3"]);
}

#[test]
fn job_clone_is_equal() {
    let a = job(9, "nine");
    let b = a.clone();
    assert_eq!(b.internal_id, 9);
    assert_eq!(b.u_name, "nine");
    assert_eq!(b.project_id, "prj-9");
}

#[test]
fn timestamps_know_their_week_and_weekday() {
    // 2024-01-01 is a Monday in ISO week 1; the day before is in week 52.
    let monday = Timestamp::at(19723 * NANOS_PER_DAY);
    assert_eq!(monday.week, 1);
    assert_eq!(monday.weekday(), 0);
    let sunday = Timestamp::at(19722 * NANOS_PER_DAY + 1);
    assert_eq!(sunday.week, 52);
    assert_eq!(sunday.weekday(), 6);
    // 1969-12-31 was a Wednesday.
    let before_epoch = Timestamp::at(-1);
    assert_eq!(before_epoch.weekday(), 2);
    assert_eq!(Timestamp::at(0).weekday(), 3);
}

#[test]
fn commands_that_change_the_sheet() {
    assert!(Subcommands::Begin { duration: None }.changes_sheet());
    assert!(Subcommands::Nevermind.changes_sheet());
    assert!(Subcommands::Switch { project: String::from("x") }.changes_sheet());
    assert!(!Subcommands::Show.changes_sheet());
    assert!(!Subcommands::Sheet { sheet_name: String::from("f") }.changes_sheet());
}

//! Configuration: where the sheet lives and which projects are registered.

use vstd::prelude::*;
use vstd::string::StringExecFns;

verus! {

/// How a report is laid out.
#[derive(Clone, Copy, Debug, PartialEq, Eq, Structural)]
pub enum LogType {
    Default,
}

impl Default for LogType {
    fn default() -> (r: LogType)
        ensures
            r == LogType::Default,
    {
        LogType::Default
    }
}

/// A registered project.  `internal_id` and `u_name` identify it; the other
/// fields are only shown to the user.
#[derive(Debug)]
pub struct JobType {
    pub internal_id: usize,
    pub u_name: String,
    pub project_id: String,
    pub category: String,
    pub description: String,
}

impl Clone for JobType {
    fn clone(&self) -> (r: JobType)
        ensures
            r == *self,
    {
        JobType {
            internal_id: self.internal_id,
            u_name: self.u_name.clone(),
            project_id: self.project_id.clone(),
            category: self.category.clone(),
            description: self.description.clone(),
        }
    }
}

/// The project that work is booked on before any switch: internal id 0,
/// named "example".
pub open spec fn is_default_job(j: JobType) -> bool {
    &&& j.internal_id == 0
    &&& j.u_name@ == "example"@
    &&& j.project_id@ == "0"@
    &&& j.category@ == "0"@
    &&& j.description@ == "A phony job type for when none is given."@
}

impl Default for JobType {
    fn default() -> (r: JobType)
        ensures
            is_default_job(r),
    {
        JobType {
            internal_id: 0,
            u_name: "example".to_owned(),
            project_id: "0".to_owned(),
            category: "0".to_owned(),
            description: "A phony job type for when none is given.".to_owned(),
        }
    }
}

/// The whole configuration, as kept in the configuration file.
#[derive(Debug)]
pub struct Options {
    pub timesheet: String,
    pub default_output: LogType,
    pub projects: Vec<JobType>,
    pub current_project: String,
    pub config_path: String,
}

/// Why a new project was refused.
#[derive(Clone, Copy, Debug, PartialEq, Eq, Structural)]
pub enum NewJobError {
    /// A registered project has the same internal id.
    DuplicateId,
    /// A registered project has the same unique name.
    DuplicateName,
}

pub open spec fn has_internal_id(projects: Seq<JobType>, id: usize) -> bool {
    exists|i: int| 0 <= i < projects.len() && (#[trigger] projects[i]).internal_id == id
}

pub open spec fn has_name(projects: Seq<JobType>, name: Seq<char>) -> bool {
    exists|i: int| 0 <= i < projects.len() && (#[trigger] projects[i]).u_name@ == name
}

/// The projects of `projects` with internal id `id`, in their order there.
pub open spec fn with_internal_id(projects: Seq<JobType>, id: usize) -> Seq<JobType> {
    projects.filter(|j: JobType| j.internal_id == id)
}

/// The projects ordered by internal id, as they are listed to the user.
pub open spec fn sorted_by_internal_id(projects: Seq<JobType>) -> bool {
    forall|i: int, j: int|
        0 <= i <= j < projects.len() ==> (#[trigger] projects[i]).internal_id
            <= (#[trigger] projects[j]).internal_id
}

impl Options {
    /// The configuration used when none has been saved: the sheet and the
    /// configuration file under the home directory `home`, and the default
    /// project as the only one.
    pub fn for_home(home: &str) -> (r: Options)
        ensures
            r.timesheet@ == home@ + "/Timesheet.time"@,
            r.config_path@ == home@ + "/.config/timetrack"@,
            r.default_output == LogType::Default,
            r.projects@.len() == 1,
            is_default_job(r.projects@[0]),
            r.current_project@ == "example"@,
    {
        let timesheet = home.to_owned().concat("/Timesheet.time");
        let config_path = home.to_owned().concat("/.config/timetrack");
        let job = JobType::default();
        let current_project = job.u_name.clone();
        Options {
            timesheet,
            default_output: LogType::default(),
            projects: vec![job],
            current_project,
            config_path,
        }
    }
}

/// Points the configuration at another sheet; nothing else changes.
pub fn open_sheet(config: Options, sheet_name: &str) -> (r: Options)
    ensures
        r.timesheet@ == sheet_name@,
        r.default_output == config.default_output,
        r.projects == config.projects,
        r.current_project == config.current_project,
        r.config_path == config.config_path,
{
    Options { timesheet: sheet_name.to_owned(), ..config }
}

/// Registers `job`, unless a registered project already has its internal id
/// or its unique name; the id is checked first.  A refused project leaves the
/// configuration as it was.
pub fn new_job(config: &mut Options, job: JobType) -> (r: Result<(), NewJobError>)
    ensures
        has_internal_id(old(config).projects@, job.internal_id) ==> r == Err::<(), _>(
            NewJobError::DuplicateId,
        ),
        !has_internal_id(old(config).projects@, job.internal_id) && has_name(
            old(config).projects@,
            job.u_name@,
        ) ==> r == Err::<(), _>(NewJobError::DuplicateName),
        r is Ok <==> !has_internal_id(old(config).projects@, job.internal_id) && !has_name(
            old(config).projects@,
            job.u_name@,
        ),
        r is Ok ==> final(config).projects@ == old(config).projects@.push(job),
        r is Err ==> final(config).projects@ == old(config).projects@,
        final(config).timesheet == old(config).timesheet,
        final(config).default_output == old(config).default_output,
        final(config).current_project == old(config).current_project,
        final(config).config_path == old(config).config_path,
{
    let mut i: usize = 0;
    while i < config.projects.len()
        invariant
            *config == *old(config),
            0 <= i <= config.projects.len(),
            forall|k: int| 0 <= k < i ==> (#[trigger] config.projects@[k]).internal_id != job.internal_id,
        decreases config.projects.len() - i,
    {
        if config.projects[i].internal_id == job.internal_id {
            return Err(NewJobError::DuplicateId);
        }
        i = i + 1;
    }
    let mut i: usize = 0;
    while i < config.projects.len()
        invariant
            *config == *old(config),
            !has_internal_id(config.projects@, job.internal_id),
            0 <= i <= config.projects.len(),
            forall|k: int| 0 <= k < i ==> (#[trigger] config.projects@[k]).u_name@ != job.u_name@,
        decreases config.projects.len() - i,
    {
        if config.projects[i].u_name == job.u_name {
            return Err(NewJobError::DuplicateName);
        }
        i = i + 1;
    }
    config.projects.push(job);
    Ok(())
}

/// The registered projects in the order of their internal ids; projects
/// with the same id keep their order in the registry.
pub fn sorted_jobs(projects: Vec<JobType>) -> (r: Vec<JobType>)
    ensures
        r@.to_multiset() == projects@.to_multiset(),
        sorted_by_internal_id(r@),
        forall|id: usize| with_internal_id(r@, id) == with_internal_id(projects@, id),
{
    let mut projects = projects;
    sort_by_internal_id(&mut projects);
    projects
}

/// Relies on `slice::sort_by_key`, a stable sort: the same elements, ordered
/// by the key, here the internal id, and elements with equal keys in their
/// order before the sort.
#[verifier::external_body]
fn sort_by_internal_id(projects: &mut Vec<JobType>)
    ensures
        final(projects)@.to_multiset() == old(projects)@.to_multiset(),
        sorted_by_internal_id(final(projects)@),
        forall|id: usize| with_internal_id(final(projects)@, id) == with_internal_id(old(projects)@, id),
{
    projects.sort_by_key(|job| job.internal_id);
}

} // verus!

//! The ledger's data model, held as plain values. Durations are kept in
//! seconds — the exact figure the services exchange — and the identifier of
//! a mirrored worklog is the optional text the ledger stores for it.

use vstd::prelude::*;

verus! {

/// A ledger user.
#[derive(Clone, Debug, PartialEq, Eq)]
pub struct User {
    pub id: i64,
    pub firstname: String,
    pub lastname: String,
}

/// A customer a project belongs to.
#[derive(Clone, Debug, PartialEq, Eq)]
pub struct Customer {
    pub id: i64,
    pub name: String,
}

/// The task an activity was booked on.
#[derive(Clone, Debug, PartialEq, Eq)]
pub struct Task {
    pub id: i64,
    pub name: String,
    pub billable: bool,
}

/// The project reference an activity carries.
#[derive(Clone, Debug, PartialEq, Eq)]
pub struct ActivitieProject {
    pub id: i64,
    pub name: String,
    pub billable: bool,
}

/// One ledger entry, whether created by hand or by an earlier
/// synchronization run.
#[derive(Clone, Debug, PartialEq, Eq)]
pub struct Activitie {
    pub id: i64,
    pub date: String,
    pub seconds: i64,
    pub description: String,
    pub billed: bool,
    pub billable: bool,
    pub tag: String,
    pub remote_service: String,
    pub remote_id: Option<String>,
    pub remote_url: Option<String>,
    pub project: ActivitieProject,
    pub task: Task,
    pub customer: Customer,
    pub user: User,
    pub timer_started_at: Option<String>,
    pub created_at: String,
    pub updated_at: String,
}

/// A task of an assignable project.
#[derive(Clone, Debug, PartialEq, Eq)]
pub struct ProjectTask {
    pub id: i64,
    pub name: String,
    pub active: bool,
    pub billable: bool,
}

/// A project the user may book on.
#[derive(Clone, Debug, PartialEq, Eq)]
pub struct Project {
    pub id: i64,
    pub identifier: String,
    pub name: String,
    pub active: bool,
    pub billable: bool,
    pub customer: Customer,
    pub tasks: Vec<ProjectTask>,
}

/// The payload that creates one ledger entry.
#[derive(Clone, Debug, PartialEq, Eq)]
pub struct CreateActivity {
    pub date: String,
    pub description: String,
    pub project_id: i64,
    pub task_id: i64,
    pub seconds: Option<i64>,
    pub tag: Option<String>,
    pub remote_service: Option<String>,
    pub remote_id: Option<String>,
    pub remote_url: Option<String>,
}

/// Whether two optional texts hold the same characters.
pub open spec fn opt_text_like(a: Option<String>, b: Option<String>) -> bool {
    match (a, b) {
        (Some(x), Some(y)) => x@ == y@,
        (None, None) => true,
        _ => false,
    }
}

impl CreateActivity {
    /// Whether two payloads say the same thing, character for character.
    pub open spec fn like(self, other: CreateActivity) -> bool {
        &&& self.date@ == other.date@
        &&& self.description@ == other.description@
        &&& self.project_id == other.project_id
        &&& self.task_id == other.task_id
        &&& self.seconds == other.seconds
        &&& opt_text_like(self.tag, other.tag)
        &&& opt_text_like(self.remote_service, other.remote_service)
        &&& opt_text_like(self.remote_id, other.remote_id)
        &&& opt_text_like(self.remote_url, other.remote_url)
    }

    /// A copy of the payload that says the same thing.
    pub fn duplicate(&self) -> (r: CreateActivity)
        ensures
            r.like(*self),
    {
        CreateActivity {
            date: self.date.clone(),
            description: self.description.clone(),
            project_id: self.project_id,
            task_id: self.task_id,
            seconds: self.seconds,
            tag: clone_opt_text(&self.tag),
            remote_service: clone_opt_text(&self.remote_service),
            remote_id: clone_opt_text(&self.remote_id),
            remote_url: clone_opt_text(&self.remote_url),
        }
    }
}

/// A copy of an optional text with the same characters.
pub fn clone_opt_text(o: &Option<String>) -> (r: Option<String>)
    ensures
        opt_text_like(r, *o),
{
    match o {
        Some(s) => Some(s.clone()),
        None => None,
    }
}

} // verus!

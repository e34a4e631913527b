//! What the time-logging service reports for a date range: a list of worklog
//! results, each carrying its external identifier, the seconds spent, the
//! day it belongs to and a description.

use vstd::prelude::*;

verus! {

/// One remote worklog.
#[derive(Clone, Debug, PartialEq, Eq)]
pub struct Result {
    pub time_spent_seconds: i64,
    pub billable_seconds: i64,
    pub start_date: String,
    pub start_time: String,
    pub created_at: String,
    pub updated_at: String,
    pub issue: Issue,
    pub description: String,
    pub jira_worklog_id: i64,
}

/// The issue a worklog was booked on.
#[derive(Clone, Debug, PartialEq, Eq)]
pub struct Issue {
    pub key: String,
}

/// A page of worklogs.
#[derive(Clone, Debug, PartialEq, Eq)]
pub struct Response {
    pub results: Vec<Result>,
}

} // verus!

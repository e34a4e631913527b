//! Decisions behind the interactive prompts: validating typed answers,
//! resolving a typed list index, and finding a project, task or activity by
//! an optionally given id. The prompting itself — printing and reading lines
//! — happens outside the library and feeds these functions plain values.

use vstd::prelude::*;
use vstd::string::*;
use crate::digits::{parsed_i64, parse_i64};
use crate::moco::model::{Activitie, Project, ProjectTask};

verus! {

/// Accepts any answer.
#[allow(unused_variables)]
pub fn optional_validator(input: &str) -> (r: Option<String>)
    ensures
        r is None,
{
    None
}

/// Demands a nonempty answer, with the complaint to show otherwise.
pub fn mandatory_validator(input: &str) -> (r: Option<String>)
    ensures
        (input@.len() == 0) <==> (r is Some),
        (match r {
            Some(m) => m@ == "Input is required"@,
            None => true,
        }),
{
    if input.is_empty() {
        Some(String::from_str("Input is required"))
    } else {
        None
    }
}

/// The id a lookup searches for: the given one, or an id no entry carries
/// when none was given, so that the caller falls back to asking.
pub open spec fn wanted_id(wanted: Option<i64>) -> int {
    match wanted {
        Some(v) => v as int,
        None => -1,
    }
}

/// The position of the first project with the wanted id, if any.
pub fn find_project_index(projects: &Vec<Project>, wanted: Option<i64>) -> (r: Option<usize>)
    ensures
        (match r {
            Some(i) => i < projects@.len() && projects@[i as int].id == wanted_id(wanted)
                && forall|j: int| 0 <= j < i ==> (#[trigger] projects@[j]).id != wanted_id(wanted),
            None => forall|j: int|
                0 <= j < projects@.len() ==> (#[trigger] projects@[j]).id != wanted_id(wanted),
        }),
{
    let target: i64 = match wanted {
        Some(v) => v,
        None => -1,
    };
    let n = projects.len();
    let mut i: usize = 0;
    while i < n
        invariant
            i <= n,
            n == projects@.len(),
            target == wanted_id(wanted),
            forall|j: int| 0 <= j < i ==> (#[trigger] projects@[j]).id != wanted_id(wanted),
        decreases n - i,
    {
        if projects[i].id == target {
            return Some(i);
        }
        i = i + 1;
    }
    None
}

/// The position of the first task with the wanted id, if any.
pub fn find_task_index(tasks: &Vec<ProjectTask>, wanted: Option<i64>) -> (r: Option<usize>)
    ensures
        (match r {
            Some(i) => i < tasks@.len() && tasks@[i as int].id == wanted_id(wanted) && forall|
                j: int,
            | 0 <= j < i ==> (#[trigger] tasks@[j]).id != wanted_id(wanted),
            None => forall|j: int|
                0 <= j < tasks@.len() ==> (#[trigger] tasks@[j]).id != wanted_id(wanted),
        }),
{
    let target: i64 = match wanted {
        Some(v) => v,
        None => -1,
    };
    let n = tasks.len();
    let mut i: usize = 0;
    while i < n
        invariant
            i <= n,
            n == tasks@.len(),
            target == wanted_id(wanted),
            forall|j: int| 0 <= j < i ==> (#[trigger] tasks@[j]).id != wanted_id(wanted),
        decreases n - i,
    {
        if tasks[i].id == target {
            return Some(i);
        }
        i = i + 1;
    }
    None
}

/// The position of the first activity with the wanted id, if any.
pub fn find_activity_index(activities: &Vec<Activitie>, wanted: Option<i64>) -> (r: Option<usize>)
    ensures
        (match r {
            Some(i) => i < activities@.len() && activities@[i as int].id == wanted_id(wanted)
                && forall|j: int|
                0 <= j < i ==> (#[trigger] activities@[j]).id != wanted_id(wanted),
            None => forall|j: int|
                0 <= j < activities@.len() ==> (#[trigger] activities@[j]).id != wanted_id(wanted),
        }),
{
    let target: i64 = match wanted {
        Some(v) => v,
        None => -1,
    };
    let n = activities.len();
    let mut i: usize = 0;
    while i < n
        invariant
            i <= n,
            n == activities@.len(),
            target == wanted_id(wanted),
            forall|j: int| 0 <= j < i ==> (#[trigger] activities@[j]).id != wanted_id(wanted),
        decreases n - i,
    {
        if activities[i].id == target {
            return Some(i);
        }
        i = i + 1;
    }
    None
}

/// What a typed answer selects from a list of the given length: the number
/// it spells, when that is a position in the list.
pub fn parse_index_selection(line: &str, len: usize) -> (r: Option<usize>)
    ensures
        (match r {
            Some(i) => i < len && parsed_i64(line@) == Some(i as int),
            None => (match parsed_i64(line@) {
                Some(v) => !(0 <= v < len),
                None => true,
            }),
        }),
{
    match parse_i64(line) {
        Some(v) => {
            if v >= 0 && (v as u64) < (len as u64) {
                Some(v as usize)
            } else {
                None
            }
        },
        None => None,
    }
}

} // verus!

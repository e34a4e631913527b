//! The computed side of the ledger client: endpoint texts built from the
//! company name, the query an activity fetch sends, the check that a login
//! has happened, and the lookup of the user's id among employments. The HTTP
//! transport itself is issued by the surrounding program.

use vstd::prelude::*;
use vstd::string::*;
use crate::config::AppConfig;
use crate::digits::{int_str, i64_to_string};
use crate::error::SyncError;
use crate::moco::model::User;

verus! {

/// The text every ledger endpoint starts with for a given company.
pub open spec fn api_base(company: Seq<char>) -> Seq<char> {
    "https://"@ + company + ".mocoapp.com/api/v1/"@
}

/// The endpoint that lists the user's employments.
pub fn employments_url(company: &String) -> (r: String)
    ensures
        r@ == api_base(company@) + "users/employments"@,
{
    let mut url = String::from_str("https://");
    url.append(company.as_str());
    url.append(".mocoapp.com/api/v1/");
    url.append("users/employments");
    assert(url@ =~= api_base(company@) + "users/employments"@);
    url
}

/// The endpoint that lists and creates activities.
pub fn activities_url(company: &String) -> (r: String)
    ensures
        r@ == api_base(company@) + "activities"@,
{
    let mut url = String::from_str("https://");
    url.append(company.as_str());
    url.append(".mocoapp.com/api/v1/");
    url.append("activities");
    assert(url@ =~= api_base(company@) + "activities"@);
    url
}

/// The endpoint of one activity: fetched, edited or deleted by its id.
pub fn activity_url(company: &String, activity_id: i64) -> (r: String)
    ensures
        r@ == api_base(company@) + "activities/"@ + int_str(activity_id as int),
{
    let mut url = String::from_str("https://");
    url.append(company.as_str());
    url.append(".mocoapp.com/api/v1/");
    url.append("activities/");
    let id_text = i64_to_string(activity_id);
    url.append(id_text.as_str());
    assert(url@ =~= api_base(company@) + "activities/"@ + int_str(activity_id as int));
    url
}

/// The endpoint that starts or stops the timer of one activity; `control` is
/// the verb the service expects, "start" or "stop".
pub fn timer_url(company: &String, activity_id: i64, control: &String) -> (r: String)
    ensures
        r@ == api_base(company@) + "activities/"@ + int_str(activity_id as int) + "/"@ + control@
            + "_timer"@,
{
    let mut url = String::from_str("https://");
    url.append(company.as_str());
    url.append(".mocoapp.com/api/v1/");
    url.append("activities/");
    let id_text = i64_to_string(activity_id);
    url.append(id_text.as_str());
    url.append("/");
    url.append(control.as_str());
    url.append("_timer");
    assert(url@ =~= api_base(company@) + "activities/"@ + int_str(activity_id as int) + "/"@
        + control@ + "_timer"@);
    url
}

/// The endpoint that lists the projects assigned to the user.
pub fn assigned_projects_url(company: &String) -> (r: String)
    ensures
        r@ == api_base(company@) + "projects/assigned"@,
{
    let mut url = String::from_str("https://");
    url.append(company.as_str());
    url.append(".mocoapp.com/api/v1/");
    url.append("projects/assigned");
    assert(url@ =~= api_base(company@) + "projects/assigned"@);
    url
}

/// The query parameters of an activity fetch: the inclusive date range, the
/// user whose entries are wanted, and optionally a task and a search term to
/// narrow the answer.
pub fn activities_query(
    from: String,
    to: String,
    user_id: i64,
    task_id: Option<String>,
    term: Option<String>,
) -> (r: Vec<(String, String)>)
    ensures
        r@.len() == 3 + (if task_id is Some { 1int } else { 0int }) + (if term is Some {
            1int
        } else {
            0int
        }),
        r@[0].0@ == "from"@ && r@[0].1@ == from@,
        r@[1].0@ == "to"@ && r@[1].1@ == to@,
        r@[2].0@ == "user_id"@ && r@[2].1@ == int_str(user_id as int),
        (match task_id {
            Some(t) => r@[3].0@ == "task_id"@ && r@[3].1@ == t@,
            None => true,
        }),
        (match (task_id, term) {
            (Some(_), Some(s)) => r@[4].0@ == "term"@ && r@[4].1@ == s@,
            (None, Some(s)) => r@[3].0@ == "term"@ && r@[3].1@ == s@,
            _ => true,
        }),
{
    let mut params: Vec<(String, String)> = Vec::new();
    params.push((String::from_str("from"), from));
    params.push((String::from_str("to"), to));
    params.push((String::from_str("user_id"), i64_to_string(user_id)));
    match task_id {
        Some(t) => params.push((String::from_str("task_id"), t)),
        None => (),
    }
    match term {
        Some(s) => params.push((String::from_str("term"), s)),
        None => (),
    }
    params
}

/// The credentials a ledger call must carry: the API key and the company,
/// present exactly when a login has stored both, else the run is not
/// authenticated.
pub fn moco_auth(config: &AppConfig) -> (r: Result<(String, String), SyncError>)
    ensures
        (match (config.moco_api_key, config.moco_company) {
            (Some(k), Some(c)) => r matches Ok(p) && p.0@ == k@ && p.1@ == c@,
            _ => r matches Err(e) && e is Unauthenticated,
        }),
{
    match (&config.moco_api_key, &config.moco_company) {
        (Some(k), Some(c)) => Ok((k.clone(), c.clone())),
        _ => Err(SyncError::Unauthenticated),
    }
}

/// Whether this user matches the given names exactly.
pub open spec fn user_matches(u: User, firstname: Seq<char>, lastname: Seq<char>) -> bool {
    u.firstname@ == firstname && u.lastname@ == lastname
}

/// The id of the first listed user with the given names, if any: what a
/// login resolves the entered names to.
pub fn find_user_id(users: &Vec<User>, firstname: &String, lastname: &String) -> (r: Option<i64>)
    ensures
        (match r {
            Some(id) => exists|i: int|
                0 <= i < users@.len() && user_matches(#[trigger] users@[i], firstname@, lastname@)
                    && users@[i].id == id,
            None => forall|i: int|
                0 <= i < users@.len() ==> !user_matches(#[trigger] users@[i], firstname@, lastname@),
        }),
{
    let n = users.len();
    let mut i: usize = 0;
    while i < n
        invariant
            i <= n,
            n == users@.len(),
            forall|k: int|
                0 <= k < i ==> !user_matches(#[trigger] users@[k], firstname@, lastname@),
        decreases n - i,
    {
        let u = &users[i];
        if u.firstname.eq(firstname) && u.lastname.eq(lastname) {
            return Some(u.id);
        }
        i = i + 1;
    }
    None
}

} // verus!

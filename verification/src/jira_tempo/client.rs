//! The computed side of the worklog source's client: the endpoint texts, the
//! query a worklog fetch sends, and the check that a login has happened. The
//! calls themselves are issued by the surrounding program, which hands the
//! parsed responses back as plain model values.

use vstd::prelude::*;
use vstd::string::*;
use crate::config::AppConfig;
use crate::error::SyncError;

verus! {

/// The endpoint queried to probe that an API key works.
pub fn test_login_url() -> (r: String)
    ensures
        r@ == "https://api.tempo.io/core/3/globalconfiguration"@,
{
    String::from_str("https://api.tempo.io/core/3/globalconfiguration")
}

/// The endpoint that lists worklogs.
pub fn worklogs_url() -> (r: String)
    ensures
        r@ == "https://api.tempo.io/core/3/worklogs"@,
{
    String::from_str("https://api.tempo.io/core/3/worklogs")
}

/// The query parameters of a worklog fetch: the inclusive date range and the
/// fixed page limit.
pub fn worklogs_query(from: String, to: String) -> (r: Vec<(String, String)>)
    ensures
        r@.len() == 3,
        r@[0].0@ == "from"@ && r@[0].1@ == from@,
        r@[1].0@ == "to"@ && r@[1].1@ == to@,
        r@[2].0@ == "limit"@ && r@[2].1@ == "1000"@,
{
    let mut params: Vec<(String, String)> = Vec::new();
    params.push((String::from_str("from"), from));
    params.push((String::from_str("to"), to));
    params.push((String::from_str("limit"), String::from_str("1000")));
    params
}

/// The token a call to the time-logging service must carry: present exactly
/// when a login has stored one, else the run is not authenticated.
pub fn tempo_auth_token(config: &AppConfig) -> (r: Result<String, SyncError>)
    ensures
        (match config.jira_tempo_api_key {
            Some(k) => r matches Ok(t) && t@ == k@,
            None => r matches Err(e) && e is Unauthenticated,
        }),
{
    match &config.jira_tempo_api_key {
        Some(k) => Ok(k.clone()),
        None => Err(SyncError::Unauthenticated),
    }
}

} // verus!

//! The credentials and identity this tool works with. The configuration is
//! read once at startup and treated as immutable for the rest of the run;
//! persistence of the file itself is a concern of the surrounding program.

use vstd::prelude::*;

verus! {

/// Credentials for the two services, absent until the matching login has
/// happened.
#[derive(Clone, Debug)]
pub struct AppConfig {
    pub moco_company: Option<String>,
    pub moco_api_key: Option<String>,
    pub moco_user_id: Option<i64>,
    pub jira_tempo_api_key: Option<String>,
}

impl AppConfig {
    /// A configuration with nothing set yet.
    pub fn empty() -> (r: AppConfig)
        ensures
            r.moco_company is None,
            r.moco_api_key is None,
            r.moco_user_id is None,
            r.jira_tempo_api_key is None,
    {
        AppConfig { moco_company: None, moco_api_key: None, moco_user_id: None, jira_tempo_api_key: None }
    }
}

} // verus!

use mococp::cli::{Login, Sync, Timer};
use mococp::config::AppConfig;
use mococp::error::SyncError;
use mococp::jira_tempo::client::{tempo_auth_token, test_login_url, worklogs_query, worklogs_url};
use mococp::moco::client::{
    activities_query, activities_url, activity_url, assigned_projects_url, employments_url,
    find_user_id, moco_auth, timer_url,
};
use mococp::moco::model::{Activitie, ActivitieProject, Customer, Project, ProjectTask, Task, User};
use mococp::utils::{
    find_activity_index, find_project_index, find_task_index, mandatory_validator,
    optional_validator, parse_index_selection,
};

fn config(moco: bool, tempo: bool) -> AppConfig {
    AppConfig {
        moco_company: if moco { Some("acme".to_string()) } else { None },
        moco_api_key: if moco { Some("moco-key".to_string()) } else { None },
        moco_user_id: Some(4),
        jira_tempo_api_key: if tempo { Some("tempo-key".to_string()) } else { None },
    }
}

#[test]
fn tempo_urls_are_fixed() {
    assert_eq!(test_login_url(), "https://api.tempo.io/core/3/globalconfiguration");
    assert_eq!(worklogs_url(), "https://api.tempo.io/core/3/worklogs");
}

#[test]
fn worklogs_query_holds_range_and_limit() {
    let q = worklogs_query("2024-03-01".to_string(), "2024-03-31".to_string());
    assert_eq!(
        q,
        vec![
            ("from".to_string(), "2024-03-01".to_string()),
            ("to".to_string(), "2024-03-31".to_string()),
            ("limit".to_string(), "1000".to_string()),
        ]
    );
}

#[test]
fn tempo_auth_requires_a_key() {
    assert!(tempo_auth_token(&config(true, true)).is_ok());
    assert_eq!(tempo_auth_token(&config(true, false)), Err(SyncError::Unauthenticated));
}

#[test]
fn moco_auth_requires_key_and_company() {
    let ok = moco_auth(&config(true, false)).unwrap();
    assert_eq!(ok.1, "acme");
    assert_eq!(moco_auth(&config(false, true)), Err(SyncError::Unauthenticated));
    let mut half = config(true, false);
    half.moco_company = None;
    assert_eq!(moco_auth(&half), Err(SyncError::Unauthenticated));
}

#[test]
fn moco_urls_follow_the_company() {
    let company = "acme".to_string();
    assert_eq!(employments_url(&company), "https://acme.mocoapp.com/api/v1/users/employments");
    assert_eq!(activities_url(&company), "https://acme.mocoapp.com/api/v1/activities");
    assert_eq!(activity_url(&company, 42), "https://acme.mocoapp.com/api/v1/activities/42");
    assert_eq!(
        timer_url(&company, 42, &"start".to_string()),
        "https://acme.mocoapp.com/api/v1/activities/42/start_timer"
    );
    assert_eq!(
        timer_url(&company, 42, &"stop".to_string()),
        "https://acme.mocoapp.com/api/v1/activities/42/stop_timer"
    );
    assert_eq!(
        assigned_projects_url(&company),
        "https://acme.mocoapp.com/api/v1/projects/assigned"
    );
}

#[test]
fn activities_query_narrows_when_asked() {
    let q = activities_query("2024-03-01".to_string(), "2024-03-31".to_string(), 4, None, None);
    assert_eq!(
        q,
        vec![
            ("from".to_string(), "2024-03-01".to_string()),
            ("to".to_string(), "2024-03-31".to_string()),
            ("user_id".to_string(), "4".to_string()),
        ]
    );
    let q = activities_query(
        "2024-03-01".to_string(),
        "2024-03-31".to_string(),
        4,
        Some("9".to_string()),
        Some("sync-marker".to_string()),
    );
    assert_eq!(q.len(), 5);
    assert_eq!(q[3], ("task_id".to_string(), "9".to_string()));
    assert_eq!(q[4], ("term".to_string(), "sync-marker".to_string()));
}

#[test]
fn find_user_id_matches_both_names() {
    let users = vec![
        User { id: 1, firstname: "Ada".to_string(), lastname: "Byron".to_string() },
        User { id: 2, firstname: "Alan".to_string(), lastname: "Turing".to_string() },
    ];
    assert_eq!(find_user_id(&users, &"Alan".to_string(), &"Turing".to_string()), Some(2));
    assert_eq!(find_user_id(&users, &"Alan".to_string(), &"Byron".to_string()), None);
    assert_eq!(find_user_id(&users, &"Ada".to_string(), &"Byron".to_string()), Some(1));
}

#[test]
fn validators_behave_as_promised() {
    assert_eq!(optional_validator(""), None);
    assert_eq!(optional_validator("anything"), None);
    assert_eq!(mandatory_validator(""), Some("Input is required".to_string()));
    assert_eq!(mandatory_validator("x"), None);
}

#[test]
fn index_selection_checks_bounds() {
    assert_eq!(parse_index_selection("1", 3), Some(1));
    assert_eq!(parse_index_selection("0", 3), Some(0));
    assert_eq!(parse_index_selection("3", 3), None);
    assert_eq!(parse_index_selection("-1", 3), None);
    assert_eq!(parse_index_selection("x", 3), None);
    assert_eq!(parse_index_selection("", 3), None);
}

fn project(id: i64) -> Project {
    Project {
        id,
        identifier: "P".to_string(),
        name: "Project".to_string(),
        active: true,
        billable: true,
        customer: Customer { id: 1, name: "C".to_string() },
        tasks: vec![ProjectTask { id: 9, name: "T".to_string(), active: true, billable: true }],
    }
}

fn activity(id: i64) -> Activitie {
    Activitie {
        id,
        date: "2024-03-04".to_string(),
        seconds: 3600,
        description: String::new(),
        billed: false,
        billable: true,
        tag: String::new(),
        remote_service: String::new(),
        remote_id: None,
        remote_url: None,
        project: ActivitieProject { id: 1, name: "P".to_string(), billable: true },
        task: Task { id: 9, name: "T".to_string(), billable: true },
        customer: Customer { id: 1, name: "C".to_string() },
        user: User { id: 4, firstname: "A".to_string(), lastname: "B".to_string() },
        timer_started_at: None,
        created_at: String::new(),
        updated_at: String::new(),
    }
}

#[test]
fn lookups_find_the_first_match_or_nothing() {
    let projects = vec![project(5), project(6)];
    assert_eq!(find_project_index(&projects, Some(6)), Some(1));
    assert_eq!(find_project_index(&projects, Some(7)), None);
    assert_eq!(find_project_index(&projects, None), None);

    let tasks = vec![
        ProjectTask { id: 9, name: "T".to_string(), active: true, billable: true },
        ProjectTask { id: 10, name: "U".to_string(), active: true, billable: true },
    ];
    assert_eq!(find_task_index(&tasks, Some(9)), Some(0));
    assert_eq!(find_task_index(&tasks, None), None);

    let activities = vec![activity(31), activity(32)];
    assert_eq!(find_activity_index(&activities, Some(32)), Some(1));
    assert_eq!(find_activity_index(&activities, Some(33)), None);
}

#[test]
fn error_messages_name_their_kind() {
    assert_eq!(SyncError::Unauthenticated.message(), "NotLoggedIn");
    assert_eq!(SyncError::TransportFailure("boom".to_string()).message(), "boom");
    assert_eq!(SyncError::ItemCreationFailed("no".to_string()).message(), "no");
}

#[test]
fn empty_config_has_nothing_set() {
    let c = AppConfig::empty();
    assert!(c.moco_company.is_none());
    assert!(c.moco_api_key.is_none());
    assert!(c.moco_user_id.is_none());
    assert!(c.jira_tempo_api_key.is_none());
}

#[test]
fn cli_choices_compare() {
    assert_eq!(Login::Moco, Login::Moco);
    assert_ne!(Login::Moco, Login::Jira);
    assert_ne!(Timer::Start, Timer::Stop);
    assert_eq!(Sync::Jira, Sync::Jira);
}

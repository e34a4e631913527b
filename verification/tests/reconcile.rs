use mococp::digits::{i64_to_string, parse_i64, u64_to_string};
use mococp::engine::{diff, is_synced};
use mococp::jira_tempo::model::{Issue, Response, Result as Worklog};
use mococp::moco::model::{Activitie, ActivitieProject, Customer, Task, User};

fn worklog(id: i64, seconds: i64, date: &str, description: &str) -> Worklog {
    Worklog {
        time_spent_seconds: seconds,
        billable_seconds: seconds,
        start_date: date.to_string(),
        start_time: "09:00:00".to_string(),
        created_at: String::new(),
        updated_at: String::new(),
        issue: Issue { key: "AB-1".to_string() },
        description: description.to_string(),
        jira_worklog_id: id,
    }
}

fn activity(id: i64, remote_id: Option<&str>) -> Activitie {
    Activitie {
        id,
        date: "2024-03-04".to_string(),
        seconds: 7200,
        description: "Fix bug".to_string(),
        billed: false,
        billable: true,
        tag: "sync-marker".to_string(),
        remote_service: "jira".to_string(),
        remote_id: remote_id.map(|s| s.to_string()),
        remote_url: None,
        project: ActivitieProject { id: 1, name: "P".to_string(), billable: true },
        task: Task { id: 2, name: "T".to_string(), billable: true },
        customer: Customer { id: 3, name: "C".to_string() },
        user: User { id: 4, firstname: "A".to_string(), lastname: "B".to_string() },
        timer_started_at: None,
        created_at: String::new(),
        updated_at: String::new(),
    }
}

#[test]
fn one_unsynced_worklog_becomes_one_request() {
    let worklogs = vec![worklog(101, 7200, "2024-03-04", "Fix bug")];
    let existing: Vec<Activitie> = vec![];
    let out = diff(&worklogs, &existing, 7, 9);
    assert_eq!(out.len(), 1);
    let r = &out[0];
    assert_eq!(r.date, "2024-03-04");
    assert_eq!(r.seconds, Some(7200));
    assert_eq!(r.description, "Fix bug");
    assert_eq!(r.project_id, 7);
    assert_eq!(r.task_id, 9);
    assert_eq!(r.tag.as_deref(), Some("sync-marker"));
    assert_eq!(r.remote_service.as_deref(), Some("jira"));
    assert_eq!(r.remote_id.as_deref(), Some("101"));
    assert_eq!(r.remote_url, None);
}

#[test]
fn already_mirrored_worklog_is_skipped() {
    let worklogs = vec![worklog(101, 7200, "2024-03-04", "Fix bug")];
    let existing = vec![activity(9, Some("101"))];
    let out = diff(&worklogs, &existing, 7, 9);
    assert_eq!(out.len(), 0);
}

#[test]
fn activity_without_remote_id_never_matches() {
    let worklogs = vec![worklog(101, 7200, "2024-03-04", "Fix bug")];
    let existing = vec![activity(9, None)];
    let out = diff(&worklogs, &existing, 7, 9);
    assert_eq!(out.len(), 1);
}

#[test]
fn unparseable_remote_id_never_matches() {
    let worklogs = vec![worklog(101, 7200, "2024-03-04", "Fix bug")];
    let existing = vec![activity(9, Some("not-a-number"))];
    let out = diff(&worklogs, &existing, 7, 9);
    assert_eq!(out.len(), 1);
    // even a worklog id of zero does not match garbage text
    let worklogs = vec![worklog(0, 60, "2024-03-04", "x")];
    let out = diff(&worklogs, &existing, 7, 9);
    assert_eq!(out.len(), 1);
}

#[test]
fn candidates_keep_input_order() {
    let worklogs = vec![
        worklog(1, 60, "2024-03-04", "a"),
        worklog(2, 120, "2024-03-05", "b"),
        worklog(3, 180, "2024-03-06", "c"),
    ];
    let existing = vec![activity(9, Some("2"))];
    let out = diff(&worklogs, &existing, 7, 9);
    assert_eq!(out.len(), 2);
    assert_eq!(out[0].remote_id.as_deref(), Some("1"));
    assert_eq!(out[1].remote_id.as_deref(), Some("3"));
    assert_eq!(out[0].description, "a");
    assert_eq!(out[1].description, "c");
}

#[test]
fn rerun_after_apply_finds_nothing() {
    // first run: two of three worklogs are missing
    let worklogs = vec![
        worklog(11, 60, "2024-03-04", "a"),
        worklog(12, 120, "2024-03-05", "b"),
        worklog(13, 180, "2024-03-06", "c"),
    ];
    let existing1 = vec![activity(1, Some("12"))];
    let first = diff(&worklogs, &existing1, 7, 9);
    assert_eq!(first.len(), 2);
    // the ledger after the apply: the old entry plus one entry per request
    let mut existing2 = existing1.clone();
    for (k, req) in first.iter().enumerate() {
        let mut a = activity(100 + k as i64, None);
        a.remote_id = req.remote_id.clone();
        existing2.push(a);
    }
    // second run: idempotence
    let second = diff(&worklogs, &existing2, 7, 9);
    assert_eq!(second.len(), 0);
}

#[test]
fn no_worklogs_means_an_empty_plan() {
    let worklogs: Vec<Worklog> = vec![];
    let existing = vec![activity(9, Some("101"))];
    let out = diff(&worklogs, &existing, 7, 9);
    assert!(out.is_empty());
    let out = diff(&worklogs, &Vec::new(), 7, 9);
    assert!(out.is_empty());
}

#[test]
fn repeated_worklog_ids_are_kept_in_order() {
    let worklogs = vec![
        worklog(5, 60, "2024-03-04", "first"),
        worklog(5, 120, "2024-03-05", "second"),
    ];
    let out = diff(&worklogs, &Vec::new(), 7, 9);
    assert_eq!(out.len(), 2);
    assert_eq!(out[0].description, "first");
    assert_eq!(out[1].description, "second");
}

#[test]
fn is_synced_parses_stored_text() {
    let existing = vec![activity(9, Some("101")), activity(10, Some("x"))];
    assert!(is_synced(101, &existing));
    assert!(!is_synced(102, &existing));
}

#[test]
fn response_holds_its_results() {
    let r = Response { results: vec![worklog(5, 60, "2024-03-04", "a")] };
    assert_eq!(r.results.len(), 1);
    assert_eq!(r.results[0].jira_worklog_id, 5);
}

#[test]
fn number_text_round_trips() {
    assert_eq!(i64_to_string(0), "0");
    assert_eq!(i64_to_string(101), "101");
    assert_eq!(i64_to_string(-45), "-45");
    assert_eq!(i64_to_string(i64::MIN), "-9223372036854775808");
    assert_eq!(i64_to_string(i64::MAX), "9223372036854775807");
    assert_eq!(u64_to_string(0), "0");
    assert_eq!(u64_to_string(90210), "90210");
    for v in [0i64, 1, -1, 101, i64::MIN, i64::MAX] {
        assert_eq!(parse_i64(&i64_to_string(v)), Some(v));
    }
}

#[test]
fn parse_rejects_what_is_not_a_number() {
    assert_eq!(parse_i64(""), None);
    assert_eq!(parse_i64("-"), None);
    assert_eq!(parse_i64("+"), None);
    assert_eq!(parse_i64("abc"), None);
    assert_eq!(parse_i64("12x"), None);
    assert_eq!(parse_i64(" 12"), None);
    assert_eq!(parse_i64("9223372036854775808"), None);
    assert_eq!(parse_i64("-9223372036854775809"), None);
}

#[test]
fn parse_accepts_signs_and_bounds() {
    assert_eq!(parse_i64("+7"), Some(7));
    assert_eq!(parse_i64("-0"), Some(0));
    assert_eq!(parse_i64("007"), Some(7));
    assert_eq!(parse_i64("9223372036854775807"), Some(i64::MAX));
    assert_eq!(parse_i64("-9223372036854775808"), Some(i64::MIN));
}

use mococp::moco::model::CreateActivity;
use mococp::plan::{hours_string, SyncOutcome, SyncPlanExecutor};
use mococp::table::render_rows;

fn request(id: i64, seconds: i64, date: &str, description: &str) -> CreateActivity {
    CreateActivity {
        date: date.to_string(),
        description: description.to_string(),
        project_id: 7,
        task_id: 9,
        seconds: Some(seconds),
        tag: Some("sync-marker".to_string()),
        remote_service: Some("jira".to_string()),
        remote_id: Some(id.to_string()),
        remote_url: None,
    }
}

#[test]
fn hours_string_renders_hundredths() {
    assert_eq!(hours_string(7200), "2.00");
    assert_eq!(hours_string(5400), "1.50");
    assert_eq!(hours_string(4500), "1.25");
    assert_eq!(hours_string(1200), "0.33");
    assert_eq!(hours_string(0), "0.00");
    assert_eq!(hours_string(-3600), "-1.00");
    assert_eq!(hours_string(59), "0.01");
    assert_eq!(hours_string(35), "0.00");
}

#[test]
fn apply_continues_past_a_failure() {
    let cands = vec![
        request(1, 3600, "2024-03-04", "a"),
        request(2, 3600, "2024-03-05", "b"),
        request(3, 3600, "2024-03-06", "c"),
    ];
    let mut ex = SyncPlanExecutor::new(cands, false);
    let mut submitted: Vec<String> = Vec::new();
    loop {
        let req = match ex.next_request() {
            Some(r) => r.clone(),
            None => break,
        };
        submitted.push(req.remote_id.clone().unwrap());
        // the second item fails; the run must go on
        if req.remote_id.as_deref() == Some("2") {
            ex.record_failed("validation rejected".to_string());
        } else {
            ex.record_created();
        }
    }
    // every candidate was attempted, in order
    assert_eq!(submitted, vec!["1".to_string(), "2".to_string(), "3".to_string()]);
    let (created, failed) = ex.summary();
    assert_eq!(created, 2);
    assert_eq!(failed, 1);
    assert_eq!(ex.outcomes.len(), 3);
    match &ex.outcomes[1] {
        SyncOutcome::Failed { request: r, reason } => {
            assert_eq!(r.remote_id.as_deref(), Some("2"));
            assert_eq!(reason, "validation rejected");
        }
        _ => panic!("the second outcome must be the failure"),
    }
    match &ex.outcomes[0] {
        SyncOutcome::Created { request: r } => assert_eq!(r.remote_id.as_deref(), Some("1")),
        _ => panic!("the first outcome must be a creation"),
    }
}

#[test]
fn dry_run_submits_nothing() {
    let cands = vec![request(1, 3600, "2024-03-04", "a")];
    let ex = SyncPlanExecutor::new(cands, true);
    assert!(ex.next_request().is_none());
    let (created, failed) = ex.summary();
    assert_eq!((created, failed), (0, 0));
}

#[test]
fn preview_is_the_same_in_both_modes() {
    let cands = vec![
        request(1, 5400, "2024-03-04", "a"),
        request(2, 7200, "2024-03-05", "b"),
    ];
    let dry = SyncPlanExecutor::new(cands.clone(), true);
    let wet = SyncPlanExecutor::new(cands, false);
    assert_eq!(dry.preview_lines(), wet.preview_lines());
    assert_eq!(dry.preview_rows(), wet.preview_rows());
}

#[test]
fn preview_rows_carry_the_plan() {
    let cands = vec![request(101, 7200, "2024-03-04", "Fix bug")];
    let ex = SyncPlanExecutor::new(cands, true);
    let rows = ex.preview_rows();
    assert_eq!(rows.len(), 2);
    assert_eq!(
        rows[0],
        vec!["Date", "Duration (hours)", "Description", "Project ID", "Task ID"]
    );
    assert_eq!(rows[1], vec!["2024-03-04", "2.00", "Fix bug", "7", "9"]);
}

#[test]
fn empty_plan_previews_as_nothing_to_sync() {
    let ex = SyncPlanExecutor::new(Vec::new(), true);
    let lines = ex.preview_lines();
    assert_eq!(lines, vec!["Nothing, everything seems to be Synced!"]);
}

#[test]
fn preview_lines_are_padded_and_tabbed() {
    let ex = SyncPlanExecutor::new(vec![request(1, 3600, "2024-03-04", "a")], true);
    let lines = ex.preview_lines();
    assert_eq!(lines.len(), 2);
    // every cell is padded to its column's width and followed by a tab
    assert_eq!(lines[0], "Date      \tDuration (hours)\tDescription\tProject ID\tTask ID\t");
    assert_eq!(lines[1], "2024-03-04\t1.00            \ta          \t7         \t9      \t");
}

#[test]
fn render_rows_pads_to_column_widths() {
    let table = vec![
        vec!["ab".to_string(), "c".to_string()],
        vec!["d".to_string(), "efg".to_string()],
    ];
    let lines = render_rows(&table);
    assert_eq!(lines, vec!["ab\tc  \t".to_string(), "d \tefg\t".to_string()]);
}

#[test]
fn render_rows_of_nothing_is_nothing() {
    let lines = render_rows(&Vec::new());
    assert!(lines.is_empty());
}

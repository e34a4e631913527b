//! The reconciliation engine: which remote worklogs have no mirror in the
//! ledger yet, and the creation request each missing one becomes. An
//! activity mirrors a worklog exactly when its stored remote identifier
//! parses to the worklog's id; entries without one never count as mirrors,
//! so a doubtful case is re-created rather than silently skipped. Candidates
//! keep the order of the incoming worklog list.

use vstd::prelude::*;
use vstd::string::*;
use crate::digits::{parsed_i64, int_str, i64_to_string, parse_i64, lemma_int_str_roundtrip};
use crate::jira_tempo::model::Result as Worklog;
use crate::moco::model::{Activitie, CreateActivity};

verus! {

/// The tag stamped on every activity this engine creates; dedup queries are
/// scoped by it.
pub fn sync_tag() -> (r: String)
    ensures
        r@ == "sync-marker"@,
{
    String::from_str("sync-marker")
}

/// The name under which the worklog source is recorded on mirrored
/// activities.
pub fn remote_service_name() -> (r: String)
    ensures
        r@ == "jira"@,
{
    String::from_str("jira")
}

/// The worklog identifier a ledger activity claims to mirror, when its
/// stored text parses as one.
pub open spec fn spec_remote_parsed(a: Activitie) -> Option<int> {
    match a.remote_id {
        Some(s) => parsed_i64(s@),
        None => None,
    }
}

/// Whether some existing activity already mirrors worklog id `id`.
pub open spec fn spec_is_synced(id: int, existing: Seq<Activitie>) -> bool {
    exists|j: int| 0 <= j < existing.len() && spec_remote_parsed(#[trigger] existing[j]) == Some(id)
}

/// The worklogs of `ws` not yet mirrored in `existing`, in input order.
pub open spec fn spec_candidates(ws: Seq<Worklog>, existing: Seq<Activitie>) -> Seq<Worklog> {
    ws.filter(|w: Worklog| !spec_is_synced(w.jira_worklog_id as int, existing))
}

/// How a creation request mirrors a worklog for the given target project and
/// task: date and description are carried over, the duration is kept in
/// seconds to avoid rounding, and the sync tagging convention fills the
/// rest.
pub open spec fn req_matches(r: CreateActivity, w: Worklog, project_id: i64, task_id: i64) -> bool {
    &&& r.date@ == w.start_date@
    &&& r.description@ == w.description@
    &&& r.project_id == project_id
    &&& r.task_id == task_id
    &&& r.seconds == Some(w.time_spent_seconds)
    &&& (match r.tag {
        Some(t) => t@ == "sync-marker"@,
        None => false,
    })
    &&& (match r.remote_service {
        Some(s) => s@ == "jira"@,
        None => false,
    })
    &&& (match r.remote_id {
        Some(s) => s@ == int_str(w.jira_worklog_id as int),
        None => false,
    })
    &&& r.remote_url is None
}

/// Whether some existing activity already mirrors worklog id `id`.
pub fn is_synced(id: i64, existing: &Vec<Activitie>) -> (b: bool)
    ensures
        b == spec_is_synced(id as int, existing@),
{
    let n = existing.len();
    let mut j: usize = 0;
    while j < n
        invariant
            j <= n,
            n == existing@.len(),
            forall|k: int|
                0 <= k < j ==> spec_remote_parsed(#[trigger] existing@[k]) != Some(id as int),
        decreases n - j,
    {
        match &existing[j].remote_id {
            Some(s) => {
                match parse_i64(s.as_str()) {
                    Some(v) => {
                        if v == id {
                            return true;
                        }
                    },
                    None => (),
                }
            },
            None => (),
        }
        j = j + 1;
    }
    false
}

/// The creation request that mirrors one worklog.
pub fn build_request(w: &Worklog, project_id: i64, task_id: i64) -> (r: CreateActivity)
    ensures
        req_matches(r, *w, project_id, task_id),
{
    CreateActivity {
        date: w.start_date.clone(),
        description: w.description.clone(),
        project_id,
        task_id,
        seconds: Some(w.time_spent_seconds),
        tag: Some(sync_tag()),
        remote_service: Some(remote_service_name()),
        remote_id: Some(i64_to_string(w.jira_worklog_id)),
        remote_url: None,
    }
}

/// The plan of a run: one creation request for each worklog not yet
/// mirrored, in the order the worklogs came in.
pub fn diff(
    worklogs: &Vec<Worklog>,
    existing: &Vec<Activitie>,
    project_id: i64,
    task_id: i64,
) -> (r: Vec<CreateActivity>)
    ensures
        r@.len() == spec_candidates(worklogs@, existing@).len(),
        forall|i: int|
            0 <= i < r@.len() ==> req_matches(
                #[trigger] r@[i],
                spec_candidates(worklogs@, existing@)[i],
                project_id,
                task_id,
            ),
{
    let ghost pred = |w: Worklog| !spec_is_synced(w.jira_worklog_id as int, existing@);
    let mut out: Vec<CreateActivity> = Vec::new();
    let n = worklogs.len();
    let mut i: usize = 0;
    proof {
        assert(worklogs@.take(0) =~= Seq::<Worklog>::empty());
        assert(Seq::<Worklog>::empty().filter(pred) =~= Seq::<Worklog>::empty()) by {
            Seq::<Worklog>::empty().lemma_filter_len(pred);
        }
    }
    while i < n
        invariant
            i <= n,
            n == worklogs@.len(),
            pred == (|w: Worklog| !spec_is_synced(w.jira_worklog_id as int, existing@)),
            out@.len() == worklogs@.take(i as int).filter(pred).len(),
            forall|k: int|
                0 <= k < out@.len() ==> req_matches(
                    #[trigger] out@[k],
                    worklogs@.take(i as int).filter(pred)[k],
                    project_id,
                    task_id,
                ),
        decreases n - i,
    {
        let w = &worklogs[i];
        proof {
            assert(worklogs@.take(i as int + 1) =~= worklogs@.take(i as int).push(
                worklogs@[i as int],
            ));
            worklogs@.take(i as int).lemma_filter_push(worklogs@[i as int], pred);
            assert(worklogs@.take(i as int + 1).filter(pred) == worklogs@.take(i as int).push(
                worklogs@[i as int],
            ).filter(pred));
        }
        if !is_synced(w.jira_worklog_id, existing) {
            let req = build_request(w, project_id, task_id);
            out.push(req);
        }
        i = i + 1;
    }
    proof {
        assert(worklogs@.take(n as int) =~= worklogs@);
    }
    out
}

/// Whether this activity's stored remote identifier is the text of `id`.
pub open spec fn mirrors(a: Activitie, id: int) -> bool {
    match a.remote_id {
        Some(s) => s@ == int_str(id),
        None => false,
    }
}

/// When every worklog is already mirrored, the plan is empty.
proof fn lemma_candidates_empty(ws: Seq<Worklog>, existing: Seq<Activitie>)
    requires
        forall|i: int|
            0 <= i < ws.len() ==> spec_is_synced(#[trigger] ws[i].jira_worklog_id as int, existing),
    ensures
        spec_candidates(ws, existing).len() == 0,
    decreases ws.len(),
{
    reveal(Seq::filter);
    if ws.len() > 0 {
        assert(ws.drop_last() =~= ws.take(ws.len() - 1));
        assert(forall|i: int|
            0 <= i < ws.drop_last().len() ==> ws.drop_last()[i] == ws[i]);
        lemma_candidates_empty(ws.drop_last(), existing);
    }
}

/// Running the engine again finds nothing to do, once the ledger holds a
/// mirror for everything the first run saw: every worklog that was already
/// synced still is — the first run's activities are all still there — and
/// every worklog the first run planned now has an activity storing its
/// identifier's text, which parses back to the identifier. This is what
/// makes re-running the synchronization safe.
pub proof fn lemma_second_run_empty(
    ws: Seq<Worklog>,
    existing1: Seq<Activitie>,
    existing2: Seq<Activitie>,
)
    requires
        forall|k: int| 0 <= k < existing1.len() ==> existing2.contains(#[trigger] existing1[k]),
        forall|i: int|
            0 <= i < ws.len() ==> spec_is_synced(#[trigger] ws[i].jira_worklog_id as int, existing1)
                || exists|j: int|
                0 <= j < existing2.len() && mirrors(
                    #[trigger] existing2[j],
                    ws[i].jira_worklog_id as int,
                ),
    ensures
        spec_candidates(ws, existing2).len() == 0,
{
    assert forall|i: int| 0 <= i < ws.len() implies spec_is_synced(
        #[trigger] ws[i].jira_worklog_id as int,
        existing2,
    ) by {
        let id = ws[i].jira_worklog_id as int;
        if spec_is_synced(id, existing1) {
            let j = choose|j: int|
                0 <= j < existing1.len() && spec_remote_parsed(#[trigger] existing1[j]) == Some(id);
            assert(existing2.contains(existing1[j]));
            let k = choose|k: int| 0 <= k < existing2.len() && existing2[k] == existing1[j];
            assert(spec_remote_parsed(existing2[k]) == Some(id));
        } else {
            let j = choose|j: int| 0 <= j < existing2.len() && mirrors(#[trigger] existing2[j], id);
            lemma_int_str_roundtrip(id);
            assert(spec_remote_parsed(existing2[j]) == Some(id));
        }
    }
    lemma_candidates_empty(ws, existing2);
}

} // verus!

//! Executing a synchronization plan. The same candidate list feeds both
//! modes: the preview renders it without touching the ledger, and the apply
//! run walks it one request at a time, recording one outcome per candidate
//! and carrying on past failures — a single bad item never aborts the batch.
//! The surrounding program performs each submission and reports its result
//! back; this state machine decides what is next and keeps the book.

use vstd::prelude::*;
use vstd::string::*;
use crate::digits::{dec_str, pad2, int_str, push_dec, push_char};
use crate::moco::model::CreateActivity;
use crate::table::{spec_line, table_views, render_rows};

verus! {

/// The result of submitting one creation request.
#[derive(Clone, Debug)]
pub enum SyncOutcome {
    /// The ledger accepted the request.
    Created { request: CreateActivity },
    /// The ledger or the transport rejected it; the reason is kept for the
    /// report.
    Failed { request: CreateActivity, reason: String },
}

/// The request an outcome speaks of.
pub open spec fn outcome_request(o: SyncOutcome) -> CreateActivity {
    match o {
        SyncOutcome::Created { request } => request,
        SyncOutcome::Failed { request, reason: _ } => request,
    }
}

/// The hours text of a nonnegative duration in seconds: whole hours, a
/// point, and two digits of hundredths, rounded toward zero.
pub open spec fn pos_hours_text(n: int) -> Seq<char> {
    dec_str(n / 3600) + seq!['.'] + pad2((n % 3600) * 100 / 3600)
}

/// The hours text of a duration in seconds.
pub open spec fn spec_hours_text(n: int) -> Seq<char> {
    if n < 0 {
        seq!['-'] + pos_hours_text(-n)
    } else {
        pos_hours_text(n)
    }
}

/// Renders a duration in seconds as hours.
pub fn hours_string(seconds: i64) -> (r: String)
    ensures
        r@ == spec_hours_text(seconds as int),
{
    let mut s = String::new();
    if seconds < 0 {
        push_char(&mut s, '-');
    }
    let mag: u64 = if seconds < 0 {
        (-(seconds as i128)) as u64
    } else {
        seconds as u64
    };
    let h: u64 = mag / 3600;
    let rem: u64 = mag % 3600;
    let centi: u64 = rem * 100 / 3600;
    push_dec(h, &mut s);
    push_char(&mut s, '.');
    if centi < 10 {
        push_char(&mut s, '0');
    }
    push_dec(centi, &mut s);
    assert(s@ =~= spec_hours_text(seconds as int));
    s
}

/// The heading of the preview table.
pub open spec fn header_row() -> Seq<Seq<char>> {
    seq!["Date"@, "Duration (hours)"@, "Description"@, "Project ID"@, "Task ID"@]
}

/// The preview cells of one request: its date, its duration in hours, its
/// description and the targeted project and task.
pub open spec fn spec_row(c: CreateActivity) -> Seq<Seq<char>> {
    seq![
        c.date@,
        spec_hours_text(
            match c.seconds {
                Some(s) => s as int,
                None => 0,
            },
        ),
        c.description@,
        int_str(c.project_id as int),
        int_str(c.task_id as int),
    ]
}

/// The preview table of a plan: a heading and one row per request.
pub open spec fn spec_preview(cands: Seq<CreateActivity>) -> Seq<Seq<Seq<char>>> {
    seq![header_row()] + cands.map_values(|c: CreateActivity| spec_row(c))
}

/// How many outcomes report a creation.
pub open spec fn count_created(os: Seq<SyncOutcome>) -> int
    decreases os.len(),
{
    if os.len() == 0 {
        0
    } else {
        count_created(os.drop_last()) + if os.last() is Created {
            1int
        } else {
            0int
        }
    }
}

/// How many outcomes report a failure.
pub open spec fn count_failed(os: Seq<SyncOutcome>) -> int
    decreases os.len(),
{
    if os.len() == 0 {
        0
    } else {
        count_failed(os.drop_last()) + if os.last() is Failed {
            1int
        } else {
            0int
        }
    }
}

/// Created and failed outcomes together account for every outcome: none is
/// silently dropped.
pub proof fn lemma_outcome_partition(os: Seq<SyncOutcome>)
    ensures
        count_created(os) + count_failed(os) == os.len(),
    decreases os.len(),
{
    if os.len() > 0 {
        lemma_outcome_partition(os.drop_last());
    }
}

/// The walk over one plan: the candidates, the mode, and one outcome for
/// each candidate already handled.
pub struct SyncPlanExecutor {
    pub dry_run: bool,
    pub candidates: Vec<CreateActivity>,
    pub outcomes: Vec<SyncOutcome>,
}

impl SyncPlanExecutor {
    /// Outcomes never outnumber candidates, and the outcome at each position
    /// speaks of the candidate at that position.
    pub open spec fn wf(self) -> bool {
        &&& self.outcomes@.len() <= self.candidates@.len()
        &&& forall|i: int|
            0 <= i < self.outcomes@.len() ==> outcome_request(#[trigger] self.outcomes@[i]).like(
                self.candidates@[i],
            )
    }

    /// A fresh run over the given plan: nothing handled yet.
    pub fn new(candidates: Vec<CreateActivity>, dry_run: bool) -> (r: Self)
        ensures
            r.wf(),
            r.candidates@ == candidates@,
            r.dry_run == dry_run,
            r.outcomes@.len() == 0,
    {
        SyncPlanExecutor { dry_run, candidates, outcomes: Vec::new() }
    }

    /// The next request to submit: the first candidate without an outcome.
    /// A preview run hands out nothing, so it can have no side effect; an
    /// apply run hands out one request per candidate, in order.
    pub fn next_request(&self) -> (r: Option<&CreateActivity>)
        ensures
            (match r {
                Some(req) => !self.dry_run && self.outcomes@.len() < self.candidates@.len()
                    && *req == self.candidates@[self.outcomes@.len() as int],
                None => self.dry_run || self.outcomes@.len() >= self.candidates@.len(),
            }),
    {
        if self.dry_run {
            None
        } else if self.outcomes.len() < self.candidates.len() {
            Some(&self.candidates[self.outcomes.len()])
        } else {
            None
        }
    }

    /// Records that the pending request was created. The run advances by one
    /// item; everything already recorded, and the plan itself, stays as it
    /// was.
    pub fn record_created(&mut self)
        requires
            old(self).wf(),
            old(self).outcomes@.len() < old(self).candidates@.len(),
        ensures
            final(self).wf(),
            final(self).dry_run == old(self).dry_run,
            final(self).candidates@ == old(self).candidates@,
            final(self).outcomes@.len() == old(self).outcomes@.len() + 1,
            forall|i: int|
                0 <= i < old(self).outcomes@.len() ==> final(self).outcomes@[i] == old(
                    self,
                ).outcomes@[i],
            final(self).outcomes@.last() is Created,
            outcome_request(final(self).outcomes@.last()).like(
                old(self).candidates@[old(self).outcomes@.len() as int],
            ),
    {
        let k = self.outcomes.len();
        let req = self.candidates[k].duplicate();
        self.outcomes.push(SyncOutcome::Created { request: req });
    }

    /// Records that the pending request failed, with the reason. The run
    /// still advances by one item and the rest of the plan stays in place:
    /// the candidates after the failed one will be attempted all the same.
    pub fn record_failed(&mut self, reason: String)
        requires
            old(self).wf(),
            old(self).outcomes@.len() < old(self).candidates@.len(),
        ensures
            final(self).wf(),
            final(self).dry_run == old(self).dry_run,
            final(self).candidates@ == old(self).candidates@,
            final(self).outcomes@.len() == old(self).outcomes@.len() + 1,
            forall|i: int|
                0 <= i < old(self).outcomes@.len() ==> final(self).outcomes@[i] == old(
                    self,
                ).outcomes@[i],
            final(self).outcomes@.last() is Failed,
            outcome_request(final(self).outcomes@.last()).like(
                old(self).candidates@[old(self).outcomes@.len() as int],
            ),
            (match final(self).outcomes@.last() {
                SyncOutcome::Failed { request: _, reason: why } => why@ == reason@,
                _ => false,
            }),
    {
        let k = self.outcomes.len();
        let req = self.candidates[k].duplicate();
        self.outcomes.push(SyncOutcome::Failed { request: req, reason });
    }

    /// How many outcomes there are so far of each kind: created first,
    /// failed second. Together they account for every item handled.
    pub fn summary(&self) -> (r: (usize, usize))
        ensures
            r.0 == count_created(self.outcomes@),
            r.1 == count_failed(self.outcomes@),
            r.0 + r.1 == self.outcomes@.len(),
    {
        let n = self.outcomes.len();
        let mut created: usize = 0;
        let mut failed: usize = 0;
        let mut i: usize = 0;
        proof {
            assert(self.outcomes@.take(0) =~= Seq::<SyncOutcome>::empty());
        }
        while i < n
            invariant
                i <= n,
                n == self.outcomes@.len(),
                created == count_created(self.outcomes@.take(i as int)),
                failed == count_failed(self.outcomes@.take(i as int)),
                created + failed == i,
            decreases n - i,
        {
            proof {
                assert(self.outcomes@.take(i as int + 1).drop_last() =~= self.outcomes@.take(
                    i as int,
                ));
                assert(self.outcomes@.take(i as int + 1).last() == self.outcomes@[i as int]);
            }
            match &self.outcomes[i] {
                SyncOutcome::Created { request: _ } => {
                    created = created + 1;
                },
                SyncOutcome::Failed { request: _, reason: _ } => {
                    failed = failed + 1;
                },
            }
            i = i + 1;
        }
        proof {
            assert(self.outcomes@.take(n as int) =~= self.outcomes@);
        }
        (created, failed)
    }

    /// A finished run has exactly one outcome per candidate, the created and
    /// the failed together covering the whole plan.
    pub proof fn lemma_every_candidate_accounted(self)
        requires
            self.wf(),
            self.outcomes@.len() == self.candidates@.len(),
        ensures
            count_created(self.outcomes@) + count_failed(self.outcomes@) == self.candidates@.len(),
    {
        lemma_outcome_partition(self.outcomes@);
    }

    /// The preview table of the plan: the heading and one row per request.
    pub fn preview_rows(&self) -> (r: Vec<Vec<String>>)
        ensures
            table_views(r@) == spec_preview(self.candidates@),
    {
        let mut out: Vec<Vec<String>> = Vec::new();
        let mut header: Vec<String> = Vec::new();
        header.push(String::from_str("Date"));
        header.push(String::from_str("Duration (hours)"));
        header.push(String::from_str("Description"));
        header.push(String::from_str("Project ID"));
        header.push(String::from_str("Task ID"));
        proof {
            assert(header@.map_values(|s: String| s@) =~= header_row());
        }
        out.push(header);
        let n = self.candidates.len();
        let mut i: usize = 0;
        while i < n
            invariant
                i <= n,
                n == self.candidates@.len(),
                out@.len() == i + 1,
                table_views(out@)[0] == header_row(),
                forall|t: int|
                    0 <= t < i ==> table_views(out@)[t + 1] == spec_row(
                        #[trigger] self.candidates@[t],
                    ),
            decreases n - i,
        {
            let c = &self.candidates[i];
            let mut row: Vec<String> = Vec::new();
            row.push(c.date.clone());
            let secs: i64 = match c.seconds {
                Some(s) => s,
                None => 0,
            };
            row.push(hours_string(secs));
            row.push(c.description.clone());
            row.push(crate::digits::i64_to_string(c.project_id));
            row.push(crate::digits::i64_to_string(c.task_id));
            proof {
                assert(row@.map_values(|s: String| s@) =~= spec_row(self.candidates@[i as int]));
            }
            out.push(row);
            i = i + 1;
        }
        proof {
            assert(table_views(out@) =~~= spec_preview(self.candidates@));
        }
        out
    }

    /// The lines the preview prints: the rendered table, or the one line
    /// saying there is nothing to synchronize.
    pub fn preview_lines(&self) -> (r: Vec<String>)
        ensures
            self.candidates@.len() == 0 ==> r@.len() == 1 && r@[0]@
                == "Nothing, everything seems to be Synced!"@,
            self.candidates@.len() > 0 ==> r@.len() == self.candidates@.len() + 1 && forall|i: int|
                0 <= i < r@.len() ==> (#[trigger] r@[i])@ == spec_line(
                    spec_preview(self.candidates@),
                    i,
                ),
    {
        if self.candidates.len() == 0 {
            let mut v: Vec<String> = Vec::new();
            v.push(String::from_str("Nothing, everything seems to be Synced!"));
            v
        } else {
            let rows = self.preview_rows();
            let ghost cands = self.candidates@;
            let ghost pv = spec_preview(cands);
            proof {
                assert(pv.len() == 1 + cands.len());
                assert forall|i: int| 0 <= i < pv.len() implies (#[trigger] pv[i]).len() == 5 by {
                    if i == 0 {
                        assert(pv[0] == header_row());
                    } else {
                        assert(pv[i] == cands.map_values(|c: CreateActivity| spec_row(c))[i - 1]);
                        assert(pv[i] == spec_row(cands[i - 1]));
                    }
                }
                assert(rows@.len() == pv.len());
                assert forall|i: int|
                    0 <= i < rows@.len() implies (#[trigger] rows@[i])@.len() == rows@[0]@.len() by {
                    assert(table_views(rows@)[i] == rows@[i]@.map_values(|s: String| s@));
                    assert(table_views(rows@)[0] == rows@[0]@.map_values(|s: String| s@));
                    assert(rows@[i]@.len() == pv[i].len());
                    assert(rows@[0]@.len() == pv[0].len());
                }
            }
            let lines = render_rows(&rows);
            proof {
                assert forall|i: int|
                    0 <= i < lines@.len() implies (#[trigger] lines@[i])@ == spec_line(pv, i) by {
                    assert(lines@[i]@ == spec_line(table_views(rows@), i));
                }
            }
            lines
        }
    }
}

/// What is rendered depends only on the candidates, never on the mode: the
/// preview of a dry run and of an apply run over the same plan is the same
/// table.
pub proof fn lemma_preview_mode_independent(a: SyncPlanExecutor, b: SyncPlanExecutor)
    requires
        a.candidates@ == b.candidates@,
    ensures
        spec_preview(a.candidates@) == spec_preview(b.candidates@),
{
}

} // verus!

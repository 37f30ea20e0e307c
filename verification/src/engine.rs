use vstd::prelude::*;

verus! {

use crate::check::VerifyOutcome;
use crate::check::outcome_msg;
use crate::check::outcome_status;
use crate::types::FlacJob;
use crate::types::FlacStatus;
use crate::types::JobFile;
use crate::types::Statistics;
use crate::types::stats_match;

/// A job with this status is (re-)checked by a run: work never started,
/// work interrupted mid-flight, and earlier per-file errors, which may have
/// been transient.  `Passed` and `Bad` are final and are skipped.
pub open spec fn eligible(status: FlacStatus) -> bool {
    ||| status == FlacStatus::ToBeChecked
    ||| status == FlacStatus::Checking
    ||| status == FlacStatus::Error
}

/// Exec mirror of `eligible`.
pub fn is_eligible(status: FlacStatus) -> (r: bool)
    ensures
        r == eligible(status),
{
    match status {
        FlacStatus::ToBeChecked => true,
        FlacStatus::Checking => true,
        FlacStatus::Error => true,
        FlacStatus::Passed => false,
        FlacStatus::Bad => false,
    }
}

/// The index `i` occurs somewhere in `order`.
pub open spec fn contains_index(order: Seq<usize>, i: int) -> bool {
    exists|k: int| 0 <= k < order.len() && order[k] == i
}

/// The index `i` occurs among the first `upto` entries of `order`.
spec fn contains_index_upto(order: Seq<usize>, upto: int, i: int) -> bool {
    exists|k: int| 0 <= k < upto && order[k] == i
}

/// The indices of every job a run must (re-)check, in increasing order.
pub fn eligible_indices(jobs: &Vec<FlacJob>) -> (r: Vec<usize>)
    ensures
        forall|k: int|
            0 <= k < r@.len() ==> r@[k] < jobs@.len() && eligible(jobs@[r@[k] as int].status),
        forall|k1: int, k2: int| 0 <= k1 < k2 < r@.len() ==> r@[k1] < r@[k2],
        forall|i: int| 0 <= i < jobs@.len() && eligible(jobs@[i].status) ==> contains_index(r@, i),
{
    let mut r: Vec<usize> = Vec::new();
    let n = jobs.len();
    let mut i: usize = 0;
    while i < n
        invariant
            n == jobs@.len(),
            i <= n,
            forall|k: int|
                0 <= k < r@.len() ==> r@[k] < i && eligible(jobs@[r@[k] as int].status),
            forall|k1: int, k2: int| 0 <= k1 < k2 < r@.len() ==> r@[k1] < r@[k2],
            forall|j: int| 0 <= j < i && eligible(jobs@[j].status) ==> contains_index(r@, j),
        decreases n - i,
    {
        if is_eligible(jobs[i].status) {
            let ghost prev = r@;
            r.push(i);
            proof {
                assert(r@[r@.len() - 1] == i);
                assert forall|j: int| 0 <= j < i + 1 && eligible(jobs@[j].status) implies
                    contains_index(r@, j) by {
                    if j < i {
                        assert(contains_index(prev, j));
                        let k = choose|k: int| 0 <= k < prev.len() && prev[k] == j;
                        assert(r@[k] == j);
                    } else {
                        assert(r@[r@.len() - 1] == j);
                    }
                }
            }
        }
        i = i + 1;
    }
    r
}

/// The message field as a sequence of characters.
pub open spec fn msg_view(m: Option<String>) -> Option<Seq<char>> {
    match m {
        Some(s) => Some(s@),
        None => None,
    }
}

/// Mark the job at `idx` as being checked and clear its message; the tally
/// is recounted so the job file stays well formed.  Persisting the job file
/// right after this call is what makes an interrupted check detectable.
pub fn begin_check(jf: &mut JobFile, idx: usize)
    requires
        idx < old(jf).jobs@.len(),
    ensures
        final(jf).jobs@.len() == old(jf).jobs@.len(),
        final(jf).jobs@[idx as int].path == old(jf).jobs@[idx as int].path,
        final(jf).jobs@[idx as int].status == FlacStatus::Checking,
        final(jf).jobs@[idx as int].error_message is None,
        forall|i: int|
            0 <= i < old(jf).jobs@.len() && i != idx ==> final(jf).jobs@[i] == old(jf).jobs@[i],
        final(jf).root_directory == old(jf).root_directory,
        final(jf).total_files == old(jf).total_files,
        stats_match(final(jf).statistics, final(jf).jobs@),
{
    jf.jobs[idx].status = FlacStatus::Checking;
    jf.jobs[idx].error_message = None;
    jf.statistics = Statistics::from_jobs(jf.jobs.as_slice());
}

/// Move the job at `idx` to the terminal status its outcome dictates and
/// record the outcome's message; the tally is recounted.
pub fn apply_outcome(jf: &mut JobFile, idx: usize, outcome: VerifyOutcome)
    requires
        idx < old(jf).jobs@.len(),
    ensures
        final(jf).jobs@.len() == old(jf).jobs@.len(),
        final(jf).jobs@[idx as int].path == old(jf).jobs@[idx as int].path,
        final(jf).jobs@[idx as int].status == outcome_status(outcome),
        msg_view(final(jf).jobs@[idx as int].error_message) == outcome_msg(outcome),
        forall|i: int|
            0 <= i < old(jf).jobs@.len() && i != idx ==> final(jf).jobs@[i] == old(jf).jobs@[i],
        final(jf).root_directory == old(jf).root_directory,
        final(jf).total_files == old(jf).total_files,
        stats_match(final(jf).statistics, final(jf).jobs@),
{
    match outcome {
        VerifyOutcome::Verified => {
            jf.jobs[idx].status = FlacStatus::Passed;
            jf.jobs[idx].error_message = None;
        },
        VerifyOutcome::Corrupt(m) => {
            jf.jobs[idx].status = FlacStatus::Bad;
            jf.jobs[idx].error_message = Some(m);
        },
        VerifyOutcome::Failed(m) => {
            jf.jobs[idx].status = FlacStatus::Error;
            jf.jobs[idx].error_message = Some(m);
        },
    }
    jf.statistics = Statistics::from_jobs(jf.jobs.as_slice());
}

/// After a run, an eligible job carries exactly the status and message of
/// its outcome, under its old path.
pub open spec fn job_settled(after: FlacJob, before: FlacJob, outcome: VerifyOutcome) -> bool {
    &&& after.path@ == before.path@
    &&& after.status == outcome_status(outcome)
    &&& msg_view(after.error_message) == outcome_msg(outcome)
}

/// What one complete run leaves of one job: an eligible job settles to its
/// outcome, a finalized one is untouched.
pub open spec fn job_final(after: FlacJob, before: FlacJob, outcome: VerifyOutcome) -> bool {
    if eligible(before.status) {
        job_settled(after, before, outcome)
    } else {
        after == before
    }
}

/// What one complete run leaves of the whole job list, given the per-job
/// verification outcomes.
pub open spec fn run_complete(
    before: Seq<FlacJob>,
    after: Seq<FlacJob>,
    outcomes: Seq<VerifyOutcome>,
) -> bool {
    &&& after.len() == before.len()
    &&& forall|i: int|
        0 <= i < before.len() ==> #[trigger] job_final(after[i], before[i], outcomes[i])
}

/// The two jobs agree on path, status and message.
pub open spec fn job_view_eq(a: FlacJob, b: FlacJob) -> bool {
    &&& a.path@ == b.path@
    &&& a.status == b.status
    &&& msg_view(a.error_message) == msg_view(b.error_message)
}

/// The two job lists agree element by element.
pub open spec fn jobs_equiv(a: Seq<FlacJob>, b: Seq<FlacJob>) -> bool {
    &&& a.len() == b.len()
    &&& forall|i: int| 0 <= i < a.len() ==> #[trigger] job_view_eq(a[i], b[i])
}

/// Run every job listed in `order` — the eligible indices, in any order and
/// each exactly once — through its check, applying the outcome recorded for
/// it in `outcomes`.
///
/// The final state promised below does not depend on `order`: it is the
/// same for every processing order a worker pool might produce.
pub fn run_order(jf: &mut JobFile, outcomes: &Vec<VerifyOutcome>, order: &Vec<usize>)
    requires
        old(jf).wf(),
        outcomes@.len() == old(jf).jobs@.len(),
        forall|k: int|
            0 <= k < order@.len() ==> order@[k] < old(jf).jobs@.len() && eligible(
                old(jf).jobs@[order@[k] as int].status,
            ),
        forall|k1: int, k2: int| 0 <= k1 < k2 < order@.len() ==> order@[k1] != order@[k2],
        forall|i: int|
            0 <= i < old(jf).jobs@.len() && eligible(old(jf).jobs@[i].status) ==> contains_index(
                order@,
                i,
            ),
    ensures
        final(jf).wf(),
        run_complete(old(jf).jobs@, final(jf).jobs@, outcomes@),
        final(jf).root_directory == old(jf).root_directory,
        final(jf).total_files == old(jf).total_files,
{
    let n = order.len();
    let mut k: usize = 0;
    while k < n
        invariant
            n == order@.len(),
            k <= n,
            old(jf).wf(),
            outcomes@.len() == old(jf).jobs@.len(),
            jf.jobs@.len() == old(jf).jobs@.len(),
            jf.root_directory == old(jf).root_directory,
            jf.total_files == old(jf).total_files,
            stats_match(jf.statistics, jf.jobs@),
            forall|k0: int|
                0 <= k0 < order@.len() ==> order@[k0] < old(jf).jobs@.len() && eligible(
                    old(jf).jobs@[order@[k0] as int].status,
                ),
            forall|k1: int, k2: int| 0 <= k1 < k2 < order@.len() ==> order@[k1] != order@[k2],
            forall|j: int|
                0 <= j < k ==> job_settled(
                    jf.jobs@[#[trigger] order@[j] as int],
                    old(jf).jobs@[order@[j] as int],
                    outcomes@[order@[j] as int],
                ),
            forall|i: int|
                0 <= i < jf.jobs@.len() && !contains_index_upto(order@, k as int, i)
                    ==> jf.jobs@[i] == old(jf).jobs@[i],
        decreases n - k,
    {
        let idx = order[k];
        proof {
            assert(!contains_index_upto(order@, k as int, idx as int)) by {
                if contains_index_upto(order@, k as int, idx as int) {
                    let j = choose|j: int| 0 <= j < k && order@[j] == idx;
                    assert(order@[j] != order@[k as int]);
                }
            }
            assert(jf.jobs@[idx as int] == old(jf).jobs@[idx as int]);
        }
        begin_check(jf, idx);
        let oc = outcomes[idx].duplicate();
        apply_outcome(jf, idx, oc);
        proof {
            assert forall|j: int| 0 <= j < k + 1 implies job_settled(
                jf.jobs@[#[trigger] order@[j] as int],
                old(jf).jobs@[order@[j] as int],
                outcomes@[order@[j] as int],
            ) by {
                if j < k {
                    assert(order@[j] != order@[k as int]);
                } else {
                    assert(order@[j] == idx);
                }
            }
            assert forall|i: int|
                0 <= i < jf.jobs@.len() && !contains_index_upto(order@, k + 1, i) implies jf.jobs@[i]
                == old(jf).jobs@[i] by {
                assert(order@[k as int] == idx);
                assert(i != idx);
                assert(!contains_index_upto(order@, k as int, i)) by {
                    if contains_index_upto(order@, k as int, i) {
                        let j = choose|j: int| 0 <= j < k && order@[j] == i;
                        assert(0 <= j < k + 1 && order@[j] == i);
                    }
                }
            }
        }
        k = k + 1;
    }
    proof {
        assert forall|i: int| 0 <= i < old(jf).jobs@.len() implies #[trigger] job_final(
            jf.jobs@[i],
            old(jf).jobs@[i],
            outcomes@[i],
        ) by {
            if eligible(old(jf).jobs@[i].status) {
                assert(contains_index(order@, i));
                let k0 = choose|k0: int| 0 <= k0 < order@.len() && order@[k0] == i;
                assert(job_settled(
                    jf.jobs@[order@[k0] as int],
                    old(jf).jobs@[order@[k0] as int],
                    outcomes@[order@[k0] as int],
                ));
            } else {
                assert(!contains_index_upto(order@, n as int, i)) by {
                    if contains_index_upto(order@, n as int, i) {
                        let k0 = choose|k0: int| 0 <= k0 < n && order@[k0] == i;
                        assert(eligible(old(jf).jobs@[order@[k0] as int].status));
                    }
                }
            }
        }
    }
}

/// Drive every eligible job to its terminal status, in index order, given
/// the verification outcome recorded for each job.
pub fn run_pending(jf: &mut JobFile, outcomes: &Vec<VerifyOutcome>)
    requires
        old(jf).wf(),
        outcomes@.len() == old(jf).jobs@.len(),
    ensures
        final(jf).wf(),
        run_complete(old(jf).jobs@, final(jf).jobs@, outcomes@),
        final(jf).root_directory == old(jf).root_directory,
        final(jf).total_files == old(jf).total_files,
{
    let order = eligible_indices(&jf.jobs);
    run_order(jf, outcomes, &order);
}

/// Law: the final job list of a complete run is determined by the initial
/// job list and the per-job outcomes alone.  Two runs over the same initial
/// jobs — for instance with one worker and with many — agree job by job,
/// whatever order the jobs were processed in.
pub proof fn lemma_run_deterministic(
    before: Seq<FlacJob>,
    a: Seq<FlacJob>,
    b: Seq<FlacJob>,
    outcomes: Seq<VerifyOutcome>,
)
    requires
        run_complete(before, a, outcomes),
        run_complete(before, b, outcomes),
    ensures
        jobs_equiv(a, b),
{
    assert forall|i: int| 0 <= i < a.len() implies #[trigger] job_view_eq(a[i], b[i]) by {
        assert(job_final(a[i], before[i], outcomes[i]));
        assert(job_final(b[i], before[i], outcomes[i]));
    }
}

/// Law: a second complete run over the result of a first, with the same
/// per-job outcomes (verification is a pure function of the file, so an
/// unchanged file yields the same outcome), leaves every job as the first
/// run left it: jobs that settled `Passed` or `Bad` are skipped, and jobs
/// that settled `Error` re-check to the same state.
pub proof fn lemma_second_run_unchanged(
    before: Seq<FlacJob>,
    mid: Seq<FlacJob>,
    after: Seq<FlacJob>,
    outcomes: Seq<VerifyOutcome>,
)
    requires
        outcomes.len() == before.len(),
        run_complete(before, mid, outcomes),
        run_complete(mid, after, outcomes),
    ensures
        jobs_equiv(after, mid),
{
    assert forall|i: int| 0 <= i < after.len() implies #[trigger] job_view_eq(after[i], mid[i]) by {
        assert(job_final(mid[i], before[i], outcomes[i]));
        assert(job_final(after[i], mid[i], outcomes[i]));
    }
}

/// Law: two equivalent job lists recount to the same tally, status by
/// status; with `lemma_run_deterministic`, two complete runs report the
/// same final counts.
pub proof fn lemma_equiv_counts(a: Seq<FlacJob>, b: Seq<FlacJob>, status: FlacStatus)
    requires
        jobs_equiv(a, b),
    ensures
        crate::types::count_status(a, status) == crate::types::count_status(b, status),
    decreases a.len(),
{
    if a.len() > 0 {
        assert(job_view_eq(a.last(), b.last()));
        assert(jobs_equiv(a.drop_last(), b.drop_last())) by {
            assert forall|i: int| 0 <= i < a.drop_last().len() implies #[trigger] job_view_eq(
                a.drop_last()[i],
                b.drop_last()[i],
            ) by {
                assert(job_view_eq(a[i], b[i]));
            }
        }
        lemma_equiv_counts(a.drop_last(), b.drop_last(), status);
    }
}

/// Every outcome reports a verified file.
pub open spec fn all_passed(outcomes: Seq<VerifyOutcome>) -> bool {
    forall|i: int| 0 <= i < outcomes.len() ==> outcomes[i] is Verified
}

/// Whether the run as a whole succeeds: any corrupt or failed file makes it
/// fail, unless the caller asked to continue past errors.
pub fn run_succeeded(outcomes: &Vec<VerifyOutcome>, continue_on_error: bool) -> (r: bool)
    ensures
        r == (continue_on_error || all_passed(outcomes@)),
{
    if continue_on_error {
        return true;
    }
    let n = outcomes.len();
    let mut i: usize = 0;
    while i < n
        invariant
            !continue_on_error,
            n == outcomes@.len(),
            i <= n,
            forall|j: int| 0 <= j < i ==> outcomes@[j] is Verified,
        decreases n - i,
    {
        match outcomes[i] {
            VerifyOutcome::Verified => {},
            VerifyOutcome::Corrupt(_) => {
                proof {
                    assert(!(outcomes@[i as int] is Verified));
                }
                return false;
            },
            VerifyOutcome::Failed(_) => {
                proof {
                    assert(!(outcomes@[i as int] is Verified));
                }
                return false;
            },
        }
        i = i + 1;
    }
    true
}

} // verus!

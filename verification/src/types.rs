use vstd::prelude::*;

verus! {

/// Status of one audio file within a checking run.
#[derive(Clone, Copy, Debug, PartialEq, Eq, Structural)]
pub enum FlacStatus {
    /// Not yet checked.
    ToBeChecked,
    /// A check of this file has started and not yet finished.
    Checking,
    /// The file decoded and its checksum matched (or no checksum was stored).
    Passed,
    /// The file decoded but its checksum did not match.
    Bad,
    /// The file could not be checked (decode or format failure).
    Error,
}

/// One audio file under verification: its path, its current status, and a
/// detail message that accompanies the `Bad` and `Error` statuses.
#[derive(Clone, Debug)]
pub struct FlacJob {
    pub path: String,
    pub status: FlacStatus,
    pub error_message: Option<String>,
}

/// Tally of job statuses, one counter per status.
#[derive(Clone, Copy, Debug, PartialEq, Eq, Structural)]
pub struct Statistics {
    pub to_be_checked: usize,
    pub checking: usize,
    pub ok: usize,
    pub bad: usize,
    pub error: usize,
}

/// The unit of persistence: every job found under one root directory,
/// together with the job count and the per-status tally.
#[derive(Clone, Debug)]
pub struct JobFile {
    pub root_directory: String,
    pub total_files: usize,
    pub statistics: Statistics,
    pub jobs: Vec<FlacJob>,
}

/// How many jobs in `jobs` carry the status `status`.
pub open spec fn count_status(jobs: Seq<FlacJob>, status: FlacStatus) -> nat
    decreases jobs.len(),
{
    if jobs.len() == 0 {
        0
    } else {
        count_status(jobs.drop_last(), status) + (if jobs.last().status == status {
            1nat
        } else {
            0nat
        })
    }
}

/// The tally `stats` is exactly the recount of `jobs`.
pub open spec fn stats_match(stats: Statistics, jobs: Seq<FlacJob>) -> bool {
    &&& stats.to_be_checked == count_status(jobs, FlacStatus::ToBeChecked)
    &&& stats.checking == count_status(jobs, FlacStatus::Checking)
    &&& stats.ok == count_status(jobs, FlacStatus::Passed)
    &&& stats.bad == count_status(jobs, FlacStatus::Bad)
    &&& stats.error == count_status(jobs, FlacStatus::Error)
}

proof fn lemma_count_take_step(jobs: Seq<FlacJob>, status: FlacStatus, i: int)
    requires
        0 <= i < jobs.len(),
    ensures
        count_status(jobs.take(i + 1), status) == count_status(jobs.take(i), status) + (
        if jobs[i].status == status {
            1nat
        } else {
            0nat
        }),
{
    assert(jobs.take(i + 1).drop_last() =~= jobs.take(i));
    assert(jobs.take(i + 1).last() == jobs[i]);
}

/// A count never exceeds the number of jobs counted.
pub proof fn lemma_count_le_len(jobs: Seq<FlacJob>, status: FlacStatus)
    ensures
        count_status(jobs, status) <= jobs.len(),
    decreases jobs.len(),
{
    if jobs.len() > 0 {
        lemma_count_le_len(jobs.drop_last(), status);
    }
}

/// Every job carries exactly one status, so the five per-status counts
/// always add up to the number of jobs.
pub proof fn lemma_counts_sum_to_len(jobs: Seq<FlacJob>)
    ensures
        count_status(jobs, FlacStatus::ToBeChecked) + count_status(jobs, FlacStatus::Checking)
            + count_status(jobs, FlacStatus::Passed) + count_status(jobs, FlacStatus::Bad)
            + count_status(jobs, FlacStatus::Error) == jobs.len(),
    decreases jobs.len(),
{
    if jobs.len() > 0 {
        lemma_counts_sum_to_len(jobs.drop_last());
    }
}

impl Statistics {
    /// Recount the statuses of `jobs` from scratch.
    pub fn from_jobs(jobs: &[FlacJob]) -> (stats: Self)
        ensures
            stats_match(stats, jobs@),
    {
        let mut stats = Statistics { to_be_checked: 0, checking: 0, ok: 0, bad: 0, error: 0 };
        let n = jobs.len();
        let mut i: usize = 0;
        while i < n
            invariant
                n == jobs@.len(),
                i <= n,
                stats_match(stats, jobs@.take(i as int)),
            decreases n - i,
        {
            proof {
                lemma_count_take_step(jobs@, FlacStatus::ToBeChecked, i as int);
                lemma_count_take_step(jobs@, FlacStatus::Checking, i as int);
                lemma_count_take_step(jobs@, FlacStatus::Passed, i as int);
                lemma_count_take_step(jobs@, FlacStatus::Bad, i as int);
                lemma_count_take_step(jobs@, FlacStatus::Error, i as int);
                lemma_count_le_len(jobs@.take(i as int), FlacStatus::ToBeChecked);
                lemma_count_le_len(jobs@.take(i as int), FlacStatus::Checking);
                lemma_count_le_len(jobs@.take(i as int), FlacStatus::Passed);
                lemma_count_le_len(jobs@.take(i as int), FlacStatus::Bad);
                lemma_count_le_len(jobs@.take(i as int), FlacStatus::Error);
            }
            match jobs[i].status {
                FlacStatus::ToBeChecked => {
                    stats.to_be_checked = stats.to_be_checked + 1;
                },
                FlacStatus::Checking => {
                    stats.checking = stats.checking + 1;
                },
                FlacStatus::Passed => {
                    stats.ok = stats.ok + 1;
                },
                FlacStatus::Bad => {
                    stats.bad = stats.bad + 1;
                },
                FlacStatus::Error => {
                    stats.error = stats.error + 1;
                },
            }
            i = i + 1;
        }
        proof {
            assert(jobs@.take(n as int) =~= jobs@);
        }
        stats
    }
}

impl JobFile {
    /// The statistics are the recount of the jobs, and the recorded total is
    /// the length of the job list.
    pub open spec fn wf(self) -> bool {
        &&& self.total_files == self.jobs@.len()
        &&& stats_match(self.statistics, self.jobs@)
    }

    /// Build a job file over `jobs`, with the tally computed from them.
    pub fn new(root_directory: String, jobs: Vec<FlacJob>) -> (jf: Self)
        ensures
            jf.wf(),
            jf.root_directory == root_directory,
            jf.jobs == jobs,
            jf.total_files == jobs@.len(),
    {
        let statistics = Statistics::from_jobs(jobs.as_slice());
        let total_files = jobs.len();
        JobFile { root_directory, total_files, statistics, jobs }
    }

    /// Recount the statistics from the job list and restore the recorded
    /// total, so that a job file read from untrusted storage satisfies `wf`.
    /// Persisted tallies are never trusted.
    pub fn normalize(&mut self)
        ensures
            final(self).wf(),
            final(self).jobs == old(self).jobs,
            final(self).root_directory == old(self).root_directory,
            final(self).total_files == old(self).jobs@.len(),
    {
        self.statistics = Statistics::from_jobs(self.jobs.as_slice());
        self.total_files = self.jobs.len();
    }

    /// The recounted statuses add up to the recorded total.
    pub proof fn lemma_wf_counts_total(self)
        requires
            self.wf(),
        ensures
            self.statistics.to_be_checked + self.statistics.checking + self.statistics.ok
                + self.statistics.bad + self.statistics.error == self.total_files,
    {
        lemma_counts_sum_to_len(self.jobs@);
    }
}

} // verus!

//! The fan-out / fan-in core of a bulk download.
//!
//! For each job the library constructs the exact argument list the external
//! download tool is invoked with; the caller runs one process per job, in
//! any order and concurrency it likes, and hands back one process result
//! per job in submission order. [`collect_outcomes`] then pairs each job
//! with its own result and nothing else, so outcomes are reported in input
//! order, one job's failure cannot touch a sibling's outcome, and the whole
//! collection is a function of the job list and the per-job results alone.

use vstd::prelude::*;

use crate::jobs::{job_views, spec_format_constraint, DownloadType, JobSpec, JobSpecV};
use crate::text::target_list;

verus! {

/// What one external process handed back: its exit classification and its
/// captured output streams.
pub struct ProcessResult {
    /// Whether the process exited with a success status.
    pub succeeded: bool,
    /// Captured standard output; the payload when the job succeeded.
    pub stdout_text: String,
    /// Captured standard error; the diagnostic when the job failed.
    pub stderr_text: String,
}

/// The mathematical value of a [`ProcessResult`].
pub struct ProcessResultV {
    pub succeeded: bool,
    pub stdout_text: Seq<char>,
    pub stderr_text: Seq<char>,
}

impl View for ProcessResult {
    type V = ProcessResultV;

    open spec fn view(&self) -> ProcessResultV {
        ProcessResultV {
            succeeded: self.succeeded,
            stdout_text: self.stdout_text@,
            stderr_text: self.stderr_text@,
        }
    }
}

/// The outcome of one job, correlated back to its originating target.
pub struct JobOutcome {
    /// The target identifier the job was created for.
    pub target: String,
    /// Whether the job's external process reported success.
    pub succeeded: bool,
    /// The process's captured standard output.
    pub stdout_text: String,
    /// The process's captured standard error.
    pub stderr_text: String,
}

/// The mathematical value of a [`JobOutcome`].
pub struct JobOutcomeV {
    pub target: Seq<char>,
    pub succeeded: bool,
    pub stdout_text: Seq<char>,
    pub stderr_text: Seq<char>,
}

impl View for JobOutcome {
    type V = JobOutcomeV;

    open spec fn view(&self) -> JobOutcomeV {
        JobOutcomeV {
            target: self.target@,
            succeeded: self.succeeded,
            stdout_text: self.stdout_text@,
            stderr_text: self.stderr_text@,
        }
    }
}

/// The views of a sequence of process results.
pub open spec fn result_views(results: Seq<ProcessResult>) -> Seq<ProcessResultV> {
    results.map_values(|r: ProcessResult| r@)
}

/// The views of a sequence of outcomes.
pub open spec fn outcome_views(outcomes: Seq<JobOutcome>) -> Seq<JobOutcomeV> {
    outcomes.map_values(|o: JobOutcome| o@)
}

/// The one outcome of one job: its own target, classified by its own
/// process result.
pub open spec fn outcome_of(job: JobSpecV, result: ProcessResultV) -> JobOutcomeV {
    JobOutcomeV {
        target: job.target,
        succeeded: result.succeeded,
        stdout_text: result.stdout_text,
        stderr_text: result.stderr_text,
    }
}

/// The outcomes of a batch: position `i` pairs job `i` with process result
/// `i`, whatever every other position holds.
pub open spec fn outcomes_of(jobs: Seq<JobSpecV>, results: Seq<ProcessResultV>) -> Seq<
    JobOutcomeV,
> {
    Seq::new(jobs.len(), |i: int| outcome_of(jobs[i], results[i]))
}

/// Pair each job with its own process result, in submission order.
///
/// The caller runs the jobs' processes in any order it likes; once it hands
/// back one result per job, position for position, the outcome list is
/// fully determined: one outcome per job, outcome `i` carrying job `i`'s
/// target and classified by result `i` and nothing else.
pub fn collect_outcomes(jobs: &Vec<JobSpec>, results: &Vec<ProcessResult>) -> (outcomes: Vec<
    JobOutcome,
>)
    requires
        results@.len() == jobs@.len(),
    ensures
        outcomes@.len() == jobs@.len(),
        outcome_views(outcomes@) == outcomes_of(job_views(jobs@), result_views(results@)),
{
    let mut outcomes: Vec<JobOutcome> = Vec::new();
    let mut k: usize = 0;
    while k < jobs.len()
        invariant
            results@.len() == jobs@.len(),
            k <= jobs@.len(),
            outcomes@.len() == k,
            forall|i: int|
                0 <= i < k ==> (#[trigger] outcomes@[i])@ == outcome_of(
                    jobs@[i]@,
                    results@[i]@,
                ),
        decreases jobs@.len() - k,
    {
        let outcome = JobOutcome {
            target: jobs[k].target.clone(),
            succeeded: results[k].succeeded,
            stdout_text: results[k].stdout_text.clone(),
            stderr_text: results[k].stderr_text.clone(),
        };
        outcomes.push(outcome);
        k = k + 1;
    }
    proof {
        assert(outcome_views(outcomes@) =~= outcomes_of(job_views(jobs@), result_views(results@)));
    }
    outcomes
}

impl JobOutcome {
    /// The payload a reporter shows for this outcome: the captured standard
    /// output of a job that succeeded, the captured standard error of one
    /// that failed.
    pub fn payload(&self) -> (p: &String)
        ensures
            self.succeeded ==> p@ == self.stdout_text@,
            !self.succeeded ==> p@ == self.stderr_text@,
    {
        if self.succeeded {
            &self.stdout_text
        } else {
            &self.stderr_text
        }
    }
}

/// The argument list of a bulk job's external invocation: ask for the
/// title as a probe line, suppress simulation, then either constrain the
/// format to the job's quality tier or extract audio, and name the target.
pub open spec fn spec_job_args(job: JobSpecV) -> Seq<Seq<char>> {
    let base = seq!["-O"@, "title"@, "--no-simulate"@];
    match job.mode {
        DownloadType::Video => base + seq![
            "-f"@,
            match job.quality {
                Some(q) => spec_format_constraint(q),
                None => Seq::<char>::empty(),
            },
            job.target,
        ],
        DownloadType::Audio => base + seq!["-x"@, "--audio-format"@, "mp3"@, job.target],
    }
}

/// Build the argument list for one bulk job.
pub fn job_args(job: &JobSpec) -> (args: Vec<String>)
    requires
        job@.wf(),
    ensures
        args.deep_view() == spec_job_args(job@),
{
    let mut args: Vec<String> = Vec::new();
    args.push(String::from_str("-O"));
    args.push(String::from_str("title"));
    args.push(String::from_str("--no-simulate"));
    match job.mode {
        DownloadType::Video => {
            args.push(String::from_str("-f"));
            args.push(format_constraint_of(job));
            args.push(job.target.clone());
        },
        DownloadType::Audio => {
            args.push(String::from_str("-x"));
            args.push(String::from_str("--audio-format"));
            args.push(String::from_str("mp3"));
            args.push(job.target.clone());
        },
    }
    proof {
        assert(args.deep_view() =~~= spec_job_args(job@));
    }
    args
}

/// The format constraint of a well-formed video job.
fn format_constraint_of(job: &JobSpec) -> (f: String)
    requires
        job@.wf(),
        job@.mode == DownloadType::Video,
    ensures
        f@ == (match job@.quality {
            Some(q) => spec_format_constraint(q),
            None => Seq::<char>::empty(),
        }),
{
    let q = job.quality.unwrap();
    crate::jobs::format_constraint(q)
}

/// The argument list of a single download's external invocation: the mode's
/// flags, then a request for the probe fields the reporter shows, with
/// simulation suppressed, and the target last.
pub open spec fn spec_single_args(job: JobSpecV) -> Seq<Seq<char>> {
    let probe = seq![
        "-O"@,
        "id,title,filesize,filesize_approx,duration_string"@,
        "--no-simulate"@,
        job.target,
    ];
    match job.mode {
        DownloadType::Video => seq![
            "-f"@,
            match job.quality {
                Some(q) => spec_format_constraint(q),
                None => Seq::<char>::empty(),
            },
        ] + probe,
        DownloadType::Audio => seq!["-x"@, "--audio-format"@, "mp3"@] + probe,
    }
}

/// Build the argument list for one single, stand-alone download.
pub fn single_download(job: &JobSpec) -> (args: Vec<String>)
    requires
        job@.wf(),
    ensures
        args.deep_view() == spec_single_args(job@),
{
    let mut args: Vec<String> = Vec::new();
    match job.mode {
        DownloadType::Video => {
            args.push(String::from_str("-f"));
            args.push(format_constraint_of(job));
        },
        DownloadType::Audio => {
            args.push(String::from_str("-x"));
            args.push(String::from_str("--audio-format"));
            args.push(String::from_str("mp3"));
        },
    }
    args.push(String::from_str("-O"));
    args.push(String::from_str("id,title,filesize,filesize_approx,duration_string"));
    args.push(String::from_str("--no-simulate"));
    args.push(job.target.clone());
    proof {
        assert(args.deep_view() =~~= spec_single_args(job@));
    }
    args
}

impl ProcessResult {
    /// A copy of this result, field for field.
    pub fn duplicate(&self) -> (r: ProcessResult)
        ensures
            r@ == self@,
    {
        ProcessResult {
            succeeded: self.succeeded,
            stdout_text: self.stdout_text.clone(),
            stderr_text: self.stderr_text.clone(),
        }
    }
}

/// The views of a sequence of tagged process results.
pub open spec fn tagged_views(tagged: Seq<(usize, ProcessResult)>) -> Seq<(usize, ProcessResultV)> {
    tagged.map_values(|t: (usize, ProcessResult)| (t.0, t.1@))
}

/// One result per submission position: exactly `n` entries, every tag a
/// position below `n`, and no two entries sharing a tag.
pub open spec fn well_tagged(tv: Seq<(usize, ProcessResultV)>, n: int) -> bool {
    &&& tv.len() == n
    &&& forall|j: int| 0 <= j < tv.len() ==> (#[trigger] tv[j]).0 < n
    &&& forall|j1: int, j2: int|
        0 <= j1 < j2 < tv.len() ==> (#[trigger] tv[j1]).0 != (#[trigger] tv[j2]).0
}

/// The result a filled slot holds.
spec fn slot_value(slot: Option<ProcessResult>) -> ProcessResultV
    recommends
        slot is Some,
{
    slot->0@
}

/// How many slots are filled.
spec fn filled_count(slots: Seq<Option<ProcessResult>>) -> int
    decreases slots.len(),
{
    if slots.len() == 0 {
        0
    } else {
        filled_count(slots.drop_last()) + if slots.last() is Some {
            1int
        } else {
            0int
        }
    }
}

proof fn lemma_filled_count_bounds(slots: Seq<Option<ProcessResult>>)
    ensures
        0 <= filled_count(slots) <= slots.len(),
    decreases slots.len(),
{
    if slots.len() > 0 {
        lemma_filled_count_bounds(slots.drop_last());
    }
}

/// A slot sequence with as many filled slots as slots has no empty slot.
proof fn lemma_filled_count_full(slots: Seq<Option<ProcessResult>>)
    requires
        filled_count(slots) == slots.len(),
    ensures
        forall|t: int| 0 <= t < slots.len() ==> (#[trigger] slots[t]) is Some,
    decreases slots.len(),
{
    if slots.len() > 0 {
        lemma_filled_count_bounds(slots.drop_last());
        lemma_filled_count_full(slots.drop_last());
        assert(forall|t: int|
            0 <= t < slots.len() - 1 ==> (#[trigger] slots[t]) == slots.drop_last()[t]);
    }
}

/// Filling one empty slot raises the filled count by one.
proof fn lemma_filled_count_update(slots: Seq<Option<ProcessResult>>, t: int, v: Option<
    ProcessResult,
>)
    requires
        0 <= t < slots.len(),
        slots[t] is None,
        v is Some,
    ensures
        filled_count(slots.update(t, v)) == filled_count(slots) + 1,
    decreases slots.len(),
{
    if t == slots.len() - 1 {
        assert(slots.update(t, v).drop_last() =~= slots.drop_last());
    } else {
        lemma_filled_count_update(slots.drop_last(), t, v);
        assert(slots.update(t, v).drop_last() =~= slots.drop_last().update(t, v));
        assert(slots.update(t, v).last() == slots.last());
    }
}

/// Restore submission order after the join barrier.
///
/// The caller hands over one process result per job, each tagged with the
/// job's submission position, in whatever order the workers completed.
/// Exactly when the tags are one per position — `n` entries, every tag
/// below `n`, no tag twice — the call returns the results arranged by
/// submission position, so completion order cannot influence the outcome
/// sequence. Any other tagging is refused.
pub fn order_results(n: usize, tagged: &Vec<(usize, ProcessResult)>) -> (ordered: Option<Vec<
    ProcessResult,
>>)
    ensures
        ordered is Some <==> well_tagged(tagged_views(tagged@), n as int),
        match ordered {
            Some(results) => {
                &&& results@.len() == n
                &&& forall|j: int|
                    0 <= j < tagged@.len() ==> (#[trigger] results@[tagged@[j].0 as int])@
                        == tagged@[j].1@
            },
            None => true,
        },
{
    if tagged.len() != n {
        return None;
    }
    let mut slots: Vec<Option<ProcessResult>> = Vec::new();
    let mut i: usize = 0;
    while i < n
        invariant
            i <= n,
            slots@.len() == i,
            forall|t: int| 0 <= t < i ==> (#[trigger] slots@[t]) is None,
            filled_count(slots@) == 0,
        decreases n - i,
    {
        let ghost old_slots = slots@;
        slots.push(None);
        proof {
            assert(slots@.drop_last() =~= old_slots);
        }
        i = i + 1;
    }
    let mut k: usize = 0;
    while k < n
        invariant
            n == tagged@.len(),
            k <= n,
            slots@.len() == n,
            filled_count(slots@) == k,
            forall|j: int|
                0 <= j < k ==> {
                    &&& (#[trigger] tagged@[j]).0 < n
                    &&& slots@[tagged@[j].0 as int] is Some
                    &&& slot_value(slots@[tagged@[j].0 as int]) == tagged@[j].1@
                },
            forall|j1: int, j2: int|
                0 <= j1 < j2 < k ==> (#[trigger] tagged@[j1]).0 != (#[trigger] tagged@[j2]).0,
            forall|t: int|
                0 <= t < n && (#[trigger] slots@[t]) is None ==> forall|j: int|
                    0 <= j < k ==> (#[trigger] tagged@[j]).0 != t,
            forall|t: int|
                0 <= t < n && (#[trigger] slots@[t]) is Some ==> exists|j: int|
                    0 <= j < k && (#[trigger] tagged@[j]).0 == t,
        decreases n - k,
    {
        let tag = tagged[k].0;
        if tag >= n {
            proof {
                assert(tagged_views(tagged@)[k as int].0 == tagged@[k as int].0);
            }
            return None;
        }
        if slots[tag].is_some() {
            proof {
                let j = choose|j: int| 0 <= j < k && (#[trigger] tagged@[j]).0 == tag as int;
                assert(tagged_views(tagged@)[j].0 == tagged_views(tagged@)[k as int].0);
            }
            return None;
        }
        let ghost old_slots = slots@;
        slots.set(tag, Some(tagged[k].1.duplicate()));
        proof {
            lemma_filled_count_update(old_slots, tag as int, slots@[tag as int]);
        }
        k = k + 1;
    }
    proof {
        lemma_filled_count_full(slots@);
    }
    let mut results: Vec<ProcessResult> = Vec::new();
    let mut t: usize = 0;
    while t < n
        invariant
            n == tagged@.len(),
            slots@.len() == n,
            t <= n,
            results@.len() == t,
            forall|u: int| 0 <= u < n ==> (#[trigger] slots@[u]) is Some,
            forall|u: int| 0 <= u < t ==> (#[trigger] results@[u])@ == slot_value(slots@[u]),
            forall|j: int|
                0 <= j < n ==> {
                    &&& (#[trigger] tagged@[j]).0 < n
                    &&& slots@[tagged@[j].0 as int] is Some
                    &&& slot_value(slots@[tagged@[j].0 as int]) == tagged@[j].1@
                },
        decreases n - t,
    {
        match &slots[t] {
            Some(p) => results.push(p.duplicate()),
            None => {
                return vstd::pervasive::unreached();
            },
        }
        t = t + 1;
    }
    Some(results)
}

/// One job per target, one outcome per job: a dispatch over any matching
/// result list yields exactly as many outcomes as jobs, and the outcome at
/// each position carries that position's target and that position's exit
/// classification.
pub proof fn lemma_outcomes_ordered(jobs: Seq<JobSpecV>, results: Seq<ProcessResultV>)
    requires
        results.len() == jobs.len(),
    ensures
        outcomes_of(jobs, results).len() == jobs.len(),
        forall|i: int|
            0 <= i < jobs.len() ==> {
                &&& (#[trigger] outcomes_of(jobs, results)[i]).target == jobs[i].target
                &&& outcomes_of(jobs, results)[i].succeeded == results[i].succeeded
                &&& outcomes_of(jobs, results)[i].stdout_text == results[i].stdout_text
                &&& outcomes_of(jobs, results)[i].stderr_text == results[i].stderr_text
            },
{
}

/// For every non-empty delimited target string, a batch built from it and
/// dispatched over any matching result list yields exactly one outcome per
/// target, and the outcome at each position answers for the target at the
/// same position of the input.
pub proof fn lemma_batch_outcomes_match_targets(
    raw: Seq<char>,
    jobs: Seq<JobSpecV>,
    results: Seq<ProcessResultV>,
)
    requires
        target_list(raw).len() > 0,
        jobs.len() == target_list(raw).len(),
        forall|i: int| 0 <= i < jobs.len() ==> (#[trigger] jobs[i]).target == target_list(raw)[i],
        results.len() == jobs.len(),
    ensures
        outcomes_of(jobs, results).len() == target_list(raw).len(),
        forall|i: int|
            0 <= i < jobs.len() ==> (#[trigger] outcomes_of(jobs, results)[i]).target
                == target_list(raw)[i],
{
}

/// Failure isolation: a job's outcome depends on its own process result
/// alone. However the processes at every other position fared — exiting
/// non-zero, failing to spawn — the outcome at position `i` is the same.
pub proof fn lemma_outcome_isolation(
    jobs: Seq<JobSpecV>,
    results1: Seq<ProcessResultV>,
    results2: Seq<ProcessResultV>,
    i: int,
)
    requires
        results1.len() == jobs.len(),
        results2.len() == jobs.len(),
        0 <= i < jobs.len(),
        results1[i] == results2[i],
    ensures
        outcomes_of(jobs, results1)[i] == outcomes_of(jobs, results2)[i],
{
}

/// Determinism: the outcome sequence is a function of the job list and the
/// per-job process results alone. Two dispatches whose jobs and per-job
/// results agree position for position produce the same outcome sequence,
/// whatever order the processes completed in.
pub proof fn lemma_dispatch_deterministic(
    jobs: Seq<JobSpecV>,
    results1: Seq<ProcessResultV>,
    results2: Seq<ProcessResultV>,
)
    requires
        results1.len() == jobs.len(),
        results2.len() == jobs.len(),
        forall|i: int| 0 <= i < jobs.len() ==> results1[i] == results2[i],
    ensures
        outcomes_of(jobs, results1) == outcomes_of(jobs, results2),
{
    assert(outcomes_of(jobs, results1) =~= outcomes_of(jobs, results2));
}

} // verus!

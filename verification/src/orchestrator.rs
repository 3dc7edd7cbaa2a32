//! One job per host, and one outcome per job.
//!
//! The jobs share nothing: each owns its login, its list of files and its
//! counts. Whoever runs them may run them side by side and waits for all of
//! them. What comes back is one outcome for every host, in the order of the
//! hosts, whether its job ran to its end or its task broke off.

use crate::job::{HostJob, HostOutcome, HostOutcomeView, HostTarget, JobView};
use vstd::prelude::*;

verus! {

/// How the task that served one host ended.
#[derive(Debug, PartialEq, Eq)]
pub struct Joined {
    /// The name of the host.
    pub host: String,
    /// The outcome that the job reported, or what is known of the task's
    /// abnormal end.
    pub result: Result<HostOutcome, String>,
}

/// What a `Joined` holds, as mathematical values.
pub struct JoinedView {
    pub host: Seq<char>,
    pub result: Result<HostOutcomeView, Seq<char>>,
}

impl View for Joined {
    type V = JoinedView;

    open spec fn view(&self) -> JoinedView {
        JoinedView {
            host: self.host@,
            result: match self.result {
                Ok(outcome) => Ok(outcome@),
                Err(detail) => Err(detail@),
            },
        }
    }
}

impl JoinedView {
    /// What became of the host: the outcome that its job reported, or, for a
    /// task that broke off, an outcome that says so.
    pub open spec fn outcome(self) -> HostOutcomeView {
        match self.result {
            Ok(outcome) => outcome,
            Err(detail) => HostOutcomeView::task_failed(self.host, detail),
        }
    }
}

/// The jobs for `targets`: one per host, in the order of the hosts, none of
/// them started. Each pushes the tree at `input_root` to its host's own output
/// directory, or to `default_output` where the host names none.
pub fn plan(targets: &Vec<HostTarget>, input_root: &String, default_output: &String) -> (jobs: Vec<
    HostJob,
>)
    ensures
        jobs.len() == targets.len(),
        forall|i: int|
            0 <= i < targets.len() ==> (#[trigger] jobs[i])@ == JobView::new(
                targets[i]@,
                input_root@,
                default_output@,
            ) && jobs[i]@.wf(),
{
    let mut jobs: Vec<HostJob> = Vec::new();
    let mut i: usize = 0;
    while i < targets.len()
        invariant
            i <= targets.len(),
            jobs.len() == i,
            forall|k: int|
                0 <= k < i ==> (#[trigger] jobs[k])@ == JobView::new(
                    targets[k]@,
                    input_root@,
                    default_output@,
                ) && jobs[k]@.wf(),
        decreases targets.len() - i,
    {
        jobs.push(HostJob::new(&targets[i], input_root, default_output));
        i += 1;
    }
    jobs
}

/// The outcomes of a run: one per host, in the order of `joined`. The outcome
/// of a host depends on the end of its own task alone.
pub fn collect(joined: &Vec<Joined>) -> (outcomes: Vec<HostOutcome>)
    ensures
        outcomes.len() == joined.len(),
        forall|i: int| 0 <= i < joined.len() ==> (#[trigger] outcomes[i])@ == joined[i]@.outcome(),
{
    let mut outcomes: Vec<HostOutcome> = Vec::new();
    let mut i: usize = 0;
    while i < joined.len()
        invariant
            i <= joined.len(),
            outcomes.len() == i,
            forall|k: int| 0 <= k < i ==> (#[trigger] outcomes[k])@ == joined[k]@.outcome(),
        decreases joined.len() - i,
    {
        let outcome = match &joined[i].result {
            Ok(outcome) => outcome.duplicate(),
            Err(detail) => HostOutcome::task_failed(joined[i].host.clone(), detail.clone()),
        };
        outcomes.push(outcome);
        i += 1;
    }
    outcomes
}

/// Whether no host at all was served without an error, in a run that had
/// hosts to serve.
pub open spec fn all_hosts_failed(outcomes: Seq<HostOutcomeView>) -> bool {
    outcomes.len() > 0 && forall|i: int| 0 <= i < outcomes.len() ==> (#[trigger] outcomes[i]).error
        is Some
}

/// The views of `outcomes`, in order.
pub open spec fn outcomes_of(outcomes: Seq<HostOutcome>) -> Seq<HostOutcomeView> {
    Seq::new(outcomes.len(), |i: int| outcomes[i]@)
}

/// Whether the run had hosts to serve and every one of them ended with an
/// error: none could be connected to, or its task broke off.
pub fn every_host_failed(outcomes: &Vec<HostOutcome>) -> (b: bool)
    ensures
        b == all_hosts_failed(outcomes_of(outcomes@)),
{
    if outcomes.len() == 0 {
        return false;
    }
    let mut i: usize = 0;
    while i < outcomes.len()
        invariant
            i <= outcomes.len(),
            forall|k: int| 0 <= k < i ==> (#[trigger] outcomes_of(outcomes@)[k]).error is Some,
        decreases outcomes.len() - i,
    {
        if outcomes[i].error.is_none() {
            assert(outcomes_of(outcomes@)[i as int].error is None);
            return false;
        }
        assert(outcomes_of(outcomes@)[i as int] == outcomes[i as int]@);
        i += 1;
    }
    true
}

/// The status with which a run ends: 1 when it had hosts to serve and every
/// one of them ended with an error, 0 else.
pub open spec fn run_exit_code(outcomes: Seq<HostOutcomeView>) -> i32 {
    if all_hosts_failed(outcomes) {
        1
    } else {
        0
    }
}

/// The status with which the run ends.
pub fn exit_code(outcomes: &Vec<HostOutcome>) -> (code: i32)
    ensures
        code == run_exit_code(outcomes_of(outcomes@)),
{
    if every_host_failed(outcomes) {
        1
    } else {
        0
    }
}

/// The end of one host's task decides the outcome of that host and of no
/// other: where two runs differ in the end of a single task, their outcomes
/// differ at most at that host.
pub proof fn lemma_outcomes_are_independent(a: Seq<JoinedView>, b: Seq<JoinedView>, host: int)
    requires
        a.len() == b.len(),
        forall|i: int| 0 <= i < a.len() && i != host ==> a[i] == b[i],
    ensures
        forall|i: int| 0 <= i < a.len() && i != host ==> a[i].outcome() == b[i].outcome(),
{
}

} // verus!

//! Per-run tallies of resolved and failed episodes, and what a group's
//! tally means for the rest of the run.
use vstd::prelude::*;

verus! {

/// How many embeds were dispatched, and how many of them resolved or failed.
pub struct PipelineCounters {
    pub found: u64,
    pub error: u64,
    pub dispatched: u64,
}

/// Number of resolved outcomes in `outcomes`.
pub open spec fn count_found(outcomes: Seq<bool>) -> nat
    decreases outcomes.len(),
{
    if outcomes.len() == 0 {
        0
    } else {
        count_found(outcomes.drop_last()) + if outcomes.last() { 1nat } else { 0nat }
    }
}

/// Number of failed outcomes in `outcomes`.
pub open spec fn count_error(outcomes: Seq<bool>) -> nat
    decreases outcomes.len(),
{
    if outcomes.len() == 0 {
        0
    } else {
        count_error(outcomes.drop_last()) + if outcomes.last() { 0nat } else { 1nat }
    }
}

impl PipelineCounters {
    /// Every dispatched embed has been counted once, as found or as error.
    pub open spec fn wf(&self) -> bool {
        self.found + self.error == self.dispatched
    }

    /// Counters of a run that has dispatched nothing.
    pub fn new() -> (r: PipelineCounters)
        ensures
            r.wf(),
            r.found == 0,
            r.error == 0,
            r.dispatched == 0,
    {
        PipelineCounters { found: 0, error: 0, dispatched: 0 }
    }

    /// Counts the outcome of one dispatched embed.
    pub fn record(&mut self, resolved: bool)
        requires
            old(self).wf(),
            old(self).dispatched < u64::MAX,
        ensures
            final(self).wf(),
            final(self).dispatched == old(self).dispatched + 1,
            final(self).found == old(self).found + if resolved { 1int } else { 0int },
            final(self).error == old(self).error + if resolved { 0int } else { 1int },
    {
        if resolved {
            self.found = self.found + 1;
        } else {
            self.error = self.error + 1;
        }
        self.dispatched = self.dispatched + 1;
    }
}

/// Counters after the embeds with these outcomes, in this order, were dispatched.
pub fn tally(outcomes: &Vec<bool>) -> (r: PipelineCounters)
    requires
        outcomes.len() < u64::MAX,
    ensures
        r.wf(),
        r.found == count_found(outcomes@),
        r.error == count_error(outcomes@),
        r.dispatched == outcomes.len(),
{
    let mut c = PipelineCounters::new();
    let mut i: usize = 0;
    while i < outcomes.len()
        invariant
            i <= outcomes.len() < u64::MAX,
            c.wf(),
            c.dispatched == i,
            c.found == count_found(outcomes@.take(i as int)),
            c.error == count_error(outcomes@.take(i as int)),
        decreases outcomes.len() - i,
    {
        assert(outcomes@.take(i + 1).drop_last() =~= outcomes@.take(i as int));
        c.record(outcomes[i]);
        i = i + 1;
    }
    assert(outcomes@.take(i as int) =~= outcomes@);
    c
}

/// Found plus error equals the number of embeds dispatched, whatever their outcomes.
pub proof fn lemma_conservation(outcomes: Seq<bool>)
    ensures
        count_found(outcomes) + count_error(outcomes) == outcomes.len(),
    decreases outcomes.len(),
{
    if outcomes.len() > 0 {
        lemma_conservation(outcomes.drop_last());
    }
}

/// What a finished group of embeds means for the run.
#[derive(PartialEq, Eq, Structural, Clone, Copy, Debug)]
pub enum GroupVerdict {
    /// Nothing was resolved: the run stops with the "nothing found" status.
    NothingFound,
    /// Some embeds failed: ask whether to go on.
    AskToContinue,
    /// Go on with what was found.
    Proceed,
    /// The user declined to go on: the run stops with the "cancelled" status.
    Cancelled,
}

/// The verdict on a group of embeds with these counts.
pub open spec fn verdict(found: u64, error: u64, ask_on_missing: bool) -> GroupVerdict {
    if error > 0 && ask_on_missing {
        GroupVerdict::AskToContinue
    } else if found == 0 {
        GroupVerdict::NothingFound
    } else {
        GroupVerdict::Proceed
    }
}

/// The verdict on a group: errors lead to a question where `ask_on_missing`
/// is set; otherwise nothing resolved is fatal.
pub fn prevent_case_nothing_found_or_error(found: u64, error: u64, ask_on_missing: bool) -> (r: GroupVerdict)
    ensures
        r == verdict(found, error, ask_on_missing),
{
    if error > 0 && ask_on_missing {
        GroupVerdict::AskToContinue
    } else if found == 0 {
        GroupVerdict::NothingFound
    } else {
        GroupVerdict::Proceed
    }
}

/// The verdict once the run has asked whether to go on: a refusal cancels
/// the run; otherwise nothing resolved is still fatal.
pub open spec fn answer_verdict(found: u64, go_on: bool) -> GroupVerdict {
    if !go_on {
        GroupVerdict::Cancelled
    } else if found == 0 {
        GroupVerdict::NothingFound
    } else {
        GroupVerdict::Proceed
    }
}

/// Where the run was to ask whether to go on: the verdict once that is known.
pub fn after_answer(found: u64, go_on: bool) -> (r: GroupVerdict)
    ensures
        r == answer_verdict(found, go_on),
{
    if !go_on {
        GroupVerdict::Cancelled
    } else if found == 0 {
        GroupVerdict::NothingFound
    } else {
        GroupVerdict::Proceed
    }
}

/// Exit status of a run that ended with "nothing found".
pub const NOTHING_FOUND_STATUS: i32 = 2;

/// Exit status of a run that the user cancelled.
pub const CANCELLED_STATUS: i32 = 130;

/// The exit status that ends the run after `v`, if it ends it.
pub fn exit_status(v: GroupVerdict) -> (r: Option<i32>)
    ensures
        r == match v {
            GroupVerdict::NothingFound => Some(NOTHING_FOUND_STATUS),
            GroupVerdict::Cancelled => Some(CANCELLED_STATUS),
            _ => None::<i32>,
        },
{
    match v {
        GroupVerdict::NothingFound => Some(NOTHING_FOUND_STATUS),
        GroupVerdict::Cancelled => Some(CANCELLED_STATUS),
        _ => None,
    }
}

/// A group in which nothing resolved never proceeds to conversion and
/// play-queue: it ends with the "nothing found" status, or with the
/// "cancelled" one where the run asked and the answer was no. Both statuses
/// differ from each other and from ordinary completion.
pub proof fn lemma_nothing_found_is_fatal(error: u64, ask_on_missing: bool, go_on: bool)
    ensures
        verdict(0, error, ask_on_missing) != GroupVerdict::Proceed,
        verdict(0, error, ask_on_missing) == GroupVerdict::AskToContinue ==> answer_verdict(0, go_on) == (
        if go_on {
            GroupVerdict::NothingFound
        } else {
            GroupVerdict::Cancelled
        }),
        verdict(0, error, ask_on_missing) != GroupVerdict::AskToContinue ==> verdict(0, error, ask_on_missing)
            == GroupVerdict::NothingFound,
        NOTHING_FOUND_STATUS != 0,
        CANCELLED_STATUS != 0,
        NOTHING_FOUND_STATUS != CANCELLED_STATUS,
{
}

/// How many download and conversion workers a core of the machine may carry.
pub const WORKERS_PER_CORE: u64 = 2;

/// The number of parallel download and conversion workers: the requested
/// number, at least one, and at most a small multiple of the machine's
/// hardware parallelism.
pub fn worker_budget(requested: u64, hardware: u64) -> (r: u64)
    ensures
        r == if requested == 0 {
            1
        } else if hardware > 0 && requested > hardware * WORKERS_PER_CORE {
            (hardware * WORKERS_PER_CORE) as int
        } else if hardware == 0 && requested > WORKERS_PER_CORE {
            WORKERS_PER_CORE as int
        } else {
            requested as int
        },
        1 <= r,
{
    let cores: u64 = if hardware == 0 { 1 } else { hardware };
    let cap: u64 = if cores > u64::MAX / WORKERS_PER_CORE { u64::MAX } else { cores * WORKERS_PER_CORE };
    if requested == 0 {
        1
    } else if requested > cap {
        cap
    } else {
        requested
    }
}

/// What a run reports when it is done: its duration and its counts.
pub struct RunSummary {
    pub hours: u64,
    pub minutes: u64,
    pub seconds: u64,
    pub found: u64,
    pub error: u64,
}

/// The report of a run that took `elapsed_secs` seconds with these counters.
pub fn end_print(elapsed_secs: u64, counters: &PipelineCounters) -> (r: RunSummary)
    ensures
        r.hours * 3600 + r.minutes * 60 + r.seconds == elapsed_secs,
        r.minutes < 60,
        r.seconds < 60,
        r.found == counters.found,
        r.error == counters.error,
{
    let hours = elapsed_secs / 3600;
    let rest = elapsed_secs % 3600;
    let minutes = rest / 60;
    let seconds = rest % 60;
    assert(hours * 3600 + minutes * 60 + seconds == elapsed_secs) by (nonlinear_arith)
        requires
            hours == elapsed_secs / 3600,
            rest == elapsed_secs % 3600,
            minutes == rest / 60,
            seconds == rest % 60,
    ;
    RunSummary { hours, minutes, seconds, found: counters.found, error: counters.error }
}

} // verus!

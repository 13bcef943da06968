//! Pushing one control value, with one look-up of the node id in between.
//!
//! The node gets a fresh id whenever the filter chain restarts. A push that
//! fails as if the node were gone therefore looks the id up again and, if it
//! changed, is tried once more.

use crate::text::{contains, has_part, law_has_part};
use vstd::prelude::*;

verus! {

/// What is to be done next about a push.
pub enum PushStage {
    /// Push to this node. On a retry the id is fresh and is to be kept.
    Push { node_id: u32, retry: bool },
    /// Look up the id of the node; the push to `node_id` failed with `error`.
    Discover { node_id: u32, error: String },
    /// The push is over.
    Done(Result<(), String>),
}

/// What came of it.
pub enum PushEvent {
    /// The push ended.
    Pushed(Result<(), String>),
    /// The look-up ended; `None` where it failed.
    Discovered(Option<u32>),
}

/// The error says that the node is not there.
pub open spec fn looks_stale(error: Seq<char>) -> bool {
    ||| has_part(error, "no global"@)
    ||| has_part(error, "unknown"@)
    ||| has_part(error, "No such"@)
    ||| has_part(error, "not found"@)
}

fn is_stale(error: &str) -> (stale: bool)
    ensures
        stale == looks_stale(error@),
{
    contains(error, "no global") || contains(error, "unknown") || contains(error, "No such")
        || contains(error, "not found")
}

/// Where a push starts: with the node id at hand.
pub fn start_push(node_id: u32) -> (stage: PushStage)
    ensures
        stage == (PushStage::Push { node_id, retry: false }),
{
    PushStage::Push { node_id, retry: false }
}

/// What follows a stage, given what came of it. An event that the stage does not
/// wait for leaves it as it is.
pub open spec fn next_stage(stage: PushStage, event: PushEvent) -> PushStage {
    match (stage, event) {
        (PushStage::Push { node_id, retry: false }, PushEvent::Pushed(Err(error))) => {
            if looks_stale(error@) {
                PushStage::Discover { node_id, error }
            } else {
                PushStage::Done(Err(error))
            }
        },
        (PushStage::Push { .. }, PushEvent::Pushed(outcome)) => PushStage::Done(outcome),
        (PushStage::Discover { node_id, error }, PushEvent::Discovered(found)) => {
            match found {
                Some(fresh) => if fresh != node_id {
                    PushStage::Push { node_id: fresh, retry: true }
                } else {
                    PushStage::Done(Err(error))
                },
                None => PushStage::Done(Err(error)),
            }
        },
        _ => stage,
    }
}

/// What follows a stage, given what came of it.
pub fn push_with_refresh(stage: PushStage, event: PushEvent) -> (next: PushStage)
    ensures
        next == next_stage(stage, event),
{
    match stage {
        PushStage::Push { node_id, retry } => match event {
            PushEvent::Pushed(outcome) => match outcome {
                Ok(done) => PushStage::Done(Ok(done)),
                Err(error) => {
                    if !retry && is_stale(error.as_str()) {
                        PushStage::Discover { node_id, error }
                    } else {
                        PushStage::Done(Err(error))
                    }
                },
            },
            PushEvent::Discovered(_) => PushStage::Push { node_id, retry },
        },
        PushStage::Discover { node_id, error } => match event {
            PushEvent::Discovered(found) => match found {
                Some(fresh) => {
                    if fresh != node_id {
                        PushStage::Push { node_id: fresh, retry: true }
                    } else {
                        PushStage::Done(Err(error))
                    }
                },
                None => PushStage::Done(Err(error)),
            },
            PushEvent::Pushed(_) => PushStage::Discover { node_id, error },
        },
        PushStage::Done(outcome) => PushStage::Done(outcome),
    }
}

/// How many events a push still waits for at most.
pub open spec fn steps_left(stage: PushStage) -> nat {
    match stage {
        PushStage::Push { retry: false, .. } => 3,
        PushStage::Discover { .. } => 2,
        PushStage::Push { retry: true, .. } => 1,
        PushStage::Done(_) => 0,
    }
}

/// The event is the one that the stage waits for.
pub open spec fn awaited(stage: PushStage, event: PushEvent) -> bool {
    match stage {
        PushStage::Push { .. } => event is Pushed,
        PushStage::Discover { .. } => event is Discovered,
        PushStage::Done(_) => false,
    }
}

/// A push ends after at most three events: a push, a look-up and one retry.
pub proof fn law_push_ends(stage: PushStage, event: PushEvent)
    requires
        awaited(stage, event),
    ensures
        steps_left(next_stage(stage, event)) < steps_left(stage),
{
}

/// A push that succeeds, or that fails for another reason than a node that is
/// gone, is over at once.
pub proof fn law_no_needless_lookup(node_id: u32, retry: bool, outcome: Result<(), String>)
    requires
        outcome matches Err(error) ==> !looks_stale(error@),
    ensures
        next_stage(PushStage::Push { node_id, retry }, PushEvent::Pushed(outcome))
            == PushStage::Done(outcome),
{
}

/// A retry goes to a node other than the one that failed, and a push that is
/// given up after the look-up reports the error that led to it.
pub proof fn law_retry_is_fresh(node_id: u32, error: String, found: Option<u32>)
    ensures
        match next_stage(PushStage::Discover { node_id, error }, PushEvent::Discovered(found)) {
            PushStage::Push { node_id: fresh, retry } => retry && fresh != node_id && found == Some(
                fresh,
            ),
            PushStage::Done(outcome) => outcome == Err::<(), String>(error) && (found is None
                || found == Some(node_id)),
            PushStage::Discover { .. } => false,
        },
{
}

/// An error says that the node is gone exactly if one of the four phrases stands
/// somewhere in it.
pub proof fn law_stale_phrases(error: Seq<char>, before: Seq<char>, after: Seq<char>)
    ensures
        looks_stale(before + "no global"@ + after),
        looks_stale(before + "unknown"@ + after),
        looks_stale(before + "No such"@ + after),
        looks_stale(before + "not found"@ + after),
        looks_stale(error) ==> has_part(error, "no global"@) || has_part(error, "unknown"@)
            || has_part(error, "No such"@) || has_part(error, "not found"@),
{
    law_has_part(before, "no global"@, after);
    law_has_part(before, "unknown"@, after);
    law_has_part(before, "No such"@, after);
    law_has_part(before, "not found"@, after);
}

/// A retry is not tried again: its outcome is the outcome of the push, whatever
/// the error says.
pub proof fn law_one_retry(node_id: u32, outcome: Result<(), String>)
    ensures
        next_stage(PushStage::Push { node_id, retry: true }, PushEvent::Pushed(outcome))
            == PushStage::Done(outcome),
{
}

/// An event that a stage does not wait for leaves it as it is.
pub proof fn law_stray_push_events(stage: PushStage, event: PushEvent)
    requires
        match stage {
            PushStage::Push { .. } => event is Discovered,
            PushStage::Discover { .. } => event is Pushed,
            PushStage::Done(_) => true,
        },
    ensures
        next_stage(stage, event) == stage,
{
}

} // verus!

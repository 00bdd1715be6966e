//! The scrape cycle: list identifiers, fetch their snapshots, persist them, pause where
//! the backend asks for it. The decisions are made here; the caller performs each action
//! and hands back what came of it.

use vstd::prelude::*;
use crate::model::MatchupOverview;
use crate::persistence::PersistError;

verus! {

/// How a cycle ended.
#[derive(Clone, Copy, Debug, PartialEq, Eq, Structural)]
pub enum CycleOutcome {
    /// Every phase succeeded.
    Completed,
    /// Listing the identifiers failed; nothing was fetched or persisted.
    ListFailed,
    /// Fetching the snapshots failed; nothing was persisted.
    FetchFailed,
    /// Persisting failed; the next trigger tries again.
    PersistFailed(PersistError),
    /// A shutdown was asked for between two phases.
    Cancelled,
}

/// Where a cycle stands.
#[derive(Clone, Copy, Debug, PartialEq, Eq, Structural)]
pub enum CyclePhase {
    /// Waiting for the next trigger.
    Idle,
    /// Waiting for the identifiers.
    Listing,
    /// Waiting for the snapshots.
    Fetching,
    /// Waiting for the save to return.
    Persisting,
    /// Waiting out the pause after a save, which ended as given.
    Pausing(CycleOutcome),
}

/// What happened since the last step.
#[derive(Debug)]
pub enum CycleEvent {
    /// The schedule fired.
    Triggered,
    /// The identifiers were listed.
    IdsListed(Vec<String>),
    /// Listing the identifiers failed.
    ListFailed,
    /// The snapshots were fetched.
    Fetched(Vec<MatchupOverview>),
    /// Fetching the snapshots failed.
    FetchFailed,
    /// The save returned.
    Saved(Result<(), PersistError>),
    /// The pause is over.
    PauseElapsed,
    /// The process is shutting down.
    ShutdownRequested,
}

/// What the caller is to do next.
#[derive(Debug)]
pub enum CycleAction {
    /// List the matchup identifiers.
    ListIds,
    /// Fetch the snapshots of these identifiers.
    Fetch(Vec<String>),
    /// Save this batch.
    Save(Vec<MatchupOverview>),
    /// Wait this many milliseconds.
    Pause(u64),
    /// The cycle is over.
    Finish(CycleOutcome),
    /// A trigger came while a cycle was running: no second cycle is started.
    SkipTrigger,
    /// Nothing to do for this event in this phase.
    Ignore,
}

/// The outcome that a save's result gives.
pub open spec fn outcome_of_save(res: Result<(), PersistError>) -> CycleOutcome {
    match res {
        Ok(()) => CycleOutcome::Completed,
        Err(e) => CycleOutcome::PersistFailed(e),
    }
}

/// One scrape pipeline: at most one cycle runs at a time.
#[derive(Clone, Copy, Debug)]
pub struct ScrapeCycle {
    pub phase: CyclePhase,
    /// Milliseconds to pause after each save, for backends that limit their write rate.
    pub pause_after_save: Option<u64>,
}

impl ScrapeCycle {
    /// An idle pipeline that pauses `pause_after_save` milliseconds after each save, if given.
    pub fn new(pause_after_save: Option<u64>) -> (r: ScrapeCycle)
        ensures
            r.phase == CyclePhase::Idle,
            r.pause_after_save == pause_after_save,
    {
        ScrapeCycle { phase: CyclePhase::Idle, pause_after_save }
    }

    /// Takes one event and gives the next action.
    pub fn step(&mut self, event: CycleEvent) -> (a: CycleAction)
        ensures
            final(self).pause_after_save == old(self).pause_after_save,
            match (old(self).phase, event) {
                (CyclePhase::Idle, CycleEvent::Triggered) => final(self).phase == CyclePhase::Listing
                    && a == CycleAction::ListIds,
                (CyclePhase::Idle, _) => final(self).phase == CyclePhase::Idle && a
                    == CycleAction::Ignore,
                (_, CycleEvent::Triggered) => final(self).phase == old(self).phase && a
                    == CycleAction::SkipTrigger,
                (CyclePhase::Listing, CycleEvent::IdsListed(ids)) => final(self).phase
                    == CyclePhase::Fetching && a == CycleAction::Fetch(ids),
                (CyclePhase::Listing, CycleEvent::ListFailed) => final(self).phase
                    == CyclePhase::Idle && a == CycleAction::Finish(CycleOutcome::ListFailed),
                (CyclePhase::Fetching, CycleEvent::Fetched(batch)) => final(self).phase
                    == CyclePhase::Persisting && a == CycleAction::Save(batch),
                (CyclePhase::Fetching, CycleEvent::FetchFailed) => final(self).phase
                    == CyclePhase::Idle && a == CycleAction::Finish(CycleOutcome::FetchFailed),
                (CyclePhase::Listing, CycleEvent::ShutdownRequested) | (
                    CyclePhase::Fetching,
                    CycleEvent::ShutdownRequested,
                ) => final(self).phase == CyclePhase::Idle && a == CycleAction::Finish(
                    CycleOutcome::Cancelled,
                ),
                (CyclePhase::Persisting, CycleEvent::Saved(res)) => match old(
                    self,
                ).pause_after_save {
                    Some(ms) => final(self).phase == CyclePhase::Pausing(outcome_of_save(res))
                        && a == CycleAction::Pause(ms),
                    None => final(self).phase == CyclePhase::Idle && a == CycleAction::Finish(
                        outcome_of_save(res),
                    ),
                },
                (CyclePhase::Pausing(o), CycleEvent::PauseElapsed) | (
                    CyclePhase::Pausing(o),
                    CycleEvent::ShutdownRequested,
                ) => final(self).phase == CyclePhase::Idle && a == CycleAction::Finish(o),
                _ => final(self).phase == old(self).phase && a == CycleAction::Ignore,
            },
    {
        match (self.phase, event) {
            (CyclePhase::Idle, CycleEvent::Triggered) => {
                self.phase = CyclePhase::Listing;
                CycleAction::ListIds
            },
            (CyclePhase::Idle, _) => CycleAction::Ignore,
            (_, CycleEvent::Triggered) => CycleAction::SkipTrigger,
            (CyclePhase::Listing, CycleEvent::IdsListed(ids)) => {
                self.phase = CyclePhase::Fetching;
                CycleAction::Fetch(ids)
            },
            (CyclePhase::Listing, CycleEvent::ListFailed) => {
                self.phase = CyclePhase::Idle;
                CycleAction::Finish(CycleOutcome::ListFailed)
            },
            (CyclePhase::Fetching, CycleEvent::Fetched(batch)) => {
                self.phase = CyclePhase::Persisting;
                CycleAction::Save(batch)
            },
            (CyclePhase::Fetching, CycleEvent::FetchFailed) => {
                self.phase = CyclePhase::Idle;
                CycleAction::Finish(CycleOutcome::FetchFailed)
            },
            (CyclePhase::Listing, CycleEvent::ShutdownRequested) | (
                CyclePhase::Fetching,
                CycleEvent::ShutdownRequested,
            ) => {
                self.phase = CyclePhase::Idle;
                CycleAction::Finish(CycleOutcome::Cancelled)
            },
            (CyclePhase::Persisting, CycleEvent::Saved(res)) => {
                let outcome = match res {
                    Ok(()) => CycleOutcome::Completed,
                    Err(e) => CycleOutcome::PersistFailed(e),
                };
                match self.pause_after_save {
                    Some(ms) => {
                        self.phase = CyclePhase::Pausing(outcome);
                        CycleAction::Pause(ms)
                    },
                    None => {
                        self.phase = CyclePhase::Idle;
                        CycleAction::Finish(outcome)
                    },
                }
            },
            (CyclePhase::Pausing(o), CycleEvent::PauseElapsed) | (
                CyclePhase::Pausing(o),
                CycleEvent::ShutdownRequested,
            ) => {
                self.phase = CyclePhase::Idle;
                CycleAction::Finish(o)
            },
            _ => CycleAction::Ignore,
        }
    }
}

} // verus!

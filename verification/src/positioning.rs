//! How one attempt places the saved monitors once they are all connected: each
//! monitor, in the order of the layout, gets a session of its own with the compositor
//! and then its position. A session that cannot be opened ends the attempt with an
//! error; a position the compositor refuses is only reported, and the next monitor
//! follows.

use vstd::prelude::*;

verus! {

/// What happened to the last request.
#[derive(Clone, Copy, Debug, PartialEq, Eq, Structural)]
pub enum PositioningEvent {
    /// The session for the current monitor is open and knows the outputs.
    SessionReady,
    /// The session could not be opened or did not get the list of outputs.
    SessionFailed,
    /// The compositor applied the current monitor's position.
    PositionSet,
    /// The compositor refused or cancelled the current monitor's position.
    PositionFailed,
}

/// What to do next.
#[derive(Clone, Copy, Debug, PartialEq, Eq, Structural)]
pub enum PositioningAction {
    /// Open a session for monitor number `index` of the layout.
    OpenSession { index: usize },
    /// Ask for monitor number `index` to be put at its saved position.
    SetPosition { index: usize },
    /// End the attempt with the error of the failed session.
    Abort,
    /// Every monitor has had its turn: the attempt succeeded.
    Done,
}

/// Progress through a layout of `total` monitors: `next` is the monitor being placed.
#[derive(Clone, Copy, Debug, PartialEq, Eq, Structural)]
pub struct PositioningRun {
    pub next: usize,
    pub total: usize,
}

/// The transition on one event.
pub open spec fn spec_positioning_step(run: PositioningRun, e: PositioningEvent) -> (PositioningRun, PositioningAction) {
    match e {
        PositioningEvent::SessionReady => {
            if run.next < run.total {
                (run, PositioningAction::SetPosition { index: run.next })
            } else {
                (run, PositioningAction::Done)
            }
        },
        PositioningEvent::SessionFailed => (run, PositioningAction::Abort),
        _ => {
            if run.next < run.total {
                let n = (run.next + 1) as usize;
                (
                    PositioningRun { next: n, total: run.total },
                    if n < run.total { PositioningAction::OpenSession { index: n } } else { PositioningAction::Done },
                )
            } else {
                (run, PositioningAction::Done)
            }
        },
    }
}

impl PositioningRun {
    /// The start of a run over `total` monitors and its first action.
    pub fn start(total: usize) -> (res: (PositioningRun, PositioningAction))
        ensures
            res.0 == (PositioningRun { next: 0, total }),
            res.1 == (if total > 0 { PositioningAction::OpenSession { index: 0 } } else { PositioningAction::Done }),
    {
        let run = PositioningRun { next: 0, total };
        if total > 0 {
            (run, PositioningAction::OpenSession { index: 0 })
        } else {
            (run, PositioningAction::Done)
        }
    }

    /// Takes one event: updates the run and returns the next action.
    pub fn step(&mut self, event: PositioningEvent) -> (action: PositioningAction)
        ensures
            (*final(self), action) == spec_positioning_step(*old(self), event),
            event == PositioningEvent::SessionFailed ==> *final(self) == *old(self)
                && action == PositioningAction::Abort,
            event == PositioningEvent::SessionReady ==> *final(self) == *old(self)
                && action == (if old(self).next < old(self).total {
                    PositioningAction::SetPosition { index: old(self).next }
                } else {
                    PositioningAction::Done
                }),
            (event == PositioningEvent::PositionSet || event == PositioningEvent::PositionFailed)
                && old(self).next < old(self).total ==> final(self).next == old(self).next + 1
                && final(self).total == old(self).total
                && action == (if old(self).next + 1 < old(self).total {
                    PositioningAction::OpenSession { index: (old(self).next + 1) as usize }
                } else {
                    PositioningAction::Done
                }),
            (event == PositioningEvent::PositionSet || event == PositioningEvent::PositionFailed)
                && old(self).next >= old(self).total ==> *final(self) == *old(self)
                && action == PositioningAction::Done,
    {
        match event {
            PositioningEvent::SessionReady => {
                if self.next < self.total {
                    PositioningAction::SetPosition { index: self.next }
                } else {
                    PositioningAction::Done
                }
            },
            PositioningEvent::SessionFailed => PositioningAction::Abort,
            PositioningEvent::PositionSet | PositioningEvent::PositionFailed => {
                if self.next < self.total {
                    self.next = self.next + 1;
                    if self.next < self.total {
                        PositioningAction::OpenSession { index: self.next }
                    } else {
                        PositioningAction::Done
                    }
                } else {
                    PositioningAction::Done
                }
            },
        }
    }
}

/// The outcome event of a positioning request.
pub open spec fn outcome_event(set: bool) -> PositioningEvent {
    if set { PositioningEvent::PositionSet } else { PositioningEvent::PositionFailed }
}

/// The run after one monitor per outcome has had its turn (session ready, then the
/// outcome), starting from the beginning.
pub open spec fn after_turns(total: usize, outcomes: Seq<bool>) -> PositioningRun
    decreases outcomes.len(),
{
    if outcomes.len() == 0 {
        PositioningRun { next: 0, total }
    } else {
        let before = after_turns(total, outcomes.drop_last());
        let ready = spec_positioning_step(before, PositioningEvent::SessionReady).0;
        spec_positioning_step(ready, outcome_event(outcomes.last())).0
    }
}

/// Each monitor gets exactly one turn, in order, whatever the compositor answers: after
/// `k` turns (`k < total`) the session opened is for monitor `k` and the position asked
/// for is monitor `k`'s; after the last turn the attempt is done. A refused position
/// does not end the attempt.
pub proof fn lemma_each_monitor_once_in_order(total: usize, outcomes: Seq<bool>, set: bool)
    requires
        outcomes.len() < total,
    ensures
        after_turns(total, outcomes) == (PositioningRun { next: outcomes.len() as usize, total }),
        spec_positioning_step(after_turns(total, outcomes), PositioningEvent::SessionReady).1
            == (PositioningAction::SetPosition { index: outcomes.len() as usize }),
        spec_positioning_step(after_turns(total, outcomes), outcome_event(set)).1 == (if outcomes.len() + 1 < total {
            PositioningAction::OpenSession { index: (outcomes.len() + 1) as usize }
        } else {
            PositioningAction::Done
        }),
    decreases outcomes.len(),
{
    if outcomes.len() > 0 {
        lemma_each_monitor_once_in_order(total, outcomes.drop_last(), outcomes.last());
    }
}

/// From any run, a session that cannot be opened ends the attempt: the action is
/// `Abort` and no monitor is skipped over.
pub proof fn lemma_failed_session_aborts(run: PositioningRun)
    ensures
        spec_positioning_step(run, PositioningEvent::SessionFailed) == (run, PositioningAction::Abort),
{
}

/// An open session asks for the position of the monitor whose turn it is.
pub proof fn lemma_ready_session_sets_current(run: PositioningRun)
    requires
        run.next < run.total,
    ensures
        spec_positioning_step(run, PositioningEvent::SessionReady)
            == (run, PositioningAction::SetPosition { index: run.next }),
{
}

/// Whatever the compositor answers to a position, the turn passes to the next monitor,
/// and after the last one the attempt is done.
pub proof fn lemma_answer_passes_turn(run: PositioningRun, set: bool)
    requires
        run.next < run.total,
    ensures
        spec_positioning_step(run, outcome_event(set)).0 == (PositioningRun { next: (run.next + 1) as usize, total: run.total }),
        spec_positioning_step(run, outcome_event(set)).1 == (if run.next + 1 < run.total {
            PositioningAction::OpenSession { index: (run.next + 1) as usize }
        } else {
            PositioningAction::Done
        }),
{
}

} // verus!

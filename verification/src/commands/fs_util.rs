//! Staged directory replacement.
//!
//! A staged directory replaces its destination in two phases: the commit moves
//! the old destination aside (the backup) and the staged directory in, and the
//! replacement is then either finalized (the backup is removed) or rolled back
//! (the new destination is removed and the backup restored). The filesystem
//! work is done by the caller: `DirectoryReplacement::step` takes what happened
//! and says what to do next.

use vstd::prelude::*;
use crate::paths::{path_starts_with, starts_with_components};
use crate::text::opt_text;

verus! {

/// The filesystem work a replacement asks for next.
#[derive(Debug)]
pub enum ReplacementAction {
    /// Remove this directory tree (a missing tree counts as removed).
    Remove(String),
    /// Rename the backup (first) back to the destination (second).
    Restore(String, String),
    /// Sync the parent directory of this path.
    SyncParent(String),
    /// The requested operation is over, with this outcome.
    Finish(Result<(), String>),
}

/// What the caller reports to a replacement.
#[derive(Debug)]
pub enum ReplacementEvent {
    /// Make the replacement permanent.
    Finalize,
    /// Undo the replacement.
    Rollback,
    /// The outcome of the last action asked for.
    Done(Result<(), String>),
}

/// Where a replacement is within an operation.
#[derive(Clone, Copy, Debug, PartialEq, Eq, Structural)]
pub enum ReplacementPhase {
    Idle,
    RemovingBackup,
    RemovingDestination,
    Restoring,
    Syncing,
}

/// A committed-but-not-final directory replacement.
#[derive(Debug)]
pub struct DirectoryReplacement {
    pub destination: String,
    pub backup: Option<String>,
    pub committed: bool,
    pub phase: ReplacementPhase,
}

/// Whether `event` is one the replacement can take in its phase: requests
/// when idle, action outcomes otherwise.
pub open spec fn accepts(phase: ReplacementPhase, event: ReplacementEvent) -> bool {
    match event {
        ReplacementEvent::Done(_) => phase != ReplacementPhase::Idle,
        _ => phase == ReplacementPhase::Idle,
    }
}

/// The (destination, backup, committed, phase) of a replacement.
pub open spec fn state_of(r: DirectoryReplacement) -> (
    Seq<char>,
    Option<Seq<char>>,
    bool,
    ReplacementPhase,
) {
    (r.destination@, opt_text(r.backup), r.committed, r.phase)
}

/// An action, over texts.
pub enum Act {
    Remove(Seq<char>),
    Restore(Seq<char>, Seq<char>),
    SyncParent(Seq<char>),
    Finish(Result<(), Seq<char>>),
}

/// The text of an action.
pub open spec fn act_of(a: ReplacementAction) -> Act {
    match a {
        ReplacementAction::Remove(p) => Act::Remove(p@),
        ReplacementAction::Restore(b, d) => Act::Restore(b@, d@),
        ReplacementAction::SyncParent(p) => Act::SyncParent(p@),
        ReplacementAction::Finish(Ok(())) => Act::Finish(Ok(())),
        ReplacementAction::Finish(Err(e)) => Act::Finish(Err(e@)),
    }
}

/// The transition of a replacement: from its state and an event to its next
/// state and the action to perform.
pub open spec fn transition(
    s: (Seq<char>, Option<Seq<char>>, bool, ReplacementPhase),
    event: ReplacementEvent,
) -> ((Seq<char>, Option<Seq<char>>, bool, ReplacementPhase), Act) {
    let (dest, backup, committed, phase) = s;
    let idle = ReplacementPhase::Idle;
    match event {
        ReplacementEvent::Finalize => if committed {
            (s, Act::Finish(Ok(())))
        } else {
            match backup {
                None => ((dest, backup, true, idle), Act::Finish(Ok(()))),
                Some(b) => ((dest, backup, false, ReplacementPhase::RemovingBackup), Act::Remove(b)),
            }
        },
        ReplacementEvent::Rollback => if committed {
            (s, Act::Finish(Ok(())))
        } else {
            ((dest, backup, false, ReplacementPhase::RemovingDestination), Act::Remove(dest))
        },
        ReplacementEvent::Done(outcome) => {
            let failed = outcome is Err;
            let error = match outcome {
                Err(e) => e@,
                Ok(()) => Seq::empty(),
            };
            match phase {
                ReplacementPhase::RemovingBackup => if failed {
                    ((dest, backup, committed, idle), Act::Finish(Err(error)))
                } else {
                    ((dest, None, true, ReplacementPhase::Syncing), Act::SyncParent(dest))
                },
                ReplacementPhase::RemovingDestination => if failed {
                    ((dest, backup, committed, idle), Act::Finish(Err(error)))
                } else {
                    match backup {
                        None => ((dest, None, true, ReplacementPhase::Syncing), Act::SyncParent(
                            dest,
                        )),
                        Some(b) => ((dest, backup, committed, ReplacementPhase::Restoring), Act::Restore(b, dest)),
                    }
                },
                ReplacementPhase::Restoring => if failed {
                    ((dest, backup, committed, idle), Act::Finish(Err(error)))
                } else {
                    ((dest, None, true, ReplacementPhase::Syncing), Act::SyncParent(dest))
                },
                _ => (
                    (dest, backup, committed, idle),
                    Act::Finish(
                        if failed {
                            Err(error)
                        } else {
                            Ok(())
                        },
                    ),
                ),
            }
        },
    }
}

impl DirectoryReplacement {
    /// A replacement just committed: `destination` holds the staged tree and
    /// `backup`, if any, holds what was there before.
    pub fn new(destination: String, backup: Option<String>) -> (r: Self)
        ensures
            state_of(r) == (destination@, opt_text(backup), false, ReplacementPhase::Idle),
    {
        DirectoryReplacement { destination, backup, committed: false, phase: ReplacementPhase::Idle }
    }

    /// Whether the replacement can still be undone.
    pub fn can_rollback(&self) -> (b: bool)
        ensures
            b == !self.committed,
    {
        !self.committed
    }

    /// Take an event and say what to do next.
    pub fn step(&mut self, event: ReplacementEvent) -> (action: ReplacementAction)
        requires
            accepts(old(self).phase, event),
        ensures
            (state_of(*final(self)), act_of(action)) == transition(state_of(*old(self)), event),
    {
        match event {
            ReplacementEvent::Finalize => {
                if self.committed {
                    return ReplacementAction::Finish(Ok(()));
                }
                match &self.backup {
                    None => {
                        self.committed = true;
                        ReplacementAction::Finish(Ok(()))
                    },
                    Some(b) => {
                        let b = b.clone();
                        self.phase = ReplacementPhase::RemovingBackup;
                        ReplacementAction::Remove(b)
                    },
                }
            },
            ReplacementEvent::Rollback => {
                if self.committed {
                    return ReplacementAction::Finish(Ok(()));
                }
                self.phase = ReplacementPhase::RemovingDestination;
                ReplacementAction::Remove(self.destination.clone())
            },
            ReplacementEvent::Done(outcome) => {
                let phase = self.phase;
                match outcome {
                    Err(e) => {
                        self.phase = ReplacementPhase::Idle;
                        ReplacementAction::Finish(Err(e))
                    },
                    Ok(()) => match phase {
                        ReplacementPhase::RemovingBackup => {
                            self.backup = None;
                            self.committed = true;
                            self.phase = ReplacementPhase::Syncing;
                            ReplacementAction::SyncParent(self.destination.clone())
                        },
                        ReplacementPhase::RemovingDestination => match &self.backup {
                            None => {
                                self.committed = true;
                                self.phase = ReplacementPhase::Syncing;
                                ReplacementAction::SyncParent(self.destination.clone())
                            },
                            Some(b) => {
                                let b = b.clone();
                                self.phase = ReplacementPhase::Restoring;
                                ReplacementAction::Restore(b, self.destination.clone())
                            },
                        },
                        ReplacementPhase::Restoring => {
                            self.backup = None;
                            self.committed = true;
                            self.phase = ReplacementPhase::Syncing;
                            ReplacementAction::SyncParent(self.destination.clone())
                        },
                        _ => {
                            self.phase = ReplacementPhase::Idle;
                            ReplacementAction::Finish(Ok(()))
                        },
                    },
                }
            },
        }
    }
}

/// Once a replacement is committed, finalizing and rolling back both finish
/// at once, successfully, and leave it as it was.
pub proof fn lemma_committed_is_final(s: (Seq<char>, Option<Seq<char>>, bool, ReplacementPhase))
    requires
        s.2,
    ensures
        transition(s, ReplacementEvent::Finalize) == (s, Act::Finish(Ok(()))),
        transition(s, ReplacementEvent::Rollback) == (s, Act::Finish(Ok(()))),
{
}

/// A finalize whose backup removal and parent sync succeed leaves the
/// replacement committed, with no backup, and reports success.
pub proof fn lemma_finalize_commits(dest: Seq<char>, backup: Seq<char>)
    ensures
        ({
            let s0 = (dest, Some(backup), false, ReplacementPhase::Idle);
            let (s1, a1) = transition(s0, ReplacementEvent::Finalize);
            let (s2, a2) = transition(s1, ReplacementEvent::Done(Ok(())));
            let (s3, a3) = transition(s2, ReplacementEvent::Done(Ok(())));
            &&& a1 == Act::Remove(backup)
            &&& a2 == Act::SyncParent(dest)
            &&& a3 == Act::Finish(Ok(()))
            &&& s3 == (dest, None::<Seq<char>>, true, ReplacementPhase::Idle)
        }),
{
}

/// A rollback removes the new destination and then restores the backup over
/// it; when both succeed the replacement is committed and the rollback
/// reports the parent sync's outcome.
pub proof fn lemma_rollback_restores(dest: Seq<char>, backup: Seq<char>)
    ensures
        ({
            let s0 = (dest, Some(backup), false, ReplacementPhase::Idle);
            let (s1, a1) = transition(s0, ReplacementEvent::Rollback);
            let (s2, a2) = transition(s1, ReplacementEvent::Done(Ok(())));
            let (s3, a3) = transition(s2, ReplacementEvent::Done(Ok(())));
            &&& a1 == Act::Remove(dest)
            &&& a2 == Act::Restore(backup, dest)
            &&& a3 == Act::SyncParent(dest)
            &&& s3 == (dest, None::<Seq<char>>, true, ReplacementPhase::Syncing)
        }),
{
}

/// A failed action ends the operation with that failure and leaves the
/// replacement uncommitted, so it can still be rolled back.
pub proof fn lemma_failure_keeps_rollback(
    s: (Seq<char>, Option<Seq<char>>, bool, ReplacementPhase),
    e: String,
)
    requires
        !s.2,
        s.3 == ReplacementPhase::RemovingBackup || s.3 == ReplacementPhase::RemovingDestination
            || s.3 == ReplacementPhase::Restoring,
    ensures
        transition(s, ReplacementEvent::Done(Err(e))).1 == Act::Finish(Err(e@)),
        !transition(s, ReplacementEvent::Done(Err(e))).0.2,
        transition(s, ReplacementEvent::Done(Err(e))).0.3 == ReplacementPhase::Idle,
{
}

/// A committed replacement holds no backup, and every step keeps it so: a
/// backup is only dropped together with the commit, and never brought back.
pub proof fn lemma_commit_drops_backup(
    s: (Seq<char>, Option<Seq<char>>, bool, ReplacementPhase),
    event: ReplacementEvent,
)
    requires
        s.2 ==> s.1 is None,
        accepts(s.3, event),
    ensures
        transition(s, event).0.2 ==> transition(s, event).0.1 is None,
        s.2 ==> transition(s, event).0.2,
{
}

/// The state a replacement reaches from `s` through `events`.
pub open spec fn run(
    s: (Seq<char>, Option<Seq<char>>, bool, ReplacementPhase),
    events: Seq<ReplacementEvent>,
) -> (Seq<char>, Option<Seq<char>>, bool, ReplacementPhase)
    decreases events.len(),
{
    if events.len() == 0 {
        s
    } else {
        run(transition(s, events[0]).0, events.drop_first())
    }
}

/// A finalized replacement stays final: once committed (its backup gone),
/// whatever events follow it stays committed, holds no backup and keeps its
/// destination, so no later rollback can touch the committed tree.
pub proof fn lemma_finalized_stays_final(
    s: (Seq<char>, Option<Seq<char>>, bool, ReplacementPhase),
    events: Seq<ReplacementEvent>,
)
    requires
        s.2,
        s.1 is None,
    ensures
        run(s, events).2,
        run(s, events).1 is None,
        run(s, events).0 == s.0,
    decreases events.len(),
{
    if events.len() > 0 {
        lemma_finalized_stays_final(transition(s, events[0]).0, events.drop_first());
    }
}

/// A finalize whose backup removal succeeds is committed even when the parent
/// sync then fails: the failure is reported, and the replacement is final.
pub proof fn lemma_sync_failure_keeps_commit(dest: Seq<char>, backup: Seq<char>, e: String)
    ensures
        ({
            let s0 = (dest, Some(backup), false, ReplacementPhase::Idle);
            let (s1, a1) = transition(s0, ReplacementEvent::Finalize);
            let (s2, a2) = transition(s1, ReplacementEvent::Done(Ok(())));
            let (s3, a3) = transition(s2, ReplacementEvent::Done(Err(e)));
            &&& a1 == Act::Remove(backup)
            &&& a2 == Act::SyncParent(dest)
            &&& a3 == Act::Finish(Err(e@))
            &&& s3 == (dest, None::<Seq<char>>, true, ReplacementPhase::Idle)
        }),
{
}

/// A failure followed by the failure of its rollback is reported as both.
pub fn with_rollback_error(error: String, rollback: Result<(), String>) -> (m: String)
    ensures
        match rollback {
            Ok(()) => m@ == error@,
            Err(r) => m@ == error@ + "; "@ + r@,
        },
{
    match rollback {
        Ok(()) => error,
        Err(r) => {
            let mut m = error;
            m.append("; ");
            m.append(r.as_str());
            m
        },
    }
}

/// Two resolved directories overlap when either contains the other.
pub open spec fn overlapping(a: Seq<char>, b: Seq<char>) -> bool {
    starts_with_components(a, b) || starts_with_components(b, a)
}

/// Copy source and destination (both resolved) must not overlap.
pub fn check_disjoint_directories(source: &str, destination: &str) -> (r: Result<(), String>)
    ensures
        !overlapping(source@, destination@) ==> r is Ok,
        overlapping(source@, destination@) ==> r is Err && r->Err_0@
            == "source and destination directories must not overlap: "@ + source@ + " and "@
            + destination@,
{
    if path_starts_with(source, destination) || path_starts_with(destination, source) {
        let mut m = "source and destination directories must not overlap: ".to_owned();
        m.append(source);
        m.append(" and ");
        m.append(destination);
        return Err(m);
    }
    Ok(())
}

} // verus!

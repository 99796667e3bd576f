//! The cycle orchestrator.
//!
//! The engine runs forever at a fixed period: fetch the dialog list,
//! refresh every chat's metadata and members, sync every chat's unseen
//! history from its stored checkpoint, analyze the chats that need it,
//! recompute the duplicate flags, sleep, repeat. The orchestrator is
//! that schedule as an explicit state machine: the driver reports each
//! observed event and performs the single action returned, so a test
//! can run exactly one cycle deterministically and without sleeping.
//!
//! Failure handling follows the engine's scoping rules: only a failed
//! dialog-list fetch aborts a whole cycle (straight to sleep, nothing
//! touched); every other failure is scoped to its chat and reported as
//! that step's completion event, and the cycle moves on.

use vstd::prelude::*;

verus! {

/// Seconds between the end of one cycle and the start of the next.
pub const CYCLE_INTERVAL_SECS: u64 = 1800;

/// Where the orchestrator stands.
#[derive(Debug, Clone, Copy, PartialEq, Eq, Structural)]
pub enum Phase {
    /// Sleeping between cycles.
    Idle,
    /// Waiting for the dialog list.
    AwaitingDialogs,
    /// Refreshing chat metadata and members, one chat at a time.
    Refreshing { idx: usize },
    /// Waiting for the stored checkpoint of a chat.
    AwaitingCheckpoint { idx: usize },
    /// The history paginator is walking a chat's unseen messages.
    AwaitingHistory { idx: usize },
    /// Waiting for the fetched batch to be persisted.
    AwaitingSave { idx: usize, fetched: usize },
    /// Waiting for the chat's stored category.
    AwaitingCategory { idx: usize, fetched: usize },
    /// Waiting for the analysis collaborator.
    AwaitingAnalysis { idx: usize },
    /// Waiting for the analysis outcome to be persisted.
    AwaitingAnalysisSave { idx: usize },
    /// Waiting for the duplicate-flag recomputation.
    AwaitingResolve,
}

/// What the driver reports back to the orchestrator.
pub enum CycleEvent {
    /// The inter-cycle timer fired.
    TimerFired,
    /// The dialog list arrived with this many group or channel chats.
    DialogsFetched { count: usize },
    /// The dialog list could not be fetched: the cycle is abandoned.
    DialogsFailed,
    /// The current chat's metadata and members were refreshed; a
    /// failure there is scoped to the chat and reported the same way.
    ChatRefreshed,
    /// The stored checkpoint of the current chat (0 when none).
    CheckpointRead { last_seen_id: i32 },
    /// The paginator finished with this many new messages.
    HistoryFetched { fetched: usize },
    /// The fetched batch was persisted (or its save failed; either way
    /// the cycle moves on to the analysis decision).
    MessagesSaved,
    /// Whether the current chat already has a stored category.
    CategoryRead { has_category: bool },
    /// Analysis succeeded; `category` is the normalized label that was
    /// recorded for the duplicate resolution.
    AnalysisDone { category: String },
    /// Analysis failed; prior analysis state stays untouched.
    AnalysisFailed,
    /// The analysis outcome was persisted.
    AnalysisSaved,
    /// The duplicate flags were recomputed.
    Resolved,
}

/// What the driver must do next.
#[derive(Debug, Clone, Copy, PartialEq, Eq, Structural)]
pub enum CycleAction {
    /// Fetch the dialog list.
    FetchDialogs,
    /// Upsert this chat's metadata and refresh its members.
    RefreshChat { idx: usize },
    /// Read this chat's stored checkpoint.
    ReadCheckpoint { idx: usize },
    /// Run the history paginator for this chat from `since`.
    FetchHistory { idx: usize, since: i32 },
    /// Persist the fetched batch for this chat.
    SaveMessages { idx: usize },
    /// Read whether this chat has a stored category.
    ReadCategory { idx: usize },
    /// Call the analysis collaborator for this chat.
    Analyze { idx: usize },
    /// Persist the analysis outcome for this chat (category, suggested
    /// name, urgent flags).
    SaveAnalysis { idx: usize },
    /// Recompute duplicate flags from this cycle's recorded pairs
    /// merged with every persisted category.
    ResolveDuplicates,
    /// Sleep this many seconds, then report the timer.
    Sleep { secs: u64 },
    /// The event did not belong to the current phase; nothing to do.
    Noop,
}

/// Phase payloads stay within the chat list.
pub open spec fn phase_wf(p: Phase, count: int) -> bool {
    match p {
        Phase::Idle => true,
        Phase::AwaitingDialogs => true,
        Phase::Refreshing { idx } => (idx as int) < count,
        Phase::AwaitingCheckpoint { idx } => (idx as int) < count,
        Phase::AwaitingHistory { idx } => (idx as int) < count,
        Phase::AwaitingSave { idx, fetched } => (idx as int) < count,
        Phase::AwaitingCategory { idx, fetched } => (idx as int) < count,
        Phase::AwaitingAnalysis { idx } => (idx as int) < count,
        Phase::AwaitingAnalysisSave { idx } => (idx as int) < count,
        Phase::AwaitingResolve => true,
    }
}

/// The phase that follows once chat `idx` is fully handled: the next
/// chat's checkpoint read, or the duplicate resolution after the last.
pub open spec fn after_chat_phase(idx: usize, count: usize) -> Phase {
    if idx + 1 < count {
        Phase::AwaitingCheckpoint { idx: (idx + 1) as usize }
    } else {
        Phase::AwaitingResolve
    }
}

/// The action that goes with [`after_chat_phase`].
pub open spec fn after_chat_action(idx: usize, count: usize) -> CycleAction {
    if idx + 1 < count {
        CycleAction::ReadCheckpoint { idx: (idx + 1) as usize }
    } else {
        CycleAction::ResolveDuplicates
    }
}

/// The phase after consuming `e` in phase `p` with `count` chats; an
/// event that does not answer the phase changes nothing.
pub open spec fn next_phase(p: Phase, e: CycleEvent, count: usize) -> Phase {
    match (p, e) {
        (Phase::Idle, CycleEvent::TimerFired) => Phase::AwaitingDialogs,
        (Phase::AwaitingDialogs, CycleEvent::DialogsFetched { count: c }) => if c > 0 {
            Phase::Refreshing { idx: 0 }
        } else {
            Phase::AwaitingResolve
        },
        (Phase::AwaitingDialogs, CycleEvent::DialogsFailed) => Phase::Idle,
        (Phase::Refreshing { idx }, CycleEvent::ChatRefreshed) => if idx + 1 < count {
            Phase::Refreshing { idx: (idx + 1) as usize }
        } else {
            Phase::AwaitingCheckpoint { idx: 0 }
        },
        (
            Phase::AwaitingCheckpoint { idx },
            CycleEvent::CheckpointRead { last_seen_id },
        ) => Phase::AwaitingHistory { idx },
        (
            Phase::AwaitingHistory { idx },
            CycleEvent::HistoryFetched { fetched },
        ) => Phase::AwaitingSave { idx, fetched },
        (
            Phase::AwaitingSave { idx, fetched },
            CycleEvent::MessagesSaved,
        ) => Phase::AwaitingCategory { idx, fetched },
        (
            Phase::AwaitingCategory { idx, fetched },
            CycleEvent::CategoryRead { has_category },
        ) => if !has_category || fetched > 0 {
            Phase::AwaitingAnalysis { idx }
        } else {
            after_chat_phase(idx, count)
        },
        (
            Phase::AwaitingAnalysis { idx },
            CycleEvent::AnalysisDone { category },
        ) => Phase::AwaitingAnalysisSave { idx },
        (Phase::AwaitingAnalysis { idx }, CycleEvent::AnalysisFailed) => after_chat_phase(
            idx,
            count,
        ),
        (Phase::AwaitingAnalysisSave { idx }, CycleEvent::AnalysisSaved) => after_chat_phase(
            idx,
            count,
        ),
        (Phase::AwaitingResolve, CycleEvent::Resolved) => Phase::Idle,
        _ => p,
    }
}

/// The action answered for `e` in phase `p` with `count` chats; an
/// event that does not answer the phase asks for nothing. A stored
/// checkpoint at or below zero starts the history walk from the
/// beginning.
pub open spec fn next_action(p: Phase, e: CycleEvent, count: usize) -> CycleAction {
    match (p, e) {
        (Phase::Idle, CycleEvent::TimerFired) => CycleAction::FetchDialogs,
        (Phase::AwaitingDialogs, CycleEvent::DialogsFetched { count: c }) => if c > 0 {
            CycleAction::RefreshChat { idx: 0 }
        } else {
            CycleAction::ResolveDuplicates
        },
        (Phase::AwaitingDialogs, CycleEvent::DialogsFailed) => CycleAction::Sleep {
            secs: CYCLE_INTERVAL_SECS,
        },
        (Phase::Refreshing { idx }, CycleEvent::ChatRefreshed) => if idx + 1 < count {
            CycleAction::RefreshChat { idx: (idx + 1) as usize }
        } else {
            CycleAction::ReadCheckpoint { idx: 0 }
        },
        (
            Phase::AwaitingCheckpoint { idx },
            CycleEvent::CheckpointRead { last_seen_id },
        ) => CycleAction::FetchHistory {
            idx,
            since: if last_seen_id > 0 {
                last_seen_id
            } else {
                0
            },
        },
        (
            Phase::AwaitingHistory { idx },
            CycleEvent::HistoryFetched { fetched },
        ) => CycleAction::SaveMessages { idx },
        (
            Phase::AwaitingSave { idx, fetched },
            CycleEvent::MessagesSaved,
        ) => CycleAction::ReadCategory { idx },
        (
            Phase::AwaitingCategory { idx, fetched },
            CycleEvent::CategoryRead { has_category },
        ) => if !has_category || fetched > 0 {
            CycleAction::Analyze { idx }
        } else {
            after_chat_action(idx, count)
        },
        (
            Phase::AwaitingAnalysis { idx },
            CycleEvent::AnalysisDone { category },
        ) => CycleAction::SaveAnalysis { idx },
        (Phase::AwaitingAnalysis { idx }, CycleEvent::AnalysisFailed) => after_chat_action(
            idx,
            count,
        ),
        (Phase::AwaitingAnalysisSave { idx }, CycleEvent::AnalysisSaved) => after_chat_action(
            idx,
            count,
        ),
        (Phase::AwaitingResolve, CycleEvent::Resolved) => CycleAction::Sleep {
            secs: CYCLE_INTERVAL_SECS,
        },
        _ => CycleAction::Noop,
    }
}

/// The chat count after consuming `e` in phase `p`: set by the dialog
/// list, untouched by everything else.
pub open spec fn next_count(p: Phase, e: CycleEvent, count: usize) -> usize {
    match (p, e) {
        (Phase::AwaitingDialogs, CycleEvent::DialogsFetched { count: c }) => c,
        _ => count,
    }
}

/// The recorded `(category, chat index)` pairs after consuming `e` in
/// phase `p`: cleared at cycle start, extended by each successful
/// analysis, untouched by everything else.
pub open spec fn next_fresh(
    p: Phase,
    e: CycleEvent,
    fresh: Seq<(String, usize)>,
) -> Seq<(String, usize)> {
    match (p, e) {
        (Phase::Idle, CycleEvent::TimerFired) => Seq::empty(),
        (
            Phase::AwaitingAnalysis { idx },
            CycleEvent::AnalysisDone { category },
        ) => fresh.push((category, idx)),
        _ => fresh,
    }
}

/// The timer-driven scheduler, as an explicit state machine.
pub struct Orchestrator {
    phase: Phase,
    chat_count: usize,
    fresh: Vec<(String, usize)>,
}

impl Orchestrator {
    /// Where the machine stands.
    pub closed spec fn phase(&self) -> Phase {
        self.phase
    }

    /// How many chats the current cycle works through.
    pub closed spec fn chat_count(&self) -> usize {
        self.chat_count
    }

    /// The `(category, chat index)` pairs recorded by this cycle's
    /// analysis passes, for the duplicate resolution.
    pub closed spec fn fresh(&self) -> Seq<(String, usize)> {
        self.fresh@
    }

    /// Payload indices stay within the chat list, and no pair is
    /// recorded before the cycle's chat list is known.
    pub open spec fn wf(&self) -> bool {
        &&& phase_wf(self.phase(), self.chat_count() as int)
        &&& self.phase() matches Phase::AwaitingDialogs ==> self.fresh().len() == 0
        &&& forall|k: int|
            0 <= k < self.fresh().len() ==> ((#[trigger] self.fresh()[k]).1 as int)
                < self.chat_count() as int
    }

    /// A fresh machine, sleeping; the driver starts the first cycle by
    /// reporting the timer.
    pub fn new() -> (o: Orchestrator)
        ensures
            o.wf(),
            o.phase() == Phase::Idle,
            o.chat_count() == 0,
            o.fresh().len() == 0,
    {
        Orchestrator { phase: Phase::Idle, chat_count: 0, fresh: Vec::new() }
    }

    /// The current phase, for the driver's control flow.
    pub fn current_phase(&self) -> (p: Phase)
        ensures
            p == self.phase(),
    {
        self.phase
    }

    /// Hand out and clear this cycle's recorded `(category, idx)`
    /// pairs; called by the driver while resolving duplicates.
    pub fn take_fresh(&mut self) -> (r: Vec<(String, usize)>)
        ensures
            old(self).wf() ==> final(self).wf(),
            r@ == old(self).fresh(),
            final(self).fresh().len() == 0,
            final(self).phase() == old(self).phase(),
            final(self).chat_count() == old(self).chat_count(),
    {
        let mut out: Vec<(String, usize)> = Vec::new();
        core::mem::swap(&mut out, &mut self.fresh);
        out
    }

    /// Consume one event and answer with the next action.
    ///
    /// Every transition of the cycle is stated below; an event that
    /// does not answer the current phase changes nothing and asks for
    /// nothing.
    pub fn step(&mut self, event: CycleEvent) -> (action: CycleAction)
        requires
            old(self).wf(),
        ensures
            final(self).wf(),
            final(self).phase() == next_phase(old(self).phase(), event, old(self).chat_count()),
            final(self).chat_count() == next_count(
                old(self).phase(),
                event,
                old(self).chat_count(),
            ),
            final(self).fresh() == next_fresh(old(self).phase(), event, old(self).fresh()),
            action == next_action(old(self).phase(), event, old(self).chat_count()),
    {
        match (self.phase, event) {
            (Phase::Idle, CycleEvent::TimerFired) => {
                self.phase = Phase::AwaitingDialogs;
                self.fresh = Vec::new();
                CycleAction::FetchDialogs
            },
            (Phase::AwaitingDialogs, CycleEvent::DialogsFetched { count }) => {
                self.chat_count = count;
                if count > 0 {
                    self.phase = Phase::Refreshing { idx: 0 };
                    CycleAction::RefreshChat { idx: 0 }
                } else {
                    self.phase = Phase::AwaitingResolve;
                    CycleAction::ResolveDuplicates
                }
            },
            (Phase::AwaitingDialogs, CycleEvent::DialogsFailed) => {
                self.phase = Phase::Idle;
                CycleAction::Sleep { secs: CYCLE_INTERVAL_SECS }
            },
            (Phase::Refreshing { idx }, CycleEvent::ChatRefreshed) => {
                if idx + 1 < self.chat_count {
                    self.phase = Phase::Refreshing { idx: idx + 1 };
                    CycleAction::RefreshChat { idx: idx + 1 }
                } else {
                    self.phase = Phase::AwaitingCheckpoint { idx: 0 };
                    CycleAction::ReadCheckpoint { idx: 0 }
                }
            },
            (Phase::AwaitingCheckpoint { idx }, CycleEvent::CheckpointRead { last_seen_id }) => {
                self.phase = Phase::AwaitingHistory { idx };
                CycleAction::FetchHistory {
                    idx,
                    since: if last_seen_id > 0 {
                        last_seen_id
                    } else {
                        0
                    },
                }
            },
            (Phase::AwaitingHistory { idx }, CycleEvent::HistoryFetched { fetched }) => {
                self.phase = Phase::AwaitingSave { idx, fetched };
                CycleAction::SaveMessages { idx }
            },
            (Phase::AwaitingSave { idx, fetched }, CycleEvent::MessagesSaved) => {
                self.phase = Phase::AwaitingCategory { idx, fetched };
                CycleAction::ReadCategory { idx }
            },
            (Phase::AwaitingCategory { idx, fetched }, CycleEvent::CategoryRead {
                has_category,
            }) => {
                if !has_category || fetched > 0 {
                    self.phase = Phase::AwaitingAnalysis { idx };
                    CycleAction::Analyze { idx }
                } else {
                    self.advance(idx)
                }
            },
            (Phase::AwaitingAnalysis { idx }, CycleEvent::AnalysisDone { category }) => {
                self.fresh.push((category, idx));
                self.phase = Phase::AwaitingAnalysisSave { idx };
                CycleAction::SaveAnalysis { idx }
            },
            (Phase::AwaitingAnalysis { idx }, CycleEvent::AnalysisFailed) => {
                self.advance(idx)
            },
            (Phase::AwaitingAnalysisSave { idx }, CycleEvent::AnalysisSaved) => {
                self.advance(idx)
            },
            (Phase::AwaitingResolve, CycleEvent::Resolved) => {
                self.phase = Phase::Idle;
                CycleAction::Sleep { secs: CYCLE_INTERVAL_SECS }
            },
            _ => CycleAction::Noop,
        }
    }

    /// Move on from a fully handled chat.
    fn advance(&mut self, idx: usize) -> (action: CycleAction)
        requires
            old(self).wf(),
            (idx as int) < old(self).chat_count() as int,
        ensures
            final(self).wf(),
            final(self).chat_count() == old(self).chat_count(),
            final(self).fresh() == old(self).fresh(),
            final(self).phase() == after_chat_phase(idx, old(self).chat_count()),
            action == after_chat_action(idx, old(self).chat_count()),
    {
        let action: CycleAction = if idx + 1 < self.chat_count {
            self.phase = Phase::AwaitingCheckpoint { idx: idx + 1 };
            CycleAction::ReadCheckpoint { idx: idx + 1 }
        } else {
            self.phase = Phase::AwaitingResolve;
            CycleAction::ResolveDuplicates
        };
        proof {
            assert(self.fresh() == old(self).fresh());
            assert(self.chat_count() == old(self).chat_count());
        }
        action
    }
}

} // verus!

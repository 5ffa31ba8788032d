//! The decisions a live workspace takes around Jira and its cache: which
//! synchronization mode a refresh runs, when the team needs no request at
//! all, and whether a read-state change may touch the feed.
use vstd::prelude::*;

verus! {

/// How a synchronization reads Jira.
#[derive(Clone, Copy, Debug, PartialEq, Eq, Structural)]
pub enum SyncMode {
    /// A quiet first read that records the partition without notifying.
    Baseline,
    /// A read from the incremental cursor.
    Incremental,
    /// A full read that also finds issues that left the partition.
    Reconciliation,
}

/// The mode of the next synchronization of a partition: `subsequent` once
/// an incremental synchronization of it has succeeded, else a baseline.
pub fn next_sync_mode(incremental_succeeded: bool, subsequent: SyncMode) -> (mode: SyncMode)
    ensures
        mode == if incremental_succeeded {
            subsequent
        } else {
            SyncMode::Baseline
        },
{
    if incremental_succeeded {
        subsequent
    } else {
        SyncMode::Baseline
    }
}

/// The mode a refresh runs: a manual refresh reconciles and an automatic one
/// reads incrementally, each after the first baseline.
pub fn refresh_mode(automatic: bool, incremental_succeeded: bool) -> (mode: SyncMode)
    ensures
        mode == if !incremental_succeeded {
            SyncMode::Baseline
        } else if automatic {
            SyncMode::Incremental
        } else {
            SyncMode::Reconciliation
        },
{
    let subsequent = if automatic {
        SyncMode::Incremental
    } else {
        SyncMode::Reconciliation
    };
    next_sync_mode(incremental_succeeded, subsequent)
}

/// What refreshing the configured team does.
#[derive(Clone, Copy, Debug, PartialEq, Eq, Structural)]
pub enum TeamRefresh {
    /// No members: reload the (empty) local view; Jira is not contacted.
    LocalOnly,
    /// Synchronize the team's partition in this mode.
    Sync(SyncMode),
}

/// What refreshing the configured team does: nothing remote without members,
/// else a refresh of its own partition.
pub fn team_refresh(has_members: bool, automatic: bool, incremental_succeeded: bool) -> (plan:
    TeamRefresh)
    ensures
        plan == if !has_members {
            TeamRefresh::LocalOnly
        } else {
            TeamRefresh::Sync(
                if !incremental_succeeded {
                    SyncMode::Baseline
                } else if automatic {
                    SyncMode::Incremental
                } else {
                    SyncMode::Reconciliation
                },
            )
        },
{
    if !has_members {
        TeamRefresh::LocalOnly
    } else {
        TeamRefresh::Sync(refresh_mode(automatic, incremental_succeeded))
    }
}

/// What a read-state change does.
#[derive(Clone, Copy, Debug, PartialEq, Eq, Structural)]
pub enum MarkReadPlan {
    /// Some update is outside the displayed view: refuse the change.
    Rejected,
    /// Nothing was selected: change nothing, only reload.
    NoChange,
    /// Change the read state of the selected updates.
    Mark,
}

/// Whether `id` is among the displayed updates.
pub open spec fn is_displayed(displayed: Seq<String>, id: Seq<char>) -> bool {
    exists|j: int| 0 <= j < displayed.len() && displayed[j]@ == id
}

/// Whether a change of read state may touch the feed: every selected update
/// must be one the view displays, and an empty selection changes nothing.
pub fn mark_read_plan(requested: &[String], displayed: &[String]) -> (plan: MarkReadPlan)
    ensures
        plan == if exists|i: int|
            0 <= i < requested@.len() && !is_displayed(displayed@, #[trigger] requested@[i]@) {
            MarkReadPlan::Rejected
        } else if requested@.len() == 0 {
            MarkReadPlan::NoChange
        } else {
            MarkReadPlan::Mark
        },
{
    let mut i: usize = 0;
    while i < requested.len()
        invariant
            i <= requested@.len(),
            forall|k: int| 0 <= k < i ==> is_displayed(displayed@, #[trigger] requested@[k]@),
        decreases requested.len() - i,
    {
        let mut j: usize = 0;
        let mut found = false;
        while j < displayed.len() && !found
            invariant
                i < requested@.len(),
                j <= displayed@.len(),
                found ==> is_displayed(displayed@, requested@[i as int]@),
                !found ==> forall|m: int| 0 <= m < j ==> displayed@[m]@ != requested@[i as int]@,
            decreases displayed.len() - j,
        {
            if crate::text::str_equals(displayed[j].as_str(), requested[i].as_str()) {
                found = true;
            }
            j += 1;
        }
        if !found {
            assert(!is_displayed(displayed@, requested@[i as int]@));
            return MarkReadPlan::Rejected;
        }
        i += 1;
    }
    if requested.len() == 0 {
        MarkReadPlan::NoChange
    } else {
        MarkReadPlan::Mark
    }
}

} // verus!

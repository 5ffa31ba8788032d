//! Presentation rules: the copy, filters and formats that the dashboard shows.
use vstd::prelude::*;

pub mod format;
pub mod identity;
pub mod issues;
pub mod outcomes;
pub mod updates;

pub use identity::IdentityDirectory;
pub use issues::{
    issue_views_for_filter, AttachmentViewModel, CommentViewModel, IssueDetailViewModel,
    IssueStatusFilter, IssueStatusSelection, IssueViewModel,
};
pub use outcomes::{
    comment_outcome_copy, comment_validation_kind, issue_edit_error_copy,
    issue_edit_workspace_unavailable_copy, lookup_workspace_unavailable_copy, read_error_copy,
    saved_login_outcome_copy, scope_outcome_copy, team_outcome_copy, CommentOutcomeKind,
    FeedbackCertainty, FeedbackSeverity, IssueEditPhase, OutcomeCopy, ReadSurface,
    RecoveryDirective, SavedLoginOutcomeKind, ScopeOutcomeKind, TeamInvalidInputKind,
    TeamOutcomeKind,
};
pub use updates::{update_groups_for_events, UpdateGroupViewModel, UpdateViewModel};

verus! {
} // verus!

//! User-facing copy for the outcomes of Jira reads, writes and local settings.
//!
//! Every outcome maps to one fixed message together with how severe and how
//! certain it is and what the user should do next. No message embeds error
//! detail from Jira, so server text can never reach the interface.
use vstd::prelude::*;
use crate::error_kind::ErrorKind;
use vstd::string::StringExecFns;

verus! {

#[derive(Clone, Copy, Debug, PartialEq, Eq, Structural)]
pub enum FeedbackSeverity {
    Info,
    Error,
}

#[derive(Clone, Copy, Debug, PartialEq, Eq, Structural)]
pub enum FeedbackCertainty {
    Definite,
    Unknown,
}

#[derive(Clone, Copy, Debug, PartialEq, Eq, Structural)]
pub enum RecoveryDirective {
    NoAction,
    Retry,
    Refresh,
    InvalidateWorkspace,
    PauseTeam,
}

/// What an outcome tells the user.
pub struct OutcomeModel {
    pub message: Seq<char>,
    pub severity: FeedbackSeverity,
    pub certainty: FeedbackCertainty,
    pub recovery: RecoveryDirective,
}

#[derive(Clone, Copy, Debug, PartialEq, Eq)]
pub struct OutcomeCopy {
    message: &'static str,
    severity: FeedbackSeverity,
    certainty: FeedbackCertainty,
    recovery: RecoveryDirective,
}

impl View for OutcomeCopy {
    type V = OutcomeModel;

    closed spec fn view(&self) -> OutcomeModel {
        OutcomeModel {
            message: self.message@,
            severity: self.severity,
            certainty: self.certainty,
            recovery: self.recovery,
        }
    }
}

impl OutcomeCopy {
    pub fn new(
        message: &'static str,
        severity: FeedbackSeverity,
        certainty: FeedbackCertainty,
        recovery: RecoveryDirective,
    ) -> (copy: Self)
        ensures
            copy@ == (OutcomeModel { message: message@, severity, certainty, recovery }),
    {
        OutcomeCopy { message, severity, certainty, recovery }
    }

    pub fn message(self) -> (m: &'static str)
        ensures
            m@ == self@.message,
    {
        self.message
    }

    pub fn severity(self) -> (s: FeedbackSeverity)
        ensures
            s == self@.severity,
    {
        self.severity
    }

    pub fn certainty(self) -> (c: FeedbackCertainty)
        ensures
            c == self@.certainty,
    {
        self.certainty
    }

    /// Whether Jira may or may not have applied the request.
    pub fn is_unknown(self) -> (b: bool)
        ensures
            b == (self@.certainty == FeedbackCertainty::Unknown),
    {
        match self.certainty {
            FeedbackCertainty::Unknown => true,
            FeedbackCertainty::Definite => false,
        }
    }

    pub fn recovery(self) -> (r: RecoveryDirective)
        ensures
            r == self@.recovery,
    {
        self.recovery
    }

    /// The message as an owned string, the form in which it is displayed.
    pub fn to_owned(self) -> (s: String)
        ensures
            s@ == self@.message,
    {
        String::from_str(self.message)
    }
}

#[derive(Clone, Copy, Debug, PartialEq, Eq, Structural)]
pub enum ReadSurface {
    Sync,
    Detail,
    Lookup,
}

/// The message for a failed read on `surface`.
pub open spec fn read_error_message(surface: ReadSurface, kind: ErrorKind) -> Seq<char> {
    match (surface, kind) {
        (ReadSurface::Sync, ErrorKind::Authentication) => "Refresh failed · Jira authentication was rejected"@,
        (ReadSurface::Sync, ErrorKind::Authorization) => "Refresh failed · Jira authorization was denied"@,
        (ReadSurface::Sync, ErrorKind::RateLimited) => "Refresh paused · Jira rate limit reached"@,
        (ReadSurface::Sync, ErrorKind::Offline) => "Refresh failed · Jira is unreachable"@,
        (ReadSurface::Sync, ErrorKind::Cancelled) => "Refresh cancelled"@,
        (ReadSurface::Sync, ErrorKind::InvalidInput) => "Refresh failed · invalid request"@,
        (ReadSurface::Sync, ErrorKind::NotFound) => "Refresh failed · Jira site was not found"@,
        (ReadSurface::Sync, ErrorKind::Upstream) => "Refresh failed · Jira returned an error"@,
        (ReadSurface::Sync, ErrorKind::Storage | ErrorKind::Notification | ErrorKind::Internal | ErrorKind::UnknownOutcome) => "Refresh failed · local application error"@,
        (ReadSurface::Detail, ErrorKind::Authentication) => "Issue details unavailable · Jira authentication was rejected"@,
        (ReadSurface::Detail, ErrorKind::Authorization) => "Issue details unavailable · Jira authorization was denied"@,
        (ReadSurface::Detail, ErrorKind::NotFound) => "Issue details unavailable · Jira issue was not found"@,
        (ReadSurface::Detail, ErrorKind::RateLimited) => "Issue details unavailable · Jira rate limit reached"@,
        (ReadSurface::Detail, ErrorKind::Offline) => "Issue details unavailable · Jira is unreachable"@,
        (ReadSurface::Detail, ErrorKind::Cancelled) => "Issue details request cancelled"@,
        (ReadSurface::Detail, ErrorKind::InvalidInput | ErrorKind::Upstream | ErrorKind::Storage | ErrorKind::Notification | ErrorKind::Internal | ErrorKind::UnknownOutcome) => "Issue details unavailable · Jira returned an error"@,
        (ReadSurface::Lookup, ErrorKind::Authentication) => "Jira lookup failed · authentication was rejected"@,
        (ReadSurface::Lookup, ErrorKind::Authorization) => "Jira lookup failed · authorization was denied"@,
        (ReadSurface::Lookup, ErrorKind::NotFound) => "Jira lookup · issue was not found"@,
        (ReadSurface::Lookup, ErrorKind::RateLimited) => "Jira lookup paused · rate limit reached"@,
        (ReadSurface::Lookup, ErrorKind::Offline) => "Jira lookup failed · Jira is unreachable"@,
        (ReadSurface::Lookup, ErrorKind::Cancelled) => "Jira lookup cancelled"@,
        (ReadSurface::Lookup, ErrorKind::InvalidInput | ErrorKind::Upstream | ErrorKind::Storage | ErrorKind::Notification | ErrorKind::Internal | ErrorKind::UnknownOutcome) => "Jira lookup failed · request was not completed"@,
    }
}

/// Every read failure is a definite error that the user may retry.
pub fn read_error_copy(surface: ReadSurface, kind: ErrorKind) -> (copy: OutcomeCopy)
    ensures
        copy@ == (OutcomeModel {
            message: read_error_message(surface, kind),
            severity: FeedbackSeverity::Error,
            certainty: FeedbackCertainty::Definite,
            recovery: RecoveryDirective::Retry,
        }),
{
    let message = match (surface, kind) {
            (ReadSurface::Sync, ErrorKind::Authentication) => "Refresh failed · Jira authentication was rejected",
            (ReadSurface::Sync, ErrorKind::Authorization) => "Refresh failed · Jira authorization was denied",
            (ReadSurface::Sync, ErrorKind::RateLimited) => "Refresh paused · Jira rate limit reached",
            (ReadSurface::Sync, ErrorKind::Offline) => "Refresh failed · Jira is unreachable",
            (ReadSurface::Sync, ErrorKind::Cancelled) => "Refresh cancelled",
            (ReadSurface::Sync, ErrorKind::InvalidInput) => "Refresh failed · invalid request",
            (ReadSurface::Sync, ErrorKind::NotFound) => "Refresh failed · Jira site was not found",
            (ReadSurface::Sync, ErrorKind::Upstream) => "Refresh failed · Jira returned an error",
            (ReadSurface::Sync, ErrorKind::Storage | ErrorKind::Notification | ErrorKind::Internal | ErrorKind::UnknownOutcome) => "Refresh failed · local application error",
            (ReadSurface::Detail, ErrorKind::Authentication) => "Issue details unavailable · Jira authentication was rejected",
            (ReadSurface::Detail, ErrorKind::Authorization) => "Issue details unavailable · Jira authorization was denied",
            (ReadSurface::Detail, ErrorKind::NotFound) => "Issue details unavailable · Jira issue was not found",
            (ReadSurface::Detail, ErrorKind::RateLimited) => "Issue details unavailable · Jira rate limit reached",
            (ReadSurface::Detail, ErrorKind::Offline) => "Issue details unavailable · Jira is unreachable",
            (ReadSurface::Detail, ErrorKind::Cancelled) => "Issue details request cancelled",
            (ReadSurface::Detail, ErrorKind::InvalidInput | ErrorKind::Upstream | ErrorKind::Storage | ErrorKind::Notification | ErrorKind::Internal | ErrorKind::UnknownOutcome) => "Issue details unavailable · Jira returned an error",
            (ReadSurface::Lookup, ErrorKind::Authentication) => "Jira lookup failed · authentication was rejected",
            (ReadSurface::Lookup, ErrorKind::Authorization) => "Jira lookup failed · authorization was denied",
            (ReadSurface::Lookup, ErrorKind::NotFound) => "Jira lookup · issue was not found",
            (ReadSurface::Lookup, ErrorKind::RateLimited) => "Jira lookup paused · rate limit reached",
            (ReadSurface::Lookup, ErrorKind::Offline) => "Jira lookup failed · Jira is unreachable",
            (ReadSurface::Lookup, ErrorKind::Cancelled) => "Jira lookup cancelled",
            (ReadSurface::Lookup, ErrorKind::InvalidInput | ErrorKind::Upstream | ErrorKind::Storage | ErrorKind::Notification | ErrorKind::Internal | ErrorKind::UnknownOutcome) => "Jira lookup failed · request was not completed",
    };
    OutcomeCopy::new(
        message,
        FeedbackSeverity::Error,
        FeedbackCertainty::Definite,
        RecoveryDirective::Retry,
    )
}

pub fn lookup_workspace_unavailable_copy() -> (copy: OutcomeCopy)
    ensures
        copy@ == (OutcomeModel {
            message: "Jira lookup unavailable · live workspace is not ready"@,
            severity: FeedbackSeverity::Error,
            certainty: FeedbackCertainty::Definite,
            recovery: RecoveryDirective::Retry,
        }),
{
    OutcomeCopy::new(
        "Jira lookup unavailable · live workspace is not ready",
        FeedbackSeverity::Error,
        FeedbackCertainty::Definite,
        RecoveryDirective::Retry,
    )
}

#[derive(Clone, Copy, Debug, PartialEq, Eq, Structural)]
pub enum CommentOutcomeKind {
    ValidationEmpty,
    ValidationByteLimit,
    ValidationCharacterLimit,
    WorkspaceUnavailable,
    Error(ErrorKind),
}

pub open spec fn comment_outcome(kind: CommentOutcomeKind) -> OutcomeModel {
    match kind {
        CommentOutcomeKind::ValidationEmpty => OutcomeModel { message: "Comment not posted · enter a non-empty comment"@, severity: FeedbackSeverity::Error, certainty: FeedbackCertainty::Definite, recovery: RecoveryDirective::Retry },
        CommentOutcomeKind::ValidationByteLimit => OutcomeModel { message: "Comment not posted · comment exceeds the byte limit"@, severity: FeedbackSeverity::Error, certainty: FeedbackCertainty::Definite, recovery: RecoveryDirective::Retry },
        CommentOutcomeKind::ValidationCharacterLimit => OutcomeModel { message: "Comment not posted · comment exceeds the character limit"@, severity: FeedbackSeverity::Error, certainty: FeedbackCertainty::Definite, recovery: RecoveryDirective::Retry },
        CommentOutcomeKind::WorkspaceUnavailable => OutcomeModel { message: "Comment not posted · live Jira workspace is not ready"@, severity: FeedbackSeverity::Error, certainty: FeedbackCertainty::Definite, recovery: RecoveryDirective::Retry },
        CommentOutcomeKind::Error(ErrorKind::Authentication) => OutcomeModel { message: "Comment not posted · Jira authentication was rejected"@, severity: FeedbackSeverity::Error, certainty: FeedbackCertainty::Definite, recovery: RecoveryDirective::Retry },
        CommentOutcomeKind::Error(ErrorKind::Authorization) => OutcomeModel { message: "Comment not posted · Jira denied comment permission"@, severity: FeedbackSeverity::Error, certainty: FeedbackCertainty::Definite, recovery: RecoveryDirective::Retry },
        CommentOutcomeKind::Error(ErrorKind::NotFound) => OutcomeModel { message: "Comment not posted · the Jira issue was not found"@, severity: FeedbackSeverity::Error, certainty: FeedbackCertainty::Definite, recovery: RecoveryDirective::Retry },
        CommentOutcomeKind::Error(ErrorKind::RateLimited) => OutcomeModel { message: "Comment not posted · Jira rate limit reached; try later"@, severity: FeedbackSeverity::Error, certainty: FeedbackCertainty::Definite, recovery: RecoveryDirective::Retry },
        CommentOutcomeKind::Error(ErrorKind::InvalidInput) => OutcomeModel { message: "Comment not posted · the comment text is invalid"@, severity: FeedbackSeverity::Error, certainty: FeedbackCertainty::Definite, recovery: RecoveryDirective::Retry },
        CommentOutcomeKind::Error(ErrorKind::UnknownOutcome) => OutcomeModel { message: "Jira may have accepted this comment. Refresh comments before retrying."@, severity: FeedbackSeverity::Error, certainty: FeedbackCertainty::Unknown, recovery: RecoveryDirective::Refresh },
        CommentOutcomeKind::Error(_) => OutcomeModel { message: "Comment not posted · Jira returned an error"@, severity: FeedbackSeverity::Error, certainty: FeedbackCertainty::Definite, recovery: RecoveryDirective::Retry },
    }
}

pub fn comment_outcome_copy(kind: CommentOutcomeKind) -> (copy: OutcomeCopy)
    ensures
        copy@ == comment_outcome(kind),
{
    match kind {
        CommentOutcomeKind::ValidationEmpty => OutcomeCopy::new("Comment not posted · enter a non-empty comment", FeedbackSeverity::Error, FeedbackCertainty::Definite, RecoveryDirective::Retry),
        CommentOutcomeKind::ValidationByteLimit => OutcomeCopy::new("Comment not posted · comment exceeds the byte limit", FeedbackSeverity::Error, FeedbackCertainty::Definite, RecoveryDirective::Retry),
        CommentOutcomeKind::ValidationCharacterLimit => OutcomeCopy::new("Comment not posted · comment exceeds the character limit", FeedbackSeverity::Error, FeedbackCertainty::Definite, RecoveryDirective::Retry),
        CommentOutcomeKind::WorkspaceUnavailable => OutcomeCopy::new("Comment not posted · live Jira workspace is not ready", FeedbackSeverity::Error, FeedbackCertainty::Definite, RecoveryDirective::Retry),
        CommentOutcomeKind::Error(ErrorKind::Authentication) => OutcomeCopy::new("Comment not posted · Jira authentication was rejected", FeedbackSeverity::Error, FeedbackCertainty::Definite, RecoveryDirective::Retry),
        CommentOutcomeKind::Error(ErrorKind::Authorization) => OutcomeCopy::new("Comment not posted · Jira denied comment permission", FeedbackSeverity::Error, FeedbackCertainty::Definite, RecoveryDirective::Retry),
        CommentOutcomeKind::Error(ErrorKind::NotFound) => OutcomeCopy::new("Comment not posted · the Jira issue was not found", FeedbackSeverity::Error, FeedbackCertainty::Definite, RecoveryDirective::Retry),
        CommentOutcomeKind::Error(ErrorKind::RateLimited) => OutcomeCopy::new("Comment not posted · Jira rate limit reached; try later", FeedbackSeverity::Error, FeedbackCertainty::Definite, RecoveryDirective::Retry),
        CommentOutcomeKind::Error(ErrorKind::InvalidInput) => OutcomeCopy::new("Comment not posted · the comment text is invalid", FeedbackSeverity::Error, FeedbackCertainty::Definite, RecoveryDirective::Retry),
        CommentOutcomeKind::Error(ErrorKind::UnknownOutcome) => OutcomeCopy::new("Jira may have accepted this comment. Refresh comments before retrying.", FeedbackSeverity::Error, FeedbackCertainty::Unknown, RecoveryDirective::Refresh),
        CommentOutcomeKind::Error(_) => OutcomeCopy::new("Comment not posted · Jira returned an error", FeedbackSeverity::Error, FeedbackCertainty::Definite, RecoveryDirective::Retry),
    }
}

#[derive(Clone, Copy, Debug, PartialEq, Eq, Structural)]
pub enum IssueEditPhase {
    Lookup,
    Write,
}

pub open spec fn issue_edit_outcome(kind: ErrorKind, phase: IssueEditPhase) -> OutcomeModel {
    match kind {
            ErrorKind::UnknownOutcome => OutcomeModel { message: "Jira may have accepted this change. Refresh Jira before another attempt."@, severity: FeedbackSeverity::Error, certainty: FeedbackCertainty::Unknown, recovery: RecoveryDirective::Refresh },
            ErrorKind::Authentication => OutcomeModel { message: "Change not applied · Jira authentication was rejected"@, severity: FeedbackSeverity::Error, certainty: FeedbackCertainty::Definite, recovery: RecoveryDirective::Retry },
            ErrorKind::Authorization => OutcomeModel { message: "Change not applied · Jira denied permission"@, severity: FeedbackSeverity::Error, certainty: FeedbackCertainty::Definite, recovery: RecoveryDirective::Retry },
            ErrorKind::NotFound => OutcomeModel { message: "Change not applied · the Jira issue was not found"@, severity: FeedbackSeverity::Error, certainty: FeedbackCertainty::Definite, recovery: RecoveryDirective::Retry },
            ErrorKind::RateLimited => OutcomeModel { message: "Change not applied · Jira rate limit reached; try later"@, severity: FeedbackSeverity::Error, certainty: FeedbackCertainty::Definite, recovery: RecoveryDirective::Retry },
            ErrorKind::Offline => OutcomeModel { message: "Change not applied · Jira is unreachable"@, severity: FeedbackSeverity::Error, certainty: FeedbackCertainty::Definite, recovery: RecoveryDirective::Retry },
            ErrorKind::InvalidInput => OutcomeModel { message: "Change not applied · Jira rejected the requested change"@, severity: FeedbackSeverity::Error, certainty: FeedbackCertainty::Definite, recovery: RecoveryDirective::Retry },
            ErrorKind::Cancelled => OutcomeModel { message: "Change cancelled"@, severity: FeedbackSeverity::Error, certainty: FeedbackCertainty::Definite, recovery: RecoveryDirective::Retry },
        _ => if phase == IssueEditPhase::Lookup {
            OutcomeModel {
                message: "Jira options unavailable · request was not completed"@,
                severity: FeedbackSeverity::Error,
                certainty: FeedbackCertainty::Definite,
                recovery: RecoveryDirective::Retry,
            }
        } else {
            OutcomeModel {
                message: "Change not applied · Jira returned an error"@,
                severity: FeedbackSeverity::Error,
                certainty: FeedbackCertainty::Definite,
                recovery: RecoveryDirective::Retry,
            }
        },
    }
}

/// The copy for a failed assignee or transition request. The storage,
/// upstream, notification and internal categories read differently while
/// options are being looked up than when a change is written.
pub fn issue_edit_error_copy(kind: ErrorKind, phase: IssueEditPhase) -> (copy: OutcomeCopy)
    ensures
        copy@ == issue_edit_outcome(kind, phase),
{
    match kind {
            ErrorKind::UnknownOutcome => OutcomeCopy::new("Jira may have accepted this change. Refresh Jira before another attempt.", FeedbackSeverity::Error, FeedbackCertainty::Unknown, RecoveryDirective::Refresh),
            ErrorKind::Authentication => OutcomeCopy::new("Change not applied · Jira authentication was rejected", FeedbackSeverity::Error, FeedbackCertainty::Definite, RecoveryDirective::Retry),
            ErrorKind::Authorization => OutcomeCopy::new("Change not applied · Jira denied permission", FeedbackSeverity::Error, FeedbackCertainty::Definite, RecoveryDirective::Retry),
            ErrorKind::NotFound => OutcomeCopy::new("Change not applied · the Jira issue was not found", FeedbackSeverity::Error, FeedbackCertainty::Definite, RecoveryDirective::Retry),
            ErrorKind::RateLimited => OutcomeCopy::new("Change not applied · Jira rate limit reached; try later", FeedbackSeverity::Error, FeedbackCertainty::Definite, RecoveryDirective::Retry),
            ErrorKind::Offline => OutcomeCopy::new("Change not applied · Jira is unreachable", FeedbackSeverity::Error, FeedbackCertainty::Definite, RecoveryDirective::Retry),
            ErrorKind::InvalidInput => OutcomeCopy::new("Change not applied · Jira rejected the requested change", FeedbackSeverity::Error, FeedbackCertainty::Definite, RecoveryDirective::Retry),
            ErrorKind::Cancelled => OutcomeCopy::new("Change cancelled", FeedbackSeverity::Error, FeedbackCertainty::Definite, RecoveryDirective::Retry),
        _ => match phase {
            IssueEditPhase::Lookup => OutcomeCopy::new(
                "Jira options unavailable · request was not completed",
                FeedbackSeverity::Error,
                FeedbackCertainty::Definite,
                RecoveryDirective::Retry,
            ),
            IssueEditPhase::Write => OutcomeCopy::new(
                "Change not applied · Jira returned an error",
                FeedbackSeverity::Error,
                FeedbackCertainty::Definite,
                RecoveryDirective::Retry,
            ),
        },
    }
}

pub fn issue_edit_workspace_unavailable_copy() -> (copy: OutcomeCopy)
    ensures
        copy@ == (OutcomeModel {
            message: "Change unavailable · live Jira workspace is not ready"@,
            severity: FeedbackSeverity::Error,
            certainty: FeedbackCertainty::Definite,
            recovery: RecoveryDirective::Retry,
        }),
{
    OutcomeCopy::new(
        "Change unavailable · live Jira workspace is not ready",
        FeedbackSeverity::Error,
        FeedbackCertainty::Definite,
        RecoveryDirective::Retry,
    )
}

#[derive(Clone, Copy, Debug, PartialEq, Eq, Structural)]
pub enum ScopeOutcomeKind {
    Invalid,
    Preparation,
    RefreshRestored,
    RefreshRollbackFailed,
    PreferenceSaveRestored,
    PreferenceSaveRollbackFailed,
}

pub open spec fn scope_outcome(kind: ScopeOutcomeKind) -> OutcomeModel {
    match kind {
        ScopeOutcomeKind::Invalid => OutcomeModel { message: "Scope is invalid; check the expression and ORDER BY rule"@, severity: FeedbackSeverity::Error, certainty: FeedbackCertainty::Definite, recovery: RecoveryDirective::Retry },
        ScopeOutcomeKind::Preparation => OutcomeModel { message: "Scope could not be prepared locally"@, severity: FeedbackSeverity::Error, certainty: FeedbackCertainty::Definite, recovery: RecoveryDirective::Retry },
        ScopeOutcomeKind::RefreshRestored => OutcomeModel { message: "Jira rejected the scope; the previous scope remains active"@, severity: FeedbackSeverity::Error, certainty: FeedbackCertainty::Definite, recovery: RecoveryDirective::Retry },
        ScopeOutcomeKind::RefreshRollbackFailed => OutcomeModel { message: "Jira rejected the scope and the previous scope could not be restored"@, severity: FeedbackSeverity::Error, certainty: FeedbackCertainty::Definite, recovery: RecoveryDirective::InvalidateWorkspace },
        ScopeOutcomeKind::PreferenceSaveRestored => OutcomeModel { message: "Scope applied remotely, but settings could not be saved locally"@, severity: FeedbackSeverity::Error, certainty: FeedbackCertainty::Definite, recovery: RecoveryDirective::Retry },
        ScopeOutcomeKind::PreferenceSaveRollbackFailed => OutcomeModel { message: "Settings could not be saved and the previous scope could not be restored"@, severity: FeedbackSeverity::Error, certainty: FeedbackCertainty::Definite, recovery: RecoveryDirective::InvalidateWorkspace },
    }
}

pub fn scope_outcome_copy(kind: ScopeOutcomeKind) -> (copy: OutcomeCopy)
    ensures
        copy@ == scope_outcome(kind),
{
    match kind {
        ScopeOutcomeKind::Invalid => OutcomeCopy::new("Scope is invalid; check the expression and ORDER BY rule", FeedbackSeverity::Error, FeedbackCertainty::Definite, RecoveryDirective::Retry),
        ScopeOutcomeKind::Preparation => OutcomeCopy::new("Scope could not be prepared locally", FeedbackSeverity::Error, FeedbackCertainty::Definite, RecoveryDirective::Retry),
        ScopeOutcomeKind::RefreshRestored => OutcomeCopy::new("Jira rejected the scope; the previous scope remains active", FeedbackSeverity::Error, FeedbackCertainty::Definite, RecoveryDirective::Retry),
        ScopeOutcomeKind::RefreshRollbackFailed => OutcomeCopy::new("Jira rejected the scope and the previous scope could not be restored", FeedbackSeverity::Error, FeedbackCertainty::Definite, RecoveryDirective::InvalidateWorkspace),
        ScopeOutcomeKind::PreferenceSaveRestored => OutcomeCopy::new("Scope applied remotely, but settings could not be saved locally", FeedbackSeverity::Error, FeedbackCertainty::Definite, RecoveryDirective::Retry),
        ScopeOutcomeKind::PreferenceSaveRollbackFailed => OutcomeCopy::new("Settings could not be saved and the previous scope could not be restored", FeedbackSeverity::Error, FeedbackCertainty::Definite, RecoveryDirective::InvalidateWorkspace),
    }
}

#[derive(Clone, Copy, Debug, PartialEq, Eq, Structural)]
pub enum TeamInvalidInputKind {
    TooManyMembers,
    InvalidAccount,
    UnsafeAccount,
    InvalidEntry,
}

#[derive(Clone, Copy, Debug, PartialEq, Eq, Structural)]
pub enum TeamOutcomeKind {
    InvalidInput(TeamInvalidInputKind),
    Search,
    EmailNotFound,
    EmailAmbiguous,
    Normalization,
    Preparation,
    RefreshRestored,
    RefreshRollbackFailed,
    PreferenceSaveRestored,
    PreferenceSaveRollbackFailed,
}

pub open spec fn team_outcome(kind: TeamOutcomeKind) -> OutcomeModel {
    match kind {
        TeamOutcomeKind::InvalidInput(TeamInvalidInputKind::TooManyMembers) => OutcomeModel { message: "Team tracker accepts at most 100 members"@, severity: FeedbackSeverity::Error, certainty: FeedbackCertainty::Definite, recovery: RecoveryDirective::Retry },
        TeamOutcomeKind::InvalidInput(TeamInvalidInputKind::InvalidAccount) => OutcomeModel { message: "Enter a valid Jira account ID or Atlassian email"@, severity: FeedbackSeverity::Error, certainty: FeedbackCertainty::Definite, recovery: RecoveryDirective::Retry },
        TeamOutcomeKind::InvalidInput(TeamInvalidInputKind::UnsafeAccount) => OutcomeModel { message: "Jira account IDs cannot contain quote or backslash characters"@, severity: FeedbackSeverity::Error, certainty: FeedbackCertainty::Definite, recovery: RecoveryDirective::Retry },
        TeamOutcomeKind::InvalidInput(TeamInvalidInputKind::InvalidEntry) => OutcomeModel { message: "Team tracker entries must be short, single-line values"@, severity: FeedbackSeverity::Error, certainty: FeedbackCertainty::Definite, recovery: RecoveryDirective::Retry },
        TeamOutcomeKind::Search => OutcomeModel { message: "Jira user search failed; existing team remains active"@, severity: FeedbackSeverity::Error, certainty: FeedbackCertainty::Definite, recovery: RecoveryDirective::Retry },
        TeamOutcomeKind::EmailNotFound => OutcomeModel { message: "Email did not resolve to one active Jira user"@, severity: FeedbackSeverity::Error, certainty: FeedbackCertainty::Definite, recovery: RecoveryDirective::Retry },
        TeamOutcomeKind::EmailAmbiguous => OutcomeModel { message: "Email matched multiple active Jira users; enter an account ID instead"@, severity: FeedbackSeverity::Error, certainty: FeedbackCertainty::Definite, recovery: RecoveryDirective::Retry },
        TeamOutcomeKind::Normalization => OutcomeModel { message: "Team tracker entries are invalid or exceed the member limit"@, severity: FeedbackSeverity::Error, certainty: FeedbackCertainty::Definite, recovery: RecoveryDirective::Retry },
        TeamOutcomeKind::Preparation => OutcomeModel { message: "Team configuration could not be applied; existing team remains active"@, severity: FeedbackSeverity::Error, certainty: FeedbackCertainty::Definite, recovery: RecoveryDirective::Retry },
        TeamOutcomeKind::RefreshRestored => OutcomeModel { message: "Team refresh failed; existing team remains active"@, severity: FeedbackSeverity::Error, certainty: FeedbackCertainty::Definite, recovery: RecoveryDirective::Retry },
        TeamOutcomeKind::RefreshRollbackFailed => OutcomeModel { message: "Team refresh failed and the previous team could not be restored; team tracker paused"@, severity: FeedbackSeverity::Error, certainty: FeedbackCertainty::Definite, recovery: RecoveryDirective::PauseTeam },
        TeamOutcomeKind::PreferenceSaveRestored => OutcomeModel { message: "Team refreshed but could not be saved locally; existing team remains active"@, severity: FeedbackSeverity::Error, certainty: FeedbackCertainty::Definite, recovery: RecoveryDirective::Retry },
        TeamOutcomeKind::PreferenceSaveRollbackFailed => OutcomeModel { message: "Team settings could not be saved and the previous team could not be restored; team tracker paused"@, severity: FeedbackSeverity::Error, certainty: FeedbackCertainty::Definite, recovery: RecoveryDirective::PauseTeam },
    }
}

pub fn team_outcome_copy(kind: TeamOutcomeKind) -> (copy: OutcomeCopy)
    ensures
        copy@ == team_outcome(kind),
{
    match kind {
        TeamOutcomeKind::InvalidInput(TeamInvalidInputKind::TooManyMembers) => OutcomeCopy::new("Team tracker accepts at most 100 members", FeedbackSeverity::Error, FeedbackCertainty::Definite, RecoveryDirective::Retry),
        TeamOutcomeKind::InvalidInput(TeamInvalidInputKind::InvalidAccount) => OutcomeCopy::new("Enter a valid Jira account ID or Atlassian email", FeedbackSeverity::Error, FeedbackCertainty::Definite, RecoveryDirective::Retry),
        TeamOutcomeKind::InvalidInput(TeamInvalidInputKind::UnsafeAccount) => OutcomeCopy::new("Jira account IDs cannot contain quote or backslash characters", FeedbackSeverity::Error, FeedbackCertainty::Definite, RecoveryDirective::Retry),
        TeamOutcomeKind::InvalidInput(TeamInvalidInputKind::InvalidEntry) => OutcomeCopy::new("Team tracker entries must be short, single-line values", FeedbackSeverity::Error, FeedbackCertainty::Definite, RecoveryDirective::Retry),
        TeamOutcomeKind::Search => OutcomeCopy::new("Jira user search failed; existing team remains active", FeedbackSeverity::Error, FeedbackCertainty::Definite, RecoveryDirective::Retry),
        TeamOutcomeKind::EmailNotFound => OutcomeCopy::new("Email did not resolve to one active Jira user", FeedbackSeverity::Error, FeedbackCertainty::Definite, RecoveryDirective::Retry),
        TeamOutcomeKind::EmailAmbiguous => OutcomeCopy::new("Email matched multiple active Jira users; enter an account ID instead", FeedbackSeverity::Error, FeedbackCertainty::Definite, RecoveryDirective::Retry),
        TeamOutcomeKind::Normalization => OutcomeCopy::new("Team tracker entries are invalid or exceed the member limit", FeedbackSeverity::Error, FeedbackCertainty::Definite, RecoveryDirective::Retry),
        TeamOutcomeKind::Preparation => OutcomeCopy::new("Team configuration could not be applied; existing team remains active", FeedbackSeverity::Error, FeedbackCertainty::Definite, RecoveryDirective::Retry),
        TeamOutcomeKind::RefreshRestored => OutcomeCopy::new("Team refresh failed; existing team remains active", FeedbackSeverity::Error, FeedbackCertainty::Definite, RecoveryDirective::Retry),
        TeamOutcomeKind::RefreshRollbackFailed => OutcomeCopy::new("Team refresh failed and the previous team could not be restored; team tracker paused", FeedbackSeverity::Error, FeedbackCertainty::Definite, RecoveryDirective::PauseTeam),
        TeamOutcomeKind::PreferenceSaveRestored => OutcomeCopy::new("Team refreshed but could not be saved locally; existing team remains active", FeedbackSeverity::Error, FeedbackCertainty::Definite, RecoveryDirective::Retry),
        TeamOutcomeKind::PreferenceSaveRollbackFailed => OutcomeCopy::new("Team settings could not be saved and the previous team could not be restored; team tracker paused", FeedbackSeverity::Error, FeedbackCertainty::Definite, RecoveryDirective::PauseTeam),
    }
}

#[derive(Clone, Copy, Debug, PartialEq, Eq, Structural)]
pub enum SavedLoginOutcomeKind {
    Deleted,
    Absent,
    Error,
}

pub open spec fn saved_login_outcome(kind: SavedLoginOutcomeKind) -> OutcomeModel {
    match kind {
        SavedLoginOutcomeKind::Deleted => OutcomeModel { message: "Saved Jira login forgotten. This session remains connected."@, severity: FeedbackSeverity::Info, certainty: FeedbackCertainty::Definite, recovery: RecoveryDirective::NoAction },
        SavedLoginOutcomeKind::Absent => OutcomeModel { message: "No saved Jira login was present. This session remains connected."@, severity: FeedbackSeverity::Info, certainty: FeedbackCertainty::Definite, recovery: RecoveryDirective::NoAction },
        SavedLoginOutcomeKind::Error => OutcomeModel { message: "Saved Jira login could not be removed from the system keyring."@, severity: FeedbackSeverity::Error, certainty: FeedbackCertainty::Definite, recovery: RecoveryDirective::NoAction },
    }
}

pub fn saved_login_outcome_copy(kind: SavedLoginOutcomeKind) -> (copy: OutcomeCopy)
    ensures
        copy@ == saved_login_outcome(kind),
{
    match kind {
        SavedLoginOutcomeKind::Deleted => OutcomeCopy::new("Saved Jira login forgotten. This session remains connected.", FeedbackSeverity::Info, FeedbackCertainty::Definite, RecoveryDirective::NoAction),
        SavedLoginOutcomeKind::Absent => OutcomeCopy::new("No saved Jira login was present. This session remains connected.", FeedbackSeverity::Info, FeedbackCertainty::Definite, RecoveryDirective::NoAction),
        SavedLoginOutcomeKind::Error => OutcomeCopy::new("Saved Jira login could not be removed from the system keyring.", FeedbackSeverity::Error, FeedbackCertainty::Definite, RecoveryDirective::NoAction),
    }
}

/// The validation failure of a comment body: empty once trimmed, longer than
/// `max_bytes` UTF-8 bytes once trimmed, or longer than `max_chars` characters
/// once trimmed, checked in that order.
pub open spec fn comment_validation(body: Seq<char>, max_bytes: usize, max_chars: usize) -> Option<
    CommentOutcomeKind,
> {
    let body = crate::text::trim(body);
    if body.len() == 0 {
        Some(CommentOutcomeKind::ValidationEmpty)
    } else if vstd::utf8::encode_utf8(body).len() > max_bytes {
        Some(CommentOutcomeKind::ValidationByteLimit)
    } else if body.len() > max_chars {
        Some(CommentOutcomeKind::ValidationCharacterLimit)
    } else {
        None
    }
}

/// Validates a comment body against the comment service's byte and
/// character limits, which the caller supplies.
pub fn comment_validation_kind(body: &str, max_bytes: usize, max_chars: usize) -> (kind: Option<
    CommentOutcomeKind,
>)
    ensures
        kind == comment_validation(body@, max_bytes, max_chars),
{
    let trimmed = crate::text::trimmed(body);
    let t = trimmed.as_str();
    if t.is_empty() {
        Some(CommentOutcomeKind::ValidationEmpty)
    } else if t.as_bytes().len() > max_bytes {
        Some(CommentOutcomeKind::ValidationByteLimit)
    } else if t.unicode_len() > max_chars {
        Some(CommentOutcomeKind::ValidationCharacterLimit)
    } else {
        None
    }
}

/// A Jira write whose outcome is unknown is never offered as a retry: its
/// copy says the outcome is uncertain and asks for a refresh, and every other
/// failed write is a definite failure that may be retried.
pub proof fn lemma_uncertain_writes_ask_for_refresh(kind: ErrorKind, phase: IssueEditPhase)
    ensures
        (comment_outcome(CommentOutcomeKind::Error(kind)).certainty == FeedbackCertainty::Unknown)
            == (kind == ErrorKind::UnknownOutcome),
        (comment_outcome(CommentOutcomeKind::Error(kind)).recovery == RecoveryDirective::Refresh)
            == (kind == ErrorKind::UnknownOutcome),
        kind != ErrorKind::UnknownOutcome ==> comment_outcome(CommentOutcomeKind::Error(kind)).recovery
            == RecoveryDirective::Retry,
        (issue_edit_outcome(kind, phase).certainty == FeedbackCertainty::Unknown) == (kind
            == ErrorKind::UnknownOutcome),
        (issue_edit_outcome(kind, phase).recovery == RecoveryDirective::Refresh) == (kind
            == ErrorKind::UnknownOutcome),
        kind != ErrorKind::UnknownOutcome ==> issue_edit_outcome(kind, phase).recovery
            == RecoveryDirective::Retry,
{
}

} // verus!

use jira_gpui::presentation::format::{
    format_date, format_local_fields, format_offset, format_timestamp_with_offset, month_name,
    MAX_OFFSET_SECONDS, MAX_UNIX_SECONDS, MIN_UNIX_SECONDS,
};
use jira_gpui::presentation::identity::{CommentAuthor, IdentityDirectory, UserRecord};
use jira_gpui::presentation::issues::{
    issue_views_for_filter, AttachmentRecord, AttachmentViewModel, CommentRecord,
    IssueDetailRecord, IssueDetailViewModel, IssueRecord, IssueStatusFilter,
    IssueStatusSelection, IssueViewModel, ParentRecord,
};
use jira_gpui::error_kind::ErrorKind;
use jira_gpui::presentation::outcomes::{
    comment_outcome_copy, issue_edit_error_copy, read_error_copy, IssueEditPhase, ReadSurface,
    comment_validation_kind, issue_edit_workspace_unavailable_copy,
    lookup_workspace_unavailable_copy, saved_login_outcome_copy, scope_outcome_copy,
    team_outcome_copy, CommentOutcomeKind, FeedbackCertainty, FeedbackSeverity, OutcomeCopy,
    RecoveryDirective, SavedLoginOutcomeKind, ScopeOutcomeKind, TeamInvalidInputKind,
    TeamOutcomeKind,
};
use jira_gpui::presentation::updates::{
    describe_change, update_groups_for_events, ChangeValue, UpdateEventRecord, UpdateKind,
};

fn assert_copy(
    copy: OutcomeCopy,
    message: &'static str,
    severity: FeedbackSeverity,
    certainty: FeedbackCertainty,
    recovery: RecoveryDirective,
) {
    assert_eq!(copy.message(), message);
    assert_eq!(copy.severity(), severity);
    assert_eq!(copy.certainty(), certainty);
    assert_eq!(copy.is_unknown(), certainty == FeedbackCertainty::Unknown);
    assert_eq!(copy.recovery(), recovery);
}

#[test]
fn recovery_directives_are_exhaustively_named() {
    for directive in [
        RecoveryDirective::NoAction,
        RecoveryDirective::Retry,
        RecoveryDirective::Refresh,
        RecoveryDirective::InvalidateWorkspace,
        RecoveryDirective::PauseTeam,
    ] {
        let name = match directive {
            RecoveryDirective::NoAction => "none",
            RecoveryDirective::Retry => "retry",
            RecoveryDirective::Refresh => "refresh",
            RecoveryDirective::InvalidateWorkspace => "invalidate workspace",
            RecoveryDirective::PauseTeam => "pause team",
        };
        assert!(!name.is_empty());
    }
}

#[test]
fn issue_edit_workspace_unavailable_copy_is_exact() {
    assert_copy(
        issue_edit_workspace_unavailable_copy(),
        "Change unavailable · live Jira workspace is not ready",
        FeedbackSeverity::Error,
        FeedbackCertainty::Definite,
        RecoveryDirective::Retry,
    );
}

#[test]
fn lookup_workspace_unavailable_copy_is_exact() {
    assert_copy(
        lookup_workspace_unavailable_copy(),
        "Jira lookup unavailable · live workspace is not ready",
        FeedbackSeverity::Error,
        FeedbackCertainty::Definite,
        RecoveryDirective::Retry,
    );
}

#[test]
fn settings_saved_login_and_workspace_outcomes_are_exhaustively_typed() {
    let scope = [
        (
            ScopeOutcomeKind::Invalid,
            "Scope is invalid; check the expression and ORDER BY rule",
            RecoveryDirective::Retry,
        ),
        (
            ScopeOutcomeKind::Preparation,
            "Scope could not be prepared locally",
            RecoveryDirective::Retry,
        ),
        (
            ScopeOutcomeKind::RefreshRestored,
            "Jira rejected the scope; the previous scope remains active",
            RecoveryDirective::Retry,
        ),
        (
            ScopeOutcomeKind::RefreshRollbackFailed,
            "Jira rejected the scope and the previous scope could not be restored",
            RecoveryDirective::InvalidateWorkspace,
        ),
        (
            ScopeOutcomeKind::PreferenceSaveRestored,
            "Scope applied remotely, but settings could not be saved locally",
            RecoveryDirective::Retry,
        ),
        (
            ScopeOutcomeKind::PreferenceSaveRollbackFailed,
            "Settings could not be saved and the previous scope could not be restored",
            RecoveryDirective::InvalidateWorkspace,
        ),
    ];
    for (kind, expected, recovery) in scope {
        assert_copy(
            scope_outcome_copy(kind),
            expected,
            FeedbackSeverity::Error,
            FeedbackCertainty::Definite,
            recovery,
        );
    }
    for kind in [
        TeamOutcomeKind::InvalidInput(TeamInvalidInputKind::TooManyMembers),
        TeamOutcomeKind::InvalidInput(TeamInvalidInputKind::InvalidAccount),
        TeamOutcomeKind::InvalidInput(TeamInvalidInputKind::UnsafeAccount),
        TeamOutcomeKind::InvalidInput(TeamInvalidInputKind::InvalidEntry),
        TeamOutcomeKind::Search,
        TeamOutcomeKind::EmailNotFound,
        TeamOutcomeKind::EmailAmbiguous,
        TeamOutcomeKind::Normalization,
        TeamOutcomeKind::Preparation,
        TeamOutcomeKind::RefreshRestored,
        TeamOutcomeKind::RefreshRollbackFailed,
        TeamOutcomeKind::PreferenceSaveRestored,
        TeamOutcomeKind::PreferenceSaveRollbackFailed,
    ] {
        let copy = team_outcome_copy(kind);
        assert!(!copy.message().contains("secret"));
        assert_eq!(copy.severity(), FeedbackSeverity::Error);
        let expected = match kind {
            TeamOutcomeKind::InvalidInput(TeamInvalidInputKind::TooManyMembers) => {
                "Team tracker accepts at most 100 members"
            }
            TeamOutcomeKind::InvalidInput(TeamInvalidInputKind::InvalidAccount) => {
                "Enter a valid Jira account ID or Atlassian email"
            }
            TeamOutcomeKind::InvalidInput(TeamInvalidInputKind::UnsafeAccount) => {
                "Jira account IDs cannot contain quote or backslash characters"
            }
            TeamOutcomeKind::InvalidInput(TeamInvalidInputKind::InvalidEntry) => {
                "Team tracker entries must be short, single-line values"
            }
            TeamOutcomeKind::Search => "Jira user search failed; existing team remains active",
            TeamOutcomeKind::EmailNotFound => "Email did not resolve to one active Jira user",
            TeamOutcomeKind::EmailAmbiguous => {
                "Email matched multiple active Jira users; enter an account ID instead"
            }
            TeamOutcomeKind::Normalization => {
                "Team tracker entries are invalid or exceed the member limit"
            }
            TeamOutcomeKind::Preparation => {
                "Team configuration could not be applied; existing team remains active"
            }
            TeamOutcomeKind::RefreshRestored => "Team refresh failed; existing team remains active",
            TeamOutcomeKind::RefreshRollbackFailed => {
                "Team refresh failed and the previous team could not be restored; team tracker paused"
            }
            TeamOutcomeKind::PreferenceSaveRestored => {
                "Team refreshed but could not be saved locally; existing team remains active"
            }
            TeamOutcomeKind::PreferenceSaveRollbackFailed => {
                "Team settings could not be saved and the previous team could not be restored; team tracker paused"
            }
        };
        assert_eq!(copy.message(), expected);
        assert_eq!(copy.certainty(), FeedbackCertainty::Definite);
        assert_eq!(
            copy.recovery(),
            if matches!(
                kind,
                TeamOutcomeKind::RefreshRollbackFailed
                    | TeamOutcomeKind::PreferenceSaveRollbackFailed
            ) {
                RecoveryDirective::PauseTeam
            } else {
                RecoveryDirective::Retry
            }
        );
    }
    assert_copy(
        saved_login_outcome_copy(SavedLoginOutcomeKind::Deleted),
        "Saved Jira login forgotten. This session remains connected.",
        FeedbackSeverity::Info,
        FeedbackCertainty::Definite,
        RecoveryDirective::NoAction,
    );
    assert_copy(
        saved_login_outcome_copy(SavedLoginOutcomeKind::Absent),
        "No saved Jira login was present. This session remains connected.",
        FeedbackSeverity::Info,
        FeedbackCertainty::Definite,
        RecoveryDirective::NoAction,
    );
    assert_copy(
        saved_login_outcome_copy(SavedLoginOutcomeKind::Error),
        "Saved Jira login could not be removed from the system keyring.",
        FeedbackSeverity::Error,
        FeedbackCertainty::Definite,
        RecoveryDirective::NoAction,
    );
}

#[test]
fn status_filters_match_categories_case_insensitively_and_keep_uncategorized_separate() {
    assert!(IssueStatusFilter::All.matches("anything"));
    assert!(IssueStatusFilter::ToDo.matches("TO DO"));
    assert!(IssueStatusFilter::InProgress.matches("in progress"));
    assert!(IssueStatusFilter::Done.matches("Done"));
    assert!(IssueStatusFilter::Uncategorized.matches(""));
    assert!(!IssueStatusFilter::Uncategorized.matches("In Review"));
    assert!(IssueStatusFilter::Uncategorized.matches("  "));
}

#[test]
fn status_selection_empty_means_all() {
    let selection = IssueStatusSelection::from_values(&[]);

    assert_eq!(selection, IssueStatusSelection::All);
    assert!(selection.matches("To Do"));
    assert!(selection.matches("In Progress"));
    assert!(selection.matches("Done"));
    assert!(selection.matches(""));
}

#[test]
fn status_selection_matches_one_category() {
    let selection = IssueStatusSelection::from_values(&[IssueStatusSelection::Done]);

    assert!(selection.matches("done"));
    assert!(!selection.matches("to do"));
    assert_eq!(selection.values(), vec![IssueStatusSelection::Done]);
    assert_eq!(selection.label(), "Done");
}

#[test]
fn status_selection_ors_multiple_categories_and_normalizes_duplicates() {
    let selection = IssueStatusSelection::from_values(&[
        IssueStatusSelection::Done,
        IssueStatusSelection::ToDo,
        IssueStatusSelection::Done,
    ]);

    assert!(selection.matches("Done"));
    assert!(selection.matches("To Do"));
    assert!(!selection.matches("In Progress"));
    assert_eq!(
        selection.values(),
        vec![IssueStatusSelection::ToDo, IssueStatusSelection::Done]
    );
    assert_eq!(selection.label(), "Multiple statuses");
}

#[test]
fn status_selection_keeps_uncategorized_explicit() {
    let selection = IssueStatusSelection::from_values(&[IssueStatusSelection::Uncategorized]);

    assert!(selection.matches(""));
    assert!(selection.matches("  "));
    assert!(!selection.matches("Done"));
    assert_eq!(selection.label(), "Uncategorized");
}

#[test]
fn status_selection_is_normal_whatever_the_order_of_values() {
    let a = IssueStatusSelection::from_values(&[
        IssueStatusSelection::ToDo,
        IssueStatusSelection::InProgress,
    ]);
    let b = IssueStatusSelection::from_values(&[
        IssueStatusSelection::InProgress,
        IssueStatusSelection::ToDo,
        IssueStatusSelection::All,
    ]);
    assert_eq!(a, b);
    assert!(!a.is_all());
    assert!(IssueStatusSelection::All.is_all());
    assert_eq!(IssueStatusSelection::All.label(), "All statuses");
    assert_eq!(IssueStatusSelection::All.values(), Vec::new());
    assert_eq!(
        IssueStatusSelection::from_values(&[a, IssueStatusSelection::Done, IssueStatusSelection::Uncategorized])
            .values(),
        vec![
            IssueStatusSelection::ToDo,
            IssueStatusSelection::InProgress,
            IssueStatusSelection::Done,
            IssueStatusSelection::Uncategorized
        ]
    );
}

#[test]
fn comment_validation_reports_each_limit() {
    assert_eq!(
        comment_validation_kind("   ", 10, 10),
        Some(CommentOutcomeKind::ValidationEmpty)
    );
    assert_eq!(
        comment_validation_kind(" ééé ", 5, 10),
        Some(CommentOutcomeKind::ValidationByteLimit)
    );
    assert_eq!(
        comment_validation_kind(" ééé ", 6, 2),
        Some(CommentOutcomeKind::ValidationCharacterLimit)
    );
    assert_eq!(comment_validation_kind(" ééé ", 6, 3), None);
}

#[test]
fn formats_timestamp_with_explicit_offset_and_date_rollover() {
    assert_eq!(
        format_timestamp_with_offset(1_787_010_300, 2 * 3600).expect("in range"),
        "Aug 18, 2026 · 01:45 +02:00"
    );
}

#[test]
fn renders_non_whole_hour_local_offset() {
    assert_eq!(
        format_timestamp_with_offset(1_786_968_000, -(3 * 3600 + 30 * 60)).expect("in range"),
        "Aug 17, 2026 · 08:30 -03:30"
    );
}

#[test]
fn utc_offset_and_dates_print_exactly() {
    assert_eq!(format_offset(0), "UTC");
    assert_eq!(format_offset(19_800), "+05:30");
    assert_eq!(format_date(2026, 1, 5), "Jan 05, 2026");
    assert_eq!(format_date(-44, 3, 15), "Mar 15, -44");
    assert_eq!(month_name(12), "Dec");
    assert_eq!(month_name(13), "Dec");
    assert_eq!(
        format_local_fields((1999, 12, 31, 23, 59), 0),
        "Dec 31, 1999 · 23:59 UTC"
    );
    assert!(format_timestamp_with_offset(i64::MAX, 0).is_none());
}

#[test]
fn attachment_rows_name_a_missing_mime_type() {
    let row = AttachmentViewModel::new(
        "10".to_owned(),
        "report.txt".to_owned(),
        None,
        12,
        "12 B".to_owned(),
    );
    assert_eq!(row.mime_type, "Unknown type");
    assert_eq!(row.filename, "report.txt");
}

fn users() -> Vec<UserRecord> {
    vec![
        UserRecord {
            account_id: "account-1".to_owned(),
            display_name: " Ada Lovelace ".to_owned(),
        },
        UserRecord {
            account_id: "account-1".to_owned(),
            display_name: "Second Name".to_owned(),
        },
        UserRecord {
            account_id: "account-2".to_owned(),
            display_name: "account-2".to_owned(),
        },
    ]
}

#[test]
fn directory_never_shows_an_account_id() {
    let directory = IdentityDirectory::from_users(&users());
    assert_eq!(directory.display(Some("account-1"), "Unassigned"), "Ada Lovelace");
    assert_eq!(directory.display(Some("account-2"), "Unassigned"), "Unknown user");
    assert_eq!(directory.display(Some("unknown-account"), "Unassigned"), "Unknown user");
    assert_eq!(directory.display(None, "Unassigned"), "Unassigned");
}

#[test]
fn embedded_names_fill_only_unknown_accounts() {
    let mut directory = IdentityDirectory::from_users(&users());
    directory.include_issue(Some("account-1"), Some("Other"), Some("account-3"), Some(" Nina "));
    directory.include_comment_author(Some(&CommentAuthor {
        account_id: "account-4".to_owned(),
        display_name: Some("Omar".to_owned()),
    }));
    assert_eq!(directory.display(Some("account-1"), "-"), "Ada Lovelace");
    assert_eq!(directory.display(Some("account-3"), "-"), "Nina");
    assert_eq!(
        directory.display_author(Some(&CommentAuthor {
            account_id: "account-4".to_owned(),
            display_name: None,
        })),
        "Omar"
    );
    assert_eq!(directory.display_author(None), "Unknown author");
}

fn user(account_id: &str, display_name: &str) -> UserRecord {
    UserRecord {
        account_id: account_id.to_owned(),
        display_name: display_name.to_owned(),
    }
}

fn sample_users() -> Vec<UserRecord> {
    vec![
        user("amina", "Amina Yusuf"),
        user("devon", "Devon Park"),
        user("marco", "Marco Silva"),
    ]
}

struct IssueSpec<'a> {
    id: &'a str,
    key: &'a str,
    issue_type: &'a str,
    summary: &'a str,
    status: &'a str,
    status_category: &'a str,
    priority: &'a str,
    assignee: &'a str,
    labels: &'a [&'a str],
    updated: &'a str,
    due_date: Option<(i32, u8, u8)>,
    description: &'a str,
    parent: Option<(&'a str, &'a str)>,
}

fn sample_issue(spec: IssueSpec<'_>) -> IssueRecord {
    IssueRecord {
        id: spec.id.to_owned(),
        key: spec.key.to_owned(),
        summary: spec.summary.to_owned(),
        project: "Developer Experience".to_owned(),
        issue_type: spec.issue_type.to_owned(),
        status: spec.status.to_owned(),
        status_category: Some(spec.status_category.to_owned()),
        priority: Some(spec.priority.to_owned()),
        assignee: Some(spec.assignee.to_owned()),
        assignee_display_name: None,
        reporter: Some("marco".to_owned()),
        reporter_display_name: None,
        parent: spec.parent.map(|(key, summary)| ParentRecord {
            key: key.to_owned(),
            summary: Some(summary.to_owned()),
        }),
        labels: spec.labels.iter().map(ToString::to_string).collect(),
        description: Some(spec.description.to_owned()),
        created: "Jul 28, 2026 · 08:00 UTC".to_owned(),
        updated: spec.updated.to_owned(),
        due_date: spec.due_date,
    }
}

fn sample_issues() -> Vec<IssueRecord> {
    vec![
        sample_issue(IssueSpec {
            id: "10184",
            key: "DESK-184",
            issue_type: "Story",
            summary: "Surface Jira update notifications in the desktop feed",
            status: "In Progress",
            status_category: "In progress",
            priority: "High",
            assignee: "amina",
            labels: &["notifications", "phase-1"],
            updated: "Aug 16, 2026 · 10:42 UTC",
            due_date: Some((2026, 8, 22)),
            description: "Poll Jira incrementally and present meaningful status, assignee, priority, and due-date changes without modifying remote issues.",
            parent: Some(("DESK-150", "Read-only Jira desktop MVP")),
        }),
        sample_issue(IssueSpec {
            id: "10179",
            key: "DESK-179",
            issue_type: "Task",
            summary: "Package the Wayland build as an AppImage",
            status: "To Do",
            status_category: "To do",
            priority: "Highest",
            assignee: "devon",
            labels: &["linux", "release"],
            updated: "Aug 16, 2026 · 09:18 UTC",
            due_date: Some((2026, 8, 25)),
            description: "Produce a repeatable AppImage build with the runtime libraries required by GPUI's Wayland backend.",
            parent: Some(("DESK-150", "Read-only Jira desktop MVP")),
        }),
        sample_issue(IssueSpec {
            id: "10176",
            key: "DESK-176",
            issue_type: "Bug",
            summary: "Reconcile issues removed from a saved user set",
            status: "In Review",
            status_category: "In progress",
            priority: "Medium",
            assignee: "marco",
            labels: &["sync", "cache"],
            updated: "Aug 15, 2026 · 18:04 UTC",
            due_date: None,
            description: "A full reconciliation should mark missing issues as removed from the current view while retaining their update history.",
            parent: Some(("DESK-150", "Read-only Jira desktop MVP")),
        }),
        sample_issue(IssueSpec {
            id: "10171",
            key: "DESK-171",
            issue_type: "Epic",
            summary: "Read-only Jira desktop MVP",
            status: "In Progress",
            status_category: "In progress",
            priority: "High",
            assignee: "amina",
            labels: &["epic", "phase-1"],
            updated: "Aug 15, 2026 · 14:31 UTC",
            due_date: Some((2026, 9, 5)),
            description: "Deliver a fast Wayland-native Jira overview for an individual or a saved set of users.",
            parent: None,
        }),
        sample_issue(IssueSpec {
            id: "10163",
            key: "DESK-163",
            issue_type: "Task",
            summary: "Model pagination cursors from enhanced search",
            status: "Done",
            status_category: "Done",
            priority: "Medium",
            assignee: "devon",
            labels: &["jira-api"],
            updated: "Aug 14, 2026 · 16:22 UTC",
            due_date: None,
            description: "Keep Jira transport pagination details inside the adapter and expose stable application page cursors.",
            parent: Some(("DESK-150", "Read-only Jira desktop MVP")),
        }),
    ]
}

fn at_hour(hour: i128) -> (i128, String) {
    (
        1_786_867_200 + hour * 3_600,
        format!("Aug 16, 2026 · {hour:02}:00 UTC"),
    )
}

fn test_update_event(event_id: &str, issue: &IssueRecord, hour: i128) -> UpdateEventRecord {
    let (occurred_at, occurred_at_label) = at_hour(hour);
    UpdateEventRecord {
        event_id: event_id.to_owned(),
        issue_id: issue.id.clone(),
        issue_key: issue.key.clone(),
        kind: UpdateKind::IssueUpdated,
        occurred_at,
        occurred_at_label,
        unread: true,
        matching_user_set_ids: vec!["team-platform".to_owned()],
    }
}

#[test]
fn maps_domain_identity_to_display_name() {
    let issues = sample_issues();
    let users = sample_users();
    let view = IssueViewModel::from_domain(&issues[0], &users);

    assert_eq!(view.key, "DESK-184");
    assert_eq!(view.assignee, "Amina Yusuf");
    assert_eq!(view.project, "Developer Experience");
}

#[test]
fn never_renders_an_unknown_account_id_as_a_display_label() {
    let mut issues = sample_issues();
    issues[0].assignee = Some("unknown-account".to_owned());
    let view = IssueViewModel::from_domain(&issues[0], &[]);

    assert_eq!(view.assignee, "Unknown user");
    assert!(!view.assignee.contains("unknown-account"));
}

#[test]
fn prefers_issue_embedded_display_names_for_assignee_and_reporter() {
    let mut issue = sample_issues().into_iter().next().expect("sample issue");
    issue.assignee_display_name = Some("Asha Patel".to_owned());
    issue.reporter_display_name = Some("Nina Smith".to_owned());

    let view = IssueViewModel::from_domain(&issue, &[]);

    assert_eq!(view.assignee, "Asha Patel");
    assert_eq!(view.reporter, "Nina Smith");
    assert!(!view.reporter.contains("marco"));
}

#[test]
fn rejects_embedded_account_ids_as_display_names() {
    let mut issue = sample_issues().into_iter().next().expect("sample issue");
    let assignee = issue.assignee.clone().expect("sample assignee");
    let reporter = issue.reporter.clone().expect("sample reporter");
    issue.assignee_display_name = Some(format!("  {assignee}  "));
    issue.reporter_display_name = Some(reporter.to_string());

    let view = IssueViewModel::from_domain(&issue, &[]);

    assert_eq!(view.assignee, "Unknown user");
    assert_eq!(view.reporter, "Unknown user");
    assert!(!view.assignee.contains(assignee.as_str()));
    assert!(!view.reporter.contains(reporter.as_str()));
}

#[test]
fn issue_rows_print_every_field_with_its_fallback() {
    let mut issue = sample_issues().into_iter().next().expect("sample issue");
    let view = IssueViewModel::from_domain(&issue, &sample_users());
    assert_eq!(view.reporter, "Marco Silva");
    assert_eq!(view.issue_type, "Story");
    assert_eq!(view.status, "In Progress");
    assert_eq!(view.status_category, "In progress");
    assert_eq!(view.priority, "High");
    assert_eq!(view.parent.as_deref(), Some("DESK-150 · Read-only Jira desktop MVP"));
    assert_eq!(view.labels, vec!["notifications".to_owned(), "phase-1".to_owned()]);
    assert!(view.description.starts_with("Poll Jira incrementally"));
    assert_eq!(view.created, "Jul 28, 2026 · 08:00 UTC");
    assert_eq!(view.updated, "Aug 16, 2026 · 10:42 UTC");
    assert_eq!(view.due_date, "Aug 22, 2026");

    issue.status_category = None;
    issue.priority = None;
    issue.assignee = None;
    issue.parent = Some(ParentRecord {
        key: "DESK-150".to_owned(),
        summary: None,
    });
    issue.description = None;
    issue.due_date = None;
    let view = IssueViewModel::from_domain(&issue, &sample_users());
    assert_eq!(view.status_category, "No category");
    assert_eq!(view.priority, "None");
    assert_eq!(view.assignee, "Unassigned");
    assert_eq!(view.parent.as_deref(), Some("DESK-150"));
    assert_eq!(view.description, "No description supplied.");
    assert_eq!(view.due_date, "Not set");

    issue.parent = None;
    let view = IssueViewModel::from_domain(&issue, &[]);
    assert_eq!(view.parent, None);
}

#[test]
fn filters_loaded_domain_issues_without_changing_their_display_mapping() {
    let issues = sample_issues();
    let users = sample_users();

    let views = issue_views_for_filter(&issues, &users, IssueStatusFilter::Done, "");

    assert_eq!(views.len(), 1);
    assert_eq!(views[0].key, "DESK-163");
    assert_eq!(views[0].assignee, "Devon Park");
}

#[test]
fn searches_issue_key_and_summary_locally_and_composes_with_status() {
    let issues = sample_issues();
    let users = sample_users();

    assert_eq!(
        issue_views_for_filter(&issues, &users, IssueStatusFilter::All, "DESK-184")
            .iter()
            .map(|issue| issue.key.as_str())
            .collect::<Vec<_>>(),
        vec!["DESK-184"]
    );
    assert_eq!(
        issue_views_for_filter(&issues, &users, IssueStatusFilter::All, "desk-18").len(),
        1
    );
    assert_eq!(
        issue_views_for_filter(&issues, &users, IssueStatusFilter::All, "notifications").len(),
        1
    );
    assert_eq!(
        issue_views_for_filter(&issues, &users, IssueStatusFilter::Done, "desk")
            .iter()
            .map(|issue| issue.key.as_str())
            .collect::<Vec<_>>(),
        vec!["DESK-163"]
    );
    assert_eq!(
        issue_views_for_filter(&issues, &users, IssueStatusFilter::All, "   ").len(),
        issues.len()
    );
}

#[test]
fn filtering_keeps_issue_order_and_names_from_other_issues() {
    let mut issues = sample_issues();
    issues[1].assignee_display_name = Some("Devon P.".to_owned());
    let views = issue_views_for_filter(&issues, &[], IssueStatusFilter::All, "");
    let keys: Vec<&str> = views.iter().map(|v| v.key.as_str()).collect();
    assert_eq!(keys, vec!["DESK-184", "DESK-179", "DESK-176", "DESK-171", "DESK-163"]);
    assert_eq!(views[4].assignee, "Devon P.");
    assert_eq!(views[0].assignee, "Unknown user");
    let selection = IssueStatusSelection::from_values(&[
        IssueStatusSelection::ToDo,
        IssueStatusSelection::Done,
    ]);
    let views = issue_views_for_filter(&issues, &[], selection, " APPIMAGE ");
    assert_eq!(views.len(), 1);
    assert_eq!(views[0].key, "DESK-179");
}

fn comment(author: Option<CommentAuthor>, body: &str) -> CommentRecord {
    CommentRecord {
        author,
        body: body.to_owned(),
        created: "Jan 03, 2026 · 00:00 UTC".to_owned(),
        updated: None,
    }
}

fn author(account_id: &str, display_name: Option<&str>) -> Option<CommentAuthor> {
    Some(CommentAuthor {
        account_id: account_id.to_owned(),
        display_name: display_name.map(str::to_owned),
    })
}

#[test]
fn maps_issue_detail_comments_and_attachment_metadata_for_display() {
    let issue = sample_issues().into_iter().next().expect("sample issue");
    let detail = IssueDetailRecord {
        issue,
        attachments: vec![AttachmentRecord {
            id: "attachment-1".to_owned(),
            filename: "report.txt".to_owned(),
            mime_type: Some("text/plain".to_owned()),
            size_bytes: 1024,
            size: "1.0 KiB".to_owned(),
        }],
        comments: vec![comment(author("account-1", None), "A comment body")],
    };

    let view = IssueDetailViewModel::from_domain(&detail, &[]);

    assert_eq!(view.comments[0].author, "Unknown author");
    assert!(!view.comments[0].author.contains("account-1"));
    assert_eq!(view.comments[0].body, "A comment body");
    assert_eq!(view.attachments[0].filename, "report.txt");
    assert_eq!(view.attachments[0].id, "attachment-1");
    assert_eq!(view.attachments[0].size_bytes, 1024);
    assert_eq!(view.attachments[0].mime_type, "text/plain");
    assert_eq!(view.attachments[0].size, "1.0 KiB");
    assert!(view.description.starts_with("Poll Jira incrementally"));
}

#[test]
fn maps_comment_author_to_authenticated_catalog_display_name() {
    let issue = sample_issues().into_iter().next().expect("sample issue");
    let detail = IssueDetailRecord {
        issue,
        attachments: Vec::new(),
        comments: vec![comment(author("account-1", Some("  ")), "A comment body")],
    };

    let view = IssueDetailViewModel::from_domain(&detail, &[user("account-1", "Asha")]);

    assert_eq!(view.comments[0].author, "Asha");
    assert_ne!(view.comments[0].author, "account-1");
}

#[test]
fn maps_comment_embedded_display_name_without_a_user_catalog() {
    let issue = sample_issues().into_iter().next().expect("sample issue");
    let detail = IssueDetailRecord {
        issue,
        attachments: Vec::new(),
        comments: vec![comment(
            author("commenter-account", Some("Asha Patel")),
            "A comment body",
        )],
    };

    let view = IssueDetailViewModel::from_domain(&detail, &[]);

    assert_eq!(view.comments[0].author, "Asha Patel");
}

#[test]
fn later_comments_reuse_names_from_earlier_ones() {
    let issue = sample_issues().into_iter().next().expect("sample issue");
    let detail = IssueDetailRecord {
        issue,
        attachments: Vec::new(),
        comments: vec![
            comment(author("commenter-account", None), "first"),
            comment(author("commenter-account", Some("Asha Patel")), "second"),
            comment(None, "third"),
        ],
    };
    let view = IssueDetailViewModel::from_domain(&detail, &[]);
    let authors: Vec<&str> = view.comments.iter().map(|c| c.author.as_str()).collect();
    assert_eq!(authors, vec!["Asha Patel", "Asha Patel", "Unknown author"]);
}

#[test]
fn maps_assignee_change_accounts_through_the_identity_directory() {
    let issue = sample_issues().into_iter().next().expect("sample issue");
    let users = vec![user("old-account", "Old Name"), user("new-account", "New Name")];
    let mut event = test_update_event("event-assignee", &issue, 10);
    event.kind = UpdateKind::AssigneeChanged {
        old: ChangeValue::Account("old-account".to_owned()),
        new: ChangeValue::Account("new-account".to_owned()),
    };

    let groups = update_groups_for_events(
        std::slice::from_ref(&event),
        std::slice::from_ref(&issue),
        &users,
    );
    let view = &groups[0].events[0];

    assert_eq!(view.change, "Assignee: Old Name → New Name");
    assert!(!view.change.contains("account"));
}

#[test]
fn maps_comment_added_authors_without_exposing_account_ids() {
    let issue = sample_issues().into_iter().next().expect("sample issue");
    let mut event = test_update_event("event-comment", &issue, 10);
    event.kind = UpdateKind::CommentAdded {
        author: Some("amina".to_owned()),
        excerpt: "A useful update".to_owned(),
    };

    let groups = update_groups_for_events(
        std::slice::from_ref(&event),
        std::slice::from_ref(&issue),
        &sample_users(),
    );
    let view = &groups[0].events[0];

    assert_eq!(view.change, "Amina Yusuf commented: A useful update");
    assert!(!view.change.contains("amina"));
}

#[test]
fn renders_generic_issue_activity_update_without_raw_enum_name() {
    let issue = sample_issues().into_iter().next().expect("sample issue");
    let event = test_update_event("event-1", &issue, 10);

    let groups = update_groups_for_events(
        std::slice::from_ref(&event),
        std::slice::from_ref(&issue),
        &[],
    );
    let view = &groups[0].events[0];

    assert_eq!(view.issue_id, issue.id);
    assert_eq!(view.event_id.as_str(), "event-1");
    assert_eq!(view.change, "Issue activity changed");
}

#[test]
fn renders_changelog_field_change_as_exact_before_after_sentence() {
    let issue = sample_issues().into_iter().next().expect("sample issue");
    let mut event = test_update_event("event-field", &issue, 10);
    event.kind = UpdateKind::FieldChanged {
        field: "Labels".into(),
        old: ChangeValue::Text("old".into()),
        new: ChangeValue::Text("new".into()),
    };

    let groups = update_groups_for_events(
        std::slice::from_ref(&event),
        std::slice::from_ref(&issue),
        &[],
    );

    assert_eq!(groups[0].events[0].change, "Labels: old → new");
}

#[test]
fn describes_each_kind_of_change_exactly() {
    let directory = IdentityDirectory::from_users(&users());
    let text = describe_change(
        &UpdateKind::FieldChanged {
            field: "Labels".to_owned(),
            old: ChangeValue::Empty,
            new: ChangeValue::Text("backend".to_owned()),
        },
        &directory,
    );
    assert_eq!(text, "Labels: empty → backend");
    let text = describe_change(
        &UpdateKind::AssigneeChanged {
            old: ChangeValue::Account("secret-account".to_owned()),
            new: ChangeValue::Account("account-1".to_owned()),
        },
        &directory,
    );
    assert_eq!(text, "Assignee: Unknown user → Ada Lovelace");
    let text = describe_change(
        &UpdateKind::CommentAdded {
            author: None,
            excerpt: "Looks good".to_owned(),
        },
        &directory,
    );
    assert_eq!(text, "Unknown author commented: Looks good");
    assert_eq!(
        describe_change(&UpdateKind::IssueUpdated, &directory),
        "Issue activity changed"
    );
    assert_eq!(
        describe_change(&UpdateKind::IssueAddedToView, &directory),
        "Added to this user set"
    );
}

#[test]
fn groups_adjacent_events_for_one_issue_into_one_ticket_card() {
    let issues = sample_issues();
    let first = &issues[0];
    let second = &issues[1];
    let events = vec![
        test_update_event("event-a1", first, 10),
        test_update_event("event-a2", first, 9),
        test_update_event("event-b1", second, 8),
    ];

    let groups = update_groups_for_events(&events, &issues, &sample_users());

    assert_eq!(groups.len(), 2);
    assert_eq!(groups[0].issue_id, first.id);
    assert_eq!(groups[0].issue_key, "DESK-184");
    assert_eq!(groups[0].issue_summary, first.summary);
    assert_eq!(
        groups[0]
            .events
            .iter()
            .map(|event| event.event_id.as_str())
            .collect::<Vec<_>>(),
        vec!["event-a1", "event-a2"]
    );
    assert_eq!(groups[0].latest_occurred_at, at_hour(10).1);
}

#[test]
fn groups_non_adjacent_events_without_reordering_groups_or_events() {
    let issues = sample_issues();
    let first = &issues[0];
    let second = &issues[1];
    let events = vec![
        test_update_event("event-a1", first, 10),
        test_update_event("event-b1", second, 9),
        test_update_event("event-a2", first, 8),
    ];

    let groups = update_groups_for_events(&events, &issues, &[]);

    assert_eq!(
        groups
            .iter()
            .map(|group| group.issue_key.as_str())
            .collect::<Vec<_>>(),
        vec!["DESK-184", "DESK-179"]
    );
    assert_eq!(
        groups[0]
            .events
            .iter()
            .map(|event| event.event_id.as_str())
            .collect::<Vec<_>>(),
        vec!["event-a1", "event-a2"]
    );
    assert_eq!(
        groups[1]
            .events
            .iter()
            .map(|event| event.event_id.as_str())
            .collect::<Vec<_>>(),
        vec!["event-b1"]
    );
}

#[test]
fn groups_expose_all_event_ids_and_aggregate_mixed_read_states() {
    let issues = sample_issues();
    let issue = &issues[0];
    let mut read = test_update_event("event-read", issue, 9);
    read.unread = false;
    let events = vec![
        test_update_event("event-unread-1", issue, 10),
        read,
        test_update_event("event-unread-2", issue, 8),
    ];

    let groups = update_groups_for_events(&events, &issues, &[]);

    assert_eq!(groups.len(), 1);
    assert_eq!(groups[0].unread_count, 2);
    assert!(groups[0].unread);
    assert_eq!(
        groups[0]
            .events
            .iter()
            .map(|event| (event.event_id.as_str(), event.unread))
            .collect::<Vec<_>>(),
        vec![
            ("event-unread-1", true),
            ("event-read", false),
            ("event-unread-2", true)
        ]
    );
}

#[test]
fn grouping_missing_issue_uses_safe_event_metadata_fallbacks() {
    let event = UpdateEventRecord {
        event_id: "event-missing".to_owned(),
        issue_id: "missing-issue".to_owned(),
        issue_key: "DESK-999".to_owned(),
        kind: UpdateKind::AssigneeChanged {
            old: ChangeValue::Account("secret-account".to_owned()),
            new: ChangeValue::Account("secret-account".to_owned()),
        },
        occurred_at: at_hour(10).0,
        occurred_at_label: at_hour(10).1,
        unread: true,
        matching_user_set_ids: Vec::new(),
    };

    let groups = update_groups_for_events(&[event], &[], &[]);

    assert_eq!(groups.len(), 1);
    assert_eq!(groups[0].issue_key, "DESK-999");
    assert_eq!(groups[0].issue_summary, "Issue no longer in this view");
    assert_eq!(
        groups[0].events[0].change,
        "Assignee: Unknown user → Unknown user"
    );
    assert!(!groups[0].events[0].change.contains("secret-account"));
}

#[test]
fn read_groups_count_no_unread_events() {
    let issues = sample_issues();
    let mut event = test_update_event("event-read", &issues[4], 7);
    event.unread = false;
    event.kind = UpdateKind::IssueAddedToView;
    let groups = update_groups_for_events(&[event], &issues, &[]);
    assert_eq!(groups[0].unread_count, 0);
    assert!(!groups[0].unread);
    assert_eq!(groups[0].events[0].change, "Added to this user set");
    assert_eq!(
        groups[0].events[0].issue_summary,
        "Model pagination cursors from enhanced search"
    );
}

#[test]
fn timestamps_format_exactly_within_the_supported_range() {
    assert_eq!(
        format_timestamp_with_offset(-1, 0).expect("before the epoch"),
        "Dec 31, 1969 · 23:59 UTC"
    );
    assert_eq!(
        format_timestamp_with_offset(-1, -(3 * 3600 + 30 * 60)).expect("negative offset"),
        "Dec 31, 1969 · 20:29 -03:30"
    );
    assert_eq!(
        format_timestamp_with_offset(MAX_UNIX_SECONDS, 0).expect("last second"),
        "Dec 31, 9999 · 23:59 UTC"
    );
    assert_eq!(
        format_timestamp_with_offset(MIN_UNIX_SECONDS, 0).expect("first second"),
        "Jan 01, -9999 · 00:00 UTC"
    );
    assert!(format_timestamp_with_offset(MAX_UNIX_SECONDS + 1, 0).is_none());
    assert!(format_timestamp_with_offset(MIN_UNIX_SECONDS - 1, 0).is_none());
    assert!(format_timestamp_with_offset(MAX_UNIX_SECONDS, 1).is_none());
    assert!(format_timestamp_with_offset(0, MAX_OFFSET_SECONDS).is_some());
    assert!(format_timestamp_with_offset(0, MAX_OFFSET_SECONDS + 1).is_none());
    assert!(format_timestamp_with_offset(0, -MAX_OFFSET_SECONDS - 1).is_none());
}

const KINDS: [ErrorKind; 12] = [
    ErrorKind::Authentication,
    ErrorKind::Authorization,
    ErrorKind::RateLimited,
    ErrorKind::Offline,
    ErrorKind::Cancelled,
    ErrorKind::InvalidInput,
    ErrorKind::NotFound,
    ErrorKind::Upstream,
    ErrorKind::Storage,
    ErrorKind::Notification,
    ErrorKind::Internal,
    ErrorKind::UnknownOutcome,
];

#[test]
fn read_policy_maps_every_error_kind_without_accepting_error_detail() {
    for surface in [ReadSurface::Sync, ReadSurface::Detail, ReadSurface::Lookup] {
        for kind in KINDS {
            let copy = read_error_copy(surface, kind);
            let expected = match (surface, kind) {
                (ReadSurface::Sync, ErrorKind::Authentication) => {
                    "Refresh failed · Jira authentication was rejected"
                }
                (ReadSurface::Sync, ErrorKind::Authorization) => {
                    "Refresh failed · Jira authorization was denied"
                }
                (ReadSurface::Sync, ErrorKind::RateLimited) => {
                    "Refresh paused · Jira rate limit reached"
                }
                (ReadSurface::Sync, ErrorKind::Offline) => "Refresh failed · Jira is unreachable",
                (ReadSurface::Sync, ErrorKind::Cancelled) => "Refresh cancelled",
                (ReadSurface::Sync, ErrorKind::InvalidInput) => "Refresh failed · invalid request",
                (ReadSurface::Sync, ErrorKind::NotFound) => {
                    "Refresh failed · Jira site was not found"
                }
                (ReadSurface::Sync, ErrorKind::Upstream) => {
                    "Refresh failed · Jira returned an error"
                }
                (
                    ReadSurface::Sync,
                    ErrorKind::Storage
                    | ErrorKind::Notification
                    | ErrorKind::Internal
                    | ErrorKind::UnknownOutcome,
                ) => "Refresh failed · local application error",
                (ReadSurface::Detail, ErrorKind::Authentication) => {
                    "Issue details unavailable · Jira authentication was rejected"
                }
                (ReadSurface::Detail, ErrorKind::Authorization) => {
                    "Issue details unavailable · Jira authorization was denied"
                }
                (ReadSurface::Detail, ErrorKind::NotFound) => {
                    "Issue details unavailable · Jira issue was not found"
                }
                (ReadSurface::Detail, ErrorKind::RateLimited) => {
                    "Issue details unavailable · Jira rate limit reached"
                }
                (ReadSurface::Detail, ErrorKind::Offline) => {
                    "Issue details unavailable · Jira is unreachable"
                }
                (ReadSurface::Detail, ErrorKind::Cancelled) => "Issue details request cancelled",
                (
                    ReadSurface::Detail,
                    ErrorKind::InvalidInput
                    | ErrorKind::Upstream
                    | ErrorKind::Storage
                    | ErrorKind::Notification
                    | ErrorKind::Internal
                    | ErrorKind::UnknownOutcome,
                ) => "Issue details unavailable · Jira returned an error",
                (ReadSurface::Lookup, ErrorKind::Authentication) => {
                    "Jira lookup failed · authentication was rejected"
                }
                (ReadSurface::Lookup, ErrorKind::Authorization) => {
                    "Jira lookup failed · authorization was denied"
                }
                (ReadSurface::Lookup, ErrorKind::NotFound) => "Jira lookup · issue was not found",
                (ReadSurface::Lookup, ErrorKind::RateLimited) => {
                    "Jira lookup paused · rate limit reached"
                }
                (ReadSurface::Lookup, ErrorKind::Offline) => {
                    "Jira lookup failed · Jira is unreachable"
                }
                (ReadSurface::Lookup, ErrorKind::Cancelled) => "Jira lookup cancelled",
                (
                    ReadSurface::Lookup,
                    ErrorKind::InvalidInput
                    | ErrorKind::Upstream
                    | ErrorKind::Storage
                    | ErrorKind::Notification
                    | ErrorKind::Internal
                    | ErrorKind::UnknownOutcome,
                ) => "Jira lookup failed · request was not completed",
            };
            assert_eq!(copy.message(), expected, "{surface:?} {kind:?}");
            assert_eq!(copy.severity(), FeedbackSeverity::Error);
            assert_eq!(copy.certainty(), FeedbackCertainty::Definite);
            assert_eq!(copy.recovery(), RecoveryDirective::Retry);
            assert!(!copy.message().contains("secret server detail"));
        }
    }
}

const MAX_COMMENT_BYTES: usize = 131_072;
const MAX_COMMENT_CHARS: usize = 32_767;

#[test]
fn comment_policy_has_independent_exact_tables_for_every_key() {
    let validation = [
        (
            CommentOutcomeKind::ValidationEmpty,
            "Comment not posted · enter a non-empty comment",
        ),
        (
            CommentOutcomeKind::ValidationByteLimit,
            "Comment not posted · comment exceeds the byte limit",
        ),
        (
            CommentOutcomeKind::ValidationCharacterLimit,
            "Comment not posted · comment exceeds the character limit",
        ),
    ];
    for (kind, message) in validation {
        assert_copy(
            comment_outcome_copy(kind),
            message,
            FeedbackSeverity::Error,
            FeedbackCertainty::Definite,
            RecoveryDirective::Retry,
        );
    }
    assert_eq!(
        comment_validation_kind("   ", MAX_COMMENT_BYTES, MAX_COMMENT_CHARS),
        Some(CommentOutcomeKind::ValidationEmpty)
    );
    assert_eq!(
        comment_validation_kind(
            &"😀".repeat(MAX_COMMENT_BYTES / 4 + 1),
            MAX_COMMENT_BYTES,
            MAX_COMMENT_CHARS
        ),
        Some(CommentOutcomeKind::ValidationByteLimit)
    );
    assert_eq!(
        comment_validation_kind(
            &"x".repeat(MAX_COMMENT_CHARS + 1),
            MAX_COMMENT_BYTES,
            MAX_COMMENT_CHARS
        ),
        Some(CommentOutcomeKind::ValidationCharacterLimit)
    );
    assert_copy(
        comment_outcome_copy(CommentOutcomeKind::WorkspaceUnavailable),
        "Comment not posted · live Jira workspace is not ready",
        FeedbackSeverity::Error,
        FeedbackCertainty::Definite,
        RecoveryDirective::Retry,
    );

    let errors = [
        (
            ErrorKind::Authentication,
            "Comment not posted · Jira authentication was rejected",
            FeedbackCertainty::Definite,
            RecoveryDirective::Retry,
        ),
        (
            ErrorKind::Authorization,
            "Comment not posted · Jira denied comment permission",
            FeedbackCertainty::Definite,
            RecoveryDirective::Retry,
        ),
        (
            ErrorKind::NotFound,
            "Comment not posted · the Jira issue was not found",
            FeedbackCertainty::Definite,
            RecoveryDirective::Retry,
        ),
        (
            ErrorKind::RateLimited,
            "Comment not posted · Jira rate limit reached; try later",
            FeedbackCertainty::Definite,
            RecoveryDirective::Retry,
        ),
        (
            ErrorKind::InvalidInput,
            "Comment not posted · the comment text is invalid",
            FeedbackCertainty::Definite,
            RecoveryDirective::Retry,
        ),
        (
            ErrorKind::UnknownOutcome,
            "Jira may have accepted this comment. Refresh comments before retrying.",
            FeedbackCertainty::Unknown,
            RecoveryDirective::Refresh,
        ),
        (
            ErrorKind::Offline,
            "Comment not posted · Jira returned an error",
            FeedbackCertainty::Definite,
            RecoveryDirective::Retry,
        ),
        (
            ErrorKind::Cancelled,
            "Comment not posted · Jira returned an error",
            FeedbackCertainty::Definite,
            RecoveryDirective::Retry,
        ),
        (
            ErrorKind::Storage,
            "Comment not posted · Jira returned an error",
            FeedbackCertainty::Definite,
            RecoveryDirective::Retry,
        ),
        (
            ErrorKind::Upstream,
            "Comment not posted · Jira returned an error",
            FeedbackCertainty::Definite,
            RecoveryDirective::Retry,
        ),
        (
            ErrorKind::Notification,
            "Comment not posted · Jira returned an error",
            FeedbackCertainty::Definite,
            RecoveryDirective::Retry,
        ),
        (
            ErrorKind::Internal,
            "Comment not posted · Jira returned an error",
            FeedbackCertainty::Definite,
            RecoveryDirective::Retry,
        ),
    ];
    for (kind, message, certainty, recovery) in errors {
        assert_copy(
            comment_outcome_copy(CommentOutcomeKind::Error(kind)),
            message,
            FeedbackSeverity::Error,
            certainty,
            recovery,
        );
    }
}

#[test]
fn issue_edit_policy_has_independent_exact_lookup_and_write_tables() {
    let shared = [
        (ErrorKind::Authentication, "Change not applied · Jira authentication was rejected"),
        (ErrorKind::Authorization, "Change not applied · Jira denied permission"),
        (ErrorKind::NotFound, "Change not applied · the Jira issue was not found"),
        (ErrorKind::RateLimited, "Change not applied · Jira rate limit reached; try later"),
        (ErrorKind::Offline, "Change not applied · Jira is unreachable"),
        (ErrorKind::InvalidInput, "Change not applied · Jira rejected the requested change"),
        (ErrorKind::Cancelled, "Change cancelled"),
        (
            ErrorKind::UnknownOutcome,
            "Jira may have accepted this change. Refresh Jira before another attempt.",
        ),
    ];
    let mut copies = Vec::new();
    for (kind, message) in shared {
        copies.push((kind, IssueEditPhase::Lookup, message));
        copies.push((kind, IssueEditPhase::Write, message));
    }
    for kind in [
        ErrorKind::Storage,
        ErrorKind::Upstream,
        ErrorKind::Notification,
        ErrorKind::Internal,
    ] {
        copies.push((
            kind,
            IssueEditPhase::Lookup,
            "Jira options unavailable · request was not completed",
        ));
        copies.push((
            kind,
            IssueEditPhase::Write,
            "Change not applied · Jira returned an error",
        ));
    }
    assert_eq!(copies.len(), 24);
    for (kind, phase, message) in copies {
        assert_copy(
            issue_edit_error_copy(kind, phase),
            message,
            FeedbackSeverity::Error,
            if kind == ErrorKind::UnknownOutcome {
                FeedbackCertainty::Unknown
            } else {
                FeedbackCertainty::Definite
            },
            if kind == ErrorKind::UnknownOutcome {
                RecoveryDirective::Refresh
            } else {
                RecoveryDirective::Retry
            },
        );
    }
}

#[test]
fn catalog_names_win_over_names_issues_carry() {
    let mut issues = sample_issues();
    issues[0].assignee_display_name = Some("Someone Else".to_owned());
    let views = issue_views_for_filter(&issues, &sample_users(), IssueStatusFilter::All, "");
    assert_eq!(views[0].assignee, "Amina Yusuf");
    let view = IssueViewModel::from_domain(&issues[0], &sample_users());
    assert_eq!(view.assignee, "Amina Yusuf");
}

fn civil_from_days(days: i64) -> (i64, u32, u32) {
    let z = days + 719_468;
    let era = z.div_euclid(146_097);
    let doe = z.rem_euclid(146_097);
    let yoe = (doe - doe / 1460 + doe / 36_524 - doe / 146_096) / 365;
    let doy = doe - (365 * yoe + yoe / 4 - yoe / 100);
    let mp = (5 * doy + 2) / 153;
    let day = doy - (153 * mp + 2) / 5 + 1;
    let month = if mp < 10 { mp + 3 } else { mp - 9 };
    let year = yoe + era * 400 + i64::from(month <= 2);
    (year, month as u32, day as u32)
}

#[test]
fn local_dates_are_proleptic_gregorian_dates() {
    let months = [
        "Jan", "Feb", "Mar", "Apr", "May", "Jun", "Jul", "Aug", "Sep", "Oct", "Nov", "Dec",
    ];
    let mut seconds = MIN_UNIX_SECONDS;
    while seconds <= MAX_UNIX_SECONDS {
        for offset in [0i32, 3600, -37_800] {
            let Some(label) = format_timestamp_with_offset(seconds, offset) else {
                continue;
            };
            let local = seconds + i64::from(offset);
            let (year, month, day) = civil_from_days(local.div_euclid(86_400));
            let expected = format!("{} {:02}, {}", months[month as usize - 1], day, year);
            assert!(label.starts_with(&expected), "{seconds} {offset}: {label} vs {expected}");
        }
        seconds += 86_400 * 97 + 3_607;
    }
}

#[test]
fn status_selection_defaults_to_all_and_round_trips_its_values() {
    assert_eq!(IssueStatusSelection::default(), IssueStatusSelection::All);
    let selection = IssueStatusSelection::from_values(&[
        IssueStatusSelection::Done,
        IssueStatusSelection::ToDo,
        IssueStatusSelection::Done,
    ]);
    assert_eq!(IssueStatusSelection::from_values(&selection.values()), selection);
    assert_eq!(
        selection,
        IssueStatusSelection::from_values(&[IssueStatusSelection::ToDo, IssueStatusSelection::Done])
    );
    assert!(IssueStatusSelection::All.values().is_empty());
    assert_eq!(
        IssueStatusSelection::from_values(&IssueStatusSelection::All.values()),
        IssueStatusSelection::All
    );
}

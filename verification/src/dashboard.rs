//! Decisions of the dashboard shell that do not depend on drawing: action
//! labels, which status copy is shown, and the team table layout.
use vstd::prelude::*;
use crate::responsive::LayoutMode;
use crate::presentation::identity::{catalog, UserRecord};
use crate::presentation::issues::{issue_view, with_issue_names, IssueRecord, IssueView, IssueViewModel};

verus! {

/// The status line shown while no Jira connection is configured.
pub const PREVIEW_STATUS: &'static str = "Preview data · Jira connection not configured";

/// Which updates the feed lists.
#[derive(Clone, Copy, Debug, PartialEq, Eq, Structural)]
pub enum UpdateFilter {
    All,
    Unread,
}

/// How the team tracker lays out its tickets.
#[derive(Clone, Copy, Debug, PartialEq, Eq, Structural)]
pub enum TeamTableMode {
    Cards,
    DenseTable,
    WideTable,
}

/// Narrowest viewport with the dense team table.
pub const TEAM_DENSE_TABLE_MIN_VIEWPORT: i64 = 1200;
/// Narrowest viewport with the wide team table.
pub const TEAM_WIDE_TABLE_MIN_VIEWPORT: i64 = 1920;
/// Narrowest dense team table.
pub const TEAM_DENSE_TABLE_WIDTH: u32 = 596;
/// Narrowest wide team table.
pub const TEAM_WIDE_TABLE_WIDTH: u32 = 1190;

/// The label of the refresh action; it never carries the sync detail.
pub fn refresh_action_label(operation_in_progress: bool) -> (label: &'static str)
    ensures
        label@ == if operation_in_progress {
            "Refreshing Jira…"@
        } else {
            "Refresh Jira"@
        },
{
    if operation_in_progress {
        "Refreshing Jira…"
    } else {
        "Refresh Jira"
    }
}

/// Whether the sidebar shows the sync message: every message but the
/// redundant preview notice is shown.
pub fn should_render_sidebar_sync_message(message: &str) -> (shown: bool)
    ensures
        shown == (message@ != PREVIEW_STATUS@),
{
    !crate::text::str_equals(message, PREVIEW_STATUS)
}

/// Whether the mobile shell shows its sync status strip: always with a live
/// workspace, else for every message but the preview notice.
pub fn should_render_mobile_sync_status(has_workspace: bool, message: &str) -> (shown: bool)
    ensures
        shown == (has_workspace || message@ != PREVIEW_STATUS@),
{
    has_workspace || should_render_sidebar_sync_message(message)
}

/// Whether the update filter `option` is the one selected.
pub fn update_filter_is_selected(current: UpdateFilter, option: UpdateFilter) -> (selected: bool)
    ensures
        selected == (current == option),
{
    current == option
}

/// Whether an update row shows its own timestamp: only a lone event whose
/// time is already the group's latest omits it.
pub fn should_show_row_timestamp(
    event_count: usize,
    latest_occurred_at: &str,
    row_occurred_at: &str,
) -> (shown: bool)
    ensures
        shown == (event_count != 1 || row_occurred_at@ != latest_occurred_at@),
{
    event_count != 1 || !crate::text::str_equals(row_occurred_at, latest_occurred_at)
}

/// The team table layout of a viewport `width` whole logical pixels wide.
pub fn team_table_mode_for_width(width: i64) -> (mode: TeamTableMode)
    ensures
        mode == if width >= TEAM_WIDE_TABLE_MIN_VIEWPORT {
            TeamTableMode::WideTable
        } else if width >= TEAM_DENSE_TABLE_MIN_VIEWPORT {
            TeamTableMode::DenseTable
        } else {
            TeamTableMode::Cards
        },
{
    if width >= TEAM_WIDE_TABLE_MIN_VIEWPORT {
        TeamTableMode::WideTable
    } else if width >= TEAM_DENSE_TABLE_MIN_VIEWPORT {
        TeamTableMode::DenseTable
    } else {
        TeamTableMode::Cards
    }
}

/// The narrowest the team table may get: the issue list's minimum for
/// cards, else the table's own minimum.
pub fn team_table_min_width(mode: TeamTableMode, layout: LayoutMode) -> (w: u32)
    ensures
        w == match mode {
            TeamTableMode::Cards => layout.spec_issue_list_range().0,
            TeamTableMode::DenseTable => TEAM_DENSE_TABLE_WIDTH,
            TeamTableMode::WideTable => TEAM_WIDE_TABLE_WIDTH,
        },
{
    match mode {
        TeamTableMode::Cards => layout.issue_list_range().0,
        TeamTableMode::DenseTable => TEAM_DENSE_TABLE_WIDTH,
        TeamTableMode::WideTable => TEAM_WIDE_TABLE_WIDTH,
    }
}

/// The label of the sidebar's profile menu: the display name of the first
/// known user with the authenticated account, else a label for a live or a
/// preview workspace.
pub open spec fn spec_profile_label(
    account: Option<Seq<char>>,
    users: Seq<UserRecord>,
    has_workspace: bool,
) -> Seq<char> {
    let found = match account {
        Some(a) => exists|k: int| 0 <= k < users.len() && users[k].account_id@ == a,
        None => false,
    };
    if found {
        let k = choose|k: int|
            0 <= k < users.len() && users[k].account_id@ == account->0 && forall|j: int|
                0 <= j < k ==> users[j].account_id@ != account->0;
        users[k].display_name@
    } else if has_workspace {
        "Jira account"@
    } else {
        "Preview data"@
    }
}

/// The label of the sidebar's profile menu.
pub fn sidebar_profile_label(
    authenticated_account: Option<&str>,
    users: &[UserRecord],
    has_workspace: bool,
) -> (label: String)
    ensures
        label@ == spec_profile_label(
            match authenticated_account {
                Some(a) => Some(a@),
                None => None,
            },
            users@,
            has_workspace,
        ),
{
    if let Some(account) = authenticated_account {
        let mut i: usize = 0;
        while i < users.len()
            invariant
                i <= users@.len(),
                authenticated_account == Some(account),
                forall|j: int| 0 <= j < i ==> users@[j].account_id@ != account@,
            decreases users.len() - i,
        {
            if crate::text::str_equals(users[i].account_id.as_str(), account) {
                let ghost k = i as int;
                proof {
                    let c = choose|c: int|
                        0 <= c < users@.len() && users@[c].account_id@ == account@ && forall|j: int|
                            0 <= j < c ==> users@[j].account_id@ != account@;
                    assert(0 <= k < users@.len() && users@[k].account_id@ == account@ && forall|j: int|
                        0 <= j < k ==> users@[j].account_id@ != account@);
                    assert(c == k);
                }
                return String::from_str(users[i].display_name.as_str());
            }
            i += 1;
        }
    }
    if has_workspace {
        String::from_str("Jira account")
    } else {
        String::from_str("Preview data")
    }
}

/// The message shown when a view change waits for a confirmed Jira change.
pub const FINISH_CHANGE_FIRST: &'static str = "Finish the confirmed Jira change before changing views";

/// What selecting a dashboard section does.
#[derive(Clone, Copy, Debug, PartialEq, Eq, Structural)]
pub enum SectionChange {
    /// Show the section.
    Switch,
    /// Drop the selected issue, which the team view does not hold, then show
    /// the section.
    ClearSelectionAndSwitch,
    /// Stay, and show `FINISH_CHANGE_FIRST`: a confirmed change is being sent
    /// for an issue the team view does not hold.
    Refused,
}

/// Whether some team issue has the ID `id`.
pub open spec fn team_holds(team_issues: Seq<IssueRecord>, id: Seq<char>) -> bool {
    exists|k: int| 0 <= k < team_issues.len() && team_issues[k].id@ == id
}

/// What selecting a section does.  Only the team section can leave the
/// selected issue behind: when the team issues do not hold it, the selection
/// is cleared, unless a confirmed change is being submitted, which refuses
/// the change of view.
pub fn section_change(
    to_team: bool,
    selected_issue: Option<&str>,
    team_issues: &[IssueRecord],
    edit_submitting: bool,
) -> (change: SectionChange)
    ensures
        change == if to_team && match selected_issue {
            Some(id) => !team_holds(team_issues@, id@),
            None => false,
        } {
            if edit_submitting {
                SectionChange::Refused
            } else {
                SectionChange::ClearSelectionAndSwitch
            }
        } else {
            SectionChange::Switch
        },
{
    if !to_team {
        return SectionChange::Switch;
    }
    let selected = match selected_issue {
        Some(id) => id,
        None => return SectionChange::Switch,
    };
    let mut k: usize = 0;
    while k < team_issues.len()
        invariant
            k <= team_issues@.len(),
            to_team,
            selected_issue == Some(selected),
            forall|j: int| 0 <= j < k ==> team_issues@[j].id@ != selected@,
        decreases team_issues.len() - k,
    {
        if crate::text::str_equals(team_issues[k].id.as_str(), selected) {
            assert(team_issues@[k as int].id@ == selected@);
            return SectionChange::Switch;
        }
        k += 1;
    }
    if edit_submitting {
        SectionChange::Refused
    } else {
        SectionChange::ClearSelectionAndSwitch
    }
}

/// Whether an issue's status category is In Progress, ignoring surrounding
/// white space and ASCII case.
pub open spec fn is_in_progress(issue: IssueRecord) -> bool {
    match issue.status_category {
        Some(c) => crate::text::normalized_label(c@) == "in progress"@,
        None => false,
    }
}

/// The team issues that are in progress, in order.
pub open spec fn in_progress_issues(issues: Seq<IssueRecord>) -> Seq<IssueRecord>
    decreases issues.len(),
{
    if issues.len() == 0 {
        Seq::empty()
    } else {
        let before = in_progress_issues(issues.drop_last());
        if is_in_progress(issues.last()) {
            before.push(issues.last())
        } else {
            before
        }
    }
}

/// The rows of the mobile team list: the team issues in progress, in order,
/// each with names from the users and the issue itself.
pub fn mobile_team_rows(team_issues: &[IssueRecord], users: &[UserRecord]) -> (rows: Vec<
    IssueViewModel,
>)
    ensures
        rows@.map_values(|r: IssueViewModel| r@) == in_progress_issues(team_issues@).map_values(
            |i: IssueRecord| issue_view(i, with_issue_names(catalog(users@), i)),
        ),
{
    let mut rows: Vec<IssueViewModel> = Vec::new();
    let mut k: usize = 0;
    assert(rows@.map_values(|r: IssueViewModel| r@) =~= Seq::<IssueView>::empty());
    while k < team_issues.len()
        invariant
            k <= team_issues@.len(),
            rows@.map_values(|r: IssueViewModel| r@) == in_progress_issues(
                team_issues@.take(k as int),
            ).map_values(|i: IssueRecord| issue_view(i, with_issue_names(catalog(users@), i))),
        decreases team_issues.len() - k,
    {
        let issue = &team_issues[k];
        assert(team_issues@.take(k + 1).drop_last() =~= team_issues@.take(k as int));
        assert(team_issues@.take(k + 1).last() == team_issues@[k as int]);
        let in_progress = match &issue.status_category {
            Some(c) => {
                let n = crate::text::normalize_label(c.as_str());
                crate::text::str_equals(n.as_str(), "in progress")
            },
            None => false,
        };
        if in_progress {
            let ghost before = rows@.map_values(|r: IssueViewModel| r@);
            let row = IssueViewModel::from_domain(issue, users);
            let ghost row_view = row@;
            rows.push(row);
            assert(rows@.map_values(|r: IssueViewModel| r@) =~= before.push(row_view));
        }
        k += 1;
    }
    assert(team_issues@.take(team_issues@.len() as int) =~= team_issues@);
    rows
}

} // verus!

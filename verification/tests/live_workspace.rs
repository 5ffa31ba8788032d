use jira_gpui::live_workspace::sync_plan::{
    mark_read_plan, next_sync_mode, refresh_mode, team_refresh, MarkReadPlan, SyncMode, TeamRefresh,
};
use jira_gpui::live_workspace::cached::{
    next_cached_page, partition_event_positions, ISSUE_PAGE_SIZE, MAX_CACHED_ISSUES,
};
use jira_gpui::presentation::issues::IssueRecord;
use jira_gpui::presentation::updates::{UpdateEventRecord, UpdateKind};
use jira_gpui::live_workspace::user_sets::{
    account_precedes, configured_team, sorted_unique_accounts, team_user_set, workspace_user_set,
    TeamUserSetChoice, UserSetChoice, UserSetRecord, EMPTY_TEAM_USER_SET_ID,
};
use jira_gpui::live_workspace::{
    fnv1a_hash, hex16, scope_fingerprint, team_jql_scope, workspace_name, TEAM_WORKSPACE_NAME,
};

#[test]
fn scope_fingerprint_is_the_fnv1a_hash_in_sixteen_hex_digits() {
    assert_eq!(scope_fingerprint(""), "cbf29ce484222325");
    assert_eq!(scope_fingerprint("a"), "af63dc4c8601ec8c");
    assert_eq!(scope_fingerprint("project = APP"), "e08958d6de145e6a");
    assert_eq!(fnv1a_hash(b"a"), 0xaf63dc4c8601ec8c);
}

#[test]
fn hex_digits_are_zero_padded_and_lower_case() {
    assert_eq!(hex16(0), "0000000000000000");
    assert_eq!(hex16(255), "00000000000000ff");
    assert_eq!(hex16(u64::MAX), "ffffffffffffffff");
}

#[test]
fn workspace_names_differ_by_scope() {
    assert_eq!(
        workspace_name("project = APP"),
        "Jira Desk workspace · account view · scope-e08958d6de145e6a"
    );
    assert_ne!(workspace_name("project = APP"), workspace_name("project = WEB"));
    assert_eq!(team_jql_scope(), "statusCategory = \"In Progress\"");
}

use jira_gpui::live_workspace::partition::{
    PartitionKind, PrimaryPartitionSpecBuilder, ScopeState, TeamPartitionSpecBuilder, TeamState,
};

fn list(values: &[&str]) -> Option<Vec<String>> {
    Some(values.iter().map(|value| value.to_string()).collect())
}

#[test]
fn primary_specs_capture_account_and_project_wide_policies_exactly() {
    let scope = ScopeState {
        user_set_id: "primary-user-set".to_owned(),
        normalized_scope: "project = APP".to_owned(),
    };
    let authenticated = PrimaryPartitionSpecBuilder::build(&scope, Some("alice"));
    let project_wide = PrimaryPartitionSpecBuilder::build(&scope, None);

    assert_eq!(
        authenticated.fields(),
        (
            PartitionKind::Primary,
            &"primary-user-set".to_owned(),
            &list(&["alice"]),
            &list(&["alice"]),
            &Some("project = APP".to_owned()),
            &"primary-user-set".to_owned(),
            &list(&["alice"]),
            false,
        )
    );
    assert_eq!(
        project_wide.fields(),
        (
            PartitionKind::Primary,
            &"primary-user-set".to_owned(),
            &None,
            &None,
            &Some("project = APP".to_owned()),
            &"primary-user-set".to_owned(),
            &None,
            false,
        )
    );
}

#[test]
fn team_specs_capture_membership_notification_and_empty_noop_policies() {
    let nonempty = TeamState {
        user_set_id: "team-user-set".to_owned(),
        members: vec!["bob".to_owned(), "carol".to_owned()],
    };
    let empty = TeamState {
        user_set_id: "empty-team-user-set".to_owned(),
        members: Vec::new(),
    };

    let team = TeamPartitionSpecBuilder::build(&nonempty, Some("alice"));
    let team_without_account = TeamPartitionSpecBuilder::build(&nonempty, None);
    let empty_team = TeamPartitionSpecBuilder::build(&empty, Some("alice"));

    assert_eq!(
        team.fields(),
        (
            PartitionKind::Team,
            &"team-user-set".to_owned(),
            &list(&["bob", "carol"]),
            &None,
            &Some("statusCategory = \"In Progress\"".to_owned()),
            &"team-user-set".to_owned(),
            &list(&["alice"]),
            false,
        )
    );
    assert_eq!(
        team_without_account.fields(),
        (
            PartitionKind::Team,
            &"team-user-set".to_owned(),
            &list(&["bob", "carol"]),
            &None,
            &Some("statusCategory = \"In Progress\"".to_owned()),
            &"team-user-set".to_owned(),
            &None,
            false,
        )
    );
    assert_eq!(empty_team.kind(), PartitionKind::Team);
    assert!(empty_team.is_empty_team_noop());
    assert!(!team.is_empty_team_noop());
    assert_eq!(empty_team.user_set_id(), "empty-team-user-set");
    assert_eq!(
        empty_team.required_event_user_set_id(),
        "empty-team-user-set"
    );
}

fn set(id: &str, site: &str, name: &str, members: &[&str]) -> UserSetRecord {
    UserSetRecord {
        id: id.to_owned(),
        site_id: site.to_owned(),
        name: name.to_owned(),
        members: members.iter().map(|m| m.to_string()).collect(),
    }
}

fn accounts(values: &[&str]) -> Vec<String> {
    values.iter().map(|v| v.to_string()).collect()
}

#[test]
fn team_members_are_kept_sorted_and_unique() {
    let kept = sorted_unique_accounts(&accounts(&["marco", "amina", "marco", "Zed", "ämina"]));
    assert_eq!(kept, accounts(&["Zed", "amina", "marco", "ämina"]));
    assert!(sorted_unique_accounts(&[]).is_empty());
    assert!(account_precedes("ab", "abc"));
    assert!(!account_precedes("abc", "abc"));
    assert!(!account_precedes("b", "abc"));
}

#[test]
fn equivalent_team_configurations_select_one_user_set() {
    let existing = vec![
        set("other", "site", "Jira Desk workspace", &["amina", "devon"]),
        set("team-1", "site", TEAM_WORKSPACE_NAME, &["amina", "devon"]),
        set("team-2", "site", TEAM_WORKSPACE_NAME, &["amina", "devon"]),
    ];
    let (first, choice) = configured_team(&existing, &accounts(&["devon", "amina"]));
    assert_eq!(first, accounts(&["amina", "devon"]));
    assert_eq!(choice, TeamUserSetChoice::Reuse("team-1".to_owned()));
    let (second, choice) = configured_team(&existing, &accounts(&["amina", "devon", "devon"]));
    assert_eq!(second, first);
    assert_eq!(choice, TeamUserSetChoice::Reuse("team-1".to_owned()));
    assert_eq!(
        configured_team(&existing, &accounts(&["marco"])).1,
        TeamUserSetChoice::Create
    );
    assert_eq!(configured_team(&existing, &[]).1, TeamUserSetChoice::EmptyLocal);
    assert_eq!(EMPTY_TEAM_USER_SET_ID, "configured-team-empty");
    assert_eq!(
        team_user_set(&existing, &accounts(&["devon", "amina"])),
        TeamUserSetChoice::Create
    );
}

#[test]
fn the_primary_workspace_reuses_only_an_exact_user_set() {
    let name = workspace_name("assignee = currentUser()");
    let existing = vec![
        set("wrong-site", "elsewhere", &name, &["amina"]),
        set("wrong-members", "site", &name, &[]),
        set("primary", "site", &name, &["amina"]),
    ];
    assert_eq!(
        workspace_user_set(&existing, "site", &name, &accounts(&["amina"])),
        UserSetChoice::Reuse("primary".to_owned())
    );
    assert_eq!(
        workspace_user_set(&existing, "site", &name, &[]),
        UserSetChoice::Reuse("wrong-members".to_owned())
    );
    assert_eq!(
        workspace_user_set(&existing[2..], "site", &name, &[]),
        UserSetChoice::SaveUnrestricted
    );
    assert_eq!(
        workspace_user_set(&existing, "site", &name, &accounts(&["devon"])),
        UserSetChoice::SaveMembers
    );
}

#[test]
fn cached_issues_are_read_in_full_pages_up_to_the_cap() {
    assert_eq!(next_cached_page(0, ISSUE_PAGE_SIZE), Some(1000));
    assert_eq!(next_cached_page(0, 999), None);
    assert_eq!(next_cached_page(8000, ISSUE_PAGE_SIZE), Some(9000));
    assert_eq!(next_cached_page(MAX_CACHED_ISSUES - ISSUE_PAGE_SIZE, ISSUE_PAGE_SIZE), None);
}

fn cached_issue(id: &str) -> IssueRecord {
    IssueRecord {
        id: id.to_owned(),
        key: format!("DESK-{id}"),
        summary: "Summary".to_owned(),
        project: "Developer Experience".to_owned(),
        issue_type: "Task".to_owned(),
        status: "To Do".to_owned(),
        status_category: None,
        priority: None,
        assignee: None,
        assignee_display_name: None,
        reporter: None,
        reporter_display_name: None,
        parent: None,
        labels: Vec::new(),
        description: None,
        created: String::new(),
        updated: String::new(),
        due_date: None,
    }
}

fn feed_event(id: &str, issue: &str, user_sets: &[&str]) -> UpdateEventRecord {
    UpdateEventRecord {
        event_id: id.to_owned(),
        issue_id: issue.to_owned(),
        issue_key: format!("DESK-{issue}"),
        kind: UpdateKind::IssueUpdated,
        occurred_at: 0,
        occurred_at_label: String::new(),
        unread: true,
        matching_user_set_ids: user_sets.iter().map(|s| s.to_string()).collect(),
    }
}

#[test]
fn a_partition_shows_only_events_of_its_issues_and_user_set() {
    let issues = vec![cached_issue("1"), cached_issue("2")];
    let events = vec![
        feed_event("a", "1", &["primary"]),
        feed_event("b", "3", &["primary"]),
        feed_event("c", "2", &["team"]),
        feed_event("d", "2", &["team", "primary"]),
    ];
    assert_eq!(partition_event_positions(&events, &issues, Some("primary")), vec![0, 3]);
    assert_eq!(partition_event_positions(&events, &issues, Some("team")), vec![2, 3]);
    assert_eq!(partition_event_positions(&events, &issues, None), vec![0, 2, 3]);
    assert!(partition_event_positions(&events, &[], None).is_empty());
}

#[test]
fn refreshes_start_with_a_baseline_then_follow_their_kind() {
    assert_eq!(next_sync_mode(false, SyncMode::Incremental), SyncMode::Baseline);
    assert_eq!(next_sync_mode(true, SyncMode::Incremental), SyncMode::Incremental);
    assert_eq!(refresh_mode(false, true), SyncMode::Reconciliation);
    assert_eq!(refresh_mode(true, true), SyncMode::Incremental);
    assert_eq!(refresh_mode(true, false), SyncMode::Baseline);
    assert_eq!(team_refresh(false, true, true), TeamRefresh::LocalOnly);
    assert_eq!(
        team_refresh(true, false, true),
        TeamRefresh::Sync(SyncMode::Reconciliation)
    );
    assert_eq!(team_refresh(true, true, false), TeamRefresh::Sync(SyncMode::Baseline));
}

#[test]
fn read_state_changes_stay_inside_the_displayed_view() {
    let displayed = accounts(&["event-1", "event-2"]);
    assert_eq!(mark_read_plan(&accounts(&["event-2"]), &displayed), MarkReadPlan::Mark);
    assert_eq!(
        mark_read_plan(&accounts(&["event-1", "event-9"]), &displayed),
        MarkReadPlan::Rejected
    );
    assert_eq!(mark_read_plan(&[], &displayed), MarkReadPlan::NoChange);
    assert_eq!(mark_read_plan(&accounts(&["event-1"]), &[]), MarkReadPlan::Rejected);
}

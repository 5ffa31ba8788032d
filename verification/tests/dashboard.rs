use jira_gpui::dashboard::{
    mobile_team_rows, refresh_action_label, section_change, sidebar_profile_label, SectionChange,
    FINISH_CHANGE_FIRST, should_render_mobile_sync_status, should_render_sidebar_sync_message,
    should_show_row_timestamp, team_table_min_width, team_table_mode_for_width,
    update_filter_is_selected, TeamTableMode, UpdateFilter,
};
use jira_gpui::presentation::identity::UserRecord;
use jira_gpui::presentation::issues::IssueRecord;
use jira_gpui::responsive::LayoutMode;

#[test]
fn mobile_status_keeps_live_and_nondefault_feedback() {
    assert!(!should_render_mobile_sync_status(
        false,
        "Preview data · Jira connection not configured"
    ));
    assert!(should_render_mobile_sync_status(
        true,
        "Preview data · Jira connection not configured"
    ));
    assert!(should_render_mobile_sync_status(
        false,
        "Opening local cache…"
    ));
}

#[test]
fn row_timestamp_only_omits_singleton_duplicate() {
    let cases = [
        (1, "Sep 23, 10:00", "Sep 23, 10:00", false),
        (1, "Sep 23, 10:00", "Sep 22, 09:00", true),
        (2, "Sep 23, 10:00", "Sep 23, 10:00", true),
        (2, "Sep 23, 10:00", "Sep 22, 09:00", true),
    ];

    for (event_count, latest, row, expected) in cases {
        assert_eq!(
            should_show_row_timestamp(event_count, latest, row),
            expected,
            "event_count={event_count}, latest={latest}, row={row}"
        );
    }
}

#[test]
fn update_filter_selection_drives_toggle_accessibility_state() {
    assert!(update_filter_is_selected(
        UpdateFilter::Unread,
        UpdateFilter::Unread
    ));
    assert!(!update_filter_is_selected(
        UpdateFilter::Unread,
        UpdateFilter::All
    ));
}

#[test]
fn refresh_action_labels_are_concise_and_do_not_include_sync_detail() {
    assert_eq!(refresh_action_label(false), "Refresh Jira");
    assert_eq!(refresh_action_label(true), "Refreshing Jira…");
    assert!(!refresh_action_label(false).contains("Refresh complete"));
    assert!(!refresh_action_label(true).contains("Refresh complete"));
}

#[test]
fn sidebar_sync_message_visibility_only_hides_redundant_preview_copy() {
    assert!(!should_render_sidebar_sync_message(
        "Preview data · Jira connection not configured"
    ));
    for message in [
        "Opening local cache…",
        "Updated · 2 issues",
        "Startup error · unavailable",
    ] {
        assert!(should_render_sidebar_sync_message(message));
    }
}

#[test]
fn team_table_mode_defers_wide_columns_until_the_table_can_fit() {
    assert_eq!(team_table_mode_for_width(1199), TeamTableMode::Cards);
    assert_eq!(team_table_mode_for_width(1200), TeamTableMode::DenseTable);
    assert_eq!(team_table_mode_for_width(1919), TeamTableMode::DenseTable);
    assert_eq!(team_table_mode_for_width(1920), TeamTableMode::WideTable);
}

#[test]
fn team_table_minimum_uses_the_list_range_for_cards() {
    assert_eq!(team_table_min_width(TeamTableMode::Cards, LayoutMode::Compact), 280);
    assert_eq!(team_table_min_width(TeamTableMode::Cards, LayoutMode::Wide), 320);
    assert_eq!(team_table_min_width(TeamTableMode::DenseTable, LayoutMode::Wide), 596);
    assert_eq!(team_table_min_width(TeamTableMode::WideTable, LayoutMode::Wide), 1190);
}

#[test]
fn profile_label_names_the_signed_in_user_or_the_workspace() {
    let users = vec![
        UserRecord {
            account_id: "amina".to_owned(),
            display_name: "Amina Yusuf".to_owned(),
        },
        UserRecord {
            account_id: "amina".to_owned(),
            display_name: "Second".to_owned(),
        },
    ];
    assert_eq!(sidebar_profile_label(Some("amina"), &users, true), "Amina Yusuf");
    assert_eq!(sidebar_profile_label(Some("devon"), &users, true), "Jira account");
    assert_eq!(sidebar_profile_label(None, &users, false), "Preview data");
}

fn team_issue(id: &str, category: Option<&str>) -> IssueRecord {
    IssueRecord {
        id: id.to_owned(),
        key: format!("DESK-{id}"),
        summary: "Summary".to_owned(),
        project: "Developer Experience".to_owned(),
        issue_type: "Task".to_owned(),
        status: "Status".to_owned(),
        status_category: category.map(str::to_owned),
        priority: None,
        assignee: Some("amina".to_owned()),
        assignee_display_name: None,
        reporter: None,
        reporter_display_name: None,
        parent: None,
        labels: Vec::new(),
        description: None,
        created: String::new(),
        updated: String::new(),
        due_date: None,
    }
}

#[test]
fn leaving_for_the_team_view_clears_or_keeps_the_selection() {
    let team = vec![team_issue("1", None)];
    assert_eq!(section_change(false, Some("9"), &team, true), SectionChange::Switch);
    assert_eq!(section_change(true, None, &team, true), SectionChange::Switch);
    assert_eq!(section_change(true, Some("1"), &team, true), SectionChange::Switch);
    assert_eq!(
        section_change(true, Some("9"), &team, false),
        SectionChange::ClearSelectionAndSwitch
    );
    assert_eq!(section_change(true, Some("9"), &team, true), SectionChange::Refused);
    assert_eq!(
        FINISH_CHANGE_FIRST,
        "Finish the confirmed Jira change before changing views"
    );
}

#[test]
fn the_mobile_team_list_shows_in_progress_issues_only() {
    let team = vec![
        team_issue("1", Some(" IN PROGRESS ")),
        team_issue("2", Some("To do")),
        team_issue("3", None),
        team_issue("4", Some("In progress")),
    ];
    let users = vec![UserRecord {
        account_id: "amina".to_owned(),
        display_name: "Amina Yusuf".to_owned(),
    }];
    let rows = mobile_team_rows(&team, &users);
    let ids: Vec<&str> = rows.iter().map(|r| r.id.as_str()).collect();
    assert_eq!(ids, vec!["1", "4"]);
    assert_eq!(rows[0].assignee, "Amina Yusuf");
}

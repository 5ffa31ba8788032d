use jira_gpui::semantic_icons::{
    issue_type_semantics, priority_semantics, IssueTypeTone, PriorityTone,
};

#[test]
fn maps_every_supported_issue_type_case_insensitively() {
    assert_eq!(
        issue_type_semantics(" Story ").icon.path(),
        "icons/book-open-text.svg"
    );
    assert_eq!(
        issue_type_semantics("INITIATIVE").icon.path(),
        "icons/layout-dashboard.svg"
    );
    assert_eq!(
        issue_type_semantics("Task").icon.path(),
        "icons/list-checks.svg"
    );
    assert_eq!(
        issue_type_semantics("sub-TASK").icon.path(),
        "icons/panel-bottom.svg"
    );
    assert_eq!(issue_type_semantics("Bug").icon.path(), "icons/bug.svg");
    assert_eq!(issue_type_semantics("epic").icon.path(), "icons/folder.svg");
}

#[test]
fn maps_common_jira_and_jsm_aliases() {
    for label in ["task", "standard task"] {
        assert_eq!(issue_type_semantics(label).icon.path(), "icons/list-checks.svg");
    }
    for label in ["subtask", "sub task", "sub-task"] {
        assert_eq!(issue_type_semantics(label).icon.path(), "icons/panel-bottom.svg");
    }
    for label in ["bug", "defect"] {
        assert_eq!(issue_type_semantics(label).icon.path(), "icons/bug.svg");
    }
    for label in ["incident", "problem"] {
        assert_eq!(
            issue_type_semantics(label).icon.path(),
            "icons/triangle-alert.svg"
        );
    }
    assert_eq!(
        issue_type_semantics("spike").icon.path(),
        "icons/square-terminal.svg"
    );
    for label in ["improvement", "new feature", "feature"] {
        assert_eq!(issue_type_semantics(label).icon.path(), "icons/plus.svg");
    }
    assert_eq!(issue_type_semantics("change").icon.path(), "icons/settings.svg");
    for label in ["service request", "service-request"] {
        assert_eq!(issue_type_semantics(label).icon.path(), "icons/inbox.svg");
    }
}

#[test]
fn unknown_issue_types_use_a_neutral_file_icon() {
    assert_eq!(issue_type_semantics("custom type").icon.path(), "icons/file.svg");
    assert_eq!(issue_type_semantics("").icon.path(), "icons/file.svg");
}

#[test]
fn known_issue_types_use_the_requested_color_tones() {
    assert_eq!(issue_type_semantics("Bug").tone, IssueTypeTone::Red);
    assert_eq!(
        issue_type_semantics("standard task").tone,
        IssueTypeTone::Green
    );
    assert_eq!(issue_type_semantics(" story ").tone, IssueTypeTone::Blue);
    assert_eq!(issue_type_semantics("EPIC").tone, IssueTypeTone::Purple);
}

#[test]
fn unknown_and_uncolored_issue_types_remain_neutral() {
    for label in ["custom type", "Initiative", "sub-task", "Spike", ""] {
        assert_eq!(issue_type_semantics(label).tone, IssueTypeTone::Neutral);
    }
}

#[test]
fn maps_every_supported_priority_to_icon_and_tone() {
    let (icon, tone) = priority_semantics(" Highest ");
    assert_eq!(icon.path(), "icons/chevrons-up.svg");
    assert_eq!(tone, PriorityTone::Critical);

    let (icon, tone) = priority_semantics("HIGH");
    assert_eq!(icon.path(), "icons/chevron-up.svg");
    assert_eq!(tone, PriorityTone::Elevated);

    let (icon, tone) = priority_semantics("Medium");
    assert_eq!(icon.path(), "icons/equal.svg");
    assert_eq!(tone, PriorityTone::Neutral);

    let (icon, tone) = priority_semantics("low");
    assert_eq!(icon.path(), "icons/chevron-down.svg");
    assert_eq!(tone, PriorityTone::Low);

    let (icon, tone) = priority_semantics("LOWEST");
    assert_eq!(icon.path(), "icons/chevrons-down.svg");
    assert_eq!(tone, PriorityTone::Minimal);
}

#[test]
fn unknown_priorities_use_a_neutral_fallback() {
    let (icon, tone) = priority_semantics("Not configured");
    assert_eq!(icon.path(), "icons/equal.svg");
    assert_eq!(tone, PriorityTone::Unknown);
}

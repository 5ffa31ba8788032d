use jira_gpui::responsive::{
    effective_sidebar_is_rail, effective_sidebar_width, issues_pane_mode, layout_for_width,
    sidebar_width_for_viewport, IssuesPaneMode, LayoutMode,
};

#[test]
fn issue_panes_keep_desktop_detail_visible() {
    for layout in [LayoutMode::Compact, LayoutMode::Standard, LayoutMode::Wide] {
        assert_eq!(
            issues_pane_mode(layout, false),
            IssuesPaneMode::ListAndDetail
        );
        assert_eq!(
            issues_pane_mode(layout, true),
            IssuesPaneMode::ListAndDetail
        );
    }
}

#[test]
fn mobile_issue_panes_switch_between_list_and_detail() {
    assert_eq!(
        issues_pane_mode(LayoutMode::Mobile, false),
        IssuesPaneMode::ListOnly
    );
    assert_eq!(
        issues_pane_mode(LayoutMode::Mobile, true),
        IssuesPaneMode::DetailOnly
    );
}

#[test]
fn desktop_resizable_defaults_are_within_bounded_ranges() {
    let layouts = [LayoutMode::Compact, LayoutMode::Standard, LayoutMode::Wide];
    for layout in layouts {
        let (min, max) = layout.issue_list_range();
        assert!(min <= layout.issue_list_width());
        assert!(layout.issue_list_width() <= max);
        assert!(layout.detail_min_width() <= max);
        assert!(!layout.resizable_id().is_empty());
    }
}

#[test]
fn breakpoints_are_inclusive_at_the_wider_mode() {
    assert_eq!(layout_for_width(719), LayoutMode::Mobile);
    assert_eq!(layout_for_width(720), LayoutMode::Compact);
    assert_eq!(layout_for_width(959), LayoutMode::Compact);
    assert_eq!(layout_for_width(960), LayoutMode::Standard);
    assert_eq!(layout_for_width(1_199), LayoutMode::Standard);
    assert_eq!(layout_for_width(1_200), LayoutMode::Wide);
}

#[test]
fn policy_progresses_monotonically_as_width_grows() {
    let widths = [0, 719, 720, 959, 960, 1_199, 1_200, 2_000];
    let modes = widths.map(layout_for_width);
    assert!(modes.windows(2).all(|pair| pair[0] as u8 <= pair[1] as u8));
}

#[test]
fn widths_never_grow_when_the_viewport_gets_narrower() {
    let widths = [
        LayoutMode::Mobile,
        LayoutMode::Compact,
        LayoutMode::Standard,
        LayoutMode::Wide,
    ];
    for pair in widths.windows(2) {
        assert!(pair[0].sidebar_width() <= pair[1].sidebar_width());
        assert!(pair[0].issue_list_width() <= pair[1].issue_list_width());
    }
}

#[test]
fn effective_sidebar_policy_respects_automatic_and_manual_rails() {
    assert!(!effective_sidebar_is_rail(LayoutMode::Mobile, false));
    assert!(!effective_sidebar_is_rail(LayoutMode::Mobile, true));
    assert!(effective_sidebar_is_rail(LayoutMode::Compact, false));
    assert!(effective_sidebar_is_rail(LayoutMode::Compact, true));
    assert!(!effective_sidebar_is_rail(LayoutMode::Standard, false));
    assert!(effective_sidebar_is_rail(LayoutMode::Standard, true));
    assert!(!effective_sidebar_is_rail(LayoutMode::Wide, false));
    assert!(effective_sidebar_is_rail(LayoutMode::Wide, true));
}

#[test]
fn effective_sidebar_width_releases_desktop_space_without_mobile_sidebar() {
    assert_eq!(effective_sidebar_width(LayoutMode::Mobile, false), 0);
    assert_eq!(effective_sidebar_width(LayoutMode::Mobile, true), 0);
    assert_eq!(effective_sidebar_width(LayoutMode::Compact, false), 48);
    assert_eq!(effective_sidebar_width(LayoutMode::Compact, true), 48);
    assert_eq!(effective_sidebar_width(LayoutMode::Standard, false), 200);
    assert_eq!(effective_sidebar_width(LayoutMode::Standard, true), 48);
    assert_eq!(effective_sidebar_width(LayoutMode::Wide, false), 200);
    assert_eq!(effective_sidebar_width(LayoutMode::Wide, true), 48);
}

#[test]
fn sidebar_widths_match_native_component_contract() {
    for width in [720, 959, 960, 1_199, 1_200, 2_000] {
        let layout = layout_for_width(width);
        assert_eq!(
            sidebar_width_for_viewport(layout, false, width),
            if layout.is_rail() { 48 } else { 200 }
        );
    }
    for layout in [LayoutMode::Standard, LayoutMode::Wide] {
        assert_eq!(sidebar_width_for_viewport(layout, true, 1_100), 48);
    }
}

#[test]
fn paddings_and_pane_ids_follow_the_layout() {
    assert_eq!(LayoutMode::Wide.detail_padding(), 24);
    assert_eq!(LayoutMode::Mobile.list_padding(), 12);
    assert_eq!(LayoutMode::Mobile.onboarding_padding(), 16);
    assert_eq!(LayoutMode::Standard.onboarding_padding(), 32);
    assert_eq!(LayoutMode::Compact.resizable_id(), "issues-panes-compact");
    assert_eq!(layout_for_width(-5), LayoutMode::Mobile);
}

use jira_gpui::diagnostics::schema::{DiagnosticFlow, ImageSource};
use jira_gpui::rich_text_view::budget::{
    admit_list_child, child_in_reach, close_children, insert_soft_wraps, prefix_within_bytes, render_element_ordinal, RenderBudget, RenderLimits,
};
use jira_gpui::rich_text_view::image::{image_frame, ImageBody};
use jira_gpui::rich_text_view::inline::{
    bounded_inline_content, inline_line_count, inline_mark_style, inline_requires_element,
    inline_text_flow, RichInline, RichMark, TextColor,
};
use jira_gpui::rich_text_view::names::{
    bounded_attachment_filename, bounded_image_name, normalize_attachment_filename,
    rich_image_name, status_tone, RichStatusColor, StatusPalette,
};
use jira_gpui::rich_text_view::state::{
    RichImageDiagnosticContext, RichImageRenderState, RichImageRenderStates,
};
use std::sync::Arc;

type Color = (f32, f32, f32, f32);

#[test]
fn status_colors_use_their_bounded_semantic_palette_tones() {
    let palette: StatusPalette<Color> = StatusPalette {
        muted: (0.1, 0.2, 0.3, 1.0),
        info: (0.2, 0.3, 0.4, 1.0),
        warning: (0.3, 0.4, 0.5, 1.0),
        success: (0.4, 0.5, 0.6, 1.0),
        danger: (0.5, 0.6, 0.7, 1.0),
    };
    for (color, expected) in [
        (RichStatusColor::Neutral, palette.muted),
        (RichStatusColor::Purple, palette.info),
        (RichStatusColor::Blue, palette.info),
        (RichStatusColor::Red, palette.danger),
        (RichStatusColor::Yellow, palette.warning),
        (RichStatusColor::Green, palette.success),
    ] {
        assert_eq!(status_tone(color, palette), expected);
    }
}

fn ready() -> RichImageRenderState<Arc<Vec<u8>>> {
    RichImageRenderState::Ready(Arc::new(b"\x89PNG\r\n\x1a\nvalid".to_vec()))
}

fn states(
    entries: Vec<(&str, RichImageRenderState<Arc<Vec<u8>>>)>,
) -> RichImageRenderStates<Arc<Vec<u8>>> {
    let mut result = RichImageRenderStates::new();
    for (key, state) in entries {
        result.insert(key.to_owned(), state);
    }
    result
}

#[test]
fn merge_preserves_ready_for_same_attachment() {
    let previous = states(vec![("same", ready())]);
    let mut next = states(vec![("same", RichImageRenderState::Loading)]);
    next.merge_preserving_ready(&previous);
    assert!(matches!(
        next.get("same"),
        Some(RichImageRenderState::Ready(_))
    ));
}

#[test]
fn merge_drops_ready_attachment_absent_from_new_catalog() {
    let previous = states(vec![("old", ready())]);
    let mut next = states(vec![("new", RichImageRenderState::Loading)]);
    next.merge_preserving_ready(&previous);
    assert!(next.get("old").is_none());
    assert!(matches!(
        next.get("new"),
        Some(RichImageRenderState::Loading)
    ));
}

#[test]
fn merge_does_not_overwrite_new_ready_or_failed_results() {
    let previous = states(vec![("ready", ready()), ("failed", ready())]);
    let mut next = states(vec![
        ("ready", ready()),
        ("failed", RichImageRenderState::Failed),
    ]);
    next.merge_preserving_ready(&previous);
    assert!(matches!(
        next.get("ready"),
        Some(RichImageRenderState::Ready(_))
    ));
    assert!(matches!(
        next.get("failed"),
        Some(RichImageRenderState::Failed)
    ));
}

#[test]
fn contexts_follow_the_load_and_fall_back_to_it() {
    let mut images: RichImageRenderStates<Arc<Vec<u8>>> =
        RichImageRenderStates::with_context(DiagnosticFlow::SelectedDetail, 7);
    images.insert_with_context(
        "a".to_owned(),
        RichImageRenderState::Loading,
        2,
        3,
        ImageSource::ResolvedAdf,
    );
    assert_eq!(
        images.context_for("a", 9, 9, ImageSource::FallbackCandidate),
        Some(RichImageDiagnosticContext {
            flow: DiagnosticFlow::SelectedDetail,
            load_token: 7,
            candidate_ordinal: 2,
            surface_ordinal: 3,
            source: ImageSource::ResolvedAdf,
        })
    );
    assert_eq!(
        images.context_for("b", 9, 8, ImageSource::FallbackCandidate),
        Some(RichImageDiagnosticContext {
            flow: DiagnosticFlow::SelectedDetail,
            load_token: 7,
            candidate_ordinal: 9,
            surface_ordinal: 8,
            source: ImageSource::FallbackCandidate,
        })
    );
    images.rebind_context(DiagnosticFlow::RemoteLookup, 8);
    assert!(images.get("a").is_some());
    assert_eq!(
        images
            .context_for("a", 1, 1, ImageSource::ResolvedAdf)
            .map(|c| (c.flow, c.load_token, c.candidate_ordinal)),
        Some((DiagnosticFlow::RemoteLookup, 8, 1))
    );
    images.set_context(DiagnosticFlow::SelectedDetail, 9);
    assert!(images.get("a").is_none());
    images.clear();
    let none: RichImageRenderStates<Arc<Vec<u8>>> = RichImageRenderStates::new();
    assert_eq!(none.context_for("a", 0, 0, ImageSource::ResolvedAdf), None);
}

#[test]
fn later_entries_replace_earlier_ones() {
    let images = RichImageRenderStates::from_entries(vec![
        ("a".to_owned(), RichImageRenderState::<Arc<Vec<u8>>>::Loading),
        ("a".to_owned(), RichImageRenderState::Failed),
    ]);
    assert!(matches!(images.get("a"), Some(RichImageRenderState::Failed)));
}

fn limits(max_text_bytes: usize) -> RenderLimits {
    RenderLimits {
        max_depth: 2,
        max_nodes: 3,
        max_text_bytes,
    }
}

#[test]
fn budget_admits_nodes_up_to_the_limits() {
    let mut budget = RenderBudget::new(limits(100));
    assert!(budget.enter(0));
    assert!(!budget.enter(3));
    assert!(budget.omitted);
    assert!(budget.enter(2));
    assert!(budget.enter(1));
    assert!(!budget.enter(0));
    assert_eq!(budget.nodes, 3);
}

#[test]
fn element_ordinals_are_capped_at_the_node_limit() {
    let mut budget = RenderBudget::new(limits(100));
    let ordinals: Vec<usize> = (0..5).map(|_| budget.next_element_ordinal()).collect();
    assert_eq!(ordinals, vec![0, 1, 2, 3, 3]);
    assert_eq!(render_element_ordinal(2, 7, 1000, 3), 2003);
    assert_eq!(render_element_ordinal(usize::MAX, 1, 2, 3), usize::MAX);
}

#[test]
fn text_budget_cuts_at_character_boundaries() {
    let mut budget = RenderBudget::new(limits(4));
    assert_eq!(budget.text_nowrap("abé"), "abé");
    assert!(!budget.omitted);
    assert_eq!(budget.text_nowrap("xyz"), "");
    assert!(budget.omitted);
    let mut budget = RenderBudget::new(limits(3));
    assert_eq!(budget.text("aé€"), "aé");
    assert_eq!(budget.text_bytes, 3);
    assert_eq!(prefix_within_bytes("€€", 5), "€");
}

#[test]
fn soft_wraps_break_long_runs_only() {
    let long = "a".repeat(130);
    let wrapped = insert_soft_wraps(&long);
    assert_eq!(wrapped.chars().filter(|c| *c == '\u{200b}').count(), 2);
    assert_eq!(insert_soft_wraps("short words stay"), "short words stay");
    let exact = "b".repeat(64);
    assert_eq!(insert_soft_wraps(&exact), exact);
}

#[test]
fn image_names_prefer_alt_text_and_stay_bounded() {
    assert_eq!(rich_image_name(Some("  "), "file.png"), "file.png");
    assert_eq!(rich_image_name(Some("Diagram"), "file.png"), "Diagram");
    assert_eq!(rich_image_name(None, "file.png"), "file.png");
    assert_eq!(bounded_image_name("ééé", 3), "é");
}

#[test]
fn attachment_filenames_collapse_space_and_replace_controls() {
    assert_eq!(
        normalize_attachment_filename("  a \n\t b\u{7}c ", 100, 10),
        ("a b\u{fffd}c".to_owned(), false)
    );
    assert_eq!(bounded_attachment_filename("   ", 100, 10), "Unnamed attachment");
    assert_eq!(bounded_attachment_filename("report.txt", 100, 10), "report.txt");
    assert_eq!(
        bounded_attachment_filename("abcdefghij", 8, 0),
        "abcde…"
    );
    let (name, truncated) = normalize_attachment_filename("abcdefghij", 8, 0);
    assert_eq!(name, "abcdefgh");
    assert!(truncated);
}

fn text(value: &str, marks: Vec<RichMark>) -> RichInline {
    RichInline::Text {
        text: value.to_owned(),
        marks,
    }
}

fn roomy_budget() -> RenderBudget {
    RenderBudget::new(RenderLimits {
        max_depth: 8,
        max_nodes: 100,
        max_text_bytes: 10_000,
    })
}

#[test]
fn emoji_and_date_join_the_surrounding_text_flow() {
    let content = [
        text("Release ", Vec::new()),
        RichInline::Emoji {
            text: "🚀".to_owned(),
        },
        text(" on ", Vec::new()),
        RichInline::Date {
            date: "2026-08-30".to_owned(),
        },
        text("", Vec::new()),
    ];
    let mut budget = roomy_budget();
    let flow = inline_text_flow(&content, 0, &mut budget)
        .expect("emoji/date content should stay in the text flow");

    assert_eq!(flow.text, "Release 🚀 on 2026-08-30");
    assert!(flow.highlights.is_empty());
    assert!(!budget.omitted);
}

#[test]
fn styled_runs_record_their_byte_ranges() {
    let content = [
        text("a", vec![RichMark::Strong]),
        text("é", vec![RichMark::Code, RichMark::Emphasis]),
        RichInline::HardBreak,
        RichInline::Mention {
            label: "  ".to_owned(),
        },
        RichInline::Placeholder {
            label: "Media".to_owned(),
        },
    ];
    let mut budget = roomy_budget();
    let flow = inline_text_flow(&content, 0, &mut budget).expect("text flow");
    assert_eq!(flow.text, "aé\nMentionMedia");
    let ranges: Vec<(usize, usize)> = flow.highlights.iter().map(|h| (h.0, h.1)).collect();
    assert_eq!(ranges, vec![(0, 1), (1, 3), (4, 11), (11, 16)]);
    assert!(flow.highlights[0].2.bold);
    assert!(flow.highlights[1].2.code_surface && flow.highlights[1].2.italic);
    assert_eq!(flow.highlights[2].2.color, TextColor::Info);
    assert_eq!(flow.highlights[3].2.color, TextColor::Muted);
    assert!(flow.highlights[3].2.italic);
    assert_eq!(flow.monospace, vec![(1, 3)]);
    assert_eq!(budget.nodes, 5);
    assert_eq!(budget.text_bytes, 1 + 2 + 5);
}

#[test]
fn element_nodes_leave_no_text_flow() {
    let content = [
        text("before ", Vec::new()),
        RichInline::Status {
            text: "DONE".to_owned(),
            color: RichStatusColor::Green,
        },
    ];
    let mut budget = roomy_budget();
    assert!(inline_text_flow(&content, 0, &mut budget).is_none());
    assert_eq!(budget.nodes, 2);
    assert!(inline_requires_element(&content[1]));
    assert!(!inline_requires_element(&content[0]));
    assert!(inline_requires_element(&text(
        "docs",
        vec![RichMark::Link {
            href: "https://example.com".to_owned(),
            title: None,
        }]
    )));
}

#[test]
fn a_cut_or_a_refused_node_ends_the_flow() {
    let content = [
        text("abcdef", Vec::new()),
        text("ghi", Vec::new()),
    ];
    let mut budget = RenderBudget::new(limits(4));
    let flow = inline_text_flow(&content, 0, &mut budget).expect("text flow");
    assert_eq!(flow.text, "abcd");
    assert!(budget.omitted);
    assert_eq!(budget.nodes, 1);

    let many = [
        text("a", Vec::new()),
        text("b", Vec::new()),
        text("c", Vec::new()),
        text("d", Vec::new()),
    ];
    let mut budget = RenderBudget::new(limits(100));
    let flow = inline_text_flow(&many, 0, &mut budget).expect("text flow");
    assert_eq!(flow.text, "abc");
    assert!(budget.omitted);

    let mut budget = RenderBudget::new(limits(100));
    let flow = inline_text_flow(&many, 2, &mut budget).expect("text flow");
    assert_eq!(flow.text, "");
    assert!(budget.omitted);
    assert_eq!(budget.nodes, 0);
}

#[test]
fn marks_combine_and_inline_content_is_bounded() {
    let style = inline_mark_style(&vec![
        RichMark::Strike,
        RichMark::JiraIssueLink {
            issue_key: "DESK-1".to_owned(),
            href: "https://example.atlassian.net/browse/DESK-1".to_owned(),
        },
    ]);
    assert!(style.strikethrough && style.underline);
    assert_eq!(style.color, TextColor::Link);
    assert!(!style.bold);

    let content = [
        text("a", Vec::new()),
        RichInline::HardBreak,
        text("b", Vec::new()),
        RichInline::HardBreak,
    ];
    assert_eq!(inline_line_count(&content), 3);
    assert_eq!(inline_line_count(&[]), 1);
    let (bounded, capped) = bounded_inline_content(&content, 2);
    assert_eq!(bounded.len(), 2);
    assert!(capped);
    let (bounded, capped) = bounded_inline_content(&content, 4);
    assert_eq!(bounded.len(), 4);
    assert!(!capped);
}

#[test]
fn image_frames_show_each_state_and_spend_the_budget_in_order() {
    let ready: RichImageRenderState<u8> = RichImageRenderState::Ready(7);
    let mut budget = roomy_budget();
    let frame = image_frame(Some("  "), "diagram.png", Some(&ready), 2, 1000, 64, &mut budget);
    assert_eq!(frame.image_ordinal, 0);
    assert_eq!(frame.element_ordinal, 2000);
    assert_eq!(frame.accessible_label, "Image: diagram.png");
    assert_eq!(
        frame.body,
        ImageBody::Picture {
            fallback: "Image unavailable · diagram.png".to_owned()
        }
    );
    assert_eq!(frame.caption, "diagram.png");
    assert!(!frame.record_missing);
    assert_eq!(budget.image_ordinal, 1);
    assert_eq!(budget.element_ordinal, 1);
    assert_eq!(budget.text_bytes, "Image: diagram.png".len() + "diagram.png".len());

    let loading: RichImageRenderState<u8> = RichImageRenderState::Loading;
    let frame = image_frame(Some("Chart"), "c.png", Some(&loading), 2, 1000, 64, &mut budget);
    assert_eq!(frame.image_ordinal, 1);
    assert_eq!(frame.element_ordinal, 2001);
    assert_eq!(frame.body, ImageBody::Loading);
    assert_eq!(frame.caption, "Chart");

    let failed: RichImageRenderState<u8> = RichImageRenderState::Failed;
    let frame = image_frame(None, "c.png", Some(&failed), 0, 1000, 3, &mut budget);
    assert_eq!(frame.caption, "c.p");
    assert_eq!(
        frame.body,
        ImageBody::Unavailable("Image unavailable · c.p".to_owned())
    );
    assert!(!frame.record_missing);

    let frame = image_frame::<u8>(None, "c.png", None, 0, 1000, 64, &mut budget);
    assert!(frame.record_missing);
    assert_eq!(
        frame.body,
        ImageBody::Unavailable("Image unavailable · c.png".to_owned())
    );
}

#[test]
fn image_frames_cut_text_at_the_budget() {
    let mut budget = RenderBudget::new(limits(10));
    let frame = image_frame::<u8>(None, "diagram.png", None, 0, 1000, 64, &mut budget);
    assert_eq!(frame.accessible_label, "Image: dia");
    assert_eq!(frame.body, ImageBody::Unavailable(String::new()));
    assert_eq!(frame.caption, "");
    assert!(budget.omitted);
    assert_eq!(budget.text_bytes, 10);
}

fn list_pass(budget: &mut RenderBudget, count: usize, max_children: usize, child_text: &str) -> usize {
    let mut drawn = 0;
    for index in 0..count {
        if !admit_list_child(budget, index, max_children, 0) {
            break;
        }
        budget.text(child_text);
        drawn += 1;
    }
    close_children(budget, count, max_children);
    drawn
}

#[test]
fn lists_draw_at_most_their_limit_and_mark_the_rest_omitted() {
    let mut budget = roomy_budget();
    assert_eq!(list_pass(&mut budget, 3, 5, "x"), 3);
    assert!(!budget.omitted);
    assert_eq!(list_pass(&mut budget, 7, 5, "x"), 5);
    assert!(budget.omitted);

    let mut budget = RenderBudget::new(limits(4));
    assert_eq!(list_pass(&mut budget, 3, 5, "abc"), 2);
    assert!(budget.omitted);
    assert!(!child_in_reach(&budget, 1, 5));
    assert!(child_in_reach(&budget, 0, 5));
}

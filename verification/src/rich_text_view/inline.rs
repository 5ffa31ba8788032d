//! Inline rich text as one wrapping text flow: the text of the runs that can
//! share a flow, the byte ranges that carry a style, and the ranges set in a
//! monospace face.
use vstd::prelude::*;
use crate::rich_text_view::budget::{
    lemma_prefix_within_whole, lemma_soft_wraps_only_insert, prefix_within, soft_wrapped,
    without_soft_wraps, RenderBudget,
};
use crate::rich_text_view::names::RichStatusColor;
use crate::text::{trim, utf8_len};
use vstd::string::StrSliceExecFns;

verus! {

/// A mark on a run of text.
pub enum RichMark {
    Code,
    Emphasis,
    Strong,
    Strike,
    Link { href: String, title: Option<String> },
    JiraIssueLink { issue_key: String, href: String },
}

/// One inline node of a rich-text document.  A placeholder carries the
/// label the view shows for it.
pub enum RichInline {
    Text { text: String, marks: Vec<RichMark> },
    Mention { label: String },
    Emoji { text: String },
    Date { date: String },
    Placeholder { label: String },
    HardBreak,
    Status { text: String, color: RichStatusColor },
    AttachmentCard { filename: String },
    JiraIssueLink { issue_key: String },
}

/// The colour role of a styled range.
#[derive(Clone, Copy, Debug, PartialEq, Eq, Structural)]
pub enum TextColor {
    Default,
    Link,
    Info,
    Muted,
}

/// The style of a range of the flow, in the palette's terms.
#[derive(Clone, Copy, Debug, PartialEq, Eq, Structural)]
pub struct TextStyle {
    pub code_surface: bool,
    pub italic: bool,
    pub bold: bool,
    pub strikethrough: bool,
    pub underline: bool,
    pub color: TextColor,
}

/// The style that changes nothing.
pub open spec fn plain_style() -> TextStyle {
    TextStyle {
        code_surface: false,
        italic: false,
        bold: false,
        strikethrough: false,
        underline: false,
        color: TextColor::Default,
    }
}

/// `style` with one more mark laid over it.
pub open spec fn with_mark(style: TextStyle, mark: RichMark) -> TextStyle {
    match mark {
        RichMark::Code => TextStyle { code_surface: true, ..style },
        RichMark::Emphasis => TextStyle { italic: true, ..style },
        RichMark::Strong => TextStyle { bold: true, ..style },
        RichMark::Strike => TextStyle { strikethrough: true, ..style },
        RichMark::Link { .. } | RichMark::JiraIssueLink { .. } => TextStyle {
            underline: true,
            color: TextColor::Link,
            ..style
        },
    }
}

/// The style of a run with `marks`, laid over the plain style in order.
pub open spec fn mark_style(marks: Seq<RichMark>) -> TextStyle
    decreases marks.len(),
{
    if marks.len() == 0 {
        plain_style()
    } else {
        with_mark(mark_style(marks.drop_last()), marks.last())
    }
}

/// Whether some mark is `Code`.
pub open spec fn has_code_mark(marks: Seq<RichMark>) -> bool {
    exists|i: int| 0 <= i < marks.len() && marks[i] is Code
}

/// Whether some mark is a link.
pub open spec fn has_link_mark(marks: Seq<RichMark>) -> bool {
    exists|i: int| 0 <= i < marks.len() && (marks[i] is Link || marks[i] is JiraIssueLink)
}

/// Whether an inline node must be its own element rather than part of a
/// text flow: status lozenges, attachment cards, issue links, and text
/// carrying a link.
pub open spec fn spec_requires_element(inline: RichInline) -> bool {
    match inline {
        RichInline::Status { .. } | RichInline::AttachmentCard { .. } | RichInline::JiraIssueLink {
            ..
        } => true,
        RichInline::Text { marks, .. } => has_link_mark(marks@),
        _ => false,
    }
}

/// The style of `marks`.
pub fn inline_mark_style(marks: &Vec<RichMark>) -> (style: TextStyle)
    ensures
        style == mark_style(marks@),
{
    let mut style = TextStyle {
        code_surface: false,
        italic: false,
        bold: false,
        strikethrough: false,
        underline: false,
        color: TextColor::Default,
    };
    let mut i: usize = 0;
    while i < marks.len()
        invariant
            i <= marks@.len(),
            style == mark_style(marks@.take(i as int)),
        decreases marks.len() - i,
    {
        assert(marks@.take(i + 1).drop_last() =~= marks@.take(i as int));
        style = match &marks[i] {
            RichMark::Code => TextStyle { code_surface: true, ..style },
            RichMark::Emphasis => TextStyle { italic: true, ..style },
            RichMark::Strong => TextStyle { bold: true, ..style },
            RichMark::Strike => TextStyle { strikethrough: true, ..style },
            RichMark::Link { .. } | RichMark::JiraIssueLink { .. } => TextStyle {
                underline: true,
                color: TextColor::Link,
                ..style
            },
        };
        i += 1;
    }
    assert(marks@.take(marks@.len() as int) =~= marks@);
    style
}

/// Whether some mark is `Code`.
fn has_code(marks: &Vec<RichMark>) -> (b: bool)
    ensures
        b == has_code_mark(marks@),
{
    let mut i: usize = 0;
    while i < marks.len()
        invariant
            i <= marks@.len(),
            forall|k: int| 0 <= k < i ==> !(marks@[k] is Code),
        decreases marks.len() - i,
    {
        if let RichMark::Code = &marks[i] {
            return true;
        }
        i += 1;
    }
    false
}

/// Whether an inline node must be its own element.
pub fn inline_requires_element(inline: &RichInline) -> (b: bool)
    ensures
        b == spec_requires_element(*inline),
{
    match inline {
        RichInline::Status { .. } | RichInline::AttachmentCard { .. } | RichInline::JiraIssueLink {
            ..
        } => true,
        RichInline::Text { marks, .. } => {
            let mut i: usize = 0;
            while i < marks.len()
                invariant
                    i <= marks@.len(),
                    *inline is Text,
                    inline->Text_marks == *marks,
                    forall|k: int|
                        0 <= k < i ==> !(marks@[k] is Link || marks@[k] is JiraIssueLink),
                decreases marks.len() - i,
            {
                match &marks[i] {
                    RichMark::Link { .. } | RichMark::JiraIssueLink { .. } => {
                        assert(marks@[i as int] is Link || marks@[i as int] is JiraIssueLink);
                        return true;
                    },
                    _ => {},
                }
                i += 1;
            }
            false
        },
        _ => false,
    }
}

/// The number of hard breaks, plus one.
pub open spec fn hard_breaks(content: Seq<RichInline>) -> nat
    decreases content.len(),
{
    if content.len() == 0 {
        0
    } else {
        hard_breaks(content.drop_last()) + if content.last() is HardBreak {
            1nat
        } else {
            0nat
        }
    }
}

/// The lines a run of inline content spans: one more than its hard breaks,
/// saturating.
pub fn inline_line_count(content: &[RichInline]) -> (n: usize)
    ensures
        n == vstd::math::min(hard_breaks(content@) + 1int, usize::MAX as int),
{
    let mut breaks: usize = 0;
    let mut i: usize = 0;
    while i < content.len()
        invariant
            i <= content@.len(),
            breaks == hard_breaks(content@.take(i as int)),
            breaks <= i,
        decreases content.len() - i,
    {
        assert(content@.take(i + 1).drop_last() =~= content@.take(i as int));
        if let RichInline::HardBreak = &content[i] {
            breaks += 1;
        }
        i += 1;
    }
    assert(content@.take(content@.len() as int) =~= content@);
    breaks.saturating_add(1)
}

/// At most `max_children` leading nodes, and whether any were left out.
pub fn bounded_inline_content(content: &[RichInline], max_children: usize) -> (r: (
    &[RichInline],
    bool,
))
    ensures
        r.0@ == content@.take(vstd::math::min(content@.len() as int, max_children as int)),
        r.1 == (content@.len() > max_children),
{
    let bounded_len = if content.len() < max_children {
        content.len()
    } else {
        max_children
    };
    let bounded = vstd::slice::slice_subrange(content, 0, bounded_len);
    assert(content@.subrange(0, bounded_len as int) =~= content@.take(bounded_len as int));
    (bounded, content.len() > bounded_len)
}

/// A piece of a text flow: its text, its style, and whether it is set in
/// a monospace face.
pub struct FlowPiece {
    pub text: Seq<char>,
    pub style: TextStyle,
    pub monospace: bool,
}

/// A text flow: its text, and the byte ranges of it that carry a style or
/// a monospace face, each as a start and an end.
pub struct FlowModel {
    pub text: Seq<char>,
    pub highlights: Seq<(int, int, TextStyle)>,
    pub monospace: Seq<(int, int)>,
}

/// The flow with nothing in it.
pub open spec fn empty_flow() -> FlowModel {
    FlowModel { text: Seq::empty(), highlights: Seq::empty(), monospace: Seq::empty() }
}

/// `f` with `p` appended.  An empty piece changes nothing; a plain one adds
/// text but no styled range.
pub open spec fn extend(f: FlowModel, p: FlowPiece) -> FlowModel {
    if p.text.len() == 0 {
        f
    } else {
        let start = utf8_len(f.text) as int;
        let end = start + utf8_len(p.text);
        FlowModel {
            text: f.text + p.text,
            highlights: if p.style == plain_style() {
                f.highlights
            } else {
                f.highlights.push((start, end, p.style))
            },
            monospace: if p.monospace {
                f.monospace.push((start, end))
            } else {
                f.monospace
            },
        }
    }
}

/// The flow made of `pieces`, in order.
pub open spec fn flow_of(pieces: Seq<FlowPiece>) -> FlowModel
    decreases pieces.len(),
{
    if pieces.len() == 0 {
        empty_flow()
    } else {
        extend(flow_of(pieces.drop_last()), pieces.last())
    }
}

/// A text flow as the view draws it.
pub struct InlineTextFlow {
    pub text: String,
    pub highlights: Vec<(usize, usize, TextStyle)>,
    pub monospace: Vec<(usize, usize)>,
}

impl View for InlineTextFlow {
    type V = FlowModel;

    open spec fn view(&self) -> FlowModel {
        FlowModel {
            text: self.text@,
            highlights: self.highlights@.map_values(
                |h: (usize, usize, TextStyle)| (h.0 as int, h.1 as int, h.2),
            ),
            monospace: self.monospace@.map_values(|m: (usize, usize)| (m.0 as int, m.1 as int)),
        }
    }
}

/// Whether the budget admits one more node at `depth`.
pub open spec fn admits(b: RenderBudget, depth: int) -> bool {
    depth <= b.limits.max_depth && b.nodes < b.limits.max_nodes
}

/// The text bytes the budget has left.
pub open spec fn text_room(b: RenderBudget) -> nat {
    if b.text_bytes <= b.limits.max_text_bytes {
        (b.limits.max_text_bytes - b.text_bytes) as nat
    } else {
        0
    }
}

/// What the budget keeps of `value`.
pub open spec fn kept_text(b: RenderBudget, value: Seq<char>) -> Seq<char> {
    prefix_within(value, text_room(b))
}

/// The budget after it was spent on `value`.
pub open spec fn spent_on(b: RenderBudget, value: Seq<char>) -> RenderBudget {
    RenderBudget {
        text_bytes: (b.text_bytes + utf8_len(kept_text(b, value))) as usize,
        omitted: b.omitted || utf8_len(kept_text(b, value)) < utf8_len(value),
        ..b
    }
}

/// The style of a mention.
pub open spec fn mention_style() -> TextStyle {
    TextStyle { color: TextColor::Info, ..plain_style() }
}

/// The style of a placeholder.
pub open spec fn placeholder_style() -> TextStyle {
    TextStyle { italic: true, color: TextColor::Muted, ..plain_style() }
}

/// A budgeted piece of plain or styled text.
pub open spec fn budgeted_piece(b: RenderBudget, value: Seq<char>, style: TextStyle, monospace: bool) -> (
    FlowPiece,
    RenderBudget,
) {
    (
        FlowPiece { text: soft_wrapped(kept_text(b, value)), style, monospace },
        spent_on(b, value),
    )
}

/// What one admitted inline node adds to the flow and leaves of the budget,
/// or `None` for a node that cannot be part of a flow.  A mention with a
/// blank label reads "Mention" and costs no text budget.
pub open spec fn inline_step(inline: RichInline, b: RenderBudget) -> Option<(FlowPiece, RenderBudget)> {
    match inline {
        RichInline::Text { text, marks } => Some(
            budgeted_piece(b, text@, mark_style(marks@), has_code_mark(marks@)),
        ),
        RichInline::Mention { label } => if trim(label@).len() == 0 {
            Some((FlowPiece { text: "Mention"@, style: mention_style(), monospace: false }, b))
        } else {
            Some(budgeted_piece(b, label@, mention_style(), false))
        },
        RichInline::Emoji { text } => Some(budgeted_piece(b, text@, plain_style(), false)),
        RichInline::Date { date } => Some(budgeted_piece(b, date@, plain_style(), false)),
        RichInline::Placeholder { label } => Some(
            budgeted_piece(b, label@, placeholder_style(), false),
        ),
        RichInline::HardBreak => Some(
            (FlowPiece { text: "\n"@, style: plain_style(), monospace: false }, b),
        ),
        _ => None,
    }
}

/// `pieces` before the pieces of `rest`, with the budget `rest` leaves.
pub open spec fn after_pieces(pieces: Seq<FlowPiece>, rest: (Option<Seq<FlowPiece>>, RenderBudget)) -> (
    Option<Seq<FlowPiece>>,
    RenderBudget,
) {
    (
        match rest.0 {
            Some(r) => Some(pieces + r),
            None => None,
        },
        rest.1,
    )
}

/// The pieces of a text flow over `content` whose nodes sit at `depth`,
/// and the budget it leaves.  Each node is first admitted by the budget;
/// the flow ends where a node is refused or where text had to be cut, and
/// there is no flow when a node must be its own element.
pub open spec fn flow_run(content: Seq<RichInline>, depth: int, b: RenderBudget) -> (
    Option<Seq<FlowPiece>>,
    RenderBudget,
)
    decreases content.len(),
{
    if content.len() == 0 {
        (Some(Seq::empty()), b)
    } else if !admits(b, depth) {
        (Some(Seq::empty()), RenderBudget { omitted: true, ..b })
    } else {
        let entered = RenderBudget { nodes: (b.nodes + 1) as usize, ..b };
        match inline_step(content[0], entered) {
            None => (None, entered),
            Some((piece, next)) => if next.omitted {
                (Some(seq![piece]), next)
            } else {
                after_pieces(seq![piece], flow_run(content.drop_first(), depth, next))
            },
        }
    }
}

/// The depth of the children of a node at `depth`, saturating.
pub open spec fn child_depth(depth: usize) -> int {
    vstd::math::min(depth + 1, usize::MAX as int)
}

/// Appends `text` to the flow, recording its byte range when it is styled
/// or set in monospace.  Empty text changes nothing.
pub fn append_inline_text(flow: &mut InlineTextFlow, text: &str, style: TextStyle, monospace: bool)
    ensures
        final(flow)@ == extend(old(flow)@, FlowPiece { text: text@, style, monospace }),
{
    proof {
        lemma_utf8_len_positive(text@);
    }
    if text.as_bytes().len() == 0 {
        return;
    }
    let start = flow.text.as_str().as_bytes().len();
    let ghost before = flow.text@;
    crate::text::push_str(&mut flow.text, text);
    let end = flow.text.as_str().as_bytes().len();
    proof {
        crate::text::lemma_encode_utf8_concat(before, text@);
    }
    let plain = TextStyle {
        code_surface: false,
        italic: false,
        bold: false,
        strikethrough: false,
        underline: false,
        color: TextColor::Default,
    };
    if style != plain {
        let ghost old_h = flow.highlights@;
        flow.highlights.push((start, end, style));
        assert(flow.highlights@.map_values(|h: (usize, usize, TextStyle)| (h.0 as int, h.1 as int, h.2))
            =~= old_h.map_values(|h: (usize, usize, TextStyle)| (h.0 as int, h.1 as int, h.2)).push(
            (start as int, end as int, style),
        ));
    }
    if monospace {
        let ghost old_m = flow.monospace@;
        flow.monospace.push((start, end));
        assert(flow.monospace@.map_values(|m: (usize, usize)| (m.0 as int, m.1 as int))
            =~= old_m.map_values(|m: (usize, usize)| (m.0 as int, m.1 as int)).push(
            (start as int, end as int),
        ));
    }
}

/// Non-empty text takes at least one byte.
pub proof fn lemma_utf8_len_positive(s: Seq<char>)
    ensures
        s.len() > 0 ==> utf8_len(s) > 0,
{
    if s.len() > 0 {
        crate::text::lemma_utf8_len_push(s.drop_last(), s.last());
        assert(s.drop_last().push(s.last()) =~= s);
    }
}

/// A fresh, empty flow.
fn new_flow() -> (flow: InlineTextFlow)
    ensures
        flow@ == empty_flow(),
{
    let flow = InlineTextFlow { text: String::new(), highlights: Vec::new(), monospace: Vec::new() };
    assert(flow@.highlights =~= Seq::<(int, int, TextStyle)>::empty());
    assert(flow@.monospace =~= Seq::<(int, int)>::empty());
    flow
}

/// Prepending pieces one at a time is prepending them all.
proof fn lemma_after_pieces_push(pieces: Seq<FlowPiece>, piece: FlowPiece, rest: (
    Option<Seq<FlowPiece>>,
    RenderBudget,
))
    ensures
        after_pieces(pieces, after_pieces(seq![piece], rest)) == after_pieces(pieces.push(piece), rest),
{
    match rest.0 {
        Some(r) => {
            assert(pieces + (seq![piece] + r) =~= pieces.push(piece) + r);
        },
        None => {},
    }
}

/// Lays `content`, whose nodes sit below a node at `depth`, out as one text
/// flow, spending `budget` on each node and its text.  The flow stops at the
/// first node the budget refuses or whose text it cuts; there is none when a
/// node must be its own element.
pub fn inline_text_flow(content: &[RichInline], depth: usize, budget: &mut RenderBudget) -> (flow:
    Option<InlineTextFlow>)
    ensures
        ({
            let run = flow_run(content@, child_depth(depth), *old(budget));
            &&& *final(budget) == run.1
            &&& match run.0 {
                Some(pieces) => flow matches Some(f) && f@ == flow_of(pieces),
                None => flow is None,
            }
        }),
{
    let child = depth.saturating_add(1);
    let ghost b0 = *budget;
    let ghost d = child_depth(depth);
    let mut flow = new_flow();
    let ghost mut pieces: Seq<FlowPiece> = Seq::empty();
    let mut finished = false;
    let mut i: usize = 0;
    proof {
        assert(content@.skip(0) =~= content@);
        assert(Seq::<FlowPiece>::empty() + flow_run(content@, d, b0).0->0 =~= flow_run(
            content@,
            d,
            b0,
        ).0->0);
    }
    while i < content.len() && !finished
        invariant
            i <= content@.len(),
            child == d,
            d == child_depth(depth),
            b0 == *old(budget),
            flow@ == flow_of(pieces),
            finished ==> flow_run(content@, d, b0) == (Some(pieces), *budget),
            !finished ==> flow_run(content@, d, b0) == after_pieces(
                pieces,
                flow_run(content@.skip(i as int), d, *budget),
            ),
        decreases content.len() - i,
    {
        let ghost rest = content@.skip(i as int);
        let ghost before = *budget;
        assert(rest[0] == content@[i as int]);
        assert(rest.drop_first() =~= content@.skip(i + 1));
        if !budget.enter(child) {
            assert(pieces + Seq::<FlowPiece>::empty() =~= pieces);
            finished = true;
        } else {
            let ghost entered = *budget;
            let (text, style, monospace) = match &content[i] {
                RichInline::Text { text, marks } => {
                    let kept = budget.text(text.as_str());
                    (kept, inline_mark_style(marks), has_code(marks))
                },
                RichInline::Mention { label } => {
                    let info = TextStyle {
                        code_surface: false,
                        italic: false,
                        bold: false,
                        strikethrough: false,
                        underline: false,
                        color: TextColor::Info,
                    };
                    if crate::text::trimmed_chars(label.as_str()).len() == 0 {
                        (String::from_str("Mention"), info, false)
                    } else {
                        (budget.text(label.as_str()), info, false)
                    }
                },
                RichInline::Emoji { text } => {
                    let plain = TextStyle {
                        code_surface: false,
                        italic: false,
                        bold: false,
                        strikethrough: false,
                        underline: false,
                        color: TextColor::Default,
                    };
                    (budget.text(text.as_str()), plain, false)
                },
                RichInline::Date { date } => {
                    let plain = TextStyle {
                        code_surface: false,
                        italic: false,
                        bold: false,
                        strikethrough: false,
                        underline: false,
                        color: TextColor::Default,
                    };
                    (budget.text(date.as_str()), plain, false)
                },
                RichInline::Placeholder { label } => {
                    let muted = TextStyle {
                        code_surface: false,
                        italic: true,
                        bold: false,
                        strikethrough: false,
                        underline: false,
                        color: TextColor::Muted,
                    };
                    (budget.text(label.as_str()), muted, false)
                },
                RichInline::HardBreak => {
                    let plain = TextStyle {
                        code_surface: false,
                        italic: false,
                        bold: false,
                        strikethrough: false,
                        underline: false,
                        color: TextColor::Default,
                    };
                    (String::from_str("\n"), plain, false)
                },
                _ => {
                    assert(inline_step(content@[i as int], entered) is None);
                    assert(flow_run(rest, d, before).1 == entered);
                    return None;
                },
            };
            let ghost piece = FlowPiece { text: text@, style, monospace };
            assert(inline_step(content@[i as int], entered) == Some((piece, *budget)));
            append_inline_text(&mut flow, text.as_str(), style, monospace);
            proof {
                assert(pieces.push(piece).drop_last() =~= pieces);
                if budget.omitted {
                    assert(pieces + seq![piece] =~= pieces.push(piece));
                } else {
                    lemma_after_pieces_push(pieces, piece, flow_run(content@.skip(i + 1), d, *budget));
                }
                pieces = pieces.push(piece);
            }
            if budget.omitted {
                finished = true;
            }
        }
        i += 1;
    }
    proof {
        if !finished {
            assert(content@.skip(i as int) =~= Seq::<RichInline>::empty());
            assert(pieces + Seq::<FlowPiece>::empty() =~= pieces);
        }
    }
    Some(flow)
}

/// Whether `ranges` are non-empty byte ranges of a text `len` bytes long
/// that follow one another in order without overlapping.
pub open spec fn ordered_ranges(starts: Seq<int>, ends: Seq<int>, len: int) -> bool {
    &&& starts.len() == ends.len()
    &&& forall|k: int| 0 <= k < starts.len() ==> 0 <= #[trigger] starts[k] < ends[k] <= len
    &&& forall|k: int, j: int| 0 <= k < j < starts.len() ==> #[trigger] ends[k] <= #[trigger] starts[j]
}

/// Ranges of a text stay ranges of a longer text.
proof fn lemma_ordered_widen(starts: Seq<int>, ends: Seq<int>, len: int, longer: int)
    requires
        ordered_ranges(starts, ends, len),
        len <= longer,
    ensures
        ordered_ranges(starts, ends, longer),
{
}

/// A range after all the others, ending the text, keeps them ordered.
proof fn lemma_ordered_push(starts: Seq<int>, ends: Seq<int>, len: int, end: int)
    requires
        ordered_ranges(starts, ends, len),
        0 <= len < end,
    ensures
        ordered_ranges(starts.push(len), ends.push(end), end),
{
    let s2 = starts.push(len);
    let e2 = ends.push(end);
    assert forall|k: int| 0 <= k < s2.len() implies 0 <= #[trigger] s2[k] < e2[k] <= end by {
        if k < starts.len() {
            assert(s2[k] == starts[k] && e2[k] == ends[k]);
        }
    }
    assert forall|k: int, j: int| 0 <= k < j < s2.len() implies #[trigger] e2[k] <= #[trigger] s2[j] by {
        assert(e2[k] == ends[k]);
        if j < starts.len() {
            assert(s2[j] == starts[j]);
        } else {
            assert(starts[k] < ends[k] <= len);
        }
    }
}

/// The styled and the monospace ranges of a flow each lie within its text,
/// are non-empty, and come in order without overlapping.
pub proof fn lemma_flow_ranges_ordered(pieces: Seq<FlowPiece>)
    ensures
        ({
            let f = flow_of(pieces);
            &&& ordered_ranges(
                f.highlights.map_values(|h: (int, int, TextStyle)| h.0),
                f.highlights.map_values(|h: (int, int, TextStyle)| h.1),
                utf8_len(f.text) as int,
            )
            &&& ordered_ranges(
                f.monospace.map_values(|m: (int, int)| m.0),
                f.monospace.map_values(|m: (int, int)| m.1),
                utf8_len(f.text) as int,
            )
        }),
    decreases pieces.len(),
{
    let f = flow_of(pieces);
    if pieces.len() == 0 {
        assert(f.highlights.map_values(|h: (int, int, TextStyle)| h.0).len() == 0);
        assert(f.monospace.map_values(|m: (int, int)| m.0).len() == 0);
    } else {
        let before = flow_of(pieces.drop_last());
        let p = pieces.last();
        lemma_flow_ranges_ordered(pieces.drop_last());
        if p.text.len() > 0 {
            lemma_utf8_len_positive(p.text);
            crate::text::lemma_encode_utf8_concat(before.text, p.text);
            let start = utf8_len(before.text) as int;
            let end = start + utf8_len(p.text);
            assert(utf8_len(f.text) == end);
            let hs = before.highlights.map_values(|h: (int, int, TextStyle)| h.0);
            let he = before.highlights.map_values(|h: (int, int, TextStyle)| h.1);
            let ms = before.monospace.map_values(|m: (int, int)| m.0);
            let me = before.monospace.map_values(|m: (int, int)| m.1);
            if p.style != plain_style() {
                assert(f.highlights.map_values(|h: (int, int, TextStyle)| h.0) =~= hs.push(start));
                assert(f.highlights.map_values(|h: (int, int, TextStyle)| h.1) =~= he.push(end));
                lemma_ordered_push(hs, he, start, end);
            } else {
                lemma_ordered_widen(hs, he, start, end);
            }
            if p.monospace {
                assert(f.monospace.map_values(|m: (int, int)| m.0) =~= ms.push(start));
                assert(f.monospace.map_values(|m: (int, int)| m.1) =~= me.push(end));
                lemma_ordered_push(ms, me, start, end);
            } else {
                lemma_ordered_widen(ms, me, start, end);
            }
        }
    }
}

/// A mention whose label is not blank shows its label, in the mention style:
/// in every flow that was not cut short, the piece of such a mention reads
/// as the label itself (soft-wrap opportunities aside), never as a
/// placeholder word.
pub proof fn lemma_mention_shows_its_label(content: Seq<RichInline>, depth: int, b: RenderBudget, i: int)
    requires
        flow_run(content, depth, b).0 is Some,
        0 <= i < flow_run(content, depth, b).0->0.len(),
        i < content.len(),
        content[i] is Mention,
        trim(content[i]->Mention_label@).len() > 0,
        !flow_run(content, depth, b).1.omitted,
    ensures
        flow_run(content, depth, b).0->0[i].style == mention_style(),
        without_soft_wraps(flow_run(content, depth, b).0->0[i].text) == without_soft_wraps(
            content[i]->Mention_label@,
        ),
    decreases content.len(),
{
    let entered = RenderBudget { nodes: (b.nodes + 1) as usize, ..b };
    let (piece, next) = inline_step(content[0], entered)->0;
    if i == 0 {
        let label = content[0]->Mention_label@;
        let kept = kept_text(entered, label);
        assert(piece.text == soft_wrapped(kept));
        assert(!next.omitted);
        lemma_prefix_within_whole(label, text_room(entered));
        lemma_soft_wraps_only_insert(kept, 0);
    } else {
        let rest = content.drop_first();
        assert(rest[i - 1] == content[i]);
        lemma_mention_shows_its_label(rest, depth, next, i - 1);
        assert(flow_run(content, depth, b).0->0 == seq![piece] + flow_run(rest, depth, next).0->0);
    }
}

} // verus!

//! Layout policy: which shell layout a viewport width gets, and the pane sizes
//! of each layout, in whole logical pixels.
use vstd::prelude::*;

verus! {

/// The shell layout, from the narrowest to the widest viewport.
#[derive(Clone, Copy, Debug, PartialEq, Eq, Structural)]
pub enum LayoutMode {
    Mobile,
    Compact,
    Standard,
    Wide,
}

/// Which issue panes the dashboard attaches.
#[derive(Clone, Copy, Debug, PartialEq, Eq, Structural)]
pub enum IssuesPaneMode {
    ListOnly,
    DetailOnly,
    ListAndDetail,
}

/// Narrowest viewport of the compact layout.
pub const COMPACT_BREAKPOINT: i64 = 720;
/// Narrowest viewport of the standard layout.
pub const STANDARD_BREAKPOINT: i64 = 960;
/// Narrowest viewport of the wide layout.
pub const WIDE_BREAKPOINT: i64 = 1200;
/// Width of the sidebar when it shows icons only.
pub const SIDEBAR_RAIL_WIDTH: u32 = 48;
/// Width of the expanded sidebar.
pub const STANDARD_SIDEBAR_WIDTH: u32 = 200;
/// Width of the expanded sidebar on the wide layout.
pub const WIDE_SIDEBAR_WIDTH: u32 = 200;

/// The position of a layout in the order narrowest to widest.
pub open spec fn rank(mode: LayoutMode) -> int {
    match mode {
        LayoutMode::Mobile => 0,
        LayoutMode::Compact => 1,
        LayoutMode::Standard => 2,
        LayoutMode::Wide => 3,
    }
}

/// The layout of a viewport `width` logical pixels wide; each breakpoint
/// belongs to the wider layout.
pub open spec fn spec_layout_for_width(width: int) -> LayoutMode {
    if width >= WIDE_BREAKPOINT {
        LayoutMode::Wide
    } else if width >= STANDARD_BREAKPOINT {
        LayoutMode::Standard
    } else if width >= COMPACT_BREAKPOINT {
        LayoutMode::Compact
    } else {
        LayoutMode::Mobile
    }
}

impl LayoutMode {
    pub open spec fn spec_sidebar_width(self) -> u32 {
        match self {
            LayoutMode::Wide => WIDE_SIDEBAR_WIDTH,
            LayoutMode::Standard => STANDARD_SIDEBAR_WIDTH,
            LayoutMode::Compact | LayoutMode::Mobile => SIDEBAR_RAIL_WIDTH,
        }
    }

    pub open spec fn spec_issue_list_width(self) -> u32 {
        match self {
            LayoutMode::Wide | LayoutMode::Standard | LayoutMode::Compact => 350,
            LayoutMode::Mobile => 0,
        }
    }

    pub open spec fn spec_issue_list_range(self) -> (u32, u32) {
        match self {
            LayoutMode::Compact => (280, 420),
            LayoutMode::Standard => (320, 520),
            LayoutMode::Wide => (320, 640),
            LayoutMode::Mobile => (0, 0),
        }
    }

    pub open spec fn spec_detail_min_width(self) -> u32 {
        match self {
            LayoutMode::Compact => 280,
            LayoutMode::Standard => 320,
            LayoutMode::Wide => 360,
            LayoutMode::Mobile => 0,
        }
    }

    pub fn is_mobile(self) -> (b: bool)
        ensures
            b == (self == LayoutMode::Mobile),
    {
        matches!(self, LayoutMode::Mobile)
    }

    pub fn is_rail(self) -> (b: bool)
        ensures
            b == (self == LayoutMode::Compact),
    {
        matches!(self, LayoutMode::Compact)
    }

    /// Whether the user may collapse the sidebar by hand on this layout.
    pub fn supports_manual_sidebar_collapse(self) -> (b: bool)
        ensures
            b == (self == LayoutMode::Standard || self == LayoutMode::Wide),
    {
        matches!(self, LayoutMode::Standard | LayoutMode::Wide)
    }

    pub fn sidebar_width(self) -> (w: u32)
        ensures
            w == self.spec_sidebar_width(),
    {
        match self {
            LayoutMode::Wide => WIDE_SIDEBAR_WIDTH,
            LayoutMode::Standard => STANDARD_SIDEBAR_WIDTH,
            LayoutMode::Compact | LayoutMode::Mobile => SIDEBAR_RAIL_WIDTH,
        }
    }

    /// The initial width of the issue list; it stays the same across the
    /// desktop layouts so that the detail pane does not shrink at a breakpoint.
    pub fn issue_list_width(self) -> (w: u32)
        ensures
            w == self.spec_issue_list_width(),
    {
        match self {
            LayoutMode::Wide | LayoutMode::Standard | LayoutMode::Compact => 350,
            LayoutMode::Mobile => 0,
        }
    }

    /// The narrowest and widest the issue list may be resized to.
    pub fn issue_list_range(self) -> (r: (u32, u32))
        ensures
            r == self.spec_issue_list_range(),
    {
        match self {
            LayoutMode::Compact => (280, 420),
            LayoutMode::Standard => (320, 520),
            LayoutMode::Wide => (320, 640),
            LayoutMode::Mobile => (0, 0),
        }
    }

    pub fn detail_min_width(self) -> (w: u32)
        ensures
            w == self.spec_detail_min_width(),
    {
        match self {
            LayoutMode::Compact => 280,
            LayoutMode::Standard => 320,
            LayoutMode::Wide => 360,
            LayoutMode::Mobile => 0,
        }
    }

    /// The identifier of the resizable pane group of this layout.
    pub fn resizable_id(self) -> (id: &'static str)
        ensures
            id@ == match self {
                LayoutMode::Compact => "issues-panes-compact"@,
                LayoutMode::Standard => "issues-panes-standard"@,
                LayoutMode::Wide => "issues-panes-wide"@,
                LayoutMode::Mobile => "issues-panes-mobile-unused"@,
            },
    {
        match self {
            LayoutMode::Compact => "issues-panes-compact",
            LayoutMode::Standard => "issues-panes-standard",
            LayoutMode::Wide => "issues-panes-wide",
            LayoutMode::Mobile => "issues-panes-mobile-unused",
        }
    }

    pub fn detail_padding(self) -> (p: u32)
        ensures
            p == match self {
                LayoutMode::Wide => 24u32,
                LayoutMode::Standard => 20u32,
                LayoutMode::Compact | LayoutMode::Mobile => 16u32,
            },
    {
        match self {
            LayoutMode::Wide => 24,
            LayoutMode::Standard => 20,
            LayoutMode::Compact => 16,
            LayoutMode::Mobile => 16,
        }
    }

    pub fn list_padding(self) -> (p: u32)
        ensures
            p == match self {
                LayoutMode::Wide | LayoutMode::Standard => 20u32,
                LayoutMode::Compact => 16u32,
                LayoutMode::Mobile => 12u32,
            },
    {
        match self {
            LayoutMode::Wide | LayoutMode::Standard => 20,
            LayoutMode::Compact => 16,
            LayoutMode::Mobile => 12,
        }
    }

    pub fn onboarding_padding(self) -> (p: u32)
        ensures
            p == if self == LayoutMode::Mobile { 16u32 } else { 32u32 },
    {
        if self.is_mobile() {
            16
        } else {
            32
        }
    }
}

/// Which issue panes to attach: the desktop layouts show list and detail side
/// by side; the mobile layout shows one of them.
pub fn issues_pane_mode(layout: LayoutMode, mobile_detail_open: bool) -> (mode: IssuesPaneMode)
    ensures
        mode == if layout == LayoutMode::Mobile {
            if mobile_detail_open {
                IssuesPaneMode::DetailOnly
            } else {
                IssuesPaneMode::ListOnly
            }
        } else {
            IssuesPaneMode::ListAndDetail
        },
{
    if layout.is_mobile() {
        if mobile_detail_open {
            IssuesPaneMode::DetailOnly
        } else {
            IssuesPaneMode::ListOnly
        }
    } else {
        IssuesPaneMode::ListAndDetail
    }
}

/// The layout of a viewport `width` whole logical pixels wide.
pub fn layout_for_width(width: i64) -> (mode: LayoutMode)
    ensures
        mode == spec_layout_for_width(width as int),
{
    if width >= WIDE_BREAKPOINT {
        LayoutMode::Wide
    } else if width >= STANDARD_BREAKPOINT {
        LayoutMode::Standard
    } else if width >= COMPACT_BREAKPOINT {
        LayoutMode::Compact
    } else {
        LayoutMode::Mobile
    }
}

/// Whether the sidebar shows as an icon rail: always on the compact layout,
/// by the user's choice on the standard and wide layouts, never on mobile.
pub open spec fn spec_effective_sidebar_is_rail(layout: LayoutMode, manually_collapsed: bool) -> bool {
    layout == LayoutMode::Compact || ((layout == LayoutMode::Standard || layout
        == LayoutMode::Wide) && manually_collapsed)
}

pub fn effective_sidebar_is_rail(layout: LayoutMode, manually_collapsed: bool) -> (b: bool)
    ensures
        b == spec_effective_sidebar_is_rail(layout, manually_collapsed),
{
    layout.is_rail() || (layout.supports_manual_sidebar_collapse() && manually_collapsed)
}

/// The width that the sidebar takes: none on mobile, the rail width when it
/// is a rail, else the layout's sidebar width.
pub open spec fn spec_effective_sidebar_width(layout: LayoutMode, manually_collapsed: bool) -> u32 {
    if layout == LayoutMode::Mobile {
        0
    } else if spec_effective_sidebar_is_rail(layout, manually_collapsed) {
        SIDEBAR_RAIL_WIDTH
    } else {
        layout.spec_sidebar_width()
    }
}

pub fn effective_sidebar_width(layout: LayoutMode, manually_collapsed: bool) -> (w: u32)
    ensures
        w == spec_effective_sidebar_width(layout, manually_collapsed),
{
    if layout.is_mobile() {
        0
    } else if effective_sidebar_is_rail(layout, manually_collapsed) {
        LayoutMode::Compact.sidebar_width()
    } else {
        layout.sidebar_width()
    }
}

/// The sidebar allocation of the shell; the viewport width plays no part.
pub fn sidebar_width_for_viewport(
    layout: LayoutMode,
    manually_collapsed: bool,
    viewport_width: i64,
) -> (w: u32)
    ensures
        w == spec_effective_sidebar_width(layout, manually_collapsed),
{
    effective_sidebar_width(layout, manually_collapsed)
}

/// The layout never gets narrower as the viewport grows.
pub proof fn lemma_layout_monotonic(narrow: int, wide: int)
    requires
        narrow <= wide,
    ensures
        rank(spec_layout_for_width(narrow)) <= rank(spec_layout_for_width(wide)),
{
}

/// Sidebar and issue-list widths never shrink from a narrower layout to a
/// wider one.
pub proof fn lemma_widths_grow_with_layout(a: LayoutMode, b: LayoutMode)
    requires
        rank(a) <= rank(b),
    ensures
        a.spec_sidebar_width() <= b.spec_sidebar_width(),
        a.spec_issue_list_width() <= b.spec_issue_list_width(),
{
}

/// On every desktop layout the initial list width lies in its resize range,
/// and the detail pane's minimum does not exceed the list's maximum.
pub proof fn lemma_desktop_panes_within_range(layout: LayoutMode)
    requires
        layout != LayoutMode::Mobile,
    ensures
        layout.spec_issue_list_range().0 <= layout.spec_issue_list_width(),
        layout.spec_issue_list_width() <= layout.spec_issue_list_range().1,
        layout.spec_detail_min_width() <= layout.spec_issue_list_range().1,
{
}

/// A sidebar that is a rail takes the rail width; the mobile layout has no
/// sidebar; an expanded desktop sidebar takes its layout's width.
pub proof fn lemma_sidebar_width_follows_rail(layout: LayoutMode, manually_collapsed: bool)
    ensures
        layout == LayoutMode::Mobile ==> spec_effective_sidebar_width(layout, manually_collapsed)
            == 0,
        layout != LayoutMode::Mobile && spec_effective_sidebar_is_rail(layout, manually_collapsed)
            ==> spec_effective_sidebar_width(layout, manually_collapsed) == SIDEBAR_RAIL_WIDTH,
        layout != LayoutMode::Mobile && !spec_effective_sidebar_is_rail(layout, manually_collapsed)
            ==> spec_effective_sidebar_width(layout, manually_collapsed)
            == STANDARD_SIDEBAR_WIDTH,
{
}

} // verus!

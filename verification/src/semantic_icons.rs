//! Semantic icons and colour roles of Jira issue types and priorities.
//!
//! The text label stays the source of truth; the icon and tone are secondary
//! visual cues chosen from the trimmed, lower-case label.
use vstd::prelude::*;
use crate::text::normalized_label;

verus! {

/// Icons that the application ships itself.
#[derive(Clone, Copy, Debug, PartialEq, Eq, Structural)]
pub enum AppIconName {
    BookOpenText,
    ListChecks,
    Bug,
    ChevronsUp,
    ChevronsDown,
    Equal,
}

/// Icons of the component catalog.
#[derive(Clone, Copy, Debug, PartialEq, Eq, Structural)]
pub enum ComponentIconName {
    LayoutDashboard,
    PanelBottom,
    Folder,
    SquareTerminal,
    Plus,
    TriangleAlert,
    Settings,
    Inbox,
    File,
    ChevronUp,
    ChevronDown,
}

/// An issue-type icon from the application's or the component catalog.
#[derive(Clone, Copy, Debug, PartialEq, Eq, Structural)]
pub enum IssueTypeIcon {
    App(AppIconName),
    Component(ComponentIconName),
}

/// A priority icon from the application's or the component catalog.
#[derive(Clone, Copy, Debug, PartialEq, Eq, Structural)]
pub enum PriorityIcon {
    App(AppIconName),
    Component(ComponentIconName),
}

/// The colour role of a known issue type; unknown types stay neutral.
#[derive(Clone, Copy, Debug, PartialEq, Eq, Structural)]
pub enum IssueTypeTone {
    Red,
    Green,
    Blue,
    Purple,
    Neutral,
}

/// The urgency role of a priority.
#[derive(Clone, Copy, Debug, PartialEq, Eq, Structural)]
pub enum PriorityTone {
    Critical,
    Elevated,
    Neutral,
    Low,
    Minimal,
    Unknown,
}

/// The icon and tone of an issue type.
#[derive(Clone, Copy, Debug, PartialEq, Eq, Structural)]
pub struct IssueTypeSemantics {
    pub icon: IssueTypeIcon,
    pub tone: IssueTypeTone,
}

impl AppIconName {
    pub open spec fn spec_path(self) -> Seq<char> {
        match self {
            AppIconName::BookOpenText => "icons/book-open-text.svg"@,
            AppIconName::ListChecks => "icons/list-checks.svg"@,
            AppIconName::Bug => "icons/bug.svg"@,
            AppIconName::ChevronsUp => "icons/chevrons-up.svg"@,
            AppIconName::ChevronsDown => "icons/chevrons-down.svg"@,
            AppIconName::Equal => "icons/equal.svg"@,
        }
    }

    /// The asset path of the icon.
    pub fn path(self) -> (p: &'static str)
        ensures
            p@ == self.spec_path(),
    {
        match self {
            AppIconName::BookOpenText => "icons/book-open-text.svg",
            AppIconName::ListChecks => "icons/list-checks.svg",
            AppIconName::Bug => "icons/bug.svg",
            AppIconName::ChevronsUp => "icons/chevrons-up.svg",
            AppIconName::ChevronsDown => "icons/chevrons-down.svg",
            AppIconName::Equal => "icons/equal.svg",
        }
    }
}

impl ComponentIconName {
    pub open spec fn spec_path(self) -> Seq<char> {
        match self {
            ComponentIconName::LayoutDashboard => "icons/layout-dashboard.svg"@,
            ComponentIconName::PanelBottom => "icons/panel-bottom.svg"@,
            ComponentIconName::Folder => "icons/folder.svg"@,
            ComponentIconName::SquareTerminal => "icons/square-terminal.svg"@,
            ComponentIconName::Plus => "icons/plus.svg"@,
            ComponentIconName::TriangleAlert => "icons/triangle-alert.svg"@,
            ComponentIconName::Settings => "icons/settings.svg"@,
            ComponentIconName::Inbox => "icons/inbox.svg"@,
            ComponentIconName::File => "icons/file.svg"@,
            ComponentIconName::ChevronUp => "icons/chevron-up.svg"@,
            ComponentIconName::ChevronDown => "icons/chevron-down.svg"@,
        }
    }

    /// The asset path of the icon.
    pub fn path(self) -> (p: &'static str)
        ensures
            p@ == self.spec_path(),
    {
        match self {
            ComponentIconName::LayoutDashboard => "icons/layout-dashboard.svg",
            ComponentIconName::PanelBottom => "icons/panel-bottom.svg",
            ComponentIconName::Folder => "icons/folder.svg",
            ComponentIconName::SquareTerminal => "icons/square-terminal.svg",
            ComponentIconName::Plus => "icons/plus.svg",
            ComponentIconName::TriangleAlert => "icons/triangle-alert.svg",
            ComponentIconName::Settings => "icons/settings.svg",
            ComponentIconName::Inbox => "icons/inbox.svg",
            ComponentIconName::File => "icons/file.svg",
            ComponentIconName::ChevronUp => "icons/chevron-up.svg",
            ComponentIconName::ChevronDown => "icons/chevron-down.svg",
        }
    }
}

impl IssueTypeIcon {
    pub open spec fn spec_path(self) -> Seq<char> {
        match self {
            IssueTypeIcon::App(icon) => icon.spec_path(),
            IssueTypeIcon::Component(icon) => icon.spec_path(),
        }
    }

    /// The asset path of the icon.
    pub fn path(self) -> (p: &'static str)
        ensures
            p@ == self.spec_path(),
    {
        match self {
            IssueTypeIcon::App(icon) => icon.path(),
            IssueTypeIcon::Component(icon) => icon.path(),
        }
    }
}

impl PriorityIcon {
    pub open spec fn spec_path(self) -> Seq<char> {
        match self {
            PriorityIcon::App(icon) => icon.spec_path(),
            PriorityIcon::Component(icon) => icon.spec_path(),
        }
    }

    /// The asset path of the icon.
    pub fn path(self) -> (p: &'static str)
        ensures
            p@ == self.spec_path(),
    {
        match self {
            PriorityIcon::App(icon) => icon.path(),
            PriorityIcon::Component(icon) => icon.path(),
        }
    }
}

/// The icon and tone of an issue type with the normalized label `n`.
pub open spec fn semantics_for(n: Seq<char>) -> IssueTypeSemantics {
    if n == "story"@ {
        IssueTypeSemantics { icon: IssueTypeIcon::App(AppIconName::BookOpenText), tone: IssueTypeTone::Blue }
    } else if n == "task"@ || n == "standard task"@ {
        IssueTypeSemantics { icon: IssueTypeIcon::App(AppIconName::ListChecks), tone: IssueTypeTone::Green }
    } else if n == "bug"@ || n == "defect"@ {
        IssueTypeSemantics { icon: IssueTypeIcon::App(AppIconName::Bug), tone: IssueTypeTone::Red }
    } else if n == "initiative"@ {
        IssueTypeSemantics {
            icon: IssueTypeIcon::Component(ComponentIconName::LayoutDashboard),
            tone: IssueTypeTone::Neutral,
        }
    } else if n == "sub-task"@ || n == "subtask"@ || n == "sub task"@ {
        IssueTypeSemantics {
            icon: IssueTypeIcon::Component(ComponentIconName::PanelBottom),
            tone: IssueTypeTone::Neutral,
        }
    } else if n == "epic"@ {
        IssueTypeSemantics {
            icon: IssueTypeIcon::Component(ComponentIconName::Folder),
            tone: IssueTypeTone::Purple,
        }
    } else if n == "spike"@ {
        IssueTypeSemantics {
            icon: IssueTypeIcon::Component(ComponentIconName::SquareTerminal),
            tone: IssueTypeTone::Neutral,
        }
    } else if n == "improvement"@ || n == "new feature"@ || n == "feature"@ {
        IssueTypeSemantics {
            icon: IssueTypeIcon::Component(ComponentIconName::Plus),
            tone: IssueTypeTone::Neutral,
        }
    } else if n == "incident"@ || n == "problem"@ {
        IssueTypeSemantics {
            icon: IssueTypeIcon::Component(ComponentIconName::TriangleAlert),
            tone: IssueTypeTone::Neutral,
        }
    } else if n == "change"@ {
        IssueTypeSemantics {
            icon: IssueTypeIcon::Component(ComponentIconName::Settings),
            tone: IssueTypeTone::Neutral,
        }
    } else if n == "service request"@ || n == "service-request"@ {
        IssueTypeSemantics {
            icon: IssueTypeIcon::Component(ComponentIconName::Inbox),
            tone: IssueTypeTone::Neutral,
        }
    } else {
        IssueTypeSemantics {
            icon: IssueTypeIcon::Component(ComponentIconName::File),
            tone: IssueTypeTone::Neutral,
        }
    }
}

/// The icon and tone of a priority with the normalized label `n`.
pub open spec fn priority_for(n: Seq<char>) -> (PriorityIcon, PriorityTone) {
    if n == "highest"@ {
        (PriorityIcon::App(AppIconName::ChevronsUp), PriorityTone::Critical)
    } else if n == "high"@ {
        (PriorityIcon::Component(ComponentIconName::ChevronUp), PriorityTone::Elevated)
    } else if n == "medium"@ {
        (PriorityIcon::App(AppIconName::Equal), PriorityTone::Neutral)
    } else if n == "low"@ {
        (PriorityIcon::Component(ComponentIconName::ChevronDown), PriorityTone::Low)
    } else if n == "lowest"@ {
        (PriorityIcon::App(AppIconName::ChevronsDown), PriorityTone::Minimal)
    } else {
        (PriorityIcon::App(AppIconName::Equal), PriorityTone::Unknown)
    }
}

/// The trimmed, lower-case form of a label.
pub fn normalize(label: &str) -> (n: String)
    ensures
        n@ == normalized_label(label@),
{
    crate::text::normalize_label(label)
}

/// Maps an issue type label to its icon and colour role, ignoring case and
/// surrounding white space.
pub fn issue_type_semantics(label: &str) -> (s: IssueTypeSemantics)
    ensures
        s == semantics_for(normalized_label(label@)),
{
    let normalized = normalize(label);
    let n = normalized.as_str();
    let eq = |lit: &str| -> (b: bool)
        ensures
            b == (n@ == lit@),
        { crate::text::str_equals(n, lit) };
    if eq("story") {
        IssueTypeSemantics { icon: IssueTypeIcon::App(AppIconName::BookOpenText), tone: IssueTypeTone::Blue }
    } else if eq("task") || eq("standard task") {
        IssueTypeSemantics { icon: IssueTypeIcon::App(AppIconName::ListChecks), tone: IssueTypeTone::Green }
    } else if eq("bug") || eq("defect") {
        IssueTypeSemantics { icon: IssueTypeIcon::App(AppIconName::Bug), tone: IssueTypeTone::Red }
    } else if eq("initiative") {
        IssueTypeSemantics {
            icon: IssueTypeIcon::Component(ComponentIconName::LayoutDashboard),
            tone: IssueTypeTone::Neutral,
        }
    } else if eq("sub-task") || eq("subtask") || eq("sub task") {
        IssueTypeSemantics {
            icon: IssueTypeIcon::Component(ComponentIconName::PanelBottom),
            tone: IssueTypeTone::Neutral,
        }
    } else if eq("epic") {
        IssueTypeSemantics {
            icon: IssueTypeIcon::Component(ComponentIconName::Folder),
            tone: IssueTypeTone::Purple,
        }
    } else if eq("spike") {
        IssueTypeSemantics {
            icon: IssueTypeIcon::Component(ComponentIconName::SquareTerminal),
            tone: IssueTypeTone::Neutral,
        }
    } else if eq("improvement") || eq("new feature") || eq("feature") {
        IssueTypeSemantics {
            icon: IssueTypeIcon::Component(ComponentIconName::Plus),
            tone: IssueTypeTone::Neutral,
        }
    } else if eq("incident") || eq("problem") {
        IssueTypeSemantics {
            icon: IssueTypeIcon::Component(ComponentIconName::TriangleAlert),
            tone: IssueTypeTone::Neutral,
        }
    } else if eq("change") {
        IssueTypeSemantics {
            icon: IssueTypeIcon::Component(ComponentIconName::Settings),
            tone: IssueTypeTone::Neutral,
        }
    } else if eq("service request") || eq("service-request") {
        IssueTypeSemantics {
            icon: IssueTypeIcon::Component(ComponentIconName::Inbox),
            tone: IssueTypeTone::Neutral,
        }
    } else {
        IssueTypeSemantics {
            icon: IssueTypeIcon::Component(ComponentIconName::File),
            tone: IssueTypeTone::Neutral,
        }
    }
}

/// Maps a priority label to its icon and urgency role, ignoring case and
/// surrounding white space.
pub fn priority_semantics(label: &str) -> (r: (PriorityIcon, PriorityTone))
    ensures
        r == priority_for(normalized_label(label@)),
{
    let normalized = normalize(label);
    let n = normalized.as_str();
    if crate::text::str_equals(n, "highest") {
        (PriorityIcon::App(AppIconName::ChevronsUp), PriorityTone::Critical)
    } else if crate::text::str_equals(n, "high") {
        (PriorityIcon::Component(ComponentIconName::ChevronUp), PriorityTone::Elevated)
    } else if crate::text::str_equals(n, "medium") {
        (PriorityIcon::App(AppIconName::Equal), PriorityTone::Neutral)
    } else if crate::text::str_equals(n, "low") {
        (PriorityIcon::Component(ComponentIconName::ChevronDown), PriorityTone::Low)
    } else if crate::text::str_equals(n, "lowest") {
        (PriorityIcon::App(AppIconName::ChevronsDown), PriorityTone::Minimal)
    } else {
        (PriorityIcon::App(AppIconName::Equal), PriorityTone::Unknown)
    }
}

/// Icons and tones depend on a label's normal form alone: a label and its
/// normal form get the same icon and tone, for issue types and priorities.
pub proof fn lemma_semantics_follow_the_normal_form(label: Seq<char>)
    ensures
        semantics_for(normalized_label(normalized_label(label))) == semantics_for(
            normalized_label(label),
        ),
        priority_for(normalized_label(normalized_label(label))) == priority_for(
            normalized_label(label),
        ),
{
    crate::text::lemma_normalized_label_idempotent(label);
}

} // verus!

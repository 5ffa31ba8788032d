//! The status filter of the issue list.
use vstd::prelude::*;
use crate::presentation::identity::{
    catalog, offered, shown_for, CommentAuthor, IdentityDirectory, UserRecord,
};
use vstd::string::StringExecFns;

verus! {

/// A Jira status category, as the issue list filters by it.
#[derive(Clone, Copy, Debug, PartialEq, Eq, Structural)]
pub enum StatusCategory {
    ToDo,
    InProgress,
    Done,
    Uncategorized,
}

/// The bit that stands for `c` in a selection mask.
pub open spec fn category_bit(c: StatusCategory) -> u8 {
    match c {
        StatusCategory::ToDo => 1,
        StatusCategory::InProgress => 2,
        StatusCategory::Done => 4,
        StatusCategory::Uncategorized => 8,
    }
}

/// Whether `mask` selects `c`.
pub open spec fn mask_selects(mask: u8, c: StatusCategory) -> bool {
    mask & category_bit(c) != 0
}

/// Whether `m` selects two or more of the four categories.
pub open spec fn is_multiple_mask(m: u8) -> bool {
    m < 16 && m != 0 && m != 1 && m != 2 && m != 4 && m != 8
}

/// The categories of a selection of two or more, as a bit mask.  Only this
/// module builds one, and always from two or more categories.
#[derive(Clone, Copy, Debug, PartialEq, Eq, Structural)]
pub struct CategoryMask {
    bits: u8,
}

impl CategoryMask {
    /// Every mask selects two or more categories.
    #[verifier::type_invariant]
    spec fn selects_several(self) -> bool {
        is_multiple_mask(self.bits)
    }
}

impl View for CategoryMask {
    type V = u8;

    closed spec fn view(&self) -> u8 {
        self.bits
    }
}

impl CategoryMask {
    /// The mask of two or more categories `bits`.
    fn new(bits: u8) -> (m: CategoryMask)
        requires
            is_multiple_mask(bits),
        ensures
            m@ == bits,
    {
        CategoryMask { bits }
    }

    /// The bit mask, which selects two or more categories.
    pub fn bits(self) -> (b: u8)
        ensures
            b == self@,
            is_multiple_mask(b),
    {
        proof {
            use_type_invariant(&self);
        }
        self.bits
    }
}

/// A compact selection of Jira status categories.
///
/// The empty selection (`All`) means all statuses; a non-empty selection is
/// the OR of its categories.  A selection of two or more categories is held as
/// a bit mask, which makes duplicate values harmless and keeps the categories
/// in a fixed presentation order.  Each selection has exactly one value.
#[derive(Clone, Copy, Debug, PartialEq, Eq, Structural)]
pub enum IssueStatusSelection {
    All,
    ToDo,
    InProgress,
    Done,
    Uncategorized,
    Multiple(CategoryMask),
}

impl Default for IssueStatusSelection {
    /// No status restriction.
    fn default() -> (s: Self)
        ensures
            s == IssueStatusSelection::All,
    {
        IssueStatusSelection::All
    }
}

/// The name the status filter had before it allowed several categories.
pub type IssueStatusFilter = IssueStatusSelection;

proof fn lemma_mask_bits(x: u8, y: u8)
    by (bit_vector)
    ensures
        ((x | y) & 1u8 != 0) == (x & 1u8 != 0 || y & 1u8 != 0),
        ((x | y) & 2u8 != 0) == (x & 2u8 != 0 || y & 2u8 != 0),
        ((x | y) & 4u8 != 0) == (x & 4u8 != 0 || y & 4u8 != 0),
        ((x | y) & 8u8 != 0) == (x & 8u8 != 0 || y & 8u8 != 0),
        (x & 15u8) & 1u8 == x & 1u8,
        (x & 15u8) & 2u8 == x & 2u8,
        (x & 15u8) & 4u8 == x & 4u8,
        (x & 15u8) & 8u8 == x & 8u8,
        x & 15u8 < 16,
        x < 16 ==> x & 15u8 == x,
        x < 16 ==> (x == 0 <==> (x & 1u8 == 0 && x & 2u8 == 0 && x & 4u8 == 0 && x & 8u8 == 0)),
        x < 16 ==> (x == 1 <==> (x & 1u8 != 0 && x & 2u8 == 0 && x & 4u8 == 0 && x & 8u8 == 0)),
        x < 16 ==> (x == 2 <==> (x & 1u8 == 0 && x & 2u8 != 0 && x & 4u8 == 0 && x & 8u8 == 0)),
        x < 16 ==> (x == 4 <==> (x & 1u8 == 0 && x & 2u8 == 0 && x & 4u8 != 0 && x & 8u8 == 0)),
        x < 16 ==> (x == 8 <==> (x & 1u8 == 0 && x & 2u8 == 0 && x & 4u8 == 0 && x & 8u8 != 0)),
        x < 16 && y < 16 ==> (x == y <==> (x & 1u8 == y & 1u8 && x & 2u8 == y & 2u8 && x & 4u8
            == y & 4u8 && x & 8u8 == y & 8u8)),
        x & 1u8 == 0 || x & 1u8 == 1,
        x & 2u8 == 0 || x & 2u8 == 2,
        x & 4u8 == 0 || x & 4u8 == 4,
        x & 8u8 == 0 || x & 8u8 == 8,
{
}

proof fn lemma_single_bits()
    by (bit_vector)
    ensures
        1u8 & 1u8 != 0 && 1u8 & 2u8 == 0 && 1u8 & 4u8 == 0 && 1u8 & 8u8 == 0,
        2u8 & 1u8 == 0 && 2u8 & 2u8 != 0 && 2u8 & 4u8 == 0 && 2u8 & 8u8 == 0,
        4u8 & 1u8 == 0 && 4u8 & 2u8 == 0 && 4u8 & 4u8 != 0 && 4u8 & 8u8 == 0,
        8u8 & 1u8 == 0 && 8u8 & 2u8 == 0 && 8u8 & 4u8 == 0 && 8u8 & 8u8 != 0,
        0u8 & 1u8 == 0 && 0u8 & 2u8 == 0 && 0u8 & 4u8 == 0 && 0u8 & 8u8 == 0,
{
}

/// The categories of a selection, in presentation order.
pub open spec fn ordered_categories(v: Set<StatusCategory>) -> Seq<StatusCategory> {
    (if v.contains(StatusCategory::ToDo) {
        seq![StatusCategory::ToDo]
    } else {
        Seq::empty()
    }) + (if v.contains(StatusCategory::InProgress) {
        seq![StatusCategory::InProgress]
    } else {
        Seq::empty()
    }) + (if v.contains(StatusCategory::Done) {
        seq![StatusCategory::Done]
    } else {
        Seq::empty()
    }) + (if v.contains(StatusCategory::Uncategorized) {
        seq![StatusCategory::Uncategorized]
    } else {
        Seq::empty()
    })
}

/// The label of the filter trigger for the selection `v`.
pub open spec fn selection_label(v: Set<StatusCategory>) -> Seq<char> {
    if v == Set::<StatusCategory>::empty() {
        "All statuses"@
    } else if v == set![StatusCategory::ToDo] {
        "To do"@
    } else if v == set![StatusCategory::InProgress] {
        "In progress"@
    } else if v == set![StatusCategory::Done] {
        "Done"@
    } else if v == set![StatusCategory::Uncategorized] {
        "Uncategorized"@
    } else {
        "Multiple statuses"@
    }
}

/// The category that a normalized (trimmed, lower-case) Jira category names.
pub open spec fn named_category(normalized: Seq<char>) -> Option<StatusCategory> {
    if normalized == "to do"@ {
        Some(StatusCategory::ToDo)
    } else if normalized == "in progress"@ {
        Some(StatusCategory::InProgress)
    } else if normalized == "done"@ {
        Some(StatusCategory::Done)
    } else if normalized.len() == 0 {
        Some(StatusCategory::Uncategorized)
    } else {
        None
    }
}

/// Whether the selection `v` admits an issue whose status category is `category`.
pub open spec fn selection_matches(v: Set<StatusCategory>, category: Seq<char>) -> bool {
    v == Set::<StatusCategory>::empty() || match named_category(
        crate::text::normalized_label(category),
    ) {
        Some(c) => v.contains(c),
        None => false,
    }
}

/// The union of the selections in `s`.
pub open spec fn union_of(s: Seq<Set<StatusCategory>>) -> Set<StatusCategory>
    decreases s.len(),
{
    if s.len() == 0 {
        Set::empty()
    } else {
        union_of(s.drop_last()).union(s.last())
    }
}

impl IssueStatusSelection {
    /// The bit mask of the categories that this selection holds.
    pub open spec fn mask(self) -> u8 {
        match self {
            IssueStatusSelection::All => 0,
            IssueStatusSelection::ToDo => 1,
            IssueStatusSelection::InProgress => 2,
            IssueStatusSelection::Done => 4,
            IssueStatusSelection::Uncategorized => 8,
            IssueStatusSelection::Multiple(m) => m@,
        }
    }

    /// Whether this is the one variant that names its selection.
    pub open spec fn is_normal(self) -> bool {
        match self {
            IssueStatusSelection::Multiple(m) => is_multiple_mask(m@),
            _ => true,
        }
    }
}

impl View for IssueStatusSelection {
    type V = Set<StatusCategory>;

    open spec fn view(&self) -> Set<StatusCategory> {
        Set::new(|c: StatusCategory| mask_selects(self.mask(), c))
    }
}

/// What each named selection holds.
pub proof fn lemma_named_selections()
    ensures
        IssueStatusSelection::All@ == Set::<StatusCategory>::empty(),
        IssueStatusSelection::ToDo@ == set![StatusCategory::ToDo],
        IssueStatusSelection::InProgress@ == set![StatusCategory::InProgress],
        IssueStatusSelection::Done@ == set![StatusCategory::Done],
        IssueStatusSelection::Uncategorized@ == set![StatusCategory::Uncategorized],
{
    lemma_single_bits();
    assert(IssueStatusSelection::All@ =~= Set::<StatusCategory>::empty());
    assert(IssueStatusSelection::ToDo@ =~= set![StatusCategory::ToDo]);
    assert(IssueStatusSelection::InProgress@ =~= set![StatusCategory::InProgress]);
    assert(IssueStatusSelection::Done@ =~= set![StatusCategory::Done]);
    assert(IssueStatusSelection::Uncategorized@ =~= set![StatusCategory::Uncategorized]);
}

/// Two selections in their named form are equal exactly when they hold the
/// same categories.
pub proof fn lemma_normal_selections_equal_by_contents(a: IssueStatusSelection, b: IssueStatusSelection)
    requires
        a.is_normal(),
        b.is_normal(),
    ensures
        (a == b) <==> (a@ == b@),
{
    lemma_mask_bits(a.mask(), b.mask());
    if let IssueStatusSelection::Multiple(m) = a {
        lemma_mask_bits(m@, m@);
    }
    if let IssueStatusSelection::Multiple(m) = b {
        lemma_mask_bits(m@, m@);
    }
    lemma_single_bits();
    if a@ == b@ {
        assert(a@.contains(StatusCategory::ToDo) == b@.contains(StatusCategory::ToDo));
        assert(a@.contains(StatusCategory::InProgress) == b@.contains(StatusCategory::InProgress));
        assert(a@.contains(StatusCategory::Done) == b@.contains(StatusCategory::Done));
        assert(a@.contains(StatusCategory::Uncategorized) == b@.contains(
            StatusCategory::Uncategorized,
        ));
        assert(a.mask() == b.mask());
    }
}

/// Matching depends on the category's normal form alone, every category
/// passes the empty selection, and a non-empty selection admits only the
/// four named categories.
pub proof fn lemma_matching_follows_the_normal_form(v: Set<StatusCategory>, category: Seq<char>)
    ensures
        selection_matches(v, crate::text::normalized_label(category)) == selection_matches(
            v,
            category,
        ),
        selection_matches(Set::<StatusCategory>::empty(), category),
        v != Set::<StatusCategory>::empty() && selection_matches(v, category) ==> {
            let n = crate::text::normalized_label(category);
            n == "to do"@ || n == "in progress"@ || n == "done"@ || n.len() == 0
        },
{
    crate::text::lemma_normalized_label_idempotent(category);
}

/// A category is in the union of selections exactly when one of them holds it.
pub proof fn lemma_union_of_contains(s: Seq<Set<StatusCategory>>, c: StatusCategory)
    ensures
        union_of(s).contains(c) == exists|i: int| 0 <= i < s.len() && #[trigger] s[i].contains(c),
    decreases s.len(),
{
    if s.len() > 0 {
        lemma_union_of_contains(s.drop_last(), c);
        if union_of(s.drop_last()).contains(c) {
            let i = choose|i: int| 0 <= i < s.drop_last().len() && #[trigger] s.drop_last()[i].contains(c);
            assert(s[i] == s.drop_last()[i]);
        }
        if exists|i: int| 0 <= i < s.len() && #[trigger] s[i].contains(c) {
            let i = choose|i: int| 0 <= i < s.len() && #[trigger] s[i].contains(c);
            if i < s.len() - 1 {
                assert(s.drop_last()[i] == s[i]);
            }
        }
    }
}

/// Combining filter values ignores their order and repetitions: two lists
/// holding the same values combine to the same selection.
pub proof fn lemma_from_values_ignores_order_and_duplicates(
    a: Seq<IssueStatusSelection>,
    b: Seq<IssueStatusSelection>,
    from_a: IssueStatusSelection,
    from_b: IssueStatusSelection,
)
    requires
        forall|x: IssueStatusSelection| a.contains(x) <==> b.contains(x),
        from_a.is_normal(),
        from_a@ == union_of(a.map_values(|v: IssueStatusSelection| v@)),
        from_b.is_normal(),
        from_b@ == union_of(b.map_values(|v: IssueStatusSelection| v@)),
    ensures
        from_a == from_b,
{
    let va = a.map_values(|v: IssueStatusSelection| v@);
    let vb = b.map_values(|v: IssueStatusSelection| v@);
    assert forall|c: StatusCategory| from_a@.contains(c) == from_b@.contains(c) by {
        lemma_union_of_contains(va, c);
        lemma_union_of_contains(vb, c);
        if from_a@.contains(c) {
            let i = choose|i: int| 0 <= i < va.len() && #[trigger] va[i].contains(c);
            assert(a.contains(a[i]));
            let j = choose|j: int| 0 <= j < b.len() && b[j] == a[i];
            assert(vb[j].contains(c));
        }
        if from_b@.contains(c) {
            let i = choose|i: int| 0 <= i < vb.len() && #[trigger] vb[i].contains(c);
            assert(b.contains(b[i]));
            let j = choose|j: int| 0 <= j < a.len() && a[j] == b[i];
            assert(va[j].contains(c));
        }
    }
    assert(from_a@ =~= from_b@);
    lemma_normal_selections_equal_by_contents(from_a, from_b);
}

/// A concatenation holds what either part holds.
proof fn lemma_add_contains(x: Seq<StatusCategory>, y: Seq<StatusCategory>, c: StatusCategory)
    ensures
        (x + y).contains(c) == (x.contains(c) || y.contains(c)),
{
    let z = x + y;
    if z.contains(c) {
        let i = choose|i: int| 0 <= i < z.len() && z[i] == c;
        if i < x.len() {
            assert(x[i] == c);
        } else {
            assert(y[i - x.len()] == c);
        }
    }
    if x.contains(c) {
        let i = choose|i: int| 0 <= i < x.len() && x[i] == c;
        assert(z[i] == c);
    }
    if y.contains(c) {
        let i = choose|i: int| 0 <= i < y.len() && y[i] == c;
        assert(z[x.len() + i] == c);
    }
}

/// The ordered categories of a selection are exactly its categories.
pub proof fn lemma_ordered_categories_contains(v: Set<StatusCategory>, c: StatusCategory)
    ensures
        ordered_categories(v).contains(c) == v.contains(c),
{
    let p1 = if v.contains(StatusCategory::ToDo) { seq![StatusCategory::ToDo] } else { Seq::empty() };
    let p2 = if v.contains(StatusCategory::InProgress) { seq![StatusCategory::InProgress] } else { Seq::empty() };
    let p3 = if v.contains(StatusCategory::Done) { seq![StatusCategory::Done] } else { Seq::empty() };
    let p4 = if v.contains(StatusCategory::Uncategorized) { seq![StatusCategory::Uncategorized] } else { Seq::empty() };
    lemma_add_contains(p1, p2, c);
    lemma_add_contains(p1 + p2, p3, c);
    lemma_add_contains(p1 + p2 + p3, p4, c);
    if p1.contains(c) { assert(p1[0] == c); }
    if p2.contains(c) { assert(p2[0] == c); }
    if p3.contains(c) { assert(p3[0] == c); }
    if p4.contains(c) { assert(p4[0] == c); }
    if v.contains(c) {
        match c {
            StatusCategory::ToDo => assert(p1[0] == c),
            StatusCategory::InProgress => assert(p2[0] == c),
            StatusCategory::Done => assert(p3[0] == c),
            StatusCategory::Uncategorized => assert(p4[0] == c),
        }
    }
}

/// The values of a selection combine back to that selection, and it lists
/// none exactly when it is `All`.
pub proof fn lemma_values_round_trip(s: IssueStatusSelection, back: IssueStatusSelection)
    requires
        s.is_normal(),
        back.is_normal(),
        back@ == union_of(ordered_categories(s@).map_values(|c: StatusCategory| set![c])),
    ensures
        back == s,
        (ordered_categories(s@).len() == 0) == (s == IssueStatusSelection::All),
{
    let o = ordered_categories(s@);
    let vs = o.map_values(|c: StatusCategory| set![c]);
    assert forall|c: StatusCategory| back@.contains(c) == s@.contains(c) by {
        lemma_union_of_contains(vs, c);
        lemma_ordered_categories_contains(s@, c);
        if back@.contains(c) {
            let i = choose|i: int| 0 <= i < vs.len() && #[trigger] vs[i].contains(c);
            assert(o[i] == c);
        }
        if s@.contains(c) {
            let i = choose|i: int| 0 <= i < o.len() && o[i] == c;
            assert(vs[i].contains(c));
        }
    }
    assert(back@ =~= s@);
    lemma_normal_selections_equal_by_contents(back, s);
    lemma_named_selections();
    lemma_normal_selections_equal_by_contents(s, IssueStatusSelection::All);
    if o.len() == 0 {
        assert forall|c: StatusCategory| !s@.contains(c) by {
            lemma_ordered_categories_contains(s@, c);
        }
        assert(s@ =~= Set::<StatusCategory>::empty());
    } else {
        lemma_ordered_categories_contains(s@, o[0]);
        assert(o.contains(o[0]));
    }
}

/// A selection of non-empty selections admits a category exactly when one of
/// them admits it: selections are ORed.
pub proof fn lemma_union_matches_either(
    a: Set<StatusCategory>,
    b: Set<StatusCategory>,
    category: Seq<char>,
)
    requires
        a != Set::<StatusCategory>::empty(),
        b != Set::<StatusCategory>::empty(),
    ensures
        selection_matches(a.union(b), category) == (selection_matches(a, category)
            || selection_matches(b, category)),
{
    if a.union(b) == Set::<StatusCategory>::empty() {
        let c = a.choose();
        assert(a.contains(c)) by {
            if !a.contains(c) {
                assert(a =~= Set::<StatusCategory>::empty());
            }
        }
        assert(a.union(b).contains(c));
    }
}

impl IssueStatusSelection {
    /// The bit mask of this selection.
    fn bits(self) -> (m: u8)
        ensures
            m == self.mask(),
            m < 16,
            self.is_normal(),
    {
        match self {
            IssueStatusSelection::All => 0,
            IssueStatusSelection::ToDo => 1,
            IssueStatusSelection::InProgress => 2,
            IssueStatusSelection::Done => 4,
            IssueStatusSelection::Uncategorized => 8,
            IssueStatusSelection::Multiple(m) => m.bits(),
        }
    }

    /// The selection named by the mask `m` of known categories.
    fn from_mask(m: u8) -> (sel: IssueStatusSelection)
        requires
            m < 16,
        ensures
            sel.mask() == m,
            sel.is_normal(),
    {
        proof {
            lemma_mask_bits(m, m);
        }
        if m == 0 {
            IssueStatusSelection::All
        } else if m == 1 {
            IssueStatusSelection::ToDo
        } else if m == 2 {
            IssueStatusSelection::InProgress
        } else if m == 4 {
            IssueStatusSelection::Done
        } else if m == 8 {
            IssueStatusSelection::Uncategorized
        } else {
            IssueStatusSelection::Multiple(CategoryMask::new(m))
        }
    }

    /// Combines filter values into one selection in its named form.
    pub fn from_values(values: &[IssueStatusSelection]) -> (sel: IssueStatusSelection)
        ensures
            sel@ == union_of(values@.map_values(|v: IssueStatusSelection| v@)),
            sel.is_normal(),
    {
        let mut mask: u8 = 0;
        let mut i: usize = 0;
        proof {
            lemma_single_bits();
        }
        while i < values.len()
            invariant
                i <= values.len(),
                mask < 16,
                forall|c: StatusCategory|
                    #![trigger mask_selects(mask, c)]
                    mask_selects(mask, c) == union_of(
                        values@.take(i as int).map_values(|v: IssueStatusSelection| v@),
                    ).contains(c),
            decreases values.len() - i,
        {
            let b = values[i].bits();
            let next = mask | b;
            proof {
                lemma_mask_bits(mask, b);
                lemma_mask_bits(next, next);
                let prev = values@.take(i as int).map_values(|v: IssueStatusSelection| v@);
                let cur = values@.take(i + 1).map_values(|v: IssueStatusSelection| v@);
                assert(cur.drop_last() =~= prev);
                assert(cur.last() == values@[i as int]@);
                assert(union_of(cur) == union_of(prev).union(values@[i as int]@));
                assert forall|c: StatusCategory|
                    #![trigger mask_selects(next, c)]
                    mask_selects(next, c) == union_of(cur).contains(c) by {
                    assert(mask_selects(mask, c) == union_of(prev).contains(c));
                    assert(values@[i as int]@.contains(c) == mask_selects(b, c));
                    match c {
                        StatusCategory::ToDo => {},
                        StatusCategory::InProgress => {},
                        StatusCategory::Done => {},
                        StatusCategory::Uncategorized => {},
                    }
                }
                assert(next < 16) by {
                    lemma_mask_bits(next, next);
                    assert(next & 15u8 == next) by (bit_vector)
                        requires
                            next == mask | b,
                            mask < 16,
                            b < 16,
                    ;
                }
            }
            mask = next;
            i += 1;
        }
        proof {
            assert(values@.take(values.len() as int) =~= values@);
        }
        let sel = Self::from_mask(mask);
        assert(sel@ =~= union_of(values@.map_values(|v: IssueStatusSelection| v@)));
        sel
    }

    /// The selected categories, each as a selection of its own, in
    /// presentation order.
    pub fn values(self) -> (out: Vec<IssueStatusSelection>)
        ensures
            out@.map_values(|v: IssueStatusSelection| v@) =~= ordered_categories(self@).map_values(
                |c: StatusCategory| set![c],
            ),
            forall|i: int| 0 <= i < out@.len() ==> (#[trigger] out@[i]).is_normal(),
            self.is_normal(),
    {
        let m = self.bits();
        proof {
            lemma_mask_bits(m, m);
            lemma_named_selections();
        }
        let mut out: Vec<IssueStatusSelection> = Vec::new();
        if m & 1u8 != 0 {
            out.push(IssueStatusSelection::ToDo);
        }
        if m & 2u8 != 0 {
            out.push(IssueStatusSelection::InProgress);
        }
        if m & 4u8 != 0 {
            out.push(IssueStatusSelection::Done);
        }
        if m & 8u8 != 0 {
            out.push(IssueStatusSelection::Uncategorized);
        }
        out
    }

    /// Whether the selection places no restriction on the status.
    pub fn is_all(self) -> (b: bool)
        ensures
            b == (self@ == Set::<StatusCategory>::empty()),
    {
        let m = self.bits();
        proof {
            lemma_mask_bits(m, m);
            if m != 0 {
                if m & 1u8 != 0 {
                    assert(self@.contains(StatusCategory::ToDo));
                } else if m & 2u8 != 0 {
                    assert(self@.contains(StatusCategory::InProgress));
                } else if m & 4u8 != 0 {
                    assert(self@.contains(StatusCategory::Done));
                } else {
                    assert(self@.contains(StatusCategory::Uncategorized));
                }
            } else {
                assert(self@ =~= Set::<StatusCategory>::empty());
            }
        }
        m == 0
    }

    /// The label of the filter trigger.
    pub fn label(self) -> (s: &'static str)
        ensures
            s@ == selection_label(self@),
    {
        let m = self.bits();
        proof {
            lemma_mask_bits(m, m);
            lemma_single_bits();
            let v = self@;
            if m == 0 {
                assert(v =~= Set::<StatusCategory>::empty());
            } else {
                assert(v != Set::<StatusCategory>::empty()) by {
                    if m & 1u8 != 0 {
                        assert(v.contains(StatusCategory::ToDo));
                    } else if m & 2u8 != 0 {
                        assert(v.contains(StatusCategory::InProgress));
                    } else if m & 4u8 != 0 {
                        assert(v.contains(StatusCategory::Done));
                    } else {
                        assert(v.contains(StatusCategory::Uncategorized));
                    }
                }
            }
            if m == 1 {
                assert(v =~= set![StatusCategory::ToDo]);
            } else {
                assert(v != set![StatusCategory::ToDo]) by {
                    if v == set![StatusCategory::ToDo] {
                        assert(v.contains(StatusCategory::ToDo));
                        assert(!v.contains(StatusCategory::InProgress));
                        assert(!v.contains(StatusCategory::Done));
                        assert(!v.contains(StatusCategory::Uncategorized));
                    }
                }
            }
            if m == 2 {
                assert(v =~= set![StatusCategory::InProgress]);
            } else {
                assert(v != set![StatusCategory::InProgress]) by {
                    if v == set![StatusCategory::InProgress] {
                        assert(!v.contains(StatusCategory::ToDo));
                        assert(v.contains(StatusCategory::InProgress));
                        assert(!v.contains(StatusCategory::Done));
                        assert(!v.contains(StatusCategory::Uncategorized));
                    }
                }
            }
            if m == 4 {
                assert(v =~= set![StatusCategory::Done]);
            } else {
                assert(v != set![StatusCategory::Done]) by {
                    if v == set![StatusCategory::Done] {
                        assert(!v.contains(StatusCategory::ToDo));
                        assert(!v.contains(StatusCategory::InProgress));
                        assert(v.contains(StatusCategory::Done));
                        assert(!v.contains(StatusCategory::Uncategorized));
                    }
                }
            }
            if m == 8 {
                assert(v =~= set![StatusCategory::Uncategorized]);
            } else {
                assert(v != set![StatusCategory::Uncategorized]) by {
                    if v == set![StatusCategory::Uncategorized] {
                        assert(!v.contains(StatusCategory::ToDo));
                        assert(!v.contains(StatusCategory::InProgress));
                        assert(!v.contains(StatusCategory::Done));
                        assert(v.contains(StatusCategory::Uncategorized));
                    }
                }
            }
        }
        if m == 0 {
            "All statuses"
        } else if m == 1 {
            "To do"
        } else if m == 2 {
            "In progress"
        } else if m == 4 {
            "Done"
        } else if m == 8 {
            "Uncategorized"
        } else {
            "Multiple statuses"
        }
    }

    /// Whether an issue whose status category is `category` passes the filter.
    pub fn matches(self, category: &str) -> (b: bool)
        ensures
            b == selection_matches(self@, category@),
    {
        if self.is_all() {
            return true;
        }
        let normalized = crate::text::normalize_label(category);
        let n = normalized.as_str();
        let m = self.bits();
        proof {
            lemma_mask_bits(m, m);
        }
        let bit: u8 = if crate::text::str_equals(n, "to do") {
            1
        } else if crate::text::str_equals(n, "in progress") {
            2
        } else if crate::text::str_equals(n, "done") {
            4
        } else if n.is_empty() {
            8
        } else {
            return false;
        };
        m & bit != 0
    }
}

/// The metadata of one attachment as the issue detail shows it.
#[derive(Clone, Debug, PartialEq, Eq)]
pub struct AttachmentViewModel {
    pub id: String,
    pub filename: String,
    pub mime_type: String,
    pub size_bytes: u64,
    pub size: String,
}

impl AttachmentViewModel {
    /// The row of an attachment; a missing MIME type reads `Unknown type`.
    /// `size` is the printed form of `size_bytes`.
    pub fn new(id: String, filename: String, mime_type: Option<String>, size_bytes: u64, size: String) -> (row: AttachmentViewModel)
        ensures
            row.id@ == id@,
            row.filename@ == filename@,
            row.mime_type@ == match mime_type {
                Some(m) => m@,
                None => "Unknown type"@,
            },
            row.size_bytes == size_bytes,
            row.size@ == size@,
    {
        let mime_type = match mime_type {
            Some(m) => m,
            None => String::from_str("Unknown type"),
        };
        AttachmentViewModel { id, filename, mime_type, size_bytes, size }
    }
}

/// The parent of an issue: its key and, when known, its summary.
pub struct ParentRecord {
    pub key: String,
    pub summary: Option<String>,
}

/// What the dashboard reads of a Jira issue.  Timestamps arrive as printed
/// in local time; the due date is a calendar date.
pub struct IssueRecord {
    pub id: String,
    pub key: String,
    pub summary: String,
    pub project: String,
    pub issue_type: String,
    pub status: String,
    pub status_category: Option<String>,
    pub priority: Option<String>,
    pub assignee: Option<String>,
    pub assignee_display_name: Option<String>,
    pub reporter: Option<String>,
    pub reporter_display_name: Option<String>,
    pub parent: Option<ParentRecord>,
    pub labels: Vec<String>,
    pub description: Option<String>,
    pub created: String,
    pub updated: String,
    pub due_date: Option<(i32, u8, u8)>,
}

/// One issue as the issue list shows it.
pub struct IssueViewModel {
    pub id: String,
    pub key: String,
    pub summary: String,
    pub project: String,
    pub issue_type: String,
    pub status: String,
    pub status_category: String,
    pub priority: String,
    pub assignee: String,
    pub reporter: String,
    pub parent: Option<String>,
    pub labels: Vec<String>,
    pub description: String,
    pub created: String,
    pub updated: String,
    pub due_date: String,
}

/// An issue row as text.
pub struct IssueView {
    pub id: Seq<char>,
    pub key: Seq<char>,
    pub summary: Seq<char>,
    pub project: Seq<char>,
    pub issue_type: Seq<char>,
    pub status: Seq<char>,
    pub status_category: Seq<char>,
    pub priority: Seq<char>,
    pub assignee: Seq<char>,
    pub reporter: Seq<char>,
    pub parent: Option<Seq<char>>,
    pub labels: Seq<Seq<char>>,
    pub description: Seq<char>,
    pub created: Seq<char>,
    pub updated: Seq<char>,
    pub due_date: Seq<char>,
}

impl View for IssueViewModel {
    type V = IssueView;

    open spec fn view(&self) -> IssueView {
        IssueView {
            id: self.id@,
            key: self.key@,
            summary: self.summary@,
            project: self.project@,
            issue_type: self.issue_type@,
            status: self.status@,
            status_category: self.status_category@,
            priority: self.priority@,
            assignee: self.assignee@,
            reporter: self.reporter@,
            parent: match self.parent {
                Some(p) => Some(p@),
                None => None,
            },
            labels: crate::text::texts(self.labels@),
            description: self.description@,
            created: self.created@,
            updated: self.updated@,
            due_date: self.due_date@,
        }
    }
}

/// `value`, or `fallback` when there is none.
pub open spec fn or_default(value: Option<String>, fallback: Seq<char>) -> Seq<char> {
    match value {
        Some(s) => s@,
        None => fallback,
    }
}

/// The optional account as text.
pub open spec fn account_text(value: Option<String>) -> Option<Seq<char>> {
    match value {
        Some(s) => Some(s@),
        None => None,
    }
}

/// The parent as the list shows it: `KEY · summary`, or just the key.
pub open spec fn parent_text(parent: Option<ParentRecord>) -> Option<Seq<char>> {
    match parent {
        Some(p) => Some(
            match p.summary {
                Some(s) => p.key@ + " · "@ + s@,
                None => p.key@,
            },
        ),
        None => None,
    }
}

/// The directory after an issue offered its assignee and reporter names.
pub open spec fn with_issue_names(names: Map<Seq<char>, Seq<char>>, issue: IssueRecord) -> Map<
    Seq<char>,
    Seq<char>,
> {
    let after_assignee = match (issue.assignee, issue.assignee_display_name) {
        (Some(id), Some(name)) => offered(names, id@, name@),
        _ => names,
    };
    match (issue.reporter, issue.reporter_display_name) {
        (Some(id), Some(name)) => offered(after_assignee, id@, name@),
        _ => after_assignee,
    }
}

/// The directory of the users, filled from the names the issues carry.
pub open spec fn directory_for(issues: Seq<IssueRecord>, users: Seq<UserRecord>) -> Map<
    Seq<char>,
    Seq<char>,
>
    decreases issues.len(),
{
    if issues.len() == 0 {
        catalog(users)
    } else {
        with_issue_names(directory_for(issues.drop_last(), users), issues.last())
    }
}

/// One issue as the list shows it, with names from `names`.
pub open spec fn issue_view(issue: IssueRecord, names: Map<Seq<char>, Seq<char>>) -> IssueView {
    IssueView {
        id: issue.id@,
        key: issue.key@,
        summary: issue.summary@,
        project: issue.project@,
        issue_type: issue.issue_type@,
        status: issue.status@,
        status_category: or_default(issue.status_category, "No category"@),
        priority: or_default(issue.priority, "None"@),
        assignee: shown_for(names, account_text(issue.assignee), "Unassigned"@, "Unknown user"@),
        reporter: shown_for(names, account_text(issue.reporter), "Unassigned"@, "Unknown user"@),
        parent: parent_text(issue.parent),
        labels: crate::text::texts(issue.labels@),
        description: or_default(issue.description, "No description supplied."@),
        created: issue.created@,
        updated: issue.updated@,
        due_date: match issue.due_date {
            Some(d) => crate::presentation::format::date_label(d.0 as int, d.1, d.2),
            None => "Not set"@,
        },
    }
}

/// Whether an issue passes the status filter `selection` and the normalized
/// search text `search`, which must occur in its key or summary, ignoring
/// ASCII case, unless it is empty.
pub open spec fn issue_passes(issue: IssueRecord, selection: Set<StatusCategory>, search: Seq<char>) -> bool {
    &&& selection_matches(selection, or_default(issue.status_category, ""@))
    &&& (search.len() == 0 || crate::text::contains_run(crate::text::ascii_lower(issue.key@), search)
        || crate::text::contains_run(crate::text::ascii_lower(issue.summary@), search))
}

/// The issues that pass, in order.
pub open spec fn passing_issues(issues: Seq<IssueRecord>, selection: Set<StatusCategory>, search: Seq<char>) -> Seq<
    IssueRecord,
>
    decreases issues.len(),
{
    if issues.len() == 0 {
        Seq::empty()
    } else {
        let before = passing_issues(issues.drop_last(), selection, search);
        if issue_passes(issues.last(), selection, search) {
            before.push(issues.last())
        } else {
            before
        }
    }
}

/// The names of the user catalog win over the names issues carry: every
/// account the catalog names keeps that name in the directory of the issues.
pub proof fn lemma_catalog_names_win(issues: Seq<IssueRecord>, users: Seq<UserRecord>)
    ensures
        forall|id: Seq<char>|
            #[trigger] catalog(users).contains_key(id) ==> directory_for(issues, users).contains_key(id)
                && directory_for(issues, users)[id] == catalog(users)[id],
    decreases issues.len(),
{
    if issues.len() > 0 {
        lemma_catalog_names_win(issues.drop_last(), users);
        let before = directory_for(issues.drop_last(), users);
        let issue = issues.last();
        if let (Some(id), Some(name)) = (issue.assignee, issue.assignee_display_name) {
            crate::presentation::identity::lemma_offered_keeps_names(before, id@, name@);
        }
        let after_assignee = match (issue.assignee, issue.assignee_display_name) {
            (Some(id), Some(name)) => offered(before, id@, name@),
            _ => before,
        };
        if let (Some(id), Some(name)) = (issue.reporter, issue.reporter_display_name) {
            crate::presentation::identity::lemma_offered_keeps_names(after_assignee, id@, name@);
        }
    }
}

/// Without a status selection or search text every issue passes, in order.
pub proof fn lemma_unfiltered_keeps_every_issue(issues: Seq<IssueRecord>)
    ensures
        passing_issues(issues, Set::<StatusCategory>::empty(), Seq::empty()) == issues,
    decreases issues.len(),
{
    if issues.len() > 0 {
        lemma_unfiltered_keeps_every_issue(issues.drop_last());
        assert(issues.drop_last().push(issues.last()) =~= issues);
    }
}

/// The status filter and the search compose: filtering by both is searching
/// the issues that pass the status filter alone.
pub proof fn lemma_status_and_search_compose(
    issues: Seq<IssueRecord>,
    selection: Set<StatusCategory>,
    search: Seq<char>,
)
    ensures
        passing_issues(issues, selection, search) == passing_issues(
            passing_issues(issues, selection, Seq::empty()),
            Set::<StatusCategory>::empty(),
            search,
        ),
    decreases issues.len(),
{
    if issues.len() > 0 {
        lemma_status_and_search_compose(issues.drop_last(), selection, search);
        let by_status = passing_issues(issues.drop_last(), selection, Seq::empty());
        let last = issues.last();
        if issue_passes(last, selection, Seq::empty()) {
            assert(by_status.push(last).drop_last() =~= by_status);
        }
    }
}

/// The issues kept are exactly those that pass: each kept issue passes, and
/// each issue that passes is kept.
pub proof fn lemma_passing_issues_pass(
    issues: Seq<IssueRecord>,
    selection: Set<StatusCategory>,
    search: Seq<char>,
)
    ensures
        passing_issues(issues, selection, search).len() <= issues.len(),
        forall|k: int|
            0 <= k < passing_issues(issues, selection, search).len() ==> issue_passes(
                #[trigger] passing_issues(issues, selection, search)[k],
                selection,
                search,
            ),
        forall|i: int|
            0 <= i < issues.len() && issue_passes(#[trigger] issues[i], selection, search)
                ==> passing_issues(issues, selection, search).contains(issues[i]),
    decreases issues.len(),
{
    if issues.len() > 0 {
        let rest = issues.drop_last();
        lemma_passing_issues_pass(rest, selection, search);
        let before = passing_issues(rest, selection, search);
        let after = passing_issues(issues, selection, search);
        assert forall|i: int|
            0 <= i < issues.len() && issue_passes(#[trigger] issues[i], selection, search)
                implies after.contains(issues[i]) by {
            if i < issues.len() - 1 {
                assert(rest[i] == issues[i]);
                let k = choose|k: int| 0 <= k < before.len() && before[k] == rest[i];
                if issue_passes(issues.last(), selection, search) {
                    assert(after[k] == before[k]);
                }
            } else {
                assert(after[after.len() - 1] == issues.last());
            }
        }
    }
}

/// The directory of the users, filled from the names the issues carry.
pub fn directory_for_issues(issues: &[IssueRecord], users: &[UserRecord]) -> (d: IdentityDirectory)
    ensures
        d.wf(),
        d@ == directory_for(issues@, users@),
{
    let mut d = IdentityDirectory::from_users(users);
    let mut i: usize = 0;
    while i < issues.len()
        invariant
            i <= issues@.len(),
            d.wf(),
            d@ == directory_for(issues@.take(i as int), users@),
        decreases issues.len() - i,
    {
        assert(issues@.take(i + 1).drop_last() =~= issues@.take(i as int));
        include_issue_names(&mut d, &issues[i]);
        i += 1;
    }
    assert(issues@.take(issues@.len() as int) =~= issues@);
    d
}

/// Offers the assignee and reporter names an issue carries.
fn include_issue_names(d: &mut IdentityDirectory, issue: &IssueRecord)
    requires
        old(d).wf(),
    ensures
        final(d).wf(),
        final(d)@ == with_issue_names(old(d)@, *issue),
{
    let assignee = match &issue.assignee {
        Some(a) => Some(a.as_str()),
        None => None,
    };
    let assignee_name = match &issue.assignee_display_name {
        Some(a) => Some(a.as_str()),
        None => None,
    };
    let reporter = match &issue.reporter {
        Some(a) => Some(a.as_str()),
        None => None,
    };
    let reporter_name = match &issue.reporter_display_name {
        Some(a) => Some(a.as_str()),
        None => None,
    };
    d.include_issue(assignee, assignee_name, reporter, reporter_name);
}

/// A copy of an optional string, or the fallback text.
fn text_or(value: &Option<String>, fallback: &str) -> (s: String)
    ensures
        s@ == or_default(*value, fallback@),
{
    match value {
        Some(v) => String::from_str(v.as_str()),
        None => String::from_str(fallback),
    }
}

impl IssueViewModel {
    /// The row of an issue, with names from the users and the issue itself.
    pub fn from_domain(issue: &IssueRecord, users: &[UserRecord]) -> (row: IssueViewModel)
        ensures
            row@ == issue_view(*issue, with_issue_names(catalog(users@), *issue)),
    {
        let mut identities = IdentityDirectory::from_users(users);
        include_issue_names(&mut identities, issue);
        Self::from_domain_with_directory(issue, &identities)
    }

    /// The row of an issue, with names from `identities`.
    pub fn from_domain_with_directory(issue: &IssueRecord, identities: &IdentityDirectory) -> (row: IssueViewModel)
        requires
            identities.wf(),
        ensures
            row@ == issue_view(*issue, identities@),
    {
        let assignee = match &issue.assignee {
            Some(a) => Some(a.as_str()),
            None => None,
        };
        let reporter = match &issue.reporter {
            Some(a) => Some(a.as_str()),
            None => None,
        };
        let parent = match &issue.parent {
            Some(p) => {
                let mut text = String::from_str(p.key.as_str());
                if let Some(summary) = &p.summary {
                    crate::text::push_str(&mut text, " · ");
                    crate::text::push_str(&mut text, summary.as_str());
                }
                Some(text)
            },
            None => None,
        };
        let due_date = match issue.due_date {
            Some(d) => crate::presentation::format::format_date(d.0, d.1, d.2),
            None => String::from_str("Not set"),
        };
        IssueViewModel {
            id: String::from_str(issue.id.as_str()),
            key: String::from_str(issue.key.as_str()),
            summary: String::from_str(issue.summary.as_str()),
            project: String::from_str(issue.project.as_str()),
            issue_type: String::from_str(issue.issue_type.as_str()),
            status: String::from_str(issue.status.as_str()),
            status_category: text_or(&issue.status_category, "No category"),
            priority: text_or(&issue.priority, "None"),
            assignee: identities.display(assignee, "Unassigned"),
            reporter: identities.display(reporter, "Unassigned"),
            parent,
            labels: crate::text::copy_strings(&issue.labels),
            description: text_or(&issue.description, "No description supplied."),
            created: String::from_str(issue.created.as_str()),
            updated: String::from_str(issue.updated.as_str()),
            due_date,
        }
    }
}

/// The rows of the issues that pass the status filter and the search, in
/// order.  The search text is trimmed and compared without ASCII case against
/// issue keys and summaries; empty search text matches every issue.
pub fn issue_views_for_filter(
    issues: &[IssueRecord],
    users: &[UserRecord],
    filter: IssueStatusFilter,
    search: &str,
) -> (rows: Vec<IssueViewModel>)
    ensures
        rows@.map_values(|r: IssueViewModel| r@) == passing_issues(
            issues@,
            filter@,
            crate::text::normalized_label(search@),
        ).map_values(|i: IssueRecord| issue_view(i, directory_for(issues@, users@))),
{
    let selection = filter;
    let normalized = crate::text::normalize_label(search);
    let needle = crate::text::chars_of(normalized.as_str());
    let identities = directory_for_issues(issues, users);
    let ghost names = identities@;
    let ghost s = crate::text::normalized_label(search@);
    let mut rows: Vec<IssueViewModel> = Vec::new();
    let mut i: usize = 0;
    proof {
        assert(issues@.take(0) =~= Seq::<IssueRecord>::empty());
        assert(rows@.map_values(|r: IssueViewModel| r@) =~= Seq::<IssueView>::empty());
    }
    while i < issues.len()
        invariant
            i <= issues@.len(),
            identities.wf(),
            names == identities@,
            names == directory_for(issues@, users@),
            selection@ == filter@,
            needle@ == s,
            rows@.map_values(|r: IssueViewModel| r@) == passing_issues(issues@.take(i as int), filter@, s).map_values(
                |x: IssueRecord| issue_view(x, names),
            ),
        decreases issues.len() - i,
    {
        let issue = &issues[i];
        assert(issues@.take(i + 1).drop_last() =~= issues@.take(i as int));
        assert(issues@.take(i + 1).last() == issues@[i as int]);
        let category = match &issue.status_category {
            Some(c) => c.as_str(),
            None => "",
        };
        let status_ok = selection.matches(category);
        let mut search_ok = needle.len() == 0;
        if !search_ok {
            let key = crate::text::lowercased(&crate::text::chars_of(issue.key.as_str()));
            search_ok = crate::text::contains_chars(&key, &needle);
        }
        if !search_ok {
            let summary = crate::text::lowercased(&crate::text::chars_of(issue.summary.as_str()));
            search_ok = crate::text::contains_chars(&summary, &needle);
        }
        if status_ok && search_ok {
            let ghost before = rows@.map_values(|r: IssueViewModel| r@);
            let row = IssueViewModel::from_domain_with_directory(issue, &identities);
            let ghost row_view = row@;
            rows.push(row);
            assert(rows@.map_values(|r: IssueViewModel| r@) =~= before.push(row_view));
        }
        i += 1;
    }
    assert(issues@.take(issues@.len() as int) =~= issues@);
    rows
}

/// A comment of an issue.  Times arrive as printed in local time.
pub struct CommentRecord {
    pub author: Option<CommentAuthor>,
    pub body: String,
    pub created: String,
    pub updated: Option<String>,
}

/// The metadata of an attachment, with its size as printed.
pub struct AttachmentRecord {
    pub id: String,
    pub filename: String,
    pub mime_type: Option<String>,
    pub size_bytes: u64,
    pub size: String,
}

/// An issue with its attachments and comments.
pub struct IssueDetailRecord {
    pub issue: IssueRecord,
    pub attachments: Vec<AttachmentRecord>,
    pub comments: Vec<CommentRecord>,
}

/// One comment as the issue detail shows it.
pub struct CommentViewModel {
    pub author: String,
    pub body: String,
    pub created: String,
    pub updated: Option<String>,
}

/// The issue detail: description, comments and attachments.
pub struct IssueDetailViewModel {
    pub description: String,
    pub comments: Vec<CommentViewModel>,
    pub attachments: Vec<AttachmentViewModel>,
}

/// A comment as text.
pub struct CommentView {
    pub author: Seq<char>,
    pub body: Seq<char>,
    pub created: Seq<char>,
    pub updated: Option<Seq<char>>,
}

/// An attachment row as text.
pub struct AttachmentView {
    pub id: Seq<char>,
    pub filename: Seq<char>,
    pub mime_type: Seq<char>,
    pub size_bytes: u64,
    pub size: Seq<char>,
}

/// The issue detail as text.
pub struct IssueDetailView {
    pub description: Seq<char>,
    pub comments: Seq<CommentView>,
    pub attachments: Seq<AttachmentView>,
}

impl View for CommentViewModel {
    type V = CommentView;

    open spec fn view(&self) -> CommentView {
        CommentView {
            author: self.author@,
            body: self.body@,
            created: self.created@,
            updated: account_text(self.updated),
        }
    }
}

impl View for AttachmentViewModel {
    type V = AttachmentView;

    open spec fn view(&self) -> AttachmentView {
        AttachmentView {
            id: self.id@,
            filename: self.filename@,
            mime_type: self.mime_type@,
            size_bytes: self.size_bytes,
            size: self.size@,
        }
    }
}

impl View for IssueDetailViewModel {
    type V = IssueDetailView;

    open spec fn view(&self) -> IssueDetailView {
        IssueDetailView {
            description: self.description@,
            comments: self.comments@.map_values(|c: CommentViewModel| c@),
            attachments: self.attachments@.map_values(|a: AttachmentViewModel| a@),
        }
    }
}

/// The directory after the comments offered their authors' names, in order.
pub open spec fn with_comment_authors(names: Map<Seq<char>, Seq<char>>, comments: Seq<CommentRecord>) -> Map<
    Seq<char>,
    Seq<char>,
>
    decreases comments.len(),
{
    if comments.len() == 0 {
        names
    } else {
        let before = with_comment_authors(names, comments.drop_last());
        match comments.last().author {
            Some(a) => match a.display_name {
                Some(name) => offered(before, a.account_id@, name@),
                None => before,
            },
            None => before,
        }
    }
}

/// One comment as the detail shows it, with names from `names`.
pub open spec fn comment_view(c: CommentRecord, names: Map<Seq<char>, Seq<char>>) -> CommentView {
    CommentView {
        author: match c.author {
            Some(a) => shown_for(names, Some(a.account_id@), "Unknown author"@, "Unknown author"@),
            None => "Unknown author"@,
        },
        body: c.body@,
        created: c.created@,
        updated: account_text(c.updated),
    }
}

/// One attachment as the detail shows it.
pub open spec fn attachment_view(a: AttachmentRecord) -> AttachmentView {
    AttachmentView {
        id: a.id@,
        filename: a.filename@,
        mime_type: or_default(a.mime_type, "Unknown type"@),
        size_bytes: a.size_bytes,
        size: a.size@,
    }
}

/// The names the detail uses: the users, then the issue, then the comments.
pub open spec fn detail_names(detail: IssueDetailRecord, users: Seq<UserRecord>) -> Map<Seq<char>, Seq<char>> {
    with_comment_authors(with_issue_names(catalog(users), detail.issue), detail.comments@)
}

/// The issue detail as text.
pub open spec fn detail_view(detail: IssueDetailRecord, users: Seq<UserRecord>) -> IssueDetailView {
    let names = detail_names(detail, users);
    IssueDetailView {
        description: or_default(detail.issue.description, "No description supplied."@),
        comments: detail.comments@.map_values(|c: CommentRecord| comment_view(c, names)),
        attachments: detail.attachments@.map_values(|a: AttachmentRecord| attachment_view(a)),
    }
}

impl IssueDetailViewModel {
    /// The detail of an issue, with names from the users, the issue and its
    /// comments.
    pub fn from_domain(detail: &IssueDetailRecord, users: &[UserRecord]) -> (view: IssueDetailViewModel)
        ensures
            view@ == detail_view(*detail, users@),
            view.comments@.len() == detail.comments@.len(),
            forall|i: int|
                0 <= i < detail.comments@.len() ==> {
                    let row = #[trigger] view.comments@[i];
                    let record = detail.comments@[i];
                    &&& row.body@ == record.body@
                    &&& row.created@ == record.created@
                    &&& (row.updated is Some) == (record.updated is Some)
                    &&& record.updated is Some ==> row.updated->0@ == record.updated->0@
                },
    {
        let mut identities = IdentityDirectory::from_users(users);
        include_issue_names(&mut identities, &detail.issue);
        let mut i: usize = 0;
        let ghost base = identities@;
        proof {
            assert(detail.comments@.take(0) =~= Seq::<CommentRecord>::empty());
        }
        while i < detail.comments.len()
            invariant
                i <= detail.comments@.len(),
                identities.wf(),
                identities@ == with_comment_authors(base, detail.comments@.take(i as int)),
            decreases detail.comments.len() - i,
        {
            assert(detail.comments@.take(i + 1).drop_last() =~= detail.comments@.take(i as int));
            assert(detail.comments@.take(i + 1).last() == detail.comments@[i as int]);
            let author = match &detail.comments[i].author {
                Some(a) => Some(a),
                None => None,
            };
            identities.include_comment_author(author);
            i += 1;
        }
        assert(detail.comments@.take(detail.comments@.len() as int) =~= detail.comments@);
        let ghost names = identities@;
        let mut comments: Vec<CommentViewModel> = Vec::new();
        let mut j: usize = 0;
        while j < detail.comments.len()
            invariant
                j <= detail.comments@.len(),
                identities.wf(),
                identities@ == names,
                comments@.map_values(|c: CommentViewModel| c@) == detail.comments@.take(j as int).map_values(
                    |c: CommentRecord| comment_view(c, names),
                ),
            decreases detail.comments.len() - j,
        {
            let c = &detail.comments[j];
            let author = match &c.author {
                Some(a) => Some(a),
                None => None,
            };
            let row = CommentViewModel {
                author: identities.display_author(author),
                body: String::from_str(c.body.as_str()),
                created: String::from_str(c.created.as_str()),
                updated: match &c.updated {
                    Some(u) => Some(String::from_str(u.as_str())),
                    None => None,
                },
            };
            let ghost before = comments@.map_values(|c: CommentViewModel| c@);
            let ghost row_view = row@;
            comments.push(row);
            assert(comments@.map_values(|c: CommentViewModel| c@) =~= before.push(row_view));
            assert(detail.comments@.take(j + 1).map_values(|c: CommentRecord| comment_view(c, names))
                =~= detail.comments@.take(j as int).map_values(|c: CommentRecord| comment_view(c, names)).push(
                comment_view(detail.comments@[j as int], names),
            ));
            j += 1;
        }
        let mut attachments: Vec<AttachmentViewModel> = Vec::new();
        let mut k: usize = 0;
        while k < detail.attachments.len()
            invariant
                k <= detail.attachments@.len(),
                attachments@.map_values(|a: AttachmentViewModel| a@) == detail.attachments@.take(k as int).map_values(
                    |a: AttachmentRecord| attachment_view(a),
                ),
            decreases detail.attachments.len() - k,
        {
            let a = &detail.attachments[k];
            let row = AttachmentViewModel::new(
                String::from_str(a.id.as_str()),
                String::from_str(a.filename.as_str()),
                match &a.mime_type {
                    Some(m) => Some(String::from_str(m.as_str())),
                    None => None,
                },
                a.size_bytes,
                String::from_str(a.size.as_str()),
            );
            let ghost before = attachments@.map_values(|a: AttachmentViewModel| a@);
            let ghost row_view = row@;
            attachments.push(row);
            assert(attachments@.map_values(|a: AttachmentViewModel| a@) =~= before.push(row_view));
            assert(detail.attachments@.take(k + 1).map_values(|a: AttachmentRecord| attachment_view(a))
                =~= detail.attachments@.take(k as int).map_values(|a: AttachmentRecord| attachment_view(a)).push(
                attachment_view(detail.attachments@[k as int]),
            ));
            k += 1;
        }
        assert(detail.comments@.take(detail.comments@.len() as int) =~= detail.comments@);
        assert(detail.attachments@.take(detail.attachments@.len() as int) =~= detail.attachments@);
        let view = IssueDetailViewModel {
            description: text_or(&detail.issue.description, "No description supplied."),
            comments,
            attachments,
        };
        proof {
            lemma_comment_rows_keep_their_records(*detail, users@);
            assert forall|i: int| 0 <= i < detail.comments@.len() implies {
                let row = #[trigger] view.comments@[i];
                let record = detail.comments@[i];
                &&& row.body@ == record.body@
                &&& row.created@ == record.created@
                &&& (row.updated is Some) == (record.updated is Some)
                &&& record.updated is Some ==> row.updated->0@ == record.updated->0@
            } by {
                assert(view@.comments[i] == view.comments@[i]@);
            }
        }
        view
    }
}

/// Each comment of the detail shows its own body, creation time and edit
/// time: an edited comment keeps its edit time, and only a comment that was
/// never edited shows none.
pub proof fn lemma_comment_rows_keep_their_records(detail: IssueDetailRecord, users: Seq<UserRecord>)
    ensures
        detail_view(detail, users).comments.len() == detail.comments@.len(),
        forall|i: int|
            0 <= i < detail.comments@.len() ==> {
                let row = #[trigger] detail_view(detail, users).comments[i];
                let record = detail.comments@[i];
                &&& row.body == record.body@
                &&& row.created == record.created@
                &&& (row.updated is Some) == (record.updated is Some)
                &&& record.updated is Some ==> row.updated->0 == record.updated->0@
            },
{
}

} // verus!

//! The rendering budget of a rich-text view and the text limits it applies.
use vstd::prelude::*;
use crate::text::spec_is_whitespace;
use vstd::string::StrSliceExecFns;
use vstd::string::StringSliceAdditionalSpecFns;
use vstd::utf8::{decode_utf8, encode_utf8, is_char_boundary};

verus! {

broadcast use vstd::utf8::encode_utf8_valid_utf8, vstd::utf8::encode_utf8_decode_utf8;

/// A soft-wrap opportunity is offered after this many characters without
/// white space.
pub const SOFT_WRAP_AFTER: usize = 64;

/// The zero-width space that offers a soft-wrap opportunity.
pub const SOFT_WRAP: char = '\u{200b}';

/// The largest index not past `end` that is a character boundary of `bytes`.
pub open spec fn floor_char_boundary(bytes: Seq<u8>, end: int) -> int
    decreases end,
{
    if end <= 0 {
        0
    } else if is_char_boundary(bytes, end) {
        end
    } else {
        floor_char_boundary(bytes, end - 1)
    }
}

/// The longest run of whole leading characters of `s` whose UTF-8 encoding
/// fits `limit` bytes, cut where `str` slicing would cut it.
pub open spec fn prefix_within(s: Seq<char>, limit: nat) -> Seq<char> {
    let bytes = encode_utf8(s);
    let end = if bytes.len() < limit {
        bytes.len() as int
    } else {
        limit as int
    };
    decode_utf8(bytes.take(floor_char_boundary(bytes, end)))
}

/// `s` with a soft-wrap opportunity before each character that follows
/// `SOFT_WRAP_AFTER` characters without white space; `run` counts those
/// already seen.
pub open spec fn soft_wrapped_from(s: Seq<char>, run: nat) -> Seq<char>
    decreases s.len(),
{
    if s.len() == 0 {
        Seq::empty()
    } else if spec_is_whitespace(s[0]) {
        seq![s[0]] + soft_wrapped_from(s.drop_first(), 1)
    } else if run >= SOFT_WRAP_AFTER {
        seq![SOFT_WRAP, s[0]] + soft_wrapped_from(s.drop_first(), 1)
    } else {
        seq![s[0]] + soft_wrapped_from(s.drop_first(), run + 1)
    }
}

/// `s` with soft-wrap opportunities in long runs without white space.
pub open spec fn soft_wrapped(s: Seq<char>) -> Seq<char> {
    soft_wrapped_from(s, 0)
}

/// The limits a rendering pass is made with.
#[derive(Clone, Copy, Debug, PartialEq, Eq, Structural)]
pub struct RenderLimits {
    pub max_depth: usize,
    pub max_nodes: usize,
    pub max_text_bytes: usize,
}

/// The counters of one rendering pass.
#[derive(Clone, Copy, Debug, PartialEq, Eq, Structural)]
pub struct RenderBudget {
    pub limits: RenderLimits,
    pub nodes: usize,
    pub image_ordinal: usize,
    pub element_ordinal: usize,
    pub text_bytes: usize,
    pub omitted: bool,
}

impl RenderBudget {
    /// A fresh pass with nothing counted yet.
    pub fn new(limits: RenderLimits) -> (b: RenderBudget)
        ensures
            b == (RenderBudget {
                limits,
                nodes: 0,
                image_ordinal: 0,
                element_ordinal: 0,
                text_bytes: 0,
                omitted: false,
            }),
    {
        RenderBudget {
            limits,
            nodes: 0,
            image_ordinal: 0,
            element_ordinal: 0,
            text_bytes: 0,
            omitted: false,
        }
    }

    /// Admits one more node at `depth`, or records that content was omitted
    /// when the depth or node limit is reached.
    pub fn enter(&mut self, depth: usize) -> (admitted: bool)
        ensures
            admitted == (depth <= old(self).limits.max_depth && old(self).nodes
                < old(self).limits.max_nodes),
            *final(self) == (if admitted {
                (RenderBudget { nodes: (old(self).nodes + 1) as usize, ..*old(self) })
            } else {
                (RenderBudget { omitted: true, ..*old(self) })
            }),
    {
        if depth > self.limits.max_depth || self.nodes >= self.limits.max_nodes {
            self.omitted = true;
            return false;
        }
        self.nodes += 1;
        true
    }

    /// The next element ordinal, capped at the node limit; the counter
    /// saturates.
    pub fn next_element_ordinal(&mut self) -> (ordinal: usize)
        ensures
            ordinal == vstd::math::min(
                old(self).element_ordinal as int,
                old(self).limits.max_nodes as int,
            ),
            *final(self) == (RenderBudget {
                element_ordinal: vstd::math::min(
                    old(self).element_ordinal + 1,
                    usize::MAX as int,
                ) as usize,
                ..*old(self)
            }),
    {
        let ordinal = if self.element_ordinal < self.limits.max_nodes {
            self.element_ordinal
        } else {
            self.limits.max_nodes
        };
        self.element_ordinal = self.element_ordinal.saturating_add(1);
        ordinal
    }

    /// Spends the text budget on `value`: keeps the whole characters that
    /// fit what is left of it, records an omission when anything is cut, and
    /// offers soft-wrap opportunities when `soft_wrap` is set.
    pub fn text_with_wrap(&mut self, value: &str, soft_wrap: bool) -> (out: String)
        ensures
            ({
                let remaining = if old(self).text_bytes <= old(self).limits.max_text_bytes {
                    (old(self).limits.max_text_bytes - old(self).text_bytes) as nat
                } else {
                    0nat
                };
                let kept = prefix_within(value@, remaining);
                &&& out@ == if soft_wrap {
                    soft_wrapped(kept)
                } else {
                    kept
                }
                &&& final(self).text_bytes == old(self).text_bytes + encode_utf8(kept).len()
                &&& final(self).omitted == (old(self).omitted || encode_utf8(kept).len()
                    < encode_utf8(value@).len())
                &&& final(self).limits == old(self).limits
                &&& final(self).nodes == old(self).nodes
                &&& final(self).image_ordinal == old(self).image_ordinal
                &&& final(self).element_ordinal == old(self).element_ordinal
            }),
            old(self).text_bytes <= old(self).limits.max_text_bytes ==> final(self).text_bytes
                <= final(self).limits.max_text_bytes,
    {
        let remaining = self.limits.max_text_bytes.saturating_sub(self.text_bytes);
        let kept = prefix_within_bytes(value, remaining);
        let kept_bytes = kept.as_str().as_bytes().len();
        proof {
            lemma_prefix_within_len(value@, remaining as nat);
        }
        self.text_bytes = self.text_bytes + kept_bytes;
        if kept_bytes < value.as_bytes().len() {
            self.omitted = true;
        }
        if soft_wrap {
            insert_soft_wraps(kept.as_str())
        } else {
            kept
        }
    }

    /// `text_with_wrap` with soft wrapping.
    pub fn text(&mut self, value: &str) -> (out: String)
        ensures
            ({
                let remaining = if old(self).text_bytes <= old(self).limits.max_text_bytes {
                    (old(self).limits.max_text_bytes - old(self).text_bytes) as nat
                } else {
                    0nat
                };
                let kept = prefix_within(value@, remaining);
                &&& out@ == soft_wrapped(kept)
                &&& final(self).text_bytes == old(self).text_bytes + encode_utf8(kept).len()
                &&& final(self).omitted == (old(self).omitted || encode_utf8(kept).len()
                    < encode_utf8(value@).len())
                &&& final(self).limits == old(self).limits
                &&& final(self).nodes == old(self).nodes
                &&& final(self).image_ordinal == old(self).image_ordinal
                &&& final(self).element_ordinal == old(self).element_ordinal
            }),
    {
        self.text_with_wrap(value, true)
    }

    /// `text_with_wrap` without soft wrapping.
    pub fn text_nowrap(&mut self, value: &str) -> (out: String)
        ensures
            ({
                let remaining = if old(self).text_bytes <= old(self).limits.max_text_bytes {
                    (old(self).limits.max_text_bytes - old(self).text_bytes) as nat
                } else {
                    0nat
                };
                let kept = prefix_within(value@, remaining);
                &&& out@ == kept
                &&& final(self).text_bytes == old(self).text_bytes + encode_utf8(kept).len()
                &&& final(self).omitted == (old(self).omitted || encode_utf8(kept).len()
                    < encode_utf8(value@).len())
                &&& final(self).limits == old(self).limits
                &&& final(self).nodes == old(self).nodes
                &&& final(self).image_ordinal == old(self).image_ordinal
                &&& final(self).element_ordinal == old(self).element_ordinal
            }),
    {
        self.text_with_wrap(value, false)
    }
}

/// Whether a run of children reaches its child `index`: only the first
/// `max_children` are drawn, and the run stops after a child once anything
/// has been omitted.
pub open spec fn spec_child_in_reach(omitted: bool, index: int, max_children: int) -> bool {
    index < max_children && !(index > 0 && omitted)
}

/// Whether a run of children reaches its child `index`.
pub fn child_in_reach(budget: &RenderBudget, index: usize, max_children: usize) -> (reached: bool)
    ensures
        reached == spec_child_in_reach(budget.omitted, index as int, max_children as int),
{
    index < max_children && !(index > 0 && budget.omitted)
}

/// Whether a list whose own node sits at `depth` draws its child `index`:
/// the child must be in reach, and the budget must admit it one level
/// deeper, which records an omission when it does not.
pub fn admit_list_child(budget: &mut RenderBudget, index: usize, max_children: usize, depth: usize) -> (admitted: bool)
    ensures
        !spec_child_in_reach(old(budget).omitted, index as int, max_children as int) ==> !admitted
            && *final(budget) == *old(budget),
        spec_child_in_reach(old(budget).omitted, index as int, max_children as int) ==> {
            let d = vstd::math::min(depth + 1, usize::MAX as int);
            &&& admitted == (d <= old(budget).limits.max_depth && old(budget).nodes
                < old(budget).limits.max_nodes)
            &&& *final(budget) == (if admitted {
                (RenderBudget { nodes: (old(budget).nodes + 1) as usize, ..*old(budget) })
            } else {
                (RenderBudget { omitted: true, ..*old(budget) })
            })
        },
{
    if !child_in_reach(budget, index, max_children) {
        return false;
    }
    budget.enter(depth.saturating_add(1))
}

/// Closes a run of `count` children: when there were more than
/// `max_children`, the undrawn rest is recorded as omitted.
pub fn close_children(budget: &mut RenderBudget, count: usize, max_children: usize)
    ensures
        *final(budget) == if count > max_children {
            (RenderBudget { omitted: true, ..*old(budget) })
        } else {
            *old(budget)
        },
{
    if count > max_children {
        budget.omitted = true;
    }
}

/// What `prefix_within` keeps is a prefix of the encoding of `s` of at most
/// `limit` bytes.
pub proof fn lemma_prefix_within_len(s: Seq<char>, limit: nat)
    ensures
        encode_utf8(prefix_within(s, limit)).len() <= limit,
        encode_utf8(prefix_within(s, limit)).len() <= encode_utf8(s).len(),
{
    let bytes = encode_utf8(s);
    let end = if bytes.len() < limit {
        bytes.len() as int
    } else {
        limit as int
    };
    let e = floor_char_boundary(bytes, end);
    lemma_floor_char_boundary(bytes, end);
    vstd::utf8::valid_utf8_split(bytes, e);
    vstd::utf8::decode_utf8_encode_utf8(bytes.take(e));
}

/// When nothing of `s` had to be cut, what `prefix_within` keeps is `s` itself.
pub proof fn lemma_prefix_within_whole(s: Seq<char>, limit: nat)
    requires
        encode_utf8(prefix_within(s, limit)).len() >= encode_utf8(s).len(),
    ensures
        prefix_within(s, limit) == s,
{
    let bytes = encode_utf8(s);
    vstd::utf8::encode_utf8_valid_utf8(s);
    let end = if bytes.len() < limit {
        bytes.len() as int
    } else {
        limit as int
    };
    let e = floor_char_boundary(bytes, end);
    lemma_floor_char_boundary(bytes, end);
    vstd::utf8::valid_utf8_split(bytes, e);
    assert(bytes.take(e) =~= bytes.subrange(0, e));
    vstd::utf8::decode_utf8_encode_utf8(bytes.take(e));
    assert(e == bytes.len());
    assert(bytes.take(e) =~= bytes);
    vstd::utf8::encode_utf8_decode_utf8(s);
}

/// The floor boundary is a boundary no later than where it started.
pub proof fn lemma_floor_char_boundary(bytes: Seq<u8>, end: int)
    requires
        vstd::utf8::valid_utf8(bytes),
        end <= bytes.len(),
    ensures
        0 <= floor_char_boundary(bytes, end) <= vstd::math::max(end, 0),
        is_char_boundary(bytes, floor_char_boundary(bytes, end)),
    decreases end,
{
    if end > 0 && !is_char_boundary(bytes, end) {
        lemma_floor_char_boundary(bytes, end - 1);
    }
}

/// The longest prefix of whole characters of `value` within `limit` bytes.
pub fn prefix_within_bytes(value: &str, limit: usize) -> (out: String)
    ensures
        out@ == prefix_within(value@, limit as nat),
{
    let length = value.as_bytes().len();
    let mut end = if length < limit {
        length
    } else {
        limit
    };
    let ghost bytes = value.spec_bytes();
    let ghost start = end as int;
    while end > 0 && !value.is_char_boundary(end)
        invariant
            end <= start,
            floor_char_boundary(bytes, start) == floor_char_boundary(bytes, end as int),
            bytes == value.spec_bytes(),
        decreases end,
    {
        end -= 1;
    }
    assert(is_char_boundary(bytes, end as int));
    assert(end <= bytes.len()) by {
        if end > bytes.len() {
            assert(!is_char_boundary(bytes, end as int));
        }
    }
    assert(floor_char_boundary(bytes, end as int) == end);
    let (head, _) = value.split_at(end);
    assert(encode_utf8(head@) =~= bytes.take(end as int));
    assert(decode_utf8(encode_utf8(head@)) == head@);
    String::from_str(head)
}

/// `value` with soft-wrap opportunities in long runs without white space.
pub fn insert_soft_wraps(value: &str) -> (wrapped: String)
    ensures
        wrapped@ == soft_wrapped(value@),
{
    let chars = crate::text::chars_of(value);
    let mut out = String::new();
    let mut run: usize = 0;
    let mut i: usize = 0;
    assert(chars@.skip(0) =~= chars@);
    assert(out@ + soft_wrapped(value@) =~= soft_wrapped(value@));
    while i < chars.len()
        invariant
            i <= chars@.len(),
            chars@ == value@,
            run <= SOFT_WRAP_AFTER,
            out@ + soft_wrapped_from(chars@.skip(i as int), run as nat) == soft_wrapped(value@),
        decreases chars.len() - i,
    {
        let c = chars[i];
        let ghost rest = chars@.skip(i as int);
        assert(rest[0] == c);
        assert(rest.drop_first() =~= chars@.skip(i + 1));
        let ghost before = out@;
        let ghost run0 = run;
        if crate::text::is_whitespace(c) {
            run = 0;
        } else if run >= SOFT_WRAP_AFTER {
            crate::text::push_char(&mut out, SOFT_WRAP);
            run = 0;
        }
        crate::text::push_char(&mut out, c);
        run += 1;
        assert(out@ + soft_wrapped_from(chars@.skip(i + 1), run as nat) =~= before
            + soft_wrapped_from(rest, run0 as nat));
        i += 1;
    }
    assert(chars@.skip(chars@.len() as int) =~= Seq::<char>::empty());
    assert(out@ + Seq::<char>::empty() =~= out@);
    out
}

/// The ordinal of an element within the namespace of its surface; the
/// ordinal of the node is capped at `max_nodes` and the result saturates.
pub fn render_element_ordinal(
    surface_ordinal: usize,
    node_ordinal: usize,
    surface_stride: usize,
    max_nodes: usize,
) -> (ordinal: usize)
    ensures
        ordinal == vstd::math::min(
            surface_ordinal * surface_stride + vstd::math::min(node_ordinal as int, max_nodes as int),
            usize::MAX as int,
        ),
{
    let base = match surface_ordinal.checked_mul(surface_stride) {
        Some(product) => product,
        None => usize::MAX,
    };
    let node = if node_ordinal < max_nodes {
        node_ordinal
    } else {
        max_nodes
    };
    base.saturating_add(node)
}

/// The text a pass shows never takes its total past the text limit.
pub proof fn lemma_text_budget_never_exceeded(spent: nat, limit: nat, value: Seq<char>)
    requires
        spent <= limit,
    ensures
        spent + encode_utf8(prefix_within(value, (limit - spent) as nat)).len() <= limit,
{
    lemma_prefix_within_len(value, (limit - spent) as nat);
}

/// `s` without soft-wrap characters.
pub open spec fn without_soft_wraps(s: Seq<char>) -> Seq<char>
    decreases s.len(),
{
    if s.len() == 0 {
        Seq::empty()
    } else {
        (if s[0] == SOFT_WRAP {
            Seq::empty()
        } else {
            seq![s[0]]
        }) + without_soft_wraps(s.drop_first())
    }
}

proof fn lemma_without_soft_wraps_concat(a: Seq<char>, b: Seq<char>)
    ensures
        without_soft_wraps(a + b) == without_soft_wraps(a) + without_soft_wraps(b),
    decreases a.len(),
{
    if a.len() == 0 {
        assert(a + b =~= b);
        assert(without_soft_wraps(a) =~= Seq::<char>::empty());
        assert(without_soft_wraps(a) + without_soft_wraps(b) =~= without_soft_wraps(b));
    } else {
        assert((a + b).drop_first() =~= a.drop_first() + b);
        assert((a + b)[0] == a[0]);
        lemma_without_soft_wraps_concat(a.drop_first(), b);
        let head = if a[0] == SOFT_WRAP {
            Seq::<char>::empty()
        } else {
            seq![a[0]]
        };
        assert(head + (without_soft_wraps(a.drop_first()) + without_soft_wraps(b)) =~= (head
            + without_soft_wraps(a.drop_first())) + without_soft_wraps(b));
    }
}

/// Soft wrapping only inserts soft-wrap characters: removing them gives back
/// the text without its own soft-wrap characters.
pub proof fn lemma_soft_wraps_only_insert(s: Seq<char>, run: nat)
    ensures
        without_soft_wraps(soft_wrapped_from(s, run)) == without_soft_wraps(s),
    decreases s.len(),
{
    if s.len() > 0 {
        let rest = s.drop_first();
        let next: nat = if spec_is_whitespace(s[0]) || run >= SOFT_WRAP_AFTER {
            1
        } else {
            run + 1
        };
        lemma_soft_wraps_only_insert(rest, next);
        let w = soft_wrapped_from(rest, next);
        let single = seq![s[0]];
        assert(single.drop_first() =~= Seq::<char>::empty());
        assert(without_soft_wraps(Seq::<char>::empty()) =~= Seq::<char>::empty());
        assert(without_soft_wraps(single) =~= (if s[0] == SOFT_WRAP {
            Seq::<char>::empty()
        } else {
            single
        }));
        if !spec_is_whitespace(s[0]) && run >= SOFT_WRAP_AFTER {
            let pair = seq![SOFT_WRAP, s[0]];
            assert(pair.drop_first() =~= single);
            lemma_without_soft_wraps_concat(pair, w);
            assert(without_soft_wraps(pair) =~= without_soft_wraps(single));
            assert(soft_wrapped_from(s, run) == pair + w);
        } else {
            lemma_without_soft_wraps_concat(single, w);
            assert(soft_wrapped_from(s, run) == single + w);
        }
        assert(s =~= single + rest);
        lemma_without_soft_wraps_concat(single, rest);
    }
}

/// The floor boundary lies in the text, at or before where it started.
pub proof fn lemma_floor_char_boundary_within(bytes: Seq<u8>, end: int)
    requires
        vstd::utf8::valid_utf8(bytes),
    ensures
        0 <= floor_char_boundary(bytes, end),
        floor_char_boundary(bytes, end) <= bytes.len(),
        end >= 0 ==> floor_char_boundary(bytes, end) <= end,
        is_char_boundary(bytes, floor_char_boundary(bytes, end)),
    decreases end,
{
    if end > 0 && !is_char_boundary(bytes, end) {
        lemma_floor_char_boundary_within(bytes, end - 1);
    } else if end > 0 {
        assert(end <= bytes.len()) by {
            if end > bytes.len() {
                assert(!is_char_boundary(bytes, end));
            }
        }
    }
}

} // verus!

//! The names that the rich-text view shows for images and attachments, and
//! the palette tone of a status lozenge.
use vstd::prelude::*;
use crate::rich_text_view::budget::{floor_char_boundary, prefix_within, prefix_within_bytes};
use crate::text::{char_utf8_len, spec_is_control, spec_is_whitespace, trim, utf8_len};
use vstd::string::StrSliceExecFns;
use vstd::string::StringSliceAdditionalSpecFns;
use vstd::utf8::{decode_utf8, encode_utf8, is_char_boundary};

verus! {

broadcast use vstd::utf8::encode_utf8_valid_utf8, vstd::utf8::encode_utf8_decode_utf8;

/// The character shown in place of a control character.
pub const REPLACEMENT_CHARACTER: char = '\u{fffd}';
/// The character that marks a cut name.
pub const ELLIPSIS: char = '\u{2026}';

/// The name of an image: its alt text when that is not blank, else its
/// filename.
pub open spec fn spec_rich_image_name(alt_text: Option<Seq<char>>, filename: Seq<char>) -> Seq<char> {
    match alt_text {
        Some(alt) => if trim(alt).len() > 0 {
            alt
        } else {
            filename
        },
        None => filename,
    }
}

/// The filename normalization from the state after `out` was produced:
/// white space collapses to single spaces between words, a control character
/// reads as the replacement character, and scanning stops once `budget`
/// bytes of input were read or `max_bytes` bytes written.  The flag says
/// whether scanning stopped early.
pub open spec fn normalize_filename_from(
    s: Seq<char>,
    out: Seq<char>,
    pending_space: bool,
    scanned: nat,
    max_bytes: nat,
    budget: nat,
) -> (Seq<char>, bool)
    decreases s.len(),
{
    if s.len() == 0 {
        (out, false)
    } else {
        let c = s[0];
        let w = char_utf8_len(c);
        if scanned + w > budget || utf8_len(out) >= max_bytes {
            (out, true)
        } else if spec_is_whitespace(c) {
            normalize_filename_from(
                s.drop_first(),
                out,
                pending_space || out.len() > 0,
                scanned + w,
                max_bytes,
                budget,
            )
        } else {
            let spaced = if pending_space {
                out.push(' ')
            } else {
                out
            };
            let shown = if spec_is_control(c) {
                REPLACEMENT_CHARACTER
            } else {
                c
            };
            normalize_filename_from(s.drop_first(), spaced.push(shown), false, scanned + w, max_bytes, budget)
        }
    }
}

/// The normalized filename and whether it was cut short.
pub open spec fn normalized_filename(s: Seq<char>, max_bytes: usize, lookahead_bytes: usize) -> (Seq<char>, bool) {
    normalize_filename_from(
        s,
        Seq::empty(),
        false,
        0,
        max_bytes as nat,
        vstd::math::min(max_bytes + lookahead_bytes, usize::MAX as int) as nat,
    )
}

/// The filename of an attachment card: normalized, a placeholder when
/// nothing printable is left, and cut with an ellipsis to fit `max_bytes`.
pub open spec fn bounded_filename(s: Seq<char>, max_bytes: usize, lookahead_bytes: usize) -> Seq<char> {
    let (name, truncated) = normalized_filename(s, max_bytes, lookahead_bytes);
    if name.len() == 0 {
        "Unnamed attachment"@
    } else if !truncated && utf8_len(name) <= max_bytes {
        name
    } else {
        let bytes = encode_utf8(name);
        let end = if max_bytes >= 3 {
            max_bytes - 3
        } else {
            0
        };
        decode_utf8(bytes.take(floor_char_boundary(bytes, end))).push(ELLIPSIS)
    }
}

/// The name of an image: its alt text when that is not blank, else its
/// filename.
pub fn rich_image_name<'a>(alt_text: Option<&'a str>, filename: &'a str) -> (name: &'a str)
    ensures
        name@ == spec_rich_image_name(
            match alt_text {
                Some(a) => Some(a@),
                None => None,
            },
            filename@,
        ),
{
    match alt_text {
        Some(alt) => {
            let trimmed = crate::text::trimmed(alt);
            if trimmed.as_str().is_empty() {
                filename
            } else {
                alt
            }
        },
        None => filename,
    }
}

/// An image label cut to whole characters within `max_label_bytes` bytes.
pub fn bounded_image_name(value: &str, max_label_bytes: usize) -> (label: String)
    ensures
        label@ == prefix_within(value@, max_label_bytes as nat),
{
    prefix_within_bytes(value, max_label_bytes)
}

/// Keeps a filename readable and layout-safe without dropping printable
/// text: runs of white space become one space between words, control
/// characters read as the replacement character, and at most
/// `max_bytes + lookahead_bytes` bytes of input are read.
pub fn normalize_attachment_filename(value: &str, max_bytes: usize, lookahead_bytes: usize) -> (r: (
    String,
    bool,
))
    ensures
        (r.0@, r.1) == normalized_filename(value@, max_bytes, lookahead_bytes),
{
    let chars = crate::text::chars_of(value);
    let total = value.as_bytes().len();
    let budget = max_bytes.saturating_add(lookahead_bytes);
    let mut out = String::new();
    let mut pending_space = false;
    let mut scanned: usize = 0;
    let mut i: usize = 0;
    proof {
        assert(chars@.skip(0) =~= chars@);
        assert(chars@.take(0) =~= Seq::<char>::empty());
        assert(vstd::utf8::encode_utf8(Seq::<char>::empty()).len() == 0);
    }
    while i < chars.len()
        invariant
            i <= chars@.len(),
            chars@ == value@,
            total == utf8_len(value@),
            budget == vstd::math::min(max_bytes + lookahead_bytes, usize::MAX as int),
            scanned == utf8_len(chars@.take(i as int)),
            normalize_filename_from(chars@.skip(i as int), out@, pending_space, scanned as nat, max_bytes as nat, budget as nat)
                == normalized_filename(value@, max_bytes, lookahead_bytes),
        decreases chars.len() - i,
    {
        let c = chars[i];
        let w = crate::text::char_len_utf8(c);
        let ghost rest = chars@.skip(i as int);
        assert(rest[0] == c);
        assert(rest.drop_first() =~= chars@.skip(i + 1));
        proof {
            assert(chars@.take(i + 1) =~= chars@.take(i as int).push(c));
            crate::text::lemma_utf8_len_push(chars@.take(i as int), c);
            crate::text::lemma_encode_utf8_concat(chars@.take(i + 1), chars@.skip(i + 1));
            assert(chars@.take(i + 1) + chars@.skip(i + 1) =~= chars@);
        }
        let out_bytes = out.as_str().as_bytes().len();
        if scanned + w > budget || out_bytes >= max_bytes {
            return (out, true);
        }
        scanned += w;
        if crate::text::is_whitespace(c) {
            if out_bytes > 0 {
                pending_space = true;
            }
            proof {
                if out@.len() == 0 {
                    assert(vstd::utf8::encode_utf8(out@).len() == 0);
                } else {
                    crate::text::lemma_utf8_len_push(out@.drop_last(), out@.last());
                    assert(out@.drop_last().push(out@.last()) =~= out@);
                }
            }
        } else {
            if pending_space {
                crate::text::push_char(&mut out, ' ');
                pending_space = false;
            }
            if crate::text::is_control(c) {
                crate::text::push_char(&mut out, REPLACEMENT_CHARACTER);
            } else {
                crate::text::push_char(&mut out, c);
            }
        }
        i += 1;
    }
    proof {
        assert(chars@.skip(i as int) =~= Seq::<char>::empty());
    }
    (out, false)
}

/// The filename of an attachment card, at most `max_bytes` bytes when that
/// leaves room for the ellipsis.
pub fn bounded_attachment_filename(value: &str, max_bytes: usize, lookahead_bytes: usize) -> (name: String)
    ensures
        name@ == bounded_filename(value@, max_bytes, lookahead_bytes),
{
    let (normalized, truncated) = normalize_attachment_filename(value, max_bytes, lookahead_bytes);
    let n = normalized.as_str();
    if n.is_empty() {
        return String::from_str("Unnamed attachment");
    }
    if !truncated && n.as_bytes().len() <= max_bytes {
        return normalized;
    }
    let end = max_bytes.saturating_sub(3);
    let mut cut = String::new();
    let ghost bytes = n.spec_bytes();
    let mut at = end;
    while at > 0 && !n.is_char_boundary(at)
        invariant
            at <= end,
            floor_char_boundary(bytes, end as int) == floor_char_boundary(bytes, at as int),
            bytes == n.spec_bytes(),
        decreases at,
    {
        at -= 1;
    }
    assert(floor_char_boundary(bytes, at as int) == at);
    assert(at <= bytes.len()) by {
        if at > bytes.len() {
            assert(!is_char_boundary(bytes, at as int));
        }
    }
    let (head, _) = n.split_at(at);
    assert(encode_utf8(head@) =~= bytes.take(at as int));
    assert(decode_utf8(encode_utf8(head@)) == head@);
    crate::text::push_str(&mut cut, head);
    crate::text::push_char(&mut cut, ELLIPSIS);
    cut
}

/// The colour of a status lozenge.
#[derive(Clone, Copy, Debug, PartialEq, Eq, Structural)]
pub enum RichStatusColor {
    Neutral,
    Purple,
    Blue,
    Red,
    Yellow,
    Green,
}

/// The semantic tones of a palette; `C` is a colour.
#[derive(Clone, Copy, Debug, PartialEq, Eq, Structural)]
pub struct StatusPalette<C> {
    pub muted: C,
    pub info: C,
    pub warning: C,
    pub success: C,
    pub danger: C,
}

/// The palette tone of a status colour: purple and blue are informational,
/// red is danger, yellow a warning, green a success, neutral muted.
pub open spec fn spec_status_tone<C>(color: RichStatusColor, palette: StatusPalette<C>) -> C {
    match color {
        RichStatusColor::Neutral => palette.muted,
        RichStatusColor::Purple | RichStatusColor::Blue => palette.info,
        RichStatusColor::Red => palette.danger,
        RichStatusColor::Yellow => palette.warning,
        RichStatusColor::Green => palette.success,
    }
}

pub fn status_tone<C: Copy>(color: RichStatusColor, palette: StatusPalette<C>) -> (tone: C)
    ensures
        tone == spec_status_tone(color, palette),
{
    match color {
        RichStatusColor::Neutral => palette.muted,
        RichStatusColor::Purple | RichStatusColor::Blue => palette.info,
        RichStatusColor::Red => palette.danger,
        RichStatusColor::Yellow => palette.warning,
        RichStatusColor::Green => palette.success,
    }
}

/// A name that had to be cut fits its byte bound, ellipsis included.
pub proof fn lemma_bounded_filename_fits(s: Seq<char>, max_bytes: usize, lookahead_bytes: usize)
    requires
        max_bytes >= 3,
        normalized_filename(s, max_bytes, lookahead_bytes).0.len() > 0,
    ensures
        utf8_len(bounded_filename(s, max_bytes, lookahead_bytes)) <= max_bytes,
{
    let (name, truncated) = normalized_filename(s, max_bytes, lookahead_bytes);
    if truncated || utf8_len(name) > max_bytes {
        let bytes = encode_utf8(name);
        let end = max_bytes - 3;
        crate::rich_text_view::budget::lemma_floor_char_boundary_within(bytes, end as int);
        let e = floor_char_boundary(bytes, end as int);
        vstd::utf8::valid_utf8_split(bytes, e);
        assert(bytes.take(e) =~= bytes.subrange(0, e));
        vstd::utf8::decode_utf8_encode_utf8(bytes.take(e));
        let kept = decode_utf8(bytes.take(e));
        crate::text::lemma_utf8_len_push(kept, ELLIPSIS);
    }
}

} // verus!

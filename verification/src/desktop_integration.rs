//! Per-user desktop integration of a directly launched AppImage: the data
//! root it installs under, the rewritten desktop entry, and the icon check.
use vstd::prelude::*;
use crate::local_data::{is_absolute, path_join};
use crate::text::{bytes_match_at, has_control};
use vstd::string::StrSliceExecFns;
use vstd::string::StringExecFns;

verus! {

/// Largest desktop entry accepted or written, in bytes.
pub const MAX_DESKTOP_BYTES: usize = 65536;
/// Largest icon accepted or written, in bytes.
pub const MAX_ICON_BYTES: usize = 1048576;

/// A registration step was refused.
#[derive(Clone, Copy, Debug, PartialEq, Eq, Structural)]
pub struct RegistrationError;

/// The data root to install under: `$XDG_DATA_HOME` when it is set and
/// absolute, else `$HOME/.local/share` when `$HOME` is set and absolute.
pub open spec fn spec_resolve_data_home(xdg_data_home: Option<Seq<char>>, home: Option<Seq<char>>) -> Option<
    Seq<char>,
> {
    if xdg_data_home is Some && xdg_data_home->0.len() > 0 && is_absolute(xdg_data_home->0) {
        Some(xdg_data_home->0)
    } else if home is Some && home->0.len() > 0 && is_absolute(home->0) {
        Some(path_join(path_join(home->0, ".local"@), "share"@))
    } else {
        None
    }
}

/// `c` as it must be written inside a quoted desktop-entry `Exec` argument.
pub open spec fn escape_exec_char(c: char) -> Seq<char> {
    if c == '"' {
        seq!['\\', '"']
    } else if c == '$' {
        seq!['\\', '$']
    } else if c == '%' {
        seq!['%', '%']
    } else if c == '\\' {
        seq!['\\', '\\']
    } else if c == '`' {
        seq!['\\', '`']
    } else {
        seq![c]
    }
}

/// `s` with every character escaped for a quoted `Exec` argument.
pub open spec fn escaped_exec_argument(s: Seq<char>) -> Seq<char>
    decreases s.len(),
{
    if s.len() == 0 {
        Seq::empty()
    } else {
        escaped_exec_argument(s.drop_last()) + escape_exec_char(s.last())
    }
}

/// The UTF-8 bytes of `s`.
pub open spec fn utf8(s: Seq<char>) -> Seq<u8> {
    vstd::utf8::encode_utf8(s)
}

pub open spec fn exec_placeholder() -> Seq<u8> {
    utf8("Exec=jira-gpui"@)
}

pub open spec fn expected_name() -> Seq<u8> {
    utf8("Name=Jira Desk"@)
}

pub open spec fn expected_icon() -> Seq<u8> {
    utf8("Icon=dev.jiradesk.JiraDesk"@)
}

/// The `Exec` line that launches the AppImage at `appimage`.
pub open spec fn exec_line(appimage: Seq<char>) -> Seq<u8> {
    utf8("Exec=\""@ + escaped_exec_argument(appimage) + "\""@)
}

/// Whether `body` begins with `prefix`.
pub open spec fn starts_with(body: Seq<u8>, prefix: Seq<u8>) -> bool {
    prefix.len() <= body.len() && body.take(prefix.len() as int) == prefix
}

/// Length of the first line of `t`, its newline included.
pub open spec fn first_line_len(t: Seq<u8>) -> nat
    decreases t.len(),
{
    if t.len() == 0 {
        0
    } else if t[0] == 10u8 {
        1
    } else {
        1 + first_line_len(t.drop_first())
    }
}

/// The first line of a non-empty text is non-empty and no longer than the text.
pub proof fn lemma_first_line_len_bounds(t: Seq<u8>)
    ensures
        t.len() > 0 ==> 1 <= first_line_len(t),
        first_line_len(t) <= t.len(),
    decreases t.len(),
{
    if t.len() > 0 && t[0] != 10u8 {
        lemma_first_line_len_bounds(t.drop_first());
    }
}

/// A line without its newline.
pub open spec fn line_body(line: Seq<u8>) -> Seq<u8> {
    if line.len() > 0 && line.last() == 10u8 {
        line.drop_last()
    } else {
        line
    }
}

/// `t` with every line whose text is exactly the placeholder `Exec` line
/// replaced by `replacement`, newlines kept.
pub open spec fn rewritten(t: Seq<u8>, replacement: Seq<u8>) -> Seq<u8>
    decreases t.len(),
{
    if t.len() == 0 {
        Seq::empty()
    } else {
        proof {
            lemma_first_line_len_bounds(t);
        }
        let k = first_line_len(t) as int;
        let line = t.take(k);
        let body = line_body(line);
        let out_line = if body == exec_placeholder() {
            replacement + line.skip(body.len() as int)
        } else {
            line
        };
        out_line + rewritten(t.skip(k), replacement)
    }
}

/// The number of lines of `t` whose text satisfies `pred`.
pub open spec fn count_lines(t: Seq<u8>, pred: spec_fn(Seq<u8>) -> bool) -> nat
    decreases t.len(),
{
    if t.len() == 0 {
        0
    } else {
        proof {
            lemma_first_line_len_bounds(t);
        }
        let k = first_line_len(t) as int;
        (if pred(line_body(t.take(k))) {
            1nat
        } else {
            0nat
        }) + count_lines(t.skip(k), pred)
    }
}

pub open spec fn is_placeholder(body: Seq<u8>) -> bool {
    body == exec_placeholder()
}

pub open spec fn is_exec_field(body: Seq<u8>) -> bool {
    starts_with(body, utf8("Exec="@))
}

pub open spec fn is_name_field(body: Seq<u8>) -> bool {
    starts_with(body, utf8("Name="@))
}

pub open spec fn is_icon_field(body: Seq<u8>) -> bool {
    starts_with(body, utf8("Icon="@))
}

pub open spec fn is_expected_name(body: Seq<u8>) -> bool {
    body == expected_name()
}

pub open spec fn is_expected_icon(body: Seq<u8>) -> bool {
    body == expected_icon()
}

pub open spec fn placeholder_lines() -> spec_fn(Seq<u8>) -> bool {
    |b: Seq<u8>| is_placeholder(b)
}

pub open spec fn exec_lines() -> spec_fn(Seq<u8>) -> bool {
    |b: Seq<u8>| is_exec_field(b)
}

pub open spec fn name_lines() -> spec_fn(Seq<u8>) -> bool {
    |b: Seq<u8>| is_name_field(b)
}

pub open spec fn icon_lines() -> spec_fn(Seq<u8>) -> bool {
    |b: Seq<u8>| is_icon_field(b)
}

pub open spec fn expected_name_lines() -> spec_fn(Seq<u8>) -> bool {
    |b: Seq<u8>| is_expected_name(b)
}

pub open spec fn expected_icon_lines() -> spec_fn(Seq<u8>) -> bool {
    |b: Seq<u8>| is_expected_icon(b)
}

/// Whether the template has exactly one `Exec`, `Name` and `Icon` line, and
/// these are the placeholder `Exec` line and the expected name and icon.
pub open spec fn unambiguous_template(t: Seq<u8>) -> bool {
    &&& count_lines(t, placeholder_lines()) == 1
    &&& count_lines(t, exec_lines()) == 1
    &&& count_lines(t, name_lines()) == 1
    &&& count_lines(t, icon_lines()) == 1
    &&& count_lines(t, expected_name_lines()) == 1
    &&& count_lines(t, expected_icon_lines()) == 1
}

/// The installed desktop entry for the AppImage at `appimage`, or `None` when
/// the template is too large, not UTF-8 or ambiguous, the path is empty or
/// holds a control character, or the result would be too large.
pub open spec fn spec_rewrite_desktop_entry(template: Seq<u8>, appimage: Seq<char>) -> Option<Seq<u8>> {
    if template.len() > MAX_DESKTOP_BYTES {
        None
    } else if !vstd::utf8::valid_utf8(template) {
        None
    } else if appimage.len() == 0 || has_control(appimage) {
        None
    } else {
        let out = rewritten(template, exec_line(appimage));
        if !unambiguous_template(template) || out.len() > MAX_DESKTOP_BYTES {
            None
        } else {
            Some(out)
        }
    }
}

/// `IHDR`, the type of the PNG header chunk.
pub open spec fn ihdr_chunk_type() -> Seq<u8> {
    seq![0x49u8, 0x48u8, 0x44u8, 0x52u8]
}

/// The big-endian number of four bytes.
pub open spec fn be_u32(b: Seq<u8>) -> int {
    b[0] * 16777216 + b[1] * 65536 + b[2] * 256 + b[3]
}

/// Whether `icon` is a bounded PNG whose header declares 256 by 256 pixels.
pub open spec fn is_valid_icon(icon: Seq<u8>) -> bool {
    &&& 24 <= icon.len() <= MAX_ICON_BYTES
    &&& icon.take(8) == crate::diagnostics::schema::png_magic()
    &&& icon.subrange(12, 16) == ihdr_chunk_type()
    &&& be_u32(icon.subrange(16, 20)) == 256
    &&& be_u32(icon.subrange(20, 24)) == 256
}

/// Whether `std::str::from_utf8` accepts `bytes`.  The contract says that it
/// does exactly for the byte sequences that vstd's `valid_utf8` describes.
#[verifier::external_body]
fn is_utf8(bytes: &[u8]) -> (b: bool)
    ensures
        b == vstd::utf8::valid_utf8(bytes@),
{
    std::str::from_utf8(bytes).is_ok()
}

/// Where to install: `$XDG_DATA_HOME` when set and absolute, else
/// `$HOME/.local/share` when `$HOME` is set and absolute.
pub fn resolve_data_home(xdg_data_home: Option<&str>, home: Option<&str>) -> (r: Option<String>)
    ensures
        match spec_resolve_data_home(
            match xdg_data_home {
                Some(x) => Some(x@),
                None => None,
            },
            match home {
                Some(h) => Some(h@),
                None => None,
            },
        ) {
            Some(p) => r matches Some(s) && s@ == p,
            None => r is None,
        },
{
    if let Some(x) = xdg_data_home {
        let chars = crate::text::chars_of(x);
        if chars.len() > 0 && chars[0] == '/' {
            return Some(crate::text::string_of(&chars));
        }
    }
    match home {
        Some(h) => {
            let chars = crate::text::chars_of(h);
            if chars.len() > 0 && chars[0] == '/' {
                let local = join(h, ".local");
                Some(join(local.as_str(), "share"))
            } else {
                None
            }
        },
        None => None,
    }
}

/// `base` joined with the relative component `leaf`.
fn join(base: &str, leaf: &str) -> (joined: String)
    ensures
        joined@ == path_join(base@, leaf@),
{
    let chars = crate::text::chars_of(base);
    let mut out = crate::text::string_of(&chars);
    let n = chars.len();
    if !(n > 0 && chars[n - 1] == '/') {
        crate::text::push_char(&mut out, '/');
    }
    crate::text::push_str(&mut out, leaf);
    out
}

/// `path` escaped for a quoted desktop-entry `Exec` argument: `"`, `$`,
/// backslash and backtick get a backslash, and `%` is doubled.
pub fn escape_exec_argument(path: &str) -> (escaped: String)
    ensures
        escaped@ == escaped_exec_argument(path@),
{
    let chars = crate::text::chars_of(path);
    let mut out = String::new();
    let mut i: usize = 0;
    while i < chars.len()
        invariant
            i <= chars.len(),
            chars@ == path@,
            out@ == escaped_exec_argument(chars@.take(i as int)),
        decreases chars.len() - i,
    {
        let c = chars[i];
        assert(chars@.take(i + 1).drop_last() =~= chars@.take(i as int));
        if c == '"' {
            crate::text::push_char(&mut out, '\\');
            crate::text::push_char(&mut out, '"');
        } else if c == '$' {
            crate::text::push_char(&mut out, '\\');
            crate::text::push_char(&mut out, '$');
        } else if c == '%' {
            crate::text::push_char(&mut out, '%');
            crate::text::push_char(&mut out, '%');
        } else if c == '\\' {
            crate::text::push_char(&mut out, '\\');
            crate::text::push_char(&mut out, '\\');
        } else if c == '`' {
            crate::text::push_char(&mut out, '\\');
            crate::text::push_char(&mut out, '`');
        } else {
            crate::text::push_char(&mut out, c);
        }
        assert(out@ =~= escaped_exec_argument(chars@.take(i + 1)));
        i += 1;
    }
    assert(chars@.take(chars.len() as int) =~= chars@);
    out
}

/// Whether the icon is a PNG of at most `MAX_ICON_BYTES` bytes whose header
/// declares 256 by 256 pixels.
pub fn validate_png(icon: &[u8]) -> (r: Result<(), RegistrationError>)
    ensures
        r is Ok <==> is_valid_icon(icon@),
{
    if icon.len() > MAX_ICON_BYTES || icon.len() < 24 {
        return Err(RegistrationError);
    }
    let png: [u8; 8] = [0x89, 0x50, 0x4e, 0x47, 0x0d, 0x0a, 0x1a, 0x0a];
    assert(png@ =~= crate::diagnostics::schema::png_magic());
    let ihdr: [u8; 4] = [0x49, 0x48, 0x44, 0x52];
    assert(ihdr@ =~= ihdr_chunk_type());
    if !bytes_match_at(icon, 0, png.as_slice()) || !bytes_match_at(icon, 12, ihdr.as_slice()) {
        proof {
            assert(icon@.subrange(0, 8) =~= icon@.take(8));
        }
        return Err(RegistrationError);
    }
    assert(icon@.subrange(0, 8) =~= icon@.take(8));
    let width: u32 = (icon[16] as u32) * 16777216 + (icon[17] as u32) * 65536 + (icon[18] as u32)
        * 256 + (icon[19] as u32);
    let height: u32 = (icon[20] as u32) * 16777216 + (icon[21] as u32) * 65536 + (icon[22] as u32)
        * 256 + (icon[23] as u32);
    assert(be_u32(icon@.subrange(16, 20)) == width);
    assert(be_u32(icon@.subrange(20, 24)) == height);
    if width == 256 && height == 256 {
        Ok(())
    } else {
        Err(RegistrationError)
    }
}

proof fn lemma_first_line_len_scan(s: Seq<u8>, e: int)
    requires
        0 <= e <= s.len(),
        forall|i: int| 0 <= i < e ==> s[i] != 10u8,
        e == s.len() || s[e] == 10u8,
    ensures
        first_line_len(s) == if e < s.len() {
            e + 1
        } else {
            e
        },
    decreases e,
{
    if e > 0 {
        let rest = s.drop_first();
        assert forall|i: int| 0 <= i < e - 1 implies rest[i] != 10u8 by {
            assert(rest[i] == s[i + 1]);
        }
        if e < s.len() {
            assert(rest[e - 1] == s[e]);
        }
        lemma_first_line_len_scan(rest, e - 1);
    }
}

/// One line of `t`, from `pos` to the newline at `end` (or the end of `t`):
/// what `rewritten` and `count_lines` make of it and of the rest.
proof fn lemma_line_step(t: Seq<u8>, pos: int, end: int, r: Seq<u8>)
    requires
        0 <= pos < t.len(),
        pos <= end <= t.len(),
        forall|i: int| pos <= i < end ==> t[i] != 10u8,
        end == t.len() || t[end] == 10u8,
    ensures
        ({
            let s = t.skip(pos);
            let next = if end < t.len() {
                end + 1
            } else {
                end
            };
            let body = t.subrange(pos, end);
            &&& rewritten(s, r) == (if body == exec_placeholder() {
                r + t.subrange(end, next)
            } else {
                t.subrange(pos, next)
            }) + rewritten(t.skip(next), r)
            &&& forall|pred: spec_fn(Seq<u8>) -> bool|
                #[trigger] count_lines(s, pred) == (if pred(body) {
                    1nat
                } else {
                    0nat
                }) + count_lines(t.skip(next), pred)
        }),
{
    let s = t.skip(pos);
    let next = if end < t.len() {
        end + 1
    } else {
        end
    };
    assert forall|i: int| 0 <= i < end - pos implies s[i] != 10u8 by {
        assert(s[i] == t[pos + i]);
    }
    if end < t.len() {
        assert(s[end - pos] == t[end]);
    }
    lemma_first_line_len_scan(s, end - pos);
    let k = next - pos;
    assert(first_line_len(s) == k);
    let line = s.take(k);
    assert(line =~= t.subrange(pos, next));
    assert(line_body(line) =~= t.subrange(pos, end));
    assert(s.skip(k) =~= t.skip(next));
    assert(line.skip(t.subrange(pos, end).len() as int) =~= t.subrange(end, next));
}

/// The position of the first newline at or after `pos`, or the end of `t`.
fn find_line_end(t: &[u8], pos: usize) -> (end: usize)
    requires
        pos <= t@.len(),
    ensures
        pos <= end <= t@.len(),
        forall|i: int| pos <= i < end ==> t@[i] != 10u8,
        end == t@.len() || t@[end as int] == 10u8,
{
    let mut end = pos;
    while end < t.len() && t[end] != 10u8
        invariant
            pos <= end <= t@.len(),
            forall|i: int| pos <= i < end ==> t@[i] != 10u8,
        decreases t.len() - end,
    {
        end += 1;
    }
    end
}

/// Whether `t[from..to]` is exactly `lit`.
fn range_equals(t: &[u8], from: usize, to: usize, lit: &[u8]) -> (b: bool)
    requires
        from <= to <= t@.len(),
    ensures
        b == (t@.subrange(from as int, to as int) == lit@),
{
    if to - from != lit.len() {
        return false;
    }
    let b = bytes_match_at(t, from, lit);
    assert(t@.subrange(from as int, to as int) =~= t@.subrange(from as int, from + lit@.len()));
    b
}

/// Whether `t[from..to]` begins with `lit`.
fn range_starts_with(t: &[u8], from: usize, to: usize, lit: &[u8]) -> (b: bool)
    requires
        from <= to <= t@.len(),
    ensures
        b == starts_with(t@.subrange(from as int, to as int), lit@),
{
    if lit.len() > to - from {
        return false;
    }
    let b = bytes_match_at(t, from, lit);
    assert(t@.subrange(from as int, to as int).take(lit@.len() as int) =~= t@.subrange(
        from as int,
        from + lit@.len(),
    ));
    b
}

/// Appends `src[from..to]` to `out`.
fn append_range(out: &mut Vec<u8>, src: &[u8], from: usize, to: usize)
    requires
        from <= to <= src@.len(),
    ensures
        final(out)@ == old(out)@ + src@.subrange(from as int, to as int),
{
    let mut i = from;
    while i < to
        invariant
            from <= i <= to <= src@.len(),
            out@ == old(out)@ + src@.subrange(from as int, i as int),
        decreases to - i,
    {
        out.push(src[i]);
        assert(src@.subrange(from as int, i + 1) =~= src@.subrange(from as int, i as int).push(
            src@[i as int],
        ));
        i += 1;
    }
}

/// Installs the AppImage path into the desktop entry template.
///
/// The one line that reads exactly `Exec=jira-gpui` becomes an `Exec` line
/// with the escaped, quoted path; every other byte is kept.  The template
/// must be UTF-8 of at most `MAX_DESKTOP_BYTES` bytes with exactly one
/// `Exec`, `Name` and `Icon` line, these being the placeholder, `Name=Jira
/// Desk` and `Icon=dev.jiradesk.JiraDesk`; the path must be non-empty and free
/// of control characters; and the result must fit `MAX_DESKTOP_BYTES`.
pub fn rewrite_desktop_entry(template: &[u8], appimage: &str) -> (r: Result<
    Vec<u8>,
    RegistrationError,
>)
    ensures
        match spec_rewrite_desktop_entry(template@, appimage@) {
            Some(out) => r matches Ok(v) && v@ == out,
            None => r is Err,
        },
{
    if template.len() > MAX_DESKTOP_BYTES {
        return Err(RegistrationError);
    }
    if !is_utf8(template) {
        return Err(RegistrationError);
    }
    let path_chars = crate::text::chars_of(appimage);
    if path_chars.len() == 0 || crate::text::any_control(&path_chars) {
        return Err(RegistrationError);
    }
    let escaped = escape_exec_argument(appimage);
    let mut line_text = String::new();
    crate::text::push_str(&mut line_text, "Exec=\"");
    crate::text::push_str(&mut line_text, escaped.as_str());
    crate::text::push_str(&mut line_text, "\"");
    let replacement = line_text.as_str().as_bytes_vec();
    let ghost r = exec_line(appimage@);
    assert(replacement@ == r);
    let placeholder = "Exec=jira-gpui".as_bytes();
    let exec_key = "Exec=".as_bytes();
    let name_key = "Name=".as_bytes();
    let icon_key = "Icon=".as_bytes();
    let name_line = "Name=Jira Desk".as_bytes();
    let icon_line = "Icon=dev.jiradesk.JiraDesk".as_bytes();
    let ghost t = template@;
    let mut out: Vec<u8> = Vec::new();
    let mut replacements: usize = 0;
    let mut execs: usize = 0;
    let mut names: usize = 0;
    let mut icons: usize = 0;
    let mut exact_names: usize = 0;
    let mut exact_icons: usize = 0;
    let mut pos: usize = 0;
    assert(t.skip(0) =~= t);
    assert(out@ + rewritten(t, r) =~= rewritten(t, r));
    while pos < template.len()
        invariant
            t == template@,
            t.len() <= MAX_DESKTOP_BYTES,
            pos <= t.len(),
            replacement@ == r,
            placeholder@ == exec_placeholder(),
            exec_key@ == utf8("Exec="@),
            name_key@ == utf8("Name="@),
            icon_key@ == utf8("Icon="@),
            name_line@ == expected_name(),
            icon_line@ == expected_icon(),
            rewritten(t, r) == out@ + rewritten(t.skip(pos as int), r),
            count_lines(t, placeholder_lines()) == replacements + count_lines(t.skip(pos as int), placeholder_lines()),
            count_lines(t, exec_lines()) == execs + count_lines(t.skip(pos as int), exec_lines()),
            count_lines(t, name_lines()) == names + count_lines(t.skip(pos as int), name_lines()),
            count_lines(t, icon_lines()) == icons + count_lines(t.skip(pos as int), icon_lines()),
            count_lines(t, expected_name_lines()) == exact_names + count_lines(t.skip(pos as int), expected_name_lines()),
            count_lines(t, expected_icon_lines()) == exact_icons + count_lines(t.skip(pos as int), expected_icon_lines()),
            replacements <= pos,
            execs <= pos,
            names <= pos,
            icons <= pos,
            exact_names <= pos,
            exact_icons <= pos,
        decreases t.len() - pos,
    {
        let end = find_line_end(template, pos);
        let next = if end < template.len() {
            end + 1
        } else {
            end
        };
        proof {
            lemma_line_step(t, pos as int, end as int, r);
            assert(count_lines(t.skip(pos as int), placeholder_lines()) == (if placeholder_lines()(t.subrange(pos as int, end as int)) { 1nat } else { 0nat }) + count_lines(t.skip(next as int), placeholder_lines()));
            assert(count_lines(t.skip(pos as int), exec_lines()) == (if exec_lines()(t.subrange(pos as int, end as int)) { 1nat } else { 0nat }) + count_lines(t.skip(next as int), exec_lines()));
            assert(count_lines(t.skip(pos as int), name_lines()) == (if name_lines()(t.subrange(pos as int, end as int)) { 1nat } else { 0nat }) + count_lines(t.skip(next as int), name_lines()));
            assert(count_lines(t.skip(pos as int), icon_lines()) == (if icon_lines()(t.subrange(pos as int, end as int)) { 1nat } else { 0nat }) + count_lines(t.skip(next as int), icon_lines()));
            assert(count_lines(t.skip(pos as int), expected_name_lines()) == (if expected_name_lines()(t.subrange(pos as int, end as int)) { 1nat } else { 0nat }) + count_lines(t.skip(next as int), expected_name_lines()));
            assert(count_lines(t.skip(pos as int), expected_icon_lines()) == (if expected_icon_lines()(t.subrange(pos as int, end as int)) { 1nat } else { 0nat }) + count_lines(t.skip(next as int), expected_icon_lines()));
        }
        let ghost before = out@;
        if range_equals(template, pos, end, placeholder) {
            append_range(&mut out, replacement.as_slice(), 0, replacement.len());
            append_range(&mut out, template, end, next);
            assert(replacement@.subrange(0, replacement@.len() as int) =~= replacement@);
            replacements += 1;
        } else {
            append_range(&mut out, template, pos, next);
        }
        assert(out@ =~= before + (if t.subrange(pos as int, end as int) == exec_placeholder() {
            r + t.subrange(end as int, next as int)
        } else {
            t.subrange(pos as int, next as int)
        }));
        if range_starts_with(template, pos, end, exec_key) {
            execs += 1;
        }
        if range_starts_with(template, pos, end, name_key) {
            names += 1;
        }
        if range_starts_with(template, pos, end, icon_key) {
            icons += 1;
        }
        if range_equals(template, pos, end, name_line) {
            exact_names += 1;
        }
        if range_equals(template, pos, end, icon_line) {
            exact_icons += 1;
        }
        pos = next;
    }
    assert(t.skip(t.len() as int) =~= Seq::<u8>::empty());
    if replacements != 1 || execs != 1 || names != 1 || icons != 1 || exact_names != 1
        || exact_icons != 1 || out.len() > MAX_DESKTOP_BYTES {
        return Err(RegistrationError);
    }
    Ok(out)
}

} // verus!

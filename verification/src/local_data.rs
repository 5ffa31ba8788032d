//! Local data rules: where the private data and state directories live, and
//! which team identities may be stored.
use vstd::prelude::*;
use crate::text::{has_control, trim};
use vstd::string::StrSliceExecFns;

verus! {

/// Directory name of the application under a data or state root.
pub const APP_DIRECTORY: &'static str = "jira-desk";
/// Largest number of team members that may be supplied, before duplicates are
/// removed.
pub const MAX_TEAM_MEMBERS: usize = 100;
/// Largest identifier of a team member, in UTF-8 bytes.
pub const MAX_TEAM_MEMBER_IDENTIFIER_BYTES: usize = 320;
/// Largest display name of a team member, in UTF-8 bytes.
pub const MAX_TEAM_MEMBER_DISPLAY_NAME_BYTES: usize = 255;

/// A local data value or location was refused.
#[derive(Clone, Copy, Debug, PartialEq, Eq, Structural)]
pub struct LocalDataError;

/// A locally stored team identity: what the user entered, the stable Jira
/// account ID resolved from it, and the label shown for it.
#[derive(Clone, Debug, PartialEq, Eq)]
pub struct PersistedTeamMember {
    pub identifier: String,
    pub account_id: String,
    pub display_name: String,
}

/// A team member as three character sequences: identifier, account ID and
/// display name.
pub type MemberView = (Seq<char>, Seq<char>, Seq<char>);

impl View for PersistedTeamMember {
    type V = MemberView;

    open spec fn view(&self) -> MemberView {
        (self.identifier@, self.account_id@, self.display_name@)
    }
}

/// Number of UTF-8 bytes of `s`.
pub open spec fn utf8_len(s: Seq<char>) -> nat {
    vstd::utf8::encode_utf8(s).len()
}

/// A free-text team field after trimming, or `None` when it holds a control
/// character, is blank, or is longer than `maximum_bytes`.
pub open spec fn normalized_member_text(value: Seq<char>, maximum_bytes: usize) -> Option<Seq<char>> {
    if has_control(value) {
        None
    } else {
        let t = trim(value);
        if t.len() == 0 || utf8_len(t) > maximum_bytes {
            None
        } else {
            Some(t)
        }
    }
}

/// Whether `s` holds a quote or a backslash, either of which could change
/// the meaning of a quoted JQL literal.
pub open spec fn has_jql_quote_breaker(s: Seq<char>) -> bool {
    exists|i: int| 0 <= i < s.len() && (s[i] == '"' || s[i] == '\\')
}

/// An account ID after trimming, or `None` when it holds a control character,
/// is blank, or holds a quote or backslash.
pub open spec fn normalized_account_id(value: Seq<char>) -> Option<Seq<char>> {
    if has_control(value) {
        None
    } else {
        let t = trim(value);
        if t.len() == 0 || has_control(t) || has_jql_quote_breaker(t) {
            None
        } else {
            Some(t)
        }
    }
}

/// One member with every field normalized, or `None` when a field is refused
/// or the display name is the bare account ID.
pub open spec fn normalized_member(m: MemberView) -> Option<MemberView> {
    match (
        normalized_member_text(m.0, MAX_TEAM_MEMBER_IDENTIFIER_BYTES),
        normalized_account_id(m.1),
        normalized_member_text(m.2, MAX_TEAM_MEMBER_DISPLAY_NAME_BYTES),
    ) {
        (Some(identifier), Some(account_id), Some(display_name)) => if display_name
            == account_id {
            None
        } else {
            Some((identifier, account_id, display_name))
        },
        _ => None,
    }
}

/// Whether a member with account ID `account_id` is in `members`.
pub open spec fn has_account(members: Seq<MemberView>, account_id: Seq<char>) -> bool {
    exists|j: int| 0 <= j < members.len() && (#[trigger] members[j]).1 == account_id
}

/// The normalized members of `ms` in input order, the first record of each
/// account ID kept, or `None` when any record is refused.
pub open spec fn dedup_normalized(ms: Seq<MemberView>) -> Option<Seq<MemberView>>
    decreases ms.len(),
{
    if ms.len() == 0 {
        Some(Seq::empty())
    } else {
        match dedup_normalized(ms.drop_last()) {
            None => None,
            Some(acc) => match normalized_member(ms.last()) {
                None => None,
                Some(n) => if has_account(acc, n.1) {
                    Some(acc)
                } else {
                    Some(acc.push(n))
                },
            },
        }
    }
}

/// The stored form of a team list, or `None` when it has too many records or
/// any record is refused.
pub open spec fn spec_normalize_team_members(ms: Seq<MemberView>) -> Option<Seq<MemberView>> {
    if ms.len() > MAX_TEAM_MEMBERS {
        None
    } else {
        dedup_normalized(ms)
    }
}

/// A stored team list names each account once, and every stored record is
/// the normalized form of an input record of the same account.
pub proof fn lemma_normalized_team_is_unique(ms: Seq<MemberView>)
    requires
        dedup_normalized(ms) is Some,
    ensures
        ({
            let r = dedup_normalized(ms)->0;
            &&& r.len() <= ms.len()
            &&& forall|a: int, b: int| 0 <= a < b < r.len() ==> (#[trigger] r[a]).1 != (#[trigger] r[b]).1
            &&& forall|a: int| 0 <= a < r.len() ==> exists|i: int| 0 <= i < ms.len() && normalized_member(#[trigger] ms[i]) == Some(#[trigger] r[a])
            &&& forall|i: int| 0 <= i < ms.len() ==> (normalized_member(#[trigger] ms[i]) is Some && has_account(r, normalized_member(ms[i]).unwrap().1))
        }),
    decreases ms.len(),
{
    if ms.len() > 0 {
        let prefix = ms.drop_last();
        lemma_normalized_team_is_unique(prefix);
        let acc = dedup_normalized(prefix)->0;
        let n = normalized_member(ms.last())->0;
        let r = dedup_normalized(ms)->0;
        assert forall|a: int| 0 <= a < r.len() implies exists|i: int| 0 <= i < ms.len() && normalized_member(#[trigger] ms[i]) == Some(#[trigger] r[a]) by {
            if a < acc.len() {
                let i = choose|i: int| 0 <= i < prefix.len() && normalized_member(#[trigger] prefix[i]) == Some(acc[a]);
                assert(ms[i] == prefix[i]);
            } else {
                assert(ms[ms.len() - 1] == ms.last());
            }
        }
        assert forall|i: int| 0 <= i < ms.len() implies (normalized_member(#[trigger] ms[i]) is Some && has_account(r, normalized_member(ms[i]).unwrap().1)) by {
            if i < prefix.len() {
                assert(ms[i] == prefix[i]);
                let k = choose|j: int| 0 <= j < acc.len() && (#[trigger] acc[j]).1 == normalized_member(prefix[i]).unwrap().1;
                assert(r[k] == acc[k]);
            } else {
                assert(ms[i] == ms.last());
                if !has_account(acc, n.1) {
                    assert(r[acc.len() as int] == n);
                }
            }
        }
    }
}

/// A normalized member is its own normal form.
proof fn lemma_normalized_member_fixed(m: MemberView)
    requires
        normalized_member(m) is Some,
    ensures
        normalized_member(normalized_member(m)->0) == normalized_member(m),
{
    let n = normalized_member(m)->0;
    crate::text::lemma_trim_keeps_no_control(m.0);
    crate::text::lemma_trim_keeps_no_control(m.1);
    crate::text::lemma_trim_keeps_no_control(m.2);
    crate::text::lemma_trim_idempotent(m.0);
    crate::text::lemma_trim_idempotent(m.1);
    crate::text::lemma_trim_idempotent(m.2);
    assert(normalized_member_text(n.0, MAX_TEAM_MEMBER_IDENTIFIER_BYTES) == Some(n.0));
    assert(normalized_account_id(n.1) == Some(n.1));
    assert(normalized_member_text(n.2, MAX_TEAM_MEMBER_DISPLAY_NAME_BYTES) == Some(n.2));
}

/// A list of distinct accounts whose members are each their own normal form
/// is its own deduplicated normal form.
proof fn lemma_dedup_of_normal(r: Seq<MemberView>)
    requires
        forall|a: int, b: int| 0 <= a < b < r.len() ==> (#[trigger] r[a]).1 != (#[trigger] r[b]).1,
        forall|a: int| 0 <= a < r.len() ==> normalized_member(#[trigger] r[a]) == Some(r[a]),
    ensures
        dedup_normalized(r) == Some(r),
    decreases r.len(),
{
    if r.len() > 0 {
        let p = r.drop_last();
        assert forall|a: int, b: int| 0 <= a < b < p.len() implies (#[trigger] p[a]).1 != (
        #[trigger] p[b]).1 by {
            assert(p[a] == r[a] && p[b] == r[b]);
        }
        assert forall|a: int| 0 <= a < p.len() implies normalized_member(#[trigger] p[a]) == Some(
            p[a],
        ) by {
            assert(p[a] == r[a]);
        }
        lemma_dedup_of_normal(p);
        assert(normalized_member(r.last()) == Some(r.last()));
        assert(!has_account(p, r.last().1)) by {
            if has_account(p, r.last().1) {
                let j = choose|j: int| 0 <= j < p.len() && (#[trigger] p[j]).1 == r.last().1;
                assert(r[j] == p[j]);
                assert(r[j].1 != r[r.len() - 1].1);
            }
        }
        assert(p.push(r.last()) =~= r);
    }
}

/// Normalizing a stored team list gives it back unchanged.
pub proof fn lemma_normalized_team_is_stable(ms: Seq<MemberView>)
    requires
        spec_normalize_team_members(ms) is Some,
    ensures
        spec_normalize_team_members(spec_normalize_team_members(ms)->0) == spec_normalize_team_members(ms),
{
    lemma_normalized_team_is_unique(ms);
    let r = dedup_normalized(ms)->0;
    assert forall|a: int| 0 <= a < r.len() implies normalized_member(#[trigger] r[a]) == Some(r[a]) by {
        let i = choose|i: int| 0 <= i < ms.len() && normalized_member(#[trigger] ms[i]) == Some(r[a]);
        lemma_normalized_member_fixed(ms[i]);
    }
    lemma_dedup_of_normal(r);
}

/// Appends `s` to `out`.
fn push_text(out: &mut String, s: &str)
    ensures
        final(out)@ == old(out)@ + s@,
{
    out.append(s);
}

/// Whether `s` holds a quote or a backslash.
fn any_jql_quote_breaker(s: &Vec<char>) -> (b: bool)
    ensures
        b == has_jql_quote_breaker(s@),
{
    let mut i: usize = 0;
    while i < s.len()
        invariant
            i <= s.len(),
            forall|k: int| 0 <= k < i ==> s@[k] != '"' && s@[k] != '\\',
        decreases s.len() - i,
    {
        if s[i] == '"' || s[i] == '\\' {
            return true;
        }
        i += 1;
    }
    false
}

/// A free-text team field, trimmed, or an error when it holds a control
/// character, is blank, or is longer than `maximum_bytes` bytes.
pub fn normalize_team_member_text(value: &str, maximum_bytes: usize) -> (r: Result<String, LocalDataError>)
    ensures
        match normalized_member_text(value@, maximum_bytes) {
            Some(t) => r matches Ok(s) && s@ == t,
            None => r is Err,
        },
{
    let chars = crate::text::chars_of(value);
    if crate::text::any_control(&chars) {
        return Err(LocalDataError);
    }
    let trimmed = crate::text::trimmed(value);
    let t = trimmed.as_str();
    if t.is_empty() || t.as_bytes().len() > maximum_bytes {
        return Err(LocalDataError);
    }
    Ok(trimmed)
}

/// An account ID, trimmed, or an error when it holds a control character, is
/// blank, or holds a quote or backslash that a quoted JQL literal would not
/// survive.
pub fn normalize_team_member_account_id(value: &str) -> (r: Result<String, LocalDataError>)
    ensures
        match normalized_account_id(value@) {
            Some(t) => r matches Ok(s) && s@ == t,
            None => r is Err,
        },
{
    let chars = crate::text::chars_of(value);
    if crate::text::any_control(&chars) {
        return Err(LocalDataError);
    }
    let trimmed = crate::text::trimmed(value);
    let t = trimmed.as_str();
    if t.is_empty() {
        return Err(LocalDataError);
    }
    let tc = crate::text::chars_of(t);
    if crate::text::any_control(&tc) || any_jql_quote_breaker(&tc) {
        return Err(LocalDataError);
    }
    Ok(trimmed)
}

/// Whether a member with account ID `account_id` is in `members`.
fn contains_account(members: &Vec<PersistedTeamMember>, account_id: &str) -> (b: bool)
    ensures
        b == has_account(members@.map_values(|m: PersistedTeamMember| m@), account_id@),
{
    let ghost views = members@.map_values(|m: PersistedTeamMember| m@);
    let mut i: usize = 0;
    while i < members.len()
        invariant
            i <= members.len(),
            views == members@.map_values(|m: PersistedTeamMember| m@),
            forall|k: int| 0 <= k < i ==> (#[trigger] views[k]).1 != account_id@,
        decreases members.len() - i,
    {
        if crate::text::str_equals(members[i].account_id.as_str(), account_id) {
            assert(views[i as int].1 == account_id@);
            return true;
        }
        i += 1;
    }
    false
}

/// Normalizes and checks team identities before they are used or stored.
///
/// Input order is kept and the first record of each account ID wins.  At most
/// `MAX_TEAM_MEMBERS` records may be supplied, counted before duplicates are
/// removed, so duplicate-heavy input cannot get past the bound.
pub fn normalize_team_members(members: Vec<PersistedTeamMember>) -> (r: Result<
    Vec<PersistedTeamMember>,
    LocalDataError,
>)
    ensures
        match spec_normalize_team_members(members@.map_values(|m: PersistedTeamMember| m@)) {
            Some(v) => r matches Ok(out) && out@.map_values(|m: PersistedTeamMember| m@) == v,
            None => r is Err,
        },
{
    let ghost input = members@.map_values(|m: PersistedTeamMember| m@);
    if members.len() > MAX_TEAM_MEMBERS {
        return Err(LocalDataError);
    }
    let mut normalized: Vec<PersistedTeamMember> = Vec::new();
    let mut i: usize = 0;
    while i < members.len()
        invariant
            i <= members.len(),
            input == members@.map_values(|m: PersistedTeamMember| m@),
            dedup_normalized(input.take(i as int)) == Some(
                normalized@.map_values(|m: PersistedTeamMember| m@),
            ),
        decreases members.len() - i,
    {
        let member = &members[i];
        assert(input.take(i + 1).drop_last() =~= input.take(i as int));
        assert(input.take(i + 1).last() == member@);
        let identifier = match normalize_team_member_text(
            member.identifier.as_str(),
            MAX_TEAM_MEMBER_IDENTIFIER_BYTES,
        ) {
            Ok(s) => s,
            Err(e) => {
                proof {
                    lemma_refusal_persists(input, i as int);
                }
                return Err(e);
            },
        };
        let account_id = match normalize_team_member_account_id(member.account_id.as_str()) {
            Ok(s) => s,
            Err(e) => {
                proof {
                    lemma_refusal_persists(input, i as int);
                }
                return Err(e);
            },
        };
        let display_name = match normalize_team_member_text(
            member.display_name.as_str(),
            MAX_TEAM_MEMBER_DISPLAY_NAME_BYTES,
        ) {
            Ok(s) => s,
            Err(e) => {
                proof {
                    lemma_refusal_persists(input, i as int);
                }
                return Err(e);
            },
        };
        if crate::text::str_equals(display_name.as_str(), account_id.as_str()) {
            proof {
                lemma_refusal_persists(input, i as int);
            }
            return Err(LocalDataError);
        }
        let ghost before = normalized@.map_values(|m: PersistedTeamMember| m@);
        if !contains_account(&normalized, account_id.as_str()) {
            normalized.push(PersistedTeamMember { identifier, account_id, display_name });
            assert(normalized@.map_values(|m: PersistedTeamMember| m@) =~= before.push(
                normalized@.last()@,
            ));
        }
        i += 1;
    }
    assert(input.take(members.len() as int) =~= input);
    Ok(normalized)
}

/// Once a record is refused, every longer prefix is refused too.
proof fn lemma_refusal_persists(ms: Seq<MemberView>, i: int)
    requires
        0 <= i < ms.len(),
        dedup_normalized(ms.take(i + 1)) is None,
    ensures
        dedup_normalized(ms) is None,
    decreases ms.len() - i,
{
    if i + 1 < ms.len() {
        assert(ms.take(i + 2).drop_last() =~= ms.take(i + 1));
        lemma_refusal_persists(ms, i + 1);
    } else {
        assert(ms.take(i + 1) =~= ms);
    }
}

/// `leaf` appended to `base` as a path component, as `Path::join` does for a
/// relative `leaf` on Unix.
pub open spec fn path_join(base: Seq<char>, leaf: Seq<char>) -> Seq<char> {
    if base.len() > 0 && base.last() == '/' {
        base + leaf
    } else {
        base + seq!['/'] + leaf
    }
}

/// Whether `path` is absolute on Unix.
pub open spec fn is_absolute(path: Seq<char>) -> bool {
    path.len() > 0 && path[0] == '/'
}

/// The application directory under an XDG root, or else under `home`
/// followed by `.local` and `kind`.  A root that is absent or empty counts as
/// unset; a root that is set must be absolute.
pub open spec fn spec_resolve_directory(
    xdg_root: Option<Seq<char>>,
    home: Option<Seq<char>>,
    kind: Seq<char>,
) -> Option<Seq<char>> {
    if xdg_root is Some && xdg_root->0.len() > 0 {
        if is_absolute(xdg_root->0) {
            Some(path_join(xdg_root->0, APP_DIRECTORY@))
        } else {
            None
        }
    } else if home is Some && home->0.len() > 0 {
        if is_absolute(home->0) {
            Some(path_join(path_join(path_join(home->0, ".local"@), kind), APP_DIRECTORY@))
        } else {
            None
        }
    } else {
        None
    }
}

/// `base` joined with the relative component `leaf`.
fn join_path(base: &str, leaf: &str) -> (joined: String)
    ensures
        joined@ == path_join(base@, leaf@),
{
    let chars = crate::text::chars_of(base);
    let mut out = crate::text::string_of(&chars);
    let n = chars.len();
    if !(n > 0 && chars[n - 1] == '/') {
        crate::text::push_char(&mut out, '/');
    }
    push_text(&mut out, leaf);
    out
}

/// Whether a path, given as text, is absolute.
fn path_is_absolute(path: &str) -> (b: bool)
    ensures
        b == is_absolute(path@),
{
    let chars = crate::text::chars_of(path);
    chars.len() > 0 && chars[0] == '/'
}

fn resolve_directory(xdg_root: Option<&str>, home: Option<&str>, kind: &str) -> (r: Result<
    String,
    LocalDataError,
>)
    ensures
        match spec_resolve_directory(
            match xdg_root {
                Some(x) => Some(x@),
                None => None,
            },
            match home {
                Some(h) => Some(h@),
                None => None,
            },
            kind@,
        ) {
            Some(p) => r matches Ok(s) && s@ == p,
            None => r is Err,
        },
{
    if let Some(root) = xdg_root {
        if !root.is_empty() {
            if !path_is_absolute(root) {
                return Err(LocalDataError);
            }
            return Ok(join_path(root, APP_DIRECTORY));
        }
    }
    match home {
        Some(h) => {
            if h.is_empty() || !path_is_absolute(h) {
                return Err(LocalDataError);
            }
            let local = join_path(h, ".local");
            let under = join_path(local.as_str(), kind);
            Ok(join_path(under.as_str(), APP_DIRECTORY))
        },
        None => Err(LocalDataError),
    }
}

/// The private data directory: `$XDG_DATA_HOME/jira-desk`, else
/// `$HOME/.local/share/jira-desk`.  An empty variable counts as unset, and a
/// root that is used must be absolute.
pub fn resolve_app_directory(xdg_data_home: Option<&str>, home: Option<&str>) -> (r: Result<
    String,
    LocalDataError,
>)
    ensures
        match spec_resolve_directory(
            match xdg_data_home {
                Some(x) => Some(x@),
                None => None,
            },
            match home {
                Some(h) => Some(h@),
                None => None,
            },
            "share"@,
        ) {
            Some(p) => r matches Ok(s) && s@ == p,
            None => r is Err,
        },
{
    resolve_directory(xdg_data_home, home, "share")
}

/// The private state directory for bounded diagnostics:
/// `$XDG_STATE_HOME/jira-desk`, else `$HOME/.local/state/jira-desk`, with the
/// same rules as the data directory.
pub fn resolve_state_directory(xdg_state_home: Option<&str>, home: Option<&str>) -> (r: Result<
    String,
    LocalDataError,
>)
    ensures
        match spec_resolve_directory(
            match xdg_state_home {
                Some(x) => Some(x@),
                None => None,
            },
            match home {
                Some(h) => Some(h@),
                None => None,
            },
            "state"@,
        ) {
            Some(p) => r matches Ok(s) && s@ == p,
            None => r is Err,
        },
{
    resolve_directory(xdg_state_home, home, "state")
}

/// Name of the preferences file in the application directory.
pub const PREFERENCES_FILENAME: &'static str = "preferences.json";

/// The preferences file of an application directory.
pub fn preferences_path(directory: &str) -> (path: String)
    ensures
        path@ == path_join(directory@, PREFERENCES_FILENAME@),
{
    join_path(directory, PREFERENCES_FILENAME)
}

/// Joining keeps an absolute base absolute and ends with the joined component.
pub proof fn lemma_path_join(base: Seq<char>, leaf: Seq<char>)
    ensures
        is_absolute(base) ==> is_absolute(path_join(base, leaf)),
        path_join(base, leaf).len() >= leaf.len(),
        path_join(base, leaf).skip(path_join(base, leaf).len() - leaf.len()) == leaf,
{
    let joined = path_join(base, leaf);
    assert(joined.skip(joined.len() - leaf.len()) =~= leaf);
    if is_absolute(base) {
        assert(joined[0] == base[0]);
    }
}

/// A resolved data or state directory is absolute and is the application
/// directory itself.
pub proof fn lemma_resolved_directory_is_absolute(
    xdg_root: Option<Seq<char>>,
    home: Option<Seq<char>>,
    kind: Seq<char>,
)
    requires
        spec_resolve_directory(xdg_root, home, kind) is Some,
    ensures
        ({
            let dir = spec_resolve_directory(xdg_root, home, kind)->0;
            &&& is_absolute(dir)
            &&& dir.len() >= APP_DIRECTORY@.len()
            &&& dir.skip(dir.len() - APP_DIRECTORY@.len()) == APP_DIRECTORY@
        }),
{
    if xdg_root is Some && xdg_root->0.len() > 0 {
        lemma_path_join(xdg_root->0, APP_DIRECTORY@);
    } else {
        let h = home->0;
        lemma_path_join(h, ".local"@);
        let local = path_join(h, ".local"@);
        lemma_path_join(local, kind);
        lemma_path_join(path_join(local, kind), APP_DIRECTORY@);
    }
}

} // verus!

//! Identities of the live workspace: its cache name for a JQL scope and the
//! scope of the configured team view.
use vstd::prelude::*;
use crate::text::push_str;
use vstd::string::StrSliceExecFns;

pub mod cached;
pub mod partition;
pub mod sync_plan;
pub mod user_sets;

verus! {

/// Name of the primary workspace, before its account and scope qualifiers.
pub const WORKSPACE_NAME: &'static str = "Jira Desk workspace";
/// Name of the configured team workspace.
pub const TEAM_WORKSPACE_NAME: &'static str = "Jira Desk workspace · configured team view";
/// JQL scope of the configured team view.
pub const TEAM_STATUS_SCOPE: &'static str = "statusCategory = \"In Progress\"";

/// FNV-1a offset basis.
pub const FNV_OFFSET_BASIS: u64 = 0xcbf29ce484222325;
/// FNV-1a prime.
pub const FNV_PRIME: u64 = 0x100000001b3;

/// The 64-bit FNV-1a hash of `bytes`.
pub open spec fn fnv1a(bytes: Seq<u8>) -> u64
    decreases bytes.len(),
{
    if bytes.len() == 0 {
        FNV_OFFSET_BASIS
    } else {
        let h = fnv1a(bytes.drop_last()) ^ (bytes.last() as u64);
        ((h as nat * FNV_PRIME as nat) % 0x10000000000000000nat) as u64
    }
}

/// A lower-case hexadecimal digit.
pub open spec fn hex_digit(d: nat) -> char {
    if d < 10 {
        ((d + 48) as u32) as char
    } else {
        ((d + 87) as u32) as char
    }
}

/// The last `count` hexadecimal digits of `n`, most significant first.
pub open spec fn hex_digits(n: nat, count: nat) -> Seq<char>
    decreases count,
{
    if count == 0 {
        Seq::empty()
    } else {
        hex_digits(n / 16, (count - 1) as nat).push(hex_digit(n % 16))
    }
}

/// The cache fingerprint of a scope: the FNV-1a hash of its UTF-8 bytes as
/// sixteen lower-case hexadecimal digits.
pub open spec fn spec_scope_fingerprint(scope: Seq<char>) -> Seq<char> {
    hex_digits(fnv1a(vstd::utf8::encode_utf8(scope)) as nat, 16)
}

/// The name of the primary workspace for a normalized scope.
pub open spec fn spec_workspace_name(scope: Seq<char>) -> Seq<char> {
    WORKSPACE_NAME@ + " · account view · scope-"@ + spec_scope_fingerprint(scope)
}

/// The FNV-1a hash of `bytes`.
pub fn fnv1a_hash(bytes: &[u8]) -> (h: u64)
    ensures
        h == fnv1a(bytes@),
{
    let mut hash: u64 = FNV_OFFSET_BASIS;
    let mut i: usize = 0;
    while i < bytes.len()
        invariant
            i <= bytes@.len(),
            hash == fnv1a(bytes@.take(i as int)),
        decreases bytes.len() - i,
    {
        assert(bytes@.take(i + 1).drop_last() =~= bytes@.take(i as int));
        hash = hash ^ (bytes[i] as u64);
        hash = hash.wrapping_mul(FNV_PRIME);
        i += 1;
    }
    assert(bytes@.take(bytes@.len() as int) =~= bytes@);
    hash
}

/// `n` as exactly sixteen lower-case hexadecimal digits.
pub fn hex16(n: u64) -> (s: String)
    ensures
        s@ == hex_digits(n as nat, 16),
{
    let mut digits: Vec<char> = Vec::new();
    let mut rest = n;
    let mut k: usize = 0;
    // `digits` holds the low-order digits of `n`, least significant first.
    while k < 16
        invariant
            k <= 16,
            digits@.len() == k,
            hex_digits(n as nat, 16) == hex_digits(rest as nat, (16 - k) as nat) + digits@.reverse(),
        decreases 16 - k,
    {
        let d = rest % 16;
        let c = if d < 10 {
            ((d as u8) + 48) as char
        } else {
            ((d as u8) + 87) as char
        };
        assert(c == hex_digit(d as nat));
        let ghost before = digits@;
        digits.push(c);
        assert(digits@.reverse() =~= seq![c] + before.reverse());
        assert(hex_digits(rest as nat, (16 - k) as nat) == hex_digits(
            (rest / 16) as nat,
            (16 - k - 1) as nat,
        ).push(c));
        assert(hex_digits((rest / 16) as nat, (16 - k - 1) as nat).push(c) + before.reverse()
            =~= hex_digits((rest / 16) as nat, (16 - k - 1) as nat) + digits@.reverse());
        rest = rest / 16;
        k += 1;
    }
    assert(hex_digits(rest as nat, 0) =~= Seq::<char>::empty());
    assert(hex_digits(n as nat, 16) =~= digits@.reverse());
    let mut out = String::new();
    let mut i = digits.len();
    while i > 0
        invariant
            i <= digits.len(),
            out@ == digits@.reverse().take((digits.len() - i) as int),
        decreases i,
    {
        i -= 1;
        crate::text::push_char(&mut out, digits[i]);
        assert(digits@.reverse().take((digits.len() - i) as int) =~= digits@.reverse().take(
            (digits.len() - i - 1) as int,
        ).push(digits@[i as int]));
    }
    assert(digits@.reverse().take(digits.len() as int) =~= digits@.reverse());
    out
}

/// The cache fingerprint of a normalized scope.  FNV-1a is small and stays
/// the same across restarts, which is all a bounded cache key needs.
pub fn scope_fingerprint(scope: &str) -> (fingerprint: String)
    ensures
        fingerprint@ == spec_scope_fingerprint(scope@),
{
    let h = fnv1a_hash(scope.as_bytes());
    hex16(h)
}

/// The cache name of the primary workspace for a normalized scope.
pub fn workspace_name(scope: &str) -> (name: String)
    ensures
        name@ == spec_workspace_name(scope@),
{
    let mut out = String::new();
    push_str(&mut out, WORKSPACE_NAME);
    push_str(&mut out, " · account view · scope-");
    let fingerprint = scope_fingerprint(scope);
    push_str(&mut out, fingerprint.as_str());
    out
}

/// The JQL scope of the configured team view.
pub fn team_jql_scope() -> (scope: String)
    ensures
        scope@ == TEAM_STATUS_SCOPE@,
{
    let mut out = String::new();
    push_str(&mut out, TEAM_STATUS_SCOPE);
    out
}

} // verus!

//! Which saved user set a workspace partition uses, and the order in which a
//! configured team's accounts are kept.
use vstd::prelude::*;
use vstd::string::StrSliceExecFns;
use vstd::utf8::encode_utf8;
use crate::text::texts;
use crate::live_workspace::TEAM_WORKSPACE_NAME;

verus! {

broadcast use vstd::utf8::encode_utf8_decode_utf8;

/// Whether `a[i..]` comes before `b[i..]` in lexicographic byte order.
pub open spec fn bytes_less_from(a: Seq<u8>, b: Seq<u8>, i: int) -> bool
    decreases a.len() - i,
{
    if i >= a.len() {
        i < b.len()
    } else if i >= b.len() {
        false
    } else if a[i] < b[i] {
        true
    } else if a[i] > b[i] {
        false
    } else {
        bytes_less_from(a, b, i + 1)
    }
}

/// Lexicographic byte order, the order of `str`.
pub open spec fn bytes_less(a: Seq<u8>, b: Seq<u8>) -> bool {
    bytes_less_from(a, b, 0)
}

/// The order of account IDs: that of their UTF-8 bytes.
pub open spec fn account_less(a: Seq<char>, b: Seq<char>) -> bool {
    bytes_less(encode_utf8(a), encode_utf8(b))
}

/// No suffix comes before itself.
proof fn lemma_less_from_irreflexive(a: Seq<u8>, i: int)
    requires
        0 <= i,
    ensures
        !bytes_less_from(a, a, i),
    decreases a.len() - i,
{
    if i < a.len() {
        lemma_less_from_irreflexive(a, i + 1);
    }
}

/// Byte order is transitive.
proof fn lemma_less_from_transitive(a: Seq<u8>, b: Seq<u8>, c: Seq<u8>, i: int)
    requires
        0 <= i,
        bytes_less_from(a, b, i),
        bytes_less_from(b, c, i),
    ensures
        bytes_less_from(a, c, i),
    decreases a.len() - i,
{
    if i < a.len() && i < b.len() && i < c.len() && a[i] == b[i] && b[i] == c[i] {
        lemma_less_from_transitive(a, b, c, i + 1);
    }
}

/// Of two suffixes that differ, one comes first.
proof fn lemma_less_from_total(a: Seq<u8>, b: Seq<u8>, i: int)
    requires
        0 <= i <= a.len(),
        i <= b.len(),
        a.subrange(i, a.len() as int) != b.subrange(i, b.len() as int),
    ensures
        bytes_less_from(a, b, i) || bytes_less_from(b, a, i),
    decreases a.len() - i,
{
    if i < a.len() && i < b.len() && a[i] == b[i] {
        if a.subrange(i + 1, a.len() as int) == b.subrange(i + 1, b.len() as int) {
            assert(a.subrange(i, a.len() as int) =~= seq![a[i]] + a.subrange(i + 1, a.len() as int));
            assert(b.subrange(i, b.len() as int) =~= seq![b[i]] + b.subrange(i + 1, b.len() as int));
        }
        lemma_less_from_total(a, b, i + 1);
    } else if i >= a.len() && i >= b.len() {
        assert(a.subrange(i, a.len() as int) =~= b.subrange(i, b.len() as int));
    }
}

/// Account order is a strict total order.
pub proof fn lemma_account_order(a: Seq<char>, b: Seq<char>, c: Seq<char>)
    ensures
        !account_less(a, a),
        account_less(a, b) && account_less(b, c) ==> account_less(a, c),
        a != b ==> account_less(a, b) || account_less(b, a),
{
    lemma_less_from_irreflexive(encode_utf8(a), 0);
    if account_less(a, b) && account_less(b, c) {
        lemma_less_from_transitive(encode_utf8(a), encode_utf8(b), encode_utf8(c), 0);
    }
    if a != b {
        let ea = encode_utf8(a);
        let eb = encode_utf8(b);
        assert(ea.subrange(0, ea.len() as int) =~= ea);
        assert(eb.subrange(0, eb.len() as int) =~= eb);
        assert(vstd::utf8::decode_utf8(ea) == a);
        assert(vstd::utf8::decode_utf8(eb) == b);
        lemma_less_from_total(ea, eb, 0);
    }
}

/// Whether `a` comes before `b`.
pub fn account_precedes(a: &str, b: &str) -> (less: bool)
    ensures
        less == account_less(a@, b@),
{
    let x = a.as_bytes();
    let y = b.as_bytes();
    let mut i: usize = 0;
    while i < x.len() && i < y.len()
        invariant
            i <= x@.len(),
            i <= y@.len(),
            x@ == encode_utf8(a@),
            y@ == encode_utf8(b@),
            bytes_less_from(x@, y@, 0) == bytes_less_from(x@, y@, i as int),
        decreases x.len() - i,
    {
        if x[i] < y[i] {
            return true;
        }
        if x[i] > y[i] {
            return false;
        }
        i += 1;
    }
    i == x.len() && i < y.len()
}

/// Whether two strings are the same account ID.
fn same_text(a: &str, b: &str) -> (eq: bool)
    ensures
        eq == (a@ == b@),
{
    proof {
        lemma_account_order(a@, b@, b@);
    }
    !account_precedes(a, b) && !account_precedes(b, a)
}

/// Whether the accounts are in account order, each once.
pub open spec fn strictly_sorted(s: Seq<Seq<char>>) -> bool {
    forall|i: int, j: int| 0 <= i < j < s.len() ==> account_less(#[trigger] s[i], #[trigger] s[j])
}

/// Two lists in account order with the same accounts are the same list.
pub proof fn lemma_sorted_by_set(a: Seq<Seq<char>>, b: Seq<Seq<char>>)
    requires
        strictly_sorted(a),
        strictly_sorted(b),
        a.to_set() == b.to_set(),
    ensures
        a == b,
    decreases a.len(),
{
    if a.len() == 0 {
        if b.len() > 0 {
            assert(b.to_set().contains(b[0]));
        }
        assert(a =~= b);
    } else {
        assert(a.to_set().contains(a[0]));
        assert(b.contains(a[0]));
        let j = choose|j: int| 0 <= j < b.len() && b[j] == a[0];
        assert(b.to_set().contains(b[0]));
        assert(a.contains(b[0]));
        let k = choose|k: int| 0 <= k < a.len() && a[k] == b[0];
        if j > 0 {
            assert(account_less(b[0], b[j]));
            if k > 0 {
                assert(account_less(a[0], a[k]));
                lemma_account_order(a[0], b[0], a[0]);
            } else {
                lemma_account_order(a[0], a[0], a[0]);
            }
        }
        assert(b[0] == a[0]);
        let ra = a.drop_first();
        let rb = b.drop_first();
        assert forall|x: Seq<char>| ra.to_set().contains(x) implies rb.to_set().contains(x) by {
            let i = choose|i: int| 0 <= i < ra.len() && ra[i] == x;
            assert(a[i + 1] == x);
            assert(account_less(a[0], a[i + 1]));
            lemma_account_order(a[0], a[0], a[0]);
            assert(b.to_set().contains(x));
            let m = choose|m: int| 0 <= m < b.len() && b[m] == x;
            assert(m != 0);
            assert(rb[m - 1] == x);
        }
        assert forall|x: Seq<char>| rb.to_set().contains(x) implies ra.to_set().contains(x) by {
            let i = choose|i: int| 0 <= i < rb.len() && rb[i] == x;
            assert(b[i + 1] == x);
            assert(account_less(b[0], b[i + 1]));
            lemma_account_order(b[0], b[0], b[0]);
            assert(a.to_set().contains(x));
            let m = choose|m: int| 0 <= m < a.len() && a[m] == x;
            assert(m != 0);
            assert(ra[m - 1] == x);
        }
        assert(ra.to_set() =~= rb.to_set());
        assert forall|i: int, j: int| 0 <= i < j < ra.len() implies account_less(
            #[trigger] ra[i],
            #[trigger] ra[j],
        ) by {
            assert(a[i + 1] == ra[i] && a[j + 1] == ra[j]);
        }
        assert forall|i: int, j: int| 0 <= i < j < rb.len() implies account_less(
            #[trigger] rb[i],
            #[trigger] rb[j],
        ) by {
            assert(b[i + 1] == rb[i] && b[j + 1] == rb[j]);
        }
        lemma_sorted_by_set(ra, rb);
        assert(a =~= seq![a[0]] + ra);
        assert(b =~= seq![b[0]] + rb);
    }
}

/// The accounts of `members` in account order, each once: the order a
/// configured team is kept in, so that equal configurations are one user set.
pub fn sorted_unique_accounts(members: &[String]) -> (out: Vec<String>)
    ensures
        strictly_sorted(texts(out@)),
        texts(out@).to_set() == texts(members@).to_set(),
{
    let mut out: Vec<String> = Vec::new();
    let mut i: usize = 0;
    proof {
        assert(texts(out@).to_set() =~= texts(members@.take(0)).to_set());
    }
    while i < members.len()
        invariant
            i <= members@.len(),
            strictly_sorted(texts(out@)),
            texts(out@).to_set() == texts(members@.take(i as int)).to_set(),
        decreases members.len() - i,
    {
        let m = members[i].as_str();
        let ghost sorted = texts(out@);
        let ghost before_set = texts(members@.take(i as int)).to_set();
        assert(texts(members@.take(i + 1)) =~= texts(members@.take(i as int)).push(m@));
        proof {
            texts(members@.take(i as int)).lemma_push_to_set_commute(m@);
        }
        let mut p: usize = 0;
        while p < out.len() && account_precedes(out[p].as_str(), m)
            invariant
                p <= out@.len(),
                sorted == texts(out@),
                forall|k: int| 0 <= k < p ==> account_less(#[trigger] sorted[k], m@),
            decreases out.len() - p,
        {
            p += 1;
        }
        if p < out.len() && same_text(out[p].as_str(), m) {
            assert(sorted[p as int] == m@);
            assert(sorted.to_set().contains(m@));
            assert(texts(members@.take(i + 1)).to_set() =~= before_set.insert(m@));
            assert(before_set.insert(m@) =~= before_set);
        } else {
            proof {
                if p < out.len() {
                    assert(!account_less(sorted[p as int], m@));
                    lemma_account_order(m@, sorted[p as int], sorted[p as int]);
                    assert(account_less(m@, sorted[p as int]));
                }
            }
            out.insert(p, String::from_str(m));
            let ghost after = texts(out@);
            assert(after =~= sorted.insert(p as int, m@));
            assert forall|x: int, y: int| 0 <= x < y < after.len() implies account_less(
                #[trigger] after[x],
                #[trigger] after[y],
            ) by {
                if y < p {
                    assert(after[x] == sorted[x] && after[y] == sorted[y]);
                } else if y == p {
                    assert(after[x] == sorted[x] && after[y] == m@);
                } else if x == p {
                    assert(after[y] == sorted[y - 1]);
                    if y - 1 > p {
                        assert(account_less(sorted[p as int], sorted[y - 1]));
                        lemma_account_order(m@, sorted[p as int], sorted[y - 1]);
                    }
                } else if x < p {
                    assert(after[x] == sorted[x] && after[y] == sorted[y - 1]);
                } else {
                    assert(after[x] == sorted[x - 1] && after[y] == sorted[y - 1]);
                }
            }
            assert forall|v: Seq<char>| after.to_set().contains(v) <==> sorted.to_set().insert(
                m@,
            ).contains(v) by {
                if after.to_set().contains(v) {
                    let k = choose|k: int| 0 <= k < after.len() && after[k] == v;
                    if k < p {
                        assert(sorted[k] == v);
                    } else if k > p {
                        assert(sorted[k - 1] == v);
                    }
                }
                if sorted.to_set().contains(v) {
                    let k = choose|k: int| 0 <= k < sorted.len() && sorted[k] == v;
                    if k < p {
                        assert(after[k] == v);
                    } else {
                        assert(after[k + 1] == v);
                    }
                }
                if v == m@ {
                    assert(after[p as int] == v);
                }
            }
            assert(after.to_set() =~= sorted.to_set().insert(m@));
            assert(texts(members@.take(i + 1)).to_set() =~= before_set.insert(m@));
        }
        i += 1;
    }
    assert(members@.take(members@.len() as int) =~= members@);
    out
}

/// The equal-configuration promise: two member lists with the same
/// accounts are kept as the same list, so they select the same user set.
pub proof fn lemma_same_accounts_same_team(
    first: Seq<Seq<char>>,
    first_kept: Seq<Seq<char>>,
    second: Seq<Seq<char>>,
    second_kept: Seq<Seq<char>>,
)
    requires
        strictly_sorted(first_kept),
        first_kept.to_set() == first.to_set(),
        strictly_sorted(second_kept),
        second_kept.to_set() == second.to_set(),
        first.to_set() == second.to_set(),
    ensures
        first_kept == second_kept,
{
    lemma_sorted_by_set(first_kept, second_kept);
}

/// The identity the configured team uses while it has no members; nothing
/// is saved for it.
pub const EMPTY_TEAM_USER_SET_ID: &'static str = "configured-team-empty";

/// A saved user set: a named list of accounts on one Jira site.
pub struct UserSetRecord {
    pub id: String,
    pub site_id: String,
    pub name: String,
    pub members: Vec<String>,
}

/// Which user set the primary workspace uses.
#[derive(Debug, PartialEq, Eq)]
pub enum UserSetChoice {
    /// The saved user set with this ID.
    Reuse(String),
    /// A new user set without members, saved directly to the cache: the
    /// unrestricted partition.
    SaveUnrestricted,
    /// A new user set with the members, saved through the user-set service.
    SaveMembers,
}

/// Which user set the configured team uses.
#[derive(Debug, PartialEq, Eq)]
pub enum TeamUserSetChoice {
    /// The saved user set with this ID.
    Reuse(String),
    /// No members: the local identity `EMPTY_TEAM_USER_SET_ID`, saved nowhere.
    EmptyLocal,
    /// A new user set with the members.
    Create,
}

/// Whether `set` is the primary workspace's user set.
pub open spec fn is_workspace_set(set: UserSetRecord, site_id: Seq<char>, name: Seq<char>, members: Seq<
    Seq<char>,
>) -> bool {
    set.site_id@ == site_id && set.name@ == name && texts(set.members@) == members
}

/// Whether `set` is the configured team's user set.
pub open spec fn is_team_set(set: UserSetRecord, members: Seq<Seq<char>>) -> bool {
    set.name@ == TEAM_WORKSPACE_NAME@ && texts(set.members@) == members
}

/// Whether two lists of accounts are equal.
fn same_accounts(a: &Vec<String>, b: &[String]) -> (eq: bool)
    ensures
        eq == (texts(a@) == texts(b@)),
{
    if a.len() != b.len() {
        proof {
            if texts(a@) == texts(b@) {
                assert(texts(a@).len() == texts(b@).len());
            }
        }
        return false;
    }
    let mut i: usize = 0;
    while i < a.len()
        invariant
            i <= a@.len(),
            a@.len() == b@.len(),
            forall|k: int| 0 <= k < i ==> a@[k]@ == b@[k]@,
        decreases a.len() - i,
    {
        if !same_text(a[i].as_str(), b[i].as_str()) {
            proof {
                if texts(a@) == texts(b@) {
                    assert(texts(a@)[i as int] == texts(b@)[i as int]);
                }
            }
            return false;
        }
        i += 1;
    }
    assert(texts(a@) =~= texts(b@));
    true
}

/// The user set of the primary workspace: the first saved set on the site
/// with the workspace's name and exactly its members, else a new one, saved
/// directly when it has no members.
pub fn workspace_user_set(existing: &[UserSetRecord], site_id: &str, name: &str, members: &[String]) -> (choice:
    UserSetChoice)
    ensures
        match choice {
            UserSetChoice::Reuse(id) => exists|k: int|
                0 <= k < existing@.len() && is_workspace_set(existing@[k], site_id@, name@, texts(members@))
                    && (forall|j: int|
                    0 <= j < k ==> !is_workspace_set(
                        #[trigger] existing@[j],
                        site_id@,
                        name@,
                        texts(members@),
                    )) && id@ == existing@[k].id@,
            _ => (forall|k: int|
                0 <= k < existing@.len() ==> !is_workspace_set(
                    #[trigger] existing@[k],
                    site_id@,
                    name@,
                    texts(members@),
                )) && (choice is SaveUnrestricted <==> members@.len() == 0),
        },
{
    let mut i: usize = 0;
    while i < existing.len()
        invariant
            i <= existing@.len(),
            forall|j: int|
                0 <= j < i ==> !is_workspace_set(
                    #[trigger] existing@[j],
                    site_id@,
                    name@,
                    texts(members@),
                ),
        decreases existing.len() - i,
    {
        let set = &existing[i];
        if same_text(set.site_id.as_str(), site_id) && same_text(set.name.as_str(), name)
            && same_accounts(&set.members, members) {
            return UserSetChoice::Reuse(String::from_str(set.id.as_str()));
        }
        i += 1;
    }
    if members.len() == 0 {
        UserSetChoice::SaveUnrestricted
    } else {
        UserSetChoice::SaveMembers
    }
}

/// The user set of the configured team, whose members are already in account
/// order: the first saved set with the team's name and exactly those members,
/// else the local empty identity when there are none, else a new one.
pub fn team_user_set(existing: &[UserSetRecord], members: &[String]) -> (choice: TeamUserSetChoice)
    ensures
        match choice {
            TeamUserSetChoice::Reuse(id) => exists|k: int|
                0 <= k < existing@.len() && is_team_set(existing@[k], texts(members@)) && (forall|j: int|
                    0 <= j < k ==> !is_team_set(#[trigger] existing@[j], texts(members@))) && id@
                    == existing@[k].id@,
            _ => (forall|k: int|
                0 <= k < existing@.len() ==> !is_team_set(#[trigger] existing@[k], texts(members@)))
                && (choice is EmptyLocal <==> members@.len() == 0),
        },
{
    let mut i: usize = 0;
    while i < existing.len()
        invariant
            i <= existing@.len(),
            forall|j: int| 0 <= j < i ==> !is_team_set(#[trigger] existing@[j], texts(members@)),
        decreases existing.len() - i,
    {
        let set = &existing[i];
        if same_text(set.name.as_str(), TEAM_WORKSPACE_NAME) && same_accounts(&set.members, members) {
            return TeamUserSetChoice::Reuse(String::from_str(set.id.as_str()));
        }
        i += 1;
    }
    if members.len() == 0 {
        TeamUserSetChoice::EmptyLocal
    } else {
        TeamUserSetChoice::Create
    }
}

/// What configuring the team decides before anything is saved: its members
/// in account order, each once, and the user set they select.
pub fn configured_team(existing: &[UserSetRecord], members: &[String]) -> (r: (
    Vec<String>,
    TeamUserSetChoice,
))
    ensures
        strictly_sorted(texts(r.0@)),
        texts(r.0@).to_set() == texts(members@).to_set(),
        match r.1 {
            TeamUserSetChoice::Reuse(id) => exists|k: int|
                0 <= k < existing@.len() && is_team_set(existing@[k], texts(r.0@)) && (forall|j: int|
                    0 <= j < k ==> !is_team_set(#[trigger] existing@[j], texts(r.0@))) && id@
                    == existing@[k].id@,
            _ => (forall|k: int|
                0 <= k < existing@.len() ==> !is_team_set(#[trigger] existing@[k], texts(r.0@)))
                && (r.1 is EmptyLocal <==> members@.len() == 0),
        },
{
    let sorted = sorted_unique_accounts(members);
    proof {
        if members@.len() == 0 {
            assert(texts(members@).to_set() =~= Set::<Seq<char>>::empty());
            if sorted@.len() > 0 {
                assert(texts(sorted@).to_set().contains(texts(sorted@)[0]));
            }
        } else {
            assert(texts(members@).to_set().contains(texts(members@)[0]));
            if sorted@.len() == 0 {
                assert(texts(sorted@).to_set() =~= Set::<Seq<char>>::empty());
            }
        }
    }
    let choice = team_user_set(existing, sorted.as_slice());
    (sorted, choice)
}

} // verus!

//! Display names of Jira accounts.
//!
//! Account IDs stay the identity and are never used as labels.  The directory
//! starts from the user catalog and then fills accounts it does not know yet
//! from display names that issues and comments carry; the first name accepted
//! for an account wins.
use vstd::prelude::*;
use crate::rich_text_view::keyed::{find_key, keys_unique, lemma_map_of_domain, lemma_map_of_index, map_of, upsert};
use crate::text::{trim, utf8_len};
use vstd::string::StrSliceExecFns;

verus! {

/// Longest display name accepted, in UTF-8 bytes.
pub const MAX_DISPLAY_NAME_BYTES: usize = 255;

/// A user of the catalog.
#[derive(Clone, Debug, PartialEq, Eq)]
pub struct UserRecord {
    pub account_id: String,
    pub display_name: String,
}

/// The author of a comment, with the name the comment carries, if any.
#[derive(Clone, Debug, PartialEq, Eq)]
pub struct CommentAuthor {
    pub account_id: String,
    pub display_name: Option<String>,
}

/// Display names by account ID.
pub struct IdentityDirectory {
    names: Vec<(String, String)>,
}

/// The label that `display_name` gives the account `account_id`: the trimmed
/// name, unless it is blank, is the account ID itself, or is too long.
pub open spec fn accepted_name(account_id: Seq<char>, display_name: Seq<char>) -> Option<Seq<char>> {
    let name = trim(display_name);
    if name.len() > 0 && name != trim(account_id) && utf8_len(name) <= MAX_DISPLAY_NAME_BYTES {
        Some(name)
    } else {
        None
    }
}

/// The directory after offering `display_name` for `account_id`: a name is
/// recorded only for an account that has none yet.
pub open spec fn offered(
    names: Map<Seq<char>, Seq<char>>,
    account_id: Seq<char>,
    display_name: Seq<char>,
) -> Map<Seq<char>, Seq<char>> {
    match accepted_name(account_id, display_name) {
        Some(name) => if names.contains_key(account_id) {
            names
        } else {
            names.insert(account_id, name)
        },
        None => names,
    }
}

/// What is shown for an optional account: `unassigned` without one, its
/// recorded name, else `unknown`.
pub open spec fn shown_for(
    names: Map<Seq<char>, Seq<char>>,
    account_id: Option<Seq<char>>,
    unassigned: Seq<char>,
    unknown: Seq<char>,
) -> Seq<char> {
    match account_id {
        None => unassigned,
        Some(id) => if names.contains_key(id) {
            names[id]
        } else {
            unknown
        },
    }
}

/// Whether every recorded name is one that `accepted_name` gives.
pub open spec fn names_accepted(names: Map<Seq<char>, Seq<char>>) -> bool {
    forall|id: Seq<char>| #[trigger]
        names.contains_key(id) ==> accepted_name(id, names[id]) == Some(names[id])
}

/// The directory of the users `users`, in order.
pub open spec fn catalog(users: Seq<UserRecord>) -> Map<Seq<char>, Seq<char>>
    decreases users.len(),
{
    if users.len() == 0 {
        Map::empty()
    } else {
        offered(catalog(users.drop_last()), users.last().account_id@, users.last().display_name@)
    }
}

impl View for IdentityDirectory {
    type V = Map<Seq<char>, Seq<char>>;

    closed spec fn view(&self) -> Map<Seq<char>, Seq<char>> {
        map_of(self.names@).map_values(|name: String| name@)
    }
}

/// A recorded name is never the account ID it stands for.
pub proof fn lemma_accepted_name_is_not_the_account(account_id: Seq<char>, display_name: Seq<char>)
    requires
        accepted_name(account_id, display_name) is Some,
    ensures
        accepted_name(account_id, display_name)->0 != account_id,
        accepted_name(account_id, display_name)->0 != trim(account_id),
{
    let name = trim(display_name);
    if name == account_id {
        crate::text::lemma_trim_idempotent(display_name);
        assert(trim(account_id) == name);
    }
}

/// Offering a name never changes or removes a name already recorded: the
/// first source to name an account wins.
pub proof fn lemma_offered_keeps_names(
    names: Map<Seq<char>, Seq<char>>,
    account_id: Seq<char>,
    display_name: Seq<char>,
)
    ensures
        forall|id: Seq<char>|
            #[trigger] names.contains_key(id) ==> offered(names, account_id, display_name).contains_key(
                id,
            ) && offered(names, account_id, display_name)[id] == names[id],
{
}

/// An account ID is never shown as its own label, provided the fallback
/// labels are not that ID either.
pub proof fn lemma_account_id_never_shown(
    names: Map<Seq<char>, Seq<char>>,
    account_id: Seq<char>,
    unassigned: Seq<char>,
    unknown: Seq<char>,
)
    requires
        names_accepted(names),
        unknown != account_id,
    ensures
        shown_for(names, Some(account_id), unassigned, unknown) != account_id,
{
    if names.contains_key(account_id) {
        lemma_accepted_name_is_not_the_account(account_id, names[account_id]);
    }
}

impl IdentityDirectory {
    /// Names are recorded once per account, each as `accepted_name` gives it.
    pub closed spec fn wf(&self) -> bool {
        keys_unique(self.names@) && names_accepted(self@)
    }

    /// A directory with no names.
    pub fn new() -> (d: Self)
        ensures
            d.wf(),
            d@ == Map::<Seq<char>, Seq<char>>::empty(),
    {
        IdentityDirectory { names: Vec::new() }
    }

    /// Offers a display name for an account; see `offered`.
    fn insert(&mut self, account_id: &str, display_name: &str)
        requires
            old(self).wf(),
        ensures
            final(self).wf(),
            final(self)@ == offered(old(self)@, account_id@, display_name@),
    {
        let name = crate::text::trimmed(display_name);
        let id_trimmed = crate::text::trimmed(account_id);
        let n = name.as_str();
        if n.is_empty() || crate::text::str_equals(n, id_trimmed.as_str()) || n.as_bytes().len()
            > MAX_DISPLAY_NAME_BYTES {
            return;
        }
        match find_key(&self.names, account_id) {
            Some(i) => {
                proof {
                    lemma_map_of_index(self.names@, i as int);
                }
            },
            None => {
                proof {
                    if self@.contains_key(account_id@) {
                        lemma_map_of_domain(self.names@, account_id@);
                    }
                }
                let ghost before = self@;
                let key = String::from_str(account_id);
                upsert(&mut self.names, key, name);
                assert forall|id: Seq<char>| #[trigger]
                    self@.contains_key(id) implies accepted_name(id, self@[id]) == Some(self@[id]) by {
                    if id == account_id@ {
                        crate::text::lemma_trim_idempotent(display_name@);
                    } else {
                        assert(before.contains_key(id));
                    }
                }
            },
        }
    }

    /// The directory of a user catalog; for an account listed twice the
    /// first acceptable name wins.
    pub fn from_users(users: &[UserRecord]) -> (d: Self)
        ensures
            d.wf(),
            d@ == catalog(users@),
    {
        let mut d = Self::new();
        let mut i: usize = 0;
        while i < users.len()
            invariant
                i <= users@.len(),
                d.wf(),
                d@ == catalog(users@.take(i as int)),
            decreases users.len() - i,
        {
            assert(users@.take(i + 1).drop_last() =~= users@.take(i as int));
            d.insert(users[i].account_id.as_str(), users[i].display_name.as_str());
            i += 1;
        }
        assert(users@.take(users@.len() as int) =~= users@);
        d
    }

    /// Fills missing names from the assignee and reporter names an issue
    /// carries.
    pub fn include_issue(
        &mut self,
        assignee: Option<&str>,
        assignee_display_name: Option<&str>,
        reporter: Option<&str>,
        reporter_display_name: Option<&str>,
    )
        requires
            old(self).wf(),
        ensures
            final(self).wf(),
            final(self)@ == ({
                let after_assignee = match (assignee, assignee_display_name) {
                    (Some(id), Some(name)) => offered(old(self)@, id@, name@),
                    _ => old(self)@,
                };
                match (reporter, reporter_display_name) {
                    (Some(id), Some(name)) => offered(after_assignee, id@, name@),
                    _ => after_assignee,
                }
            }),
    {
        if let (Some(id), Some(name)) = (assignee, assignee_display_name) {
            self.insert(id, name);
        }
        if let (Some(id), Some(name)) = (reporter, reporter_display_name) {
            self.insert(id, name);
        }
    }

    /// Fills a missing name from the name a comment carries for its author.
    pub fn include_comment_author(&mut self, author: Option<&CommentAuthor>)
        requires
            old(self).wf(),
        ensures
            final(self).wf(),
            final(self)@ == match author {
                Some(a) => match a.display_name {
                    Some(name) => offered(old(self)@, a.account_id@, name@),
                    None => old(self)@,
                },
                None => old(self)@,
            },
    {
        if let Some(a) = author {
            if let Some(name) = &a.display_name {
                self.insert(a.account_id.as_str(), name.as_str());
            }
        }
    }

    /// The label of an optional account: `unassigned` without one, its
    /// recorded name, else `unknown`.
    pub fn display_with_unknown(&self, account_id: Option<&str>, unassigned: &str, unknown: &str) -> (label: String)
        requires
            self.wf(),
        ensures
            label@ == shown_for(
                self@,
                match account_id {
                    Some(id) => Some(id@),
                    None => None,
                },
                unassigned@,
                unknown@,
            ),
    {
        match account_id {
            None => String::from_str(unassigned),
            Some(id) => match find_key(&self.names, id) {
                Some(i) => {
                    proof {
                        lemma_map_of_index(self.names@, i as int);
                    }
                    String::from_str(self.names[i].1.as_str())
                },
                None => {
                    proof {
                        if self@.contains_key(id@) {
                            lemma_map_of_domain(self.names@, id@);
                        }
                    }
                    String::from_str(unknown)
                },
            },
        }
    }

    /// The label of an optional account, `Unknown user` when it has no name.
    pub fn display(&self, account_id: Option<&str>, unassigned: &str) -> (label: String)
        requires
            self.wf(),
        ensures
            label@ == shown_for(
                self@,
                match account_id {
                    Some(id) => Some(id@),
                    None => None,
                },
                unassigned@,
                "Unknown user"@,
            ),
    {
        self.display_with_unknown(account_id, unassigned, "Unknown user")
    }

    /// The label of a comment author, `Unknown author` when there is none or
    /// it has no name.
    pub fn display_author(&self, author: Option<&CommentAuthor>) -> (label: String)
        requires
            self.wf(),
        ensures
            label@ == match author {
                Some(a) => shown_for(self@, Some(a.account_id@), "Unknown author"@, "Unknown author"@),
                None => "Unknown author"@,
            },
    {
        match author {
            Some(a) => self.display_with_unknown(
                Some(a.account_id.as_str()),
                "Unknown author",
                "Unknown author",
            ),
            None => String::from_str("Unknown author"),
        }
    }
}

} // verus!

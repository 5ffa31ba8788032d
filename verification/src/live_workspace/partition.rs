//! The fixed policy and identity of each cache partition of the live
//! workspace.  The primary and team policies are built separately, and a
//! finished spec is the only input to a sync and a cache reload, so a state
//! change between the two cannot mix partitions.
use vstd::prelude::*;
use crate::live_workspace::TEAM_STATUS_SCOPE;
use crate::text::{copy_strings, texts};

verus! {

/// Which partition a spec describes.
#[derive(Clone, Copy, Debug, PartialEq, Eq, Structural)]
pub enum PartitionKind {
    Primary,
    Team,
}

/// The scope of the primary partition.
pub struct ScopeState {
    pub user_set_id: String,
    pub normalized_scope: String,
}

/// The configured team.
pub struct TeamState {
    pub user_set_id: String,
    pub members: Vec<String>,
}

/// The policy and identity of one partition.
pub struct PartitionSpec {
    kind: PartitionKind,
    user_set_id: String,
    assignees: Option<Vec<String>>,
    watchers: Option<Vec<String>>,
    jql_scope: Option<String>,
    required_event_user_set_id: String,
    notification_assignees: Option<Vec<String>>,
    empty_team_noop: bool,
}

/// A partition spec as text.
pub struct PartitionModel {
    pub kind: PartitionKind,
    pub user_set_id: Seq<char>,
    pub assignees: Option<Seq<Seq<char>>>,
    pub watchers: Option<Seq<Seq<char>>>,
    pub jql_scope: Option<Seq<char>>,
    pub required_event_user_set_id: Seq<char>,
    pub notification_assignees: Option<Seq<Seq<char>>>,
    pub empty_team_noop: bool,
}

/// The texts of an optional list of strings.
pub open spec fn optional_texts(v: Option<Vec<String>>) -> Option<Seq<Seq<char>>> {
    match v {
        Some(list) => Some(texts(list@)),
        None => None,
    }
}

/// The list of just the account, when there is one.
pub open spec fn only(account: Option<Seq<char>>) -> Option<Seq<Seq<char>>> {
    match account {
        Some(a) => Some(seq![a]),
        None => None,
    }
}

/// The primary partition: the authenticated account's assigned and watched
/// issues in the normalized scope, or the whole scope without an account.
pub open spec fn primary_partition(
    user_set_id: Seq<char>,
    normalized_scope: Seq<char>,
    account: Option<Seq<char>>,
) -> PartitionModel {
    PartitionModel {
        kind: PartitionKind::Primary,
        user_set_id,
        assignees: only(account),
        watchers: only(account),
        jql_scope: Some(normalized_scope),
        required_event_user_set_id: user_set_id,
        notification_assignees: only(account),
        empty_team_noop: false,
    }
}

/// The team partition: the members' in-progress issues; notifications stay
/// with the authenticated account; an empty team is a local no-op.
pub open spec fn team_partition(
    user_set_id: Seq<char>,
    members: Seq<Seq<char>>,
    account: Option<Seq<char>>,
) -> PartitionModel {
    PartitionModel {
        kind: PartitionKind::Team,
        user_set_id,
        assignees: Some(members),
        watchers: None,
        jql_scope: Some(TEAM_STATUS_SCOPE@),
        required_event_user_set_id: user_set_id,
        notification_assignees: only(account),
        empty_team_noop: members.len() == 0,
    }
}

impl View for PartitionSpec {
    type V = PartitionModel;

    closed spec fn view(&self) -> PartitionModel {
        PartitionModel {
            kind: self.kind,
            user_set_id: self.user_set_id@,
            assignees: optional_texts(self.assignees),
            watchers: optional_texts(self.watchers),
            jql_scope: match self.jql_scope {
                Some(s) => Some(s@),
                None => None,
            },
            required_event_user_set_id: self.required_event_user_set_id@,
            notification_assignees: optional_texts(self.notification_assignees),
            empty_team_noop: self.empty_team_noop,
        }
    }
}

/// The list of just the account, when there is one.
fn only_account(account: Option<&str>) -> (list: Option<Vec<String>>)
    ensures
        optional_texts(list) == only(
            match account {
                Some(a) => Some(a@),
                None => None,
            },
        ),
{
    match account {
        Some(a) => {
            let mut list: Vec<String> = Vec::new();
            list.push(String::from_str(a));
            assert(texts(list@) =~= seq![a@]);
            Some(list)
        },
        None => None,
    }
}

/// Builds the spec of the primary partition.
pub struct PrimaryPartitionSpecBuilder;

impl PrimaryPartitionSpecBuilder {
    pub fn build(scope_state: &ScopeState, authenticated_account: Option<&str>) -> (spec: PartitionSpec)
        ensures
            spec@ == primary_partition(
                scope_state.user_set_id@,
                scope_state.normalized_scope@,
                match authenticated_account {
                    Some(a) => Some(a@),
                    None => None,
                },
            ),
    {
        PartitionSpec {
            kind: PartitionKind::Primary,
            user_set_id: String::from_str(scope_state.user_set_id.as_str()),
            assignees: only_account(authenticated_account),
            watchers: only_account(authenticated_account),
            jql_scope: Some(String::from_str(scope_state.normalized_scope.as_str())),
            required_event_user_set_id: String::from_str(scope_state.user_set_id.as_str()),
            notification_assignees: only_account(authenticated_account),
            empty_team_noop: false,
        }
    }
}

/// Builds the spec of the team partition.
pub struct TeamPartitionSpecBuilder;

impl TeamPartitionSpecBuilder {
    pub fn build(team_state: &TeamState, authenticated_account: Option<&str>) -> (spec: PartitionSpec)
        ensures
            spec@ == team_partition(
                team_state.user_set_id@,
                texts(team_state.members@),
                match authenticated_account {
                    Some(a) => Some(a@),
                    None => None,
                },
            ),
    {
        let members = copy_strings(&team_state.members);
        PartitionSpec {
            kind: PartitionKind::Team,
            user_set_id: String::from_str(team_state.user_set_id.as_str()),
            assignees: Some(members),
            watchers: None,
            jql_scope: Some(String::from_str(TEAM_STATUS_SCOPE)),
            required_event_user_set_id: String::from_str(team_state.user_set_id.as_str()),
            notification_assignees: only_account(authenticated_account),
            empty_team_noop: team_state.members.len() == 0,
        }
    }
}

impl PartitionSpec {
    pub fn kind(&self) -> (kind: PartitionKind)
        ensures
            kind == self@.kind,
    {
        self.kind
    }

    pub fn user_set_id(&self) -> (id: &String)
        ensures
            id@ == self@.user_set_id,
    {
        &self.user_set_id
    }

    /// The user set whose events a refresh of this partition may report.
    pub fn required_event_user_set_id(&self) -> (id: &String)
        ensures
            id@ == self@.required_event_user_set_id,
    {
        &self.required_event_user_set_id
    }

    /// Whether refreshing this partition does nothing: an empty team.
    pub fn is_empty_team_noop(&self) -> (b: bool)
        ensures
            b == (self@.kind == PartitionKind::Team && self@.empty_team_noop),
    {
        matches!(self.kind, PartitionKind::Team) && self.empty_team_noop
    }

    /// Every field, in declaration order.
    pub fn fields(&self) -> (f: (
        PartitionKind,
        &String,
        &Option<Vec<String>>,
        &Option<Vec<String>>,
        &Option<String>,
        &String,
        &Option<Vec<String>>,
        bool,
    ))
        ensures
            f.0 == self@.kind,
            f.1@ == self@.user_set_id,
            optional_texts(*f.2) == self@.assignees,
            optional_texts(*f.3) == self@.watchers,
            (match *f.4 {
                Some(s) => Some(s@),
                None => None,
            }) == self@.jql_scope,
            f.5@ == self@.required_event_user_set_id,
            optional_texts(*f.6) == self@.notification_assignees,
            f.7 == self@.empty_team_noop,
    {
        (
            self.kind,
            &self.user_set_id,
            &self.assignees,
            &self.watchers,
            &self.jql_scope,
            &self.required_event_user_set_id,
            &self.notification_assignees,
            self.empty_team_noop,
        )
    }
}

/// A partition reports only events of its own user set, and only an empty
/// team partition is a no-op.
pub proof fn lemma_partitions_are_self_contained(
    user_set_id: Seq<char>,
    scope: Seq<char>,
    members: Seq<Seq<char>>,
    account: Option<Seq<char>>,
)
    ensures
        primary_partition(user_set_id, scope, account).required_event_user_set_id == user_set_id,
        !primary_partition(user_set_id, scope, account).empty_team_noop,
        team_partition(user_set_id, members, account).required_event_user_set_id == user_set_id,
        team_partition(user_set_id, members, account).empty_team_noop <==> members.len() == 0,
        team_partition(user_set_id, members, account).watchers is None,
        team_partition(user_set_id, members, account).notification_assignees == primary_partition(
            user_set_id,
            scope,
            account,
        ).notification_assignees,
{
}

} // verus!

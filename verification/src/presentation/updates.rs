//! The local update feed as the dashboard shows it: one sentence per change
//! and one card per ticket.
use vstd::prelude::*;
use crate::presentation::identity::{shown_for, IdentityDirectory, UserRecord};
use crate::presentation::issues::{directory_for, directory_for_issues, IssueRecord};

verus! {

/// A value before or after a change.
pub enum ChangeValue {
    Text(String),
    Account(String),
    Date(Option<String>),
    Parent(Option<String>),
    Empty,
}

/// What an update event records.
pub enum UpdateKind {
    IssueAddedToView,
    IssueRemovedFromView,
    IssueUpdated,
    FieldChanged { field: String, old: ChangeValue, new: ChangeValue },
    StatusChanged { old: ChangeValue, new: ChangeValue },
    AssigneeChanged { old: ChangeValue, new: ChangeValue },
    PriorityChanged { old: ChangeValue, new: ChangeValue },
    DueDateChanged { old: ChangeValue, new: ChangeValue },
    SummaryChanged { old: ChangeValue, new: ChangeValue },
    ParentChanged { old: ChangeValue, new: ChangeValue },
    CommentAdded { author: Option<String>, excerpt: String },
}

/// One event of the feed.  `occurred_at` orders events; `occurred_at_label`
/// is the time as the dashboard prints it; `matching_user_set_ids` names the
/// user sets whose views the event belongs to.
pub struct UpdateEventRecord {
    pub event_id: String,
    pub issue_id: String,
    pub issue_key: String,
    pub kind: UpdateKind,
    pub occurred_at: i128,
    pub occurred_at_label: String,
    pub unread: bool,
    pub matching_user_set_ids: Vec<String>,
}

/// One row of the feed.
pub struct UpdateViewModel {
    pub event_id: String,
    pub issue_id: String,
    pub issue_key: String,
    pub issue_summary: String,
    pub change: String,
    pub occurred_at: String,
    pub unread: bool,
}

/// One ticket card of the feed.
pub struct UpdateGroupViewModel {
    pub issue_id: String,
    pub issue_key: String,
    pub issue_summary: String,
    pub events: Vec<UpdateViewModel>,
    pub latest_occurred_at: String,
    pub unread_count: usize,
    pub unread: bool,
}

/// A row of the feed as text.
pub struct UpdateView {
    pub event_id: Seq<char>,
    pub issue_id: Seq<char>,
    pub issue_key: Seq<char>,
    pub issue_summary: Seq<char>,
    pub change: Seq<char>,
    pub occurred_at: Seq<char>,
    pub unread: bool,
}

/// A ticket card as text.
pub struct GroupView {
    pub issue_id: Seq<char>,
    pub issue_key: Seq<char>,
    pub issue_summary: Seq<char>,
    pub events: Seq<UpdateView>,
    pub latest_occurred_at: Seq<char>,
    pub unread_count: nat,
    pub unread: bool,
}

impl View for UpdateViewModel {
    type V = UpdateView;

    open spec fn view(&self) -> UpdateView {
        UpdateView {
            event_id: self.event_id@,
            issue_id: self.issue_id@,
            issue_key: self.issue_key@,
            issue_summary: self.issue_summary@,
            change: self.change@,
            occurred_at: self.occurred_at@,
            unread: self.unread,
        }
    }
}

impl View for UpdateGroupViewModel {
    type V = GroupView;

    open spec fn view(&self) -> GroupView {
        GroupView {
            issue_id: self.issue_id@,
            issue_key: self.issue_key@,
            issue_summary: self.issue_summary@,
            events: self.events@.map_values(|u: UpdateViewModel| u@),
            latest_occurred_at: self.latest_occurred_at@,
            unread_count: self.unread_count as nat,
            unread: self.unread,
        }
    }
}

/// The text of a changed value; accounts show by name.
pub open spec fn change_value_text(value: ChangeValue, names: Map<Seq<char>, Seq<char>>) -> Seq<char> {
    match value {
        ChangeValue::Text(s) => s@,
        ChangeValue::Account(id) => shown_for(names, Some(id@), "Unknown user"@, "Unknown user"@),
        ChangeValue::Date(d) => match d {
            Some(s) => s@,
            None => "not set"@,
        },
        ChangeValue::Parent(p) => match p {
            Some(s) => s@,
            None => "none"@,
        },
        ChangeValue::Empty => "empty"@,
    }
}

/// `field: old → new`.
pub open spec fn sentence(
    field: Seq<char>,
    old: ChangeValue,
    new: ChangeValue,
    names: Map<Seq<char>, Seq<char>>,
) -> Seq<char> {
    field + ": "@ + change_value_text(old, names) + " → "@ + change_value_text(new, names)
}

/// The sentence that describes an update.
pub open spec fn description(kind: UpdateKind, names: Map<Seq<char>, Seq<char>>) -> Seq<char> {
    match kind {
        UpdateKind::IssueAddedToView => "Added to this user set"@,
        UpdateKind::IssueRemovedFromView => "Removed from this user set"@,
        UpdateKind::IssueUpdated => "Issue activity changed"@,
        UpdateKind::FieldChanged { field, old, new } => sentence(field@, old, new, names),
        UpdateKind::StatusChanged { old, new } => sentence("Status"@, old, new, names),
        UpdateKind::AssigneeChanged { old, new } => sentence("Assignee"@, old, new, names),
        UpdateKind::PriorityChanged { old, new } => sentence("Priority"@, old, new, names),
        UpdateKind::DueDateChanged { old, new } => sentence("Due date"@, old, new, names),
        UpdateKind::SummaryChanged { old, new } => sentence("Summary"@, old, new, names),
        UpdateKind::ParentChanged { old, new } => sentence("Parent"@, old, new, names),
        UpdateKind::CommentAdded { author, excerpt } => shown_for(
            names,
            match author {
                Some(a) => Some(a@),
                None => None,
            },
            "Unknown author"@,
            "Unknown user"@,
        ) + " commented: "@ + excerpt@,
    }
}

/// The summary of the last issue of the view with ID `id`.
pub open spec fn summary_for(issues: Seq<IssueRecord>, id: Seq<char>) -> Option<Seq<char>>
    decreases issues.len(),
{
    if issues.len() == 0 {
        None
    } else if issues.last().id@ == id {
        Some(issues.last().summary@)
    } else {
        summary_for(issues.drop_last(), id)
    }
}

/// The row of one event.
pub open spec fn update_view(
    e: UpdateEventRecord,
    issues: Seq<IssueRecord>,
    names: Map<Seq<char>, Seq<char>>,
) -> UpdateView {
    UpdateView {
        event_id: e.event_id@,
        issue_id: e.issue_id@,
        issue_key: e.issue_key@,
        issue_summary: match summary_for(issues, e.issue_id@) {
            Some(s) => s,
            None => "Issue no longer in this view"@,
        },
        change: description(e.kind, names),
        occurred_at: e.occurred_at_label@,
        unread: e.unread,
    }
}

/// The issue IDs of the events, each once, in order of first appearance.
pub open spec fn issue_order(events: Seq<UpdateEventRecord>) -> Seq<Seq<char>>
    decreases events.len(),
{
    if events.len() == 0 {
        Seq::empty()
    } else {
        let before = issue_order(events.drop_last());
        if before.contains(events.last().issue_id@) {
            before
        } else {
            before.push(events.last().issue_id@)
        }
    }
}

/// The events of the issue `id`, in input order.
pub open spec fn events_of(events: Seq<UpdateEventRecord>, id: Seq<char>) -> Seq<UpdateEventRecord>
    decreases events.len(),
{
    if events.len() == 0 {
        Seq::empty()
    } else {
        let before = events_of(events.drop_last(), id);
        if events.last().issue_id@ == id {
            before.push(events.last())
        } else {
            before
        }
    }
}

/// The number of unread events of `es`.
pub open spec fn unread_count_of(es: Seq<UpdateEventRecord>) -> nat
    decreases es.len(),
{
    if es.len() == 0 {
        0
    } else {
        unread_count_of(es.drop_last()) + if es.last().unread {
            1nat
        } else {
            0nat
        }
    }
}

/// The latest event of `es`; of equally late events the first.
pub open spec fn latest_event(es: Seq<UpdateEventRecord>) -> UpdateEventRecord
    recommends
        es.len() > 0,
    decreases es.len(),
{
    if es.len() <= 1 {
        es[0]
    } else {
        let before = latest_event(es.drop_last());
        if es.last().occurred_at > before.occurred_at {
            es.last()
        } else {
            before
        }
    }
}

/// The card of the issue `id`.
pub open spec fn group_view(
    events: Seq<UpdateEventRecord>,
    id: Seq<char>,
    issues: Seq<IssueRecord>,
    names: Map<Seq<char>, Seq<char>>,
) -> GroupView {
    let es = events_of(events, id);
    let first = update_view(es[0], issues, names);
    GroupView {
        issue_id: id,
        issue_key: first.issue_key,
        issue_summary: first.issue_summary,
        events: es.map_values(|e: UpdateEventRecord| update_view(e, issues, names)),
        latest_occurred_at: latest_event(es).occurred_at_label@,
        unread_count: unread_count_of(es),
        unread: unread_count_of(es) > 0,
    }
}

/// The cards of the feed: one per issue, in order of the issue's first event.
pub open spec fn update_groups(
    events: Seq<UpdateEventRecord>,
    issues: Seq<IssueRecord>,
    users: Seq<UserRecord>,
) -> Seq<GroupView> {
    let names = directory_for(issues, users);
    issue_order(events).map_values(|id: Seq<char>| group_view(events, id, issues, names))
}

/// The text of a changed value.
pub fn display_change_value(value: &ChangeValue, identities: &IdentityDirectory) -> (text: String)
    requires
        identities.wf(),
    ensures
        text@ == change_value_text(*value, identities@),
{
    match value {
        ChangeValue::Text(s) => String::from_str(s.as_str()),
        ChangeValue::Account(id) => identities.display(Some(id.as_str()), "Unknown user"),
        ChangeValue::Date(d) => match d {
            Some(s) => String::from_str(s.as_str()),
            None => String::from_str("not set"),
        },
        ChangeValue::Parent(p) => match p {
            Some(s) => String::from_str(s.as_str()),
            None => String::from_str("none"),
        },
        ChangeValue::Empty => String::from_str("empty"),
    }
}

/// `field: old → new`.
pub fn change_sentence(
    field: &str,
    old: &ChangeValue,
    new: &ChangeValue,
    identities: &IdentityDirectory,
) -> (text: String)
    requires
        identities.wf(),
    ensures
        text@ == sentence(field@, *old, *new, identities@),
{
    let mut out = String::from_str(field);
    crate::text::push_str(&mut out, ": ");
    let before = display_change_value(old, identities);
    crate::text::push_str(&mut out, before.as_str());
    crate::text::push_str(&mut out, " → ");
    let after = display_change_value(new, identities);
    crate::text::push_str(&mut out, after.as_str());
    out
}

/// The sentence that describes an update.
pub fn describe_change(kind: &UpdateKind, identities: &IdentityDirectory) -> (text: String)
    requires
        identities.wf(),
    ensures
        text@ == description(*kind, identities@),
{
    match kind {
        UpdateKind::IssueAddedToView => String::from_str("Added to this user set"),
        UpdateKind::IssueRemovedFromView => String::from_str("Removed from this user set"),
        UpdateKind::IssueUpdated => String::from_str("Issue activity changed"),
        UpdateKind::FieldChanged { field, old, new } => change_sentence(
            field.as_str(),
            old,
            new,
            identities,
        ),
        UpdateKind::StatusChanged { old, new } => change_sentence("Status", old, new, identities),
        UpdateKind::AssigneeChanged { old, new } => change_sentence(
            "Assignee",
            old,
            new,
            identities,
        ),
        UpdateKind::PriorityChanged { old, new } => change_sentence(
            "Priority",
            old,
            new,
            identities,
        ),
        UpdateKind::DueDateChanged { old, new } => change_sentence(
            "Due date",
            old,
            new,
            identities,
        ),
        UpdateKind::SummaryChanged { old, new } => change_sentence(
            "Summary",
            old,
            new,
            identities,
        ),
        UpdateKind::ParentChanged { old, new } => change_sentence("Parent", old, new, identities),
        UpdateKind::CommentAdded { author, excerpt } => {
            let author_id = match author {
                Some(a) => Some(a.as_str()),
                None => None,
            };
            let mut out = identities.display_with_unknown(author_id, "Unknown author", "Unknown user");
            crate::text::push_str(&mut out, " commented: ");
            crate::text::push_str(&mut out, excerpt.as_str());
            out
        },
    }
}

/// The summary of the last issue of the view with ID `id`.
fn summary_of(issues: &[IssueRecord], id: &str) -> (summary: Option<String>)
    ensures
        match summary {
            Some(s) => summary_for(issues@, id@) == Some(s@),
            None => summary_for(issues@, id@) is None,
        },
{
    let mut found: Option<String> = None;
    let mut i: usize = 0;
    while i < issues.len()
        invariant
            i <= issues@.len(),
            match found {
                Some(s) => summary_for(issues@.take(i as int), id@) == Some(s@),
                None => summary_for(issues@.take(i as int), id@) is None,
            },
        decreases issues.len() - i,
    {
        assert(issues@.take(i + 1).drop_last() =~= issues@.take(i as int));
        assert(issues@.take(i + 1).last() == issues@[i as int]);
        if crate::text::str_equals(issues[i].id.as_str(), id) {
            found = Some(String::from_str(issues[i].summary.as_str()));
        }
        i += 1;
    }
    assert(issues@.take(issues@.len() as int) =~= issues@);
    found
}

/// The row of one event.
pub fn update_view_for(
    event: &UpdateEventRecord,
    issues: &[IssueRecord],
    identities: &IdentityDirectory,
) -> (row: UpdateViewModel)
    requires
        identities.wf(),
    ensures
        row@ == update_view(*event, issues@, identities@),
{
    let issue_summary = match summary_of(issues, event.issue_id.as_str()) {
        Some(s) => s,
        None => String::from_str("Issue no longer in this view"),
    };
    UpdateViewModel {
        event_id: String::from_str(event.event_id.as_str()),
        issue_id: String::from_str(event.issue_id.as_str()),
        issue_key: String::from_str(event.issue_key.as_str()),
        issue_summary,
        change: describe_change(&event.kind, identities),
        occurred_at: String::from_str(event.occurred_at_label.as_str()),
        unread: event.unread,
    }
}

/// A copy of a row.
fn copy_view(row: &UpdateViewModel) -> (copy: UpdateViewModel)
    ensures
        copy@ == row@,
{
    UpdateViewModel {
        event_id: String::from_str(row.event_id.as_str()),
        issue_id: String::from_str(row.issue_id.as_str()),
        issue_key: String::from_str(row.issue_key.as_str()),
        issue_summary: String::from_str(row.issue_summary.as_str()),
        change: String::from_str(row.change.as_str()),
        occurred_at: String::from_str(row.occurred_at.as_str()),
        unread: row.unread,
    }
}

/// Whether `id` is among `ids`.
fn contains_id(ids: &Vec<String>, id: &str) -> (b: bool)
    ensures
        b == ids@.map_values(|s: String| s@).contains(id@),
{
    let ghost v = ids@.map_values(|s: String| s@);
    let mut i: usize = 0;
    while i < ids.len()
        invariant
            i <= ids@.len(),
            v == ids@.map_values(|s: String| s@),
            forall|k: int| 0 <= k < i ==> v[k] != id@,
        decreases ids.len() - i,
    {
        if crate::text::str_equals(ids[i].as_str(), id) {
            assert(v[i as int] == id@);
            return true;
        }
        i += 1;
    }
    false
}

/// The issue IDs of the events, each once, in order of first appearance.
fn issue_order_of(events: &[UpdateEventRecord]) -> (ids: Vec<String>)
    ensures
        ids@.map_values(|s: String| s@) == issue_order(events@),
{
    let mut ids: Vec<String> = Vec::new();
    let mut i: usize = 0;
    proof {
        assert(events@.take(0) =~= Seq::<UpdateEventRecord>::empty());
        assert(ids@.map_values(|s: String| s@) =~= Seq::<Seq<char>>::empty());
    }
    while i < events.len()
        invariant
            i <= events@.len(),
            ids@.map_values(|s: String| s@) == issue_order(events@.take(i as int)),
        decreases events.len() - i,
    {
        assert(events@.take(i + 1).drop_last() =~= events@.take(i as int));
        assert(events@.take(i + 1).last() == events@[i as int]);
        if !contains_id(&ids, events[i].issue_id.as_str()) {
            let ghost before = ids@.map_values(|s: String| s@);
            ids.push(String::from_str(events[i].issue_id.as_str()));
            assert(ids@.map_values(|s: String| s@) =~= before.push(events@[i as int].issue_id@));
        }
        i += 1;
    }
    assert(events@.take(events@.len() as int) =~= events@);
    ids
}

/// The card of the issue `id`.
fn group_for(
    events: &[UpdateEventRecord],
    rows: &Vec<UpdateViewModel>,
    id: &str,
    Ghost(issues): Ghost<Seq<IssueRecord>>,
    Ghost(names): Ghost<Map<Seq<char>, Seq<char>>>,
) -> (card: UpdateGroupViewModel)
    requires
        rows@.len() == events@.len(),
        forall|j: int| 0 <= j < rows@.len() ==> (#[trigger] rows@[j])@ == update_view(events@[j], issues, names),
        events_of(events@, id@).len() > 0,
    ensures
        card@ == group_view(events@, id@, issues, names),
{
    let mut members: Vec<UpdateViewModel> = Vec::new();
    let mut unread_count: usize = 0;
    let mut latest: usize = 0;
    let mut j: usize = 0;
    proof {
        assert(events@.take(0) =~= Seq::<UpdateEventRecord>::empty());
        assert(members@.map_values(|u: UpdateViewModel| u@) =~= Seq::<UpdateView>::empty());
    }
    while j < events.len()
        invariant
            j <= events@.len(),
            rows@.len() == events@.len(),
            forall|k: int| 0 <= k < rows@.len() ==> (#[trigger] rows@[k])@ == update_view(events@[k], issues, names),
            members@.map_values(|u: UpdateViewModel| u@) == events_of(events@.take(j as int), id@).map_values(
                |e: UpdateEventRecord| update_view(e, issues, names),
            ),
            unread_count == unread_count_of(events_of(events@.take(j as int), id@)),
            unread_count <= j,
            latest < events@.len(),
            events_of(events@.take(j as int), id@).len() > 0 ==> events@[latest as int]
                == latest_event(events_of(events@.take(j as int), id@)),
        decreases events.len() - j,
    {
        let ghost prev = events_of(events@.take(j as int), id@);
        let ghost e = events@[j as int];
        assert(events@.take(j + 1).drop_last() =~= events@.take(j as int));
        assert(events@.take(j + 1).last() == e);
        assert(prev.push(e).drop_last() =~= prev);
        assert(prev.push(e).last() == e);
        proof {
            lemma_unread_count_bounded(prev);
        }
        if crate::text::str_equals(events[j].issue_id.as_str(), id) {
            let ghost before = members@.map_values(|u: UpdateViewModel| u@);
            members.push(copy_view(&rows[j]));
            assert(members@.map_values(|u: UpdateViewModel| u@) =~= before.push(
                update_view(events@[j as int], issues, names),
            ));
            if events[j].unread {
                unread_count += 1;
            }
            if members.len() == 1 {
                latest = j;
            } else if events[j].occurred_at > events[latest].occurred_at {
                latest = j;
            }
        }
        j += 1;
    }
    assert(events@.take(events@.len() as int) =~= events@);
    let ghost es = events_of(events@, id@);
    assert(members@.len() == es.len());
    let first_key = String::from_str(members[0].issue_key.as_str());
    let first_summary = String::from_str(members[0].issue_summary.as_str());
    assert(members@.map_values(|u: UpdateViewModel| u@)[0] == members@[0]@);
    assert(es.map_values(|e: UpdateEventRecord| update_view(e, issues, names))[0] == update_view(
        es[0],
        issues,
        names,
    ));
    assert(members@[0]@ == update_view(es[0], issues, names));
    UpdateGroupViewModel {
        issue_id: String::from_str(id),
        issue_key: first_key,
        issue_summary: first_summary,
        events: members,
        latest_occurred_at: String::from_str(events[latest].occurred_at_label.as_str()),
        unread_count,
        unread: unread_count > 0,
    }
}

/// Every issue in the order of the feed has at least one event.
proof fn lemma_ordered_issue_has_events(events: Seq<UpdateEventRecord>, id: Seq<char>)
    requires
        issue_order(events).contains(id),
    ensures
        events_of(events, id).len() > 0,
    decreases events.len(),
{
    if events.len() > 0 {
        let before = issue_order(events.drop_last());
        if before.contains(id) {
            lemma_ordered_issue_has_events(events.drop_last(), id);
        } else {
            let k = choose|k: int| 0 <= k < issue_order(events).len() && issue_order(events)[k] == id;
            assert(k == before.len());
        }
    }
}

/// Groups the events of the feed into one card per issue.
///
/// Cards keep the order in which their issues first appear, and each card
/// keeps its events in input order.  Issue summaries come from the current
/// issue view by ID; an issue that left the view keeps its event's key.
pub fn update_groups_for_events(
    events: &[UpdateEventRecord],
    issues: &[IssueRecord],
    users: &[UserRecord],
) -> (groups: Vec<UpdateGroupViewModel>)
    ensures
        groups@.map_values(|g: UpdateGroupViewModel| g@) == update_groups(events@, issues@, users@),
{
    let identities = directory_for_issues(issues, users);
    let ghost names = identities@;
    let mut rows: Vec<UpdateViewModel> = Vec::new();
    let mut i: usize = 0;
    while i < events.len()
        invariant
            i <= events@.len(),
            identities.wf(),
            names == identities@,
            rows@.len() == i,
            forall|k: int| 0 <= k < i ==> (#[trigger] rows@[k])@ == update_view(events@[k], issues@, names),
        decreases events.len() - i,
    {
        rows.push(update_view_for(&events[i], issues, &identities));
        i += 1;
    }
    let ids = issue_order_of(events);
    let ghost order = issue_order(events@);
    let mut groups: Vec<UpdateGroupViewModel> = Vec::new();
    let mut k: usize = 0;
    proof {
        assert(groups@.map_values(|g: UpdateGroupViewModel| g@) =~= Seq::<GroupView>::empty());
    }
    while k < ids.len()
        invariant
            k <= ids@.len(),
            ids@.map_values(|s: String| s@) == order,
            order == issue_order(events@),
            rows@.len() == events@.len(),
            forall|q: int| 0 <= q < rows@.len() ==> (#[trigger] rows@[q])@ == update_view(events@[q], issues@, names),
            names == directory_for(issues@, users@),
            groups@.map_values(|g: UpdateGroupViewModel| g@) == order.take(k as int).map_values(
                |id: Seq<char>| group_view(events@, id, issues@, names),
            ),
        decreases ids.len() - k,
    {
        let ghost id = order[k as int];
        assert(ids@[k as int]@ == id);
        proof {
            assert(order.contains(id));
            lemma_ordered_issue_has_events(events@, id);
        }
        let ghost before = groups@.map_values(|g: UpdateGroupViewModel| g@);
        assert(order.take(k + 1) =~= order.take(k as int).push(id));
        let card = group_for(events, &rows, ids[k].as_str(), Ghost(issues@), Ghost(names));
        assert(card@ == group_view(events@, id, issues@, names));
        let ghost card_view = card@;
        groups.push(card);
        assert(groups@.map_values(|g: UpdateGroupViewModel| g@) =~= before.push(card_view));
        assert(groups@.map_values(|g: UpdateGroupViewModel| g@) =~= order.take(k + 1).map_values(
            |id: Seq<char>| group_view(events@, id, issues@, names),
        ));
        k += 1;
    }
    assert(order.take(order.len() as int) =~= order);
    groups
}

/// Every event is on the card of its issue, and that issue is on the feed.
pub proof fn lemma_every_event_is_grouped(events: Seq<UpdateEventRecord>, i: int)
    requires
        0 <= i < events.len(),
    ensures
        issue_order(events).contains(events[i].issue_id@),
        events_of(events, events[i].issue_id@).contains(events[i]),
    decreases events.len(),
{
    let p = events.drop_last();
    if i < events.len() - 1 {
        assert(p[i] == events[i]);
        lemma_every_event_is_grouped(p, i);
        let before = issue_order(p);
        if !before.contains(events.last().issue_id@) {
            let k = choose|k: int| 0 <= k < before.len() && before[k] == events[i].issue_id@;
            assert(issue_order(events)[k] == events[i].issue_id@);
        }
        let es = events_of(p, events[i].issue_id@);
        let k = choose|k: int| 0 <= k < es.len() && es[k] == events[i];
        if events.last().issue_id@ == events[i].issue_id@ {
            assert(events_of(events, events[i].issue_id@)[k] == events[i]);
        }
    } else {
        assert(events.last() == events[i]);
        let before = issue_order(p);
        if !before.contains(events[i].issue_id@) {
            assert(issue_order(events)[before.len() as int] == events[i].issue_id@);
        }
        let es = events_of(events, events[i].issue_id@);
        assert(es[es.len() - 1] == events[i]);
    }
}

/// The feed names each issue on one card only.
pub proof fn lemma_issue_order_distinct(events: Seq<UpdateEventRecord>)
    ensures
        forall|a: int, b: int|
            0 <= a < b < issue_order(events).len() ==> issue_order(events)[a] != issue_order(
                events,
            )[b],
    decreases events.len(),
{
    if events.len() > 0 {
        let p = events.drop_last();
        lemma_issue_order_distinct(p);
        let before = issue_order(p);
        let x = events.last().issue_id@;
        if !before.contains(x) {
            let order = issue_order(events);
            assert forall|a: int, b: int| 0 <= a < b < order.len() implies order[a] != order[b] by {
                assert(order[a] == before[a]);
                if b < before.len() {
                    assert(order[b] == before[b]);
                } else {
                    assert(order[b] == x);
                }
            }
        }
    }
}

/// A card is unread exactly when it counts an unread event, and it never
/// counts more unread events than it holds.
pub proof fn lemma_unread_count_bounded(es: Seq<UpdateEventRecord>)
    ensures
        unread_count_of(es) <= es.len(),
        (unread_count_of(es) > 0) == (exists|i: int| 0 <= i < es.len() && es[i].unread),
    decreases es.len(),
{
    if es.len() > 0 {
        lemma_unread_count_bounded(es.drop_last());
        if es.last().unread {
            assert(es[es.len() - 1].unread);
        } else if unread_count_of(es) > 0 {
            let i = choose|i: int| 0 <= i < es.drop_last().len() && es.drop_last()[i].unread;
            assert(es[i].unread);
        } else {
            assert forall|i: int| 0 <= i < es.len() implies !es[i].unread by {
                if i < es.len() - 1 {
                    assert(es[i] == es.drop_last()[i]);
                }
            }
        }
    }
}

/// The latest event of a non-empty run is one of its events, and no event of
/// the run occurred later.
pub proof fn lemma_latest_event_is_latest(es: Seq<UpdateEventRecord>)
    requires
        es.len() > 0,
    ensures
        es.contains(latest_event(es)),
        forall|i: int| 0 <= i < es.len() ==> es[i].occurred_at <= latest_event(es).occurred_at,
    decreases es.len(),
{
    if es.len() == 1 {
        assert(es[0] == latest_event(es));
    } else {
        let p = es.drop_last();
        lemma_latest_event_is_latest(p);
        let k = choose|k: int| 0 <= k < p.len() && p[k] == latest_event(p);
        if es.last().occurred_at > latest_event(p).occurred_at {
            assert(es[es.len() - 1] == latest_event(es));
        } else {
            assert(es[k] == latest_event(es));
        }
        assert forall|i: int| 0 <= i < es.len() implies es[i].occurred_at <= latest_event(
            es,
        ).occurred_at by {
            if i < es.len() - 1 {
                assert(es[i] == p[i]);
            }
        }
    }
}

/// The events of an issue are events of the feed that belong to that issue.
pub proof fn lemma_events_of_belong(events: Seq<UpdateEventRecord>, id: Seq<char>)
    ensures
        forall|k: int|
            0 <= k < events_of(events, id).len() ==> (exists|i: int|
                0 <= i < events.len() && events[i] == #[trigger] events_of(events, id)[k])
                && events_of(events, id)[k].issue_id@ == id,
    decreases events.len(),
{
    if events.len() > 0 {
        let p = events.drop_last();
        lemma_events_of_belong(p, id);
        let es = events_of(events, id);
        let before = events_of(p, id);
        assert forall|k: int| 0 <= k < es.len() implies (exists|i: int|
            0 <= i < events.len() && events[i] == #[trigger] es[k]) && es[k].issue_id@ == id by {
            if k < before.len() {
                assert(es[k] == before[k]);
                let i = choose|i: int| 0 <= i < p.len() && p[i] == before[k];
                assert(events[i] == es[k]);
            } else {
                assert(es[k] == events.last());
                assert(events[events.len() - 1] == es[k]);
            }
        }
    }
}

/// A ticket card shows the time of the latest event of its issue: the label
/// it shows is that of an event of the issue, and no event of the issue in
/// the feed occurred later.
pub proof fn lemma_card_shows_latest_time(
    events: Seq<UpdateEventRecord>,
    issues: Seq<IssueRecord>,
    users: Seq<UserRecord>,
    k: int,
)
    requires
        0 <= k < update_groups(events, issues, users).len(),
    ensures
        exists|i: int|
            0 <= i < events.len() && events[i].issue_id@ == update_groups(events, issues, users)[k].issue_id
                && events[i].occurred_at_label@ == update_groups(events, issues, users)[k].latest_occurred_at
                && forall|j: int|
                0 <= j < events.len() && events[j].issue_id@ == events[i].issue_id@
                    ==> events[j].occurred_at <= events[i].occurred_at,
{
    let order = issue_order(events);
    let id = order[k];
    assert(order.contains(id));
    lemma_ordered_issue_has_events(events, id);
    let es = events_of(events, id);
    lemma_latest_event_is_latest(es);
    lemma_events_of_belong(events, id);
    let latest = latest_event(es);
    let m = choose|m: int| 0 <= m < es.len() && es[m] == latest;
    let i = choose|i: int| 0 <= i < events.len() && events[i] == es[m];
    let card = update_groups(events, issues, users)[k];
    assert(card == group_view(events, id, issues, directory_for(issues, users)));
    assert forall|j: int|
        0 <= j < events.len() && events[j].issue_id@ == events[i].issue_id@ implies events[j].occurred_at
        <= events[i].occurred_at by {
        lemma_every_event_is_grouped(events, j);
        let q = choose|q: int| 0 <= q < es.len() && es[q] == events[j];
        assert(es[q].occurred_at <= latest.occurred_at);
    }
}

} // verus!

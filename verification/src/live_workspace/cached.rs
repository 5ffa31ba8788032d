//! What a cached workspace partition shows without contacting Jira: the
//! pages of its issues that are read, and the feed events that belong to it.
use vstd::prelude::*;
use crate::presentation::issues::IssueRecord;
use crate::presentation::updates::UpdateEventRecord;

verus! {

/// Issues read from the cache per page.
pub const ISSUE_PAGE_SIZE: usize = 1000;
/// At most this many cached issues are read.
pub const MAX_CACHED_ISSUES: usize = 10000;
/// At most this many feed events are read.
pub const MAX_FEED_EVENTS: usize = 500;

/// The offset of the next page of cached issues to read, after a page of
/// `page_len` issues was read at `offset`: none after a short page or once
/// the cap is reached.
pub fn next_cached_page(offset: usize, page_len: usize) -> (next: Option<usize>)
    ensures
        next == if page_len < ISSUE_PAGE_SIZE || offset + ISSUE_PAGE_SIZE >= MAX_CACHED_ISSUES {
            None::<usize>
        } else {
            Some((offset + ISSUE_PAGE_SIZE) as usize)
        },
{
    if page_len < ISSUE_PAGE_SIZE || offset >= MAX_CACHED_ISSUES - ISSUE_PAGE_SIZE {
        None
    } else {
        Some(offset + ISSUE_PAGE_SIZE)
    }
}

/// Whether some issue has the ID `id`.
pub open spec fn displays_issue(issues: Seq<IssueRecord>, id: Seq<char>) -> bool {
    exists|k: int| 0 <= k < issues.len() && issues[k].id@ == id
}

/// Whether an event belongs to the user set `id`.
pub open spec fn matches_user_set(event: UpdateEventRecord, id: Seq<char>) -> bool {
    exists|k: int|
        0 <= k < event.matching_user_set_ids@.len() && event.matching_user_set_ids@[k]@ == id
}

/// Whether a partition that displays `issues` shows `event`: its issue is
/// displayed and, when a user set is required, the event belongs to it.
pub open spec fn partition_shows(
    event: UpdateEventRecord,
    issues: Seq<IssueRecord>,
    required: Option<Seq<char>>,
) -> bool {
    &&& displays_issue(issues, event.issue_id@)
    &&& match required {
        Some(id) => matches_user_set(event, id),
        None => true,
    }
}

/// The positions of the events the partition shows, in feed order.
pub open spec fn shown_positions(
    events: Seq<UpdateEventRecord>,
    issues: Seq<IssueRecord>,
    required: Option<Seq<char>>,
) -> Seq<int>
    decreases events.len(),
{
    if events.len() == 0 {
        Seq::empty()
    } else {
        let before = shown_positions(events.drop_last(), issues, required);
        if partition_shows(events.last(), issues, required) {
            before.push(events.len() - 1)
        } else {
            before
        }
    }
}

/// Whether some issue has the ID `id`.
fn displays(issues: &[IssueRecord], id: &str) -> (b: bool)
    ensures
        b == displays_issue(issues@, id@),
{
    let mut k: usize = 0;
    while k < issues.len()
        invariant
            k <= issues@.len(),
            forall|j: int| 0 <= j < k ==> issues@[j].id@ != id@,
        decreases issues.len() - k,
    {
        if crate::text::str_equals(issues[k].id.as_str(), id) {
            return true;
        }
        k += 1;
    }
    false
}

/// Whether the event belongs to the user set `id`.
fn belongs_to(event: &UpdateEventRecord, id: &str) -> (b: bool)
    ensures
        b == matches_user_set(*event, id@),
{
    let mut k: usize = 0;
    while k < event.matching_user_set_ids.len()
        invariant
            k <= event.matching_user_set_ids@.len(),
            forall|j: int| 0 <= j < k ==> event.matching_user_set_ids@[j]@ != id@,
        decreases event.matching_user_set_ids.len() - k,
    {
        if crate::text::str_equals(event.matching_user_set_ids[k].as_str(), id) {
            return true;
        }
        k += 1;
    }
    false
}

/// The positions, in feed order, of the events a partition that displays
/// `issues` shows; with `required_user_set_id`, only events of that user set.
pub fn partition_event_positions(
    events: &[UpdateEventRecord],
    issues: &[IssueRecord],
    required_user_set_id: Option<&str>,
) -> (kept: Vec<usize>)
    ensures
        kept@.map_values(|i: usize| i as int) == shown_positions(
            events@,
            issues@,
            match required_user_set_id {
                Some(id) => Some(id@),
                None => None,
            },
        ),
{
    let ghost required = match required_user_set_id {
        Some(id) => Some(id@),
        None => None,
    };
    let mut kept: Vec<usize> = Vec::new();
    let mut i: usize = 0;
    assert(kept@.map_values(|i: usize| i as int) =~= Seq::<int>::empty());
    while i < events.len()
        invariant
            i <= events@.len(),
            required == match required_user_set_id {
                Some(id) => Some(id@),
                None => None::<Seq<char>>,
            },
            kept@.map_values(|i: usize| i as int) == shown_positions(
                events@.take(i as int),
                issues@,
                required,
            ),
        decreases events.len() - i,
    {
        assert(events@.take(i + 1).drop_last() =~= events@.take(i as int));
        assert(events@.take(i + 1).last() == events@[i as int]);
        let event = &events[i];
        let shown = displays(issues, event.issue_id.as_str()) && match required_user_set_id {
            Some(id) => belongs_to(event, id),
            None => true,
        };
        if shown {
            let ghost before = kept@.map_values(|i: usize| i as int);
            kept.push(i);
            assert(kept@.map_values(|i: usize| i as int) =~= before.push(i as int));
        }
        i += 1;
    }
    assert(events@.take(events@.len() as int) =~= events@);
    kept
}

/// The events a partition shows are exactly those of displayed issues that
/// belong to the required user set, each once and in feed order.
pub proof fn lemma_partition_shows_exactly(
    events: Seq<UpdateEventRecord>,
    issues: Seq<IssueRecord>,
    required: Option<Seq<char>>,
)
    ensures
        forall|a: int, b: int|
            0 <= a < b < shown_positions(events, issues, required).len() ==> #[trigger] shown_positions(
                events,
                issues,
                required,
            )[a] < #[trigger] shown_positions(events, issues, required)[b],
        forall|a: int|
            0 <= a < shown_positions(events, issues, required).len() ==> {
                let p = #[trigger] shown_positions(events, issues, required)[a];
                0 <= p < events.len() && partition_shows(events[p], issues, required)
            },
        forall|p: int|
            0 <= p < events.len() && partition_shows(#[trigger] events[p], issues, required)
                ==> shown_positions(events, issues, required).contains(p),
    decreases events.len(),
{
    if events.len() > 0 {
        let rest = events.drop_last();
        lemma_partition_shows_exactly(rest, issues, required);
        let before = shown_positions(rest, issues, required);
        let after = shown_positions(events, issues, required);
        assert forall|a: int|
            0 <= a < after.len() implies {
                let p = #[trigger] after[a];
                0 <= p < events.len() && partition_shows(events[p], issues, required)
            } by {
            if a < before.len() {
                assert(after[a] == before[a]);
                assert(events[before[a]] == rest[before[a]]);
            }
        }
        assert forall|p: int|
            0 <= p < events.len() && partition_shows(#[trigger] events[p], issues, required)
                implies after.contains(p) by {
            if p < events.len() - 1 {
                assert(rest[p] == events[p]);
                let k = choose|k: int| 0 <= k < before.len() && before[k] == p;
                assert(after[k] == before[k]);
            } else {
                assert(after[after.len() - 1] == p);
            }
        }
        assert forall|a: int, b: int| 0 <= a < b < after.len() implies #[trigger] after[a]
            < #[trigger] after[b] by {
            if b < before.len() {
                assert(after[a] == before[a] && after[b] == before[b]);
            } else {
                assert(after[a] == before[a]);
            }
        }
    }
}

} // verus!

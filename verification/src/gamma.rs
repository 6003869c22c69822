//! The queries sent to the Gamma market-data service.

use crate::text::owned;
use vstd::prelude::*;

verus! {

/// Query for the list of tags.
pub struct TagsQuery {
    pub limit: u32,
}

/// Query for events.
pub struct EventsQuery {
    pub active: bool,
    pub closed: bool,
    pub order: Vec<String>,
    pub ascending: bool,
    pub limit: u32,
    pub tag_id: Option<String>,
}

/// The tag query: up to 3000 tags.
pub fn tags_query() -> (q: TagsQuery)
    ensures
        q.limit == 3000,
{
    TagsQuery { limit: 3000 }
}

/// The event query for a tag (or for all tags): active, not closed events,
/// ordered by ascending start date, at most 500.
pub fn events_query(tag_id: Option<String>) -> (q: EventsQuery)
    ensures
        q.active,
        !q.closed,
        q.order@.len() == 1,
        q.order@[0]@ == "startDate"@,
        q.ascending,
        q.limit == 500,
        q.tag_id == tag_id,
{
    let mut order: Vec<String> = Vec::new();
    order.push(owned("startDate"));
    EventsQuery { active: true, closed: false, order, ascending: true, limit: 500, tag_id }
}

} // verus!

//! Live match updates of the sports feed and which of them are passed on.

use crate::text::same_text;
use vstd::prelude::*;

verus! {

/// One update of the sports feed: the match's slug, its status and the
/// abbreviation of its league.
#[derive(Debug, Clone)]
pub struct SportsData {
    pub slug: String,
    pub status: String,
    pub league_abbreviation: String,
}

/// The match statuses of football games that the feed's updates are
/// passed on for.
pub open spec fn is_soccer_status(s: Seq<char>) -> bool {
    ||| s == "Scheduled"@
    ||| s == "InProgress"@
    ||| s == "Break"@
    ||| s == "Suspended"@
    ||| s == "PenaltyShootout"@
    ||| s == "Final"@
    ||| s == "Awarded"@
    ||| s == "Postponed"@
    ||| s == "Canceled"@
}

/// Law: the statuses passed on are exactly Scheduled, InProgress, Break,
/// Suspended, PenaltyShootout, Final, Awarded, Postponed and Canceled.
pub proof fn law_forwarded_statuses(s: Seq<char>)
    ensures
        is_soccer_status("Scheduled"@),
        is_soccer_status("InProgress"@),
        is_soccer_status("Break"@),
        is_soccer_status("Suspended"@),
        is_soccer_status("PenaltyShootout"@),
        is_soccer_status("Final"@),
        is_soccer_status("Awarded"@),
        is_soccer_status("Postponed"@),
        is_soccer_status("Canceled"@),
        is_soccer_status(s) ==> (s == "Scheduled"@ || s == "InProgress"@ || s == "Break"@
            || s == "Suspended"@ || s == "PenaltyShootout"@ || s == "Final"@
            || s == "Awarded"@ || s == "Postponed"@ || s == "Canceled"@),
{
}

/// Whether `status` is one of the football match statuses.
pub fn soccer_status(status: &str) -> (b: bool)
    ensures
        b == is_soccer_status(status@),
        b <==> (status@ == "Scheduled"@ || status@ == "InProgress"@ || status@ == "Break"@
            || status@ == "Suspended"@ || status@ == "PenaltyShootout"@ || status@ == "Final"@
            || status@ == "Awarded"@ || status@ == "Postponed"@ || status@ == "Canceled"@),
{
    same_text(status, "Scheduled") || same_text(status, "InProgress") || same_text(status, "Break")
        || same_text(status, "Suspended") || same_text(status, "PenaltyShootout") || same_text(
        status,
        "Final",
    ) || same_text(status, "Awarded") || same_text(status, "Postponed") || same_text(
        status,
        "Canceled",
    )
}

impl SportsData {
    /// Whether this update is passed on to the application: its status is a
    /// football match status.
    pub fn should_forward(&self) -> (b: bool)
        ensures
            b == is_soccer_status(self.status@),
            b <==> (self.status@ == "Scheduled"@ || self.status@ == "InProgress"@ || self.status@ == "Break"@
                || self.status@ == "Suspended"@ || self.status@ == "PenaltyShootout"@ || self.status@ == "Final"@
                || self.status@ == "Awarded"@ || self.status@ == "Postponed"@ || self.status@ == "Canceled"@),
    {
        soccer_status(self.status.as_str())
    }
}

} // verus!

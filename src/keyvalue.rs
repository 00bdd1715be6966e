//! The key-value family: one item per snapshot under a single key attribute.

use vstd::prelude::*;
use vstd::string::*;
use crate::model::MatchupOverview;
use crate::timestamp::{DISPLAY_LAYOUT, RFC3339_LAYOUT, Timestamp, formatted_utc};

verus! {

/// Table that holds the items.
pub const TABLE_NAME: &'static str = "gw2-wvw-scrapper";

/// Seconds a writer waits after each item, to stay under the table's write rate.
pub const WRITE_PAUSE_SECONDS: u64 = 10;

/// The attributes of one stored item.
#[derive(Clone, Debug, PartialEq, Eq)]
pub struct KeyValueItem {
    /// `<id> <start>`, the start as `Display` writes a UTC time.
    pub matchup_key: String,
    /// RFC 3339 text of the window start.
    pub matchup_start_date: String,
    /// RFC 3339 text of the window end.
    pub matchup_end_date: String,
    /// The serialized snapshot.
    pub content: String,
}

/// The single key attribute of the item of `m`.
pub open spec fn item_key(m: MatchupOverview) -> Seq<char> {
    m.id@ + " "@ + formatted_utc(m.start_time@, DISPLAY_LAYOUT@)
}

/// The item that stores `m`, whose serialized form is `content`.
pub fn key_value_item(m: &MatchupOverview, content: String) -> (r: KeyValueItem)
    ensures
        r.matchup_key@ == item_key(*m),
        r.matchup_start_date@ == formatted_utc(m.start_time@, RFC3339_LAYOUT@),
        r.matchup_end_date@ == formatted_utc(m.end_time@, RFC3339_LAYOUT@),
        r.content@ == content@,
{
    let mut matchup_key = m.id.clone();
    matchup_key.append(" ");
    let start_text = m.start_time.to_display_text();
    matchup_key.append(start_text.as_str());
    KeyValueItem {
        matchup_key,
        matchup_start_date: m.start_time.to_rfc3339(),
        matchup_end_date: m.end_time.to_rfc3339(),
        content,
    }
}

/// The values bound in the range filter `matchup_start_date >= :date_1 AND matchup_end_date <= :date_2`.
pub fn range_filter_values(start: &Timestamp, end: &Timestamp) -> (r: (String, String))
    ensures
        r.0@ == formatted_utc(start@, RFC3339_LAYOUT@),
        r.1@ == formatted_utc(end@, RFC3339_LAYOUT@),
{
    (start.to_rfc3339(), end.to_rfc3339())
}

} // verus!

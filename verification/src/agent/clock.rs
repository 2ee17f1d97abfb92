//! The `# Current Time` block stated ahead of a system prompt, so a model that has no clock of its
//! own reads an in-progress month as partial rather than as a drop.

use chrono::{DateTime, FixedOffset};
use vstd::prelude::*;

use crate::text::concat3;

verus! {

/// The wall-clock stamp `YYYY-MM-DD HH:MM:SS ±HH:MM` of a UTC instant (milliseconds since the
/// epoch) at a fixed offset (seconds east of UTC), or `None` when chrono cannot represent the
/// instant or the offset.
pub uninterp spec fn local_stamp(now_ms: i64, offset_secs: i32) -> Option<Seq<char>>;

/// The stamp as chrono renders it: `DateTime::from_timestamp_millis`, `with_timezone` at
/// `FixedOffset::east_opt`, then the `%Y-%m-%d %H:%M:%S %:z` format.
#[verifier::external_body]
fn format_local_stamp(now_ms: i64, offset_secs: i32) -> (r: Option<String>)
    ensures
        match r {
            Some(s) => local_stamp(now_ms, offset_secs) == Some(s@),
            None => local_stamp(now_ms, offset_secs) is None,
        },
{
    let tz = FixedOffset::east_opt(offset_secs)?;
    let at = DateTime::from_timestamp_millis(now_ms)?;
    Some(at.with_timezone(&tz).format("%Y-%m-%d %H:%M:%S %:z").to_string())
}

/// The header text around a stamp.
pub open spec fn time_header_text(stamp: Seq<char>) -> Seq<char> {
    "# Current Time\n"@ + stamp + "\n\n"@
}

/// Renders the `# Current Time` header for the instant `now_ms` shown at `offset_secs`, ready to
/// prepend to a system prompt; `None` when the instant or offset cannot be represented.
pub fn current_time_header(now_ms: i64, offset_secs: i32) -> (r: Option<String>)
    ensures
        match local_stamp(now_ms, offset_secs) {
            Some(st) => r matches Some(h) && h@ == time_header_text(st),
            None => r is None,
        },
{
    match format_local_stamp(now_ms, offset_secs) {
        Some(stamp) => Some(concat3("# Current Time\n", stamp.as_str(), "\n\n")),
        None => None,
    }
}

} // verus!

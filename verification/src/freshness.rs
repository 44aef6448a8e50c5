//! The freshness gate: decides from the version marker's text and the clock
//! whether the active dataset is stale and a refresh must run.

use vstd::prelude::*;
use crate::WEEK_SECS;
use crate::parse::{dec_val, is_u64_text, parse_u64};

verus! {

/// A marker is fresh exactly when its text is a decimal timestamp that is
/// not in the future and is younger than seven days. A missing, unreadable,
/// non-numeric, or future-dated marker is never fresh: any uncertainty
/// counts as stale and forces a refresh.
pub open spec fn marker_fresh(marker: Option<Seq<char>>, now_secs: u64) -> bool {
    match marker {
        Some(s) => is_u64_text(s) && dec_val(s) <= now_secs && now_secs - dec_val(s) < WEEK_SECS,
        None => false,
    }
}

/// Decides whether a refresh is needed, from the marker file's contents
/// (`None` when the file is missing or unreadable) and the current Unix
/// time: true exactly when the marker is not fresh.
pub fn update_needed(marker: &Option<String>, now_secs: u64) -> (b: bool)
    ensures
        b == !marker_fresh(marker.deep_view(), now_secs),
{
    match marker {
        None => true,
        Some(s) => match parse_u64(s.as_str()) {
            None => true,
            Some(t) => if t <= now_secs {
                now_secs - t >= WEEK_SECS
            } else {
                true
            },
        },
    }
}

} // verus!

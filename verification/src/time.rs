//! Rendering Unix timestamps as UTC date and time.
use vstd::prelude::*;

verus! {

/// The first second that chrono can represent: -262143-01-01 00:00:00 UTC.
pub open spec fn min_timestamp() -> int {
    -8334601228800
}

/// The last second that chrono can represent: +262142-12-31 23:59:59 UTC.
pub open spec fn max_timestamp() -> int {
    8210266876799
}

/// A `strftime` pattern in which every `%` starts one of `%Y %m %d %H %M %S`.
pub open spec fn simple_pattern(p: Seq<char>) -> bool {
    forall|i: int|
        0 <= i < p.len() && p[i] == '%' ==> i + 1 < p.len() && {
            let c = p[i + 1];
            c == 'Y' || c == 'm' || c == 'd' || c == 'H' || c == 'M' || c == 'S'
        }
}

/// The text of the UTC time `ts` seconds after the Unix epoch in the `strftime`
/// pattern `pattern`, as chrono renders it.
pub uninterp spec fn utc_formatted(ts: int, pattern: Seq<char>) -> Seq<char>;

/// `chrono::DateTime::from_timestamp(ts, 0)`, rendered with `format(pattern)`:
/// `None` exactly where chrono has no such time (outside
/// [`min_timestamp`]..=[`max_timestamp`]); the text is named `utc_formatted`.
#[verifier::external_body]
fn chrono_format_utc(ts: i64, pattern: &str) -> (text: Option<String>)
    requires
        simple_pattern(pattern@),
    ensures
        text is Some <==> min_timestamp() <= ts <= max_timestamp(),
        text matches Some(t) ==> t@ == utc_formatted(ts as int, pattern@),
{
    match chrono::DateTime::from_timestamp(ts, 0) {
        Some(dt) => Some(dt.format(pattern).to_string()),
        None => None,
    }
}

/// The pattern of [`format_timestamp_human`].
pub open spec fn human_pattern() -> Seq<char> {
    "%Y-%m-%d %H:%M:%S"@
}

/// Renders a Unix timestamp as `YYYY-MM-DD HH:MM:SS` in UTC. Timestamps
/// outside the range chrono represents are refused.
pub fn format_timestamp_human(ts: i64) -> (text: String)
    requires
        min_timestamp() <= ts <= max_timestamp(),
    ensures
        text@ == utc_formatted(ts as int, human_pattern()),
{
    let pattern = "%Y-%m-%d %H:%M:%S";
    proof {
        reveal_strlit("%Y-%m-%d %H:%M:%S");
        assert(simple_pattern(pattern@));
    }
    match chrono_format_utc(ts, pattern) {
        Some(t) => t,
        None => String::new(),
    }
}

} // verus!

//! Local clock texts of unix instants, in the network's time zone.
use vstd::prelude::*;
use vstd::string::*;

use crate::model::NVTModels;
use crate::text::{decimal_digits, push_number};

verus! {

/// "HH:MM:SS" of the unix instant `ts` in Paris local time, when chrono can
/// represent the instant.
pub uninterp spec fn paris_clock(ts: int) -> Option<Seq<char>>;

/// "YYYY-MM-DD HH:MM:SS" of the unix instant `ts` in Paris local time, when
/// chrono can represent the instant.
pub uninterp spec fn paris_date_clock(ts: int) -> Option<Seq<char>>;

/// Relies on chrono's `Utc.timestamp_opt(ts, 0).single()`, conversion to
/// chrono-tz's `Europe::Paris` and the format "%H:%M:%S": the text depends on
/// the instant alone.
#[verifier::external_body]
fn paris_clock_text(ts: i64) -> (r: Option<String>)
    ensures
        r.deep_view() == paris_clock(ts as int),
{
    chrono::TimeZone::timestamp_opt(&chrono::Utc, ts, 0).single().map(
        |dt| dt.with_timezone(&chrono_tz::Europe::Paris).format("%H:%M:%S").to_string(),
    )
}

/// Relies on chrono's `Utc.timestamp_opt(ts, 0).single()`, conversion to
/// chrono-tz's `Europe::Paris` and the format "%Y-%m-%d %H:%M:%S": the text
/// depends on the instant alone.
#[verifier::external_body]
fn paris_date_clock_text(ts: i64) -> (r: Option<String>)
    ensures
        r.deep_view() == paris_date_clock(ts as int),
{
    chrono::TimeZone::timestamp_opt(&chrono::Utc, ts, 0).single().map(
        |dt| dt.with_timezone(&chrono_tz::Europe::Paris).format("%Y-%m-%d %H:%M:%S").to_string(),
    )
}

/// `n` in decimal, with a minus sign when negative.
pub open spec fn integer_text(n: int) -> Seq<char> {
    if n >= 0 {
        decimal_digits(n as nat)
    } else {
        seq!['-'] + decimal_digits((-n) as nat)
    }
}

impl NVTModels {
    /// Paris clock time of a unix instant, "??:??:??" when it cannot be represented.
    pub fn format_timestamp(timestamp: i64) -> (r: String)
        ensures
            r@ == (match paris_clock(timestamp as int) {
                Some(t) => t,
                None => "??:??:??"@,
            }),
    {
        match paris_clock_text(timestamp) {
            Some(t) => t,
            None => "??:??:??".to_owned(),
        }
    }

    /// Paris date and clock time of a unix instant, or a text naming the
    /// instant when it cannot be represented.
    pub fn format_timestamp_full(timestamp: i64) -> (r: String)
        ensures
            r@ == (match paris_date_clock(timestamp as int) {
                Some(t) => t,
                None => "Invalid timestamp: "@ + integer_text(timestamp as int),
            }),
    {
        match paris_date_clock_text(timestamp) {
            Some(t) => t,
            None => {
                let mut s = "Invalid timestamp: ".to_owned();
                let ghost start = s@;
                if timestamp >= 0 {
                    push_number(&mut s, timestamp as u64);
                } else {
                    s.append("-");
                    proof {
                        reveal_strlit("-");
                    }
                    let magnitude: u64 = ((-(timestamp + 1)) as u64) + 1;
                    assert(magnitude == -timestamp);
                    push_number(&mut s, magnitude);
                }
                assert(s@ =~= start + integer_text(timestamp as int));
                s
            },
        }
    }
}

} // verus!

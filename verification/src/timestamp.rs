//! Points in time, read from decimal seconds since the Unix epoch.

use chrono::{DateTime, Utc};
use serde_with::formats::Flexible;
use serde_with::{DeserializeAs, TimestampSeconds};
use vstd::prelude::*;

verus! {

/// A point in time: whole seconds since the Unix epoch, counted downwards for
/// times before it, and the nanoseconds that follow them.
#[derive(Clone, Copy, Debug, PartialEq, Eq, Structural)]
pub struct Timestamp {
    pub seconds: i64,
    pub nanos: u32,
}

/// The longest run of characters in front of the decimal point that
/// [`Timestamp::parse`] reads: twelve digits, or a sign and eleven.
pub const MAX_SECONDS_WIDTH: usize = 12;

/// The number of characters of `text` in front of its first `.`.
pub open spec fn seconds_width(text: Seq<char>) -> nat
    decreases text.len(),
{
    if text.len() == 0 || text[0] == '.' {
        0
    } else {
        1 + seconds_width(text.subrange(1, text.len() as int))
    }
}

/// The point in time that `serde_with` reads from a text of decimal seconds
/// with an optional fraction, or `None` where it reports an error.
pub uninterp spec fn timestamp_of(text: Seq<char>) -> Option<Timestamp>;

/// The point in time that a text stands for.
pub open spec fn timestamp_value(text: Seq<char>) -> Option<Timestamp> {
    if seconds_width(text) <= MAX_SECONDS_WIDTH {
        timestamp_of(text)
    } else {
        None
    }
}

/// Calls `serde_with`'s `TimestampSeconds<String, Flexible>` for a
/// `chrono::DateTime<Utc>`, on the text as a JSON string.
///
/// Trusted: the outcome depends on the text alone, and the result holds what
/// `DateTime::timestamp` and `DateTime::timestamp_subsec_nanos` return for
/// the time that was read. `serde_with` adds the seconds it has read to the
/// epoch with `+`, which panics beyond the years that `chrono` can hold;
/// with at most twelve characters in front of the decimal point the sum
/// stays within them.
#[verifier::external_body]
fn read_timestamp(text: &str) -> (r: Option<Timestamp>)
    requires
        seconds_width(text@) <= MAX_SECONDS_WIDTH,
    ensures
        r == timestamp_of(text@),
{
    let value = serde_json::Value::String(text.to_owned());
    let read: Result<DateTime<Utc>, serde_json::Error> =
        TimestampSeconds::<String, Flexible>::deserialize_as(value);
    match read {
        Ok(time) => Some(
            Timestamp { seconds: time.timestamp(), nanos: time.timestamp_subsec_nanos() },
        ),
        Err(_) => None,
    }
}

/// A text without `.` among its first `n` characters is at least `n` wide
/// in front of the decimal point; one with its first `.` at `n` is exactly `n`.
proof fn lemma_seconds_width(text: Seq<char>, n: nat)
    requires
        n <= text.len(),
        forall|i: int| 0 <= i < n ==> text[i] != '.',
    ensures
        seconds_width(text) >= n,
        n == text.len() || text[n as int] == '.' ==> seconds_width(text) == n,
    decreases n,
{
    if n > 0 {
        let rest = text.subrange(1, text.len() as int);
        assert forall|i: int| 0 <= i < n - 1 implies rest[i] != '.' by {
            assert(rest[i] == text[i + 1]);
        }
        lemma_seconds_width(rest, (n - 1) as nat);
        if n < text.len() {
            assert(rest[n - 1] == text[n as int]);
        }
    }
}

impl Timestamp {
    /// Reads decimal seconds since the Unix epoch, with an optional sign and
    /// an optional fraction of up to nine digits.
    ///
    /// A text with more than [`MAX_SECONDS_WIDTH`] characters in front of the
    /// decimal point is not read.
    pub fn parse(text: &str) -> (r: Option<Timestamp>)
        ensures
            r == timestamp_value(text@),
    {
        let len = text.unicode_len();
        let mut i: usize = 0;
        while i < len && i <= MAX_SECONDS_WIDTH && text.get_char(i) != '.'
            invariant
                i <= len,
                i <= MAX_SECONDS_WIDTH + 1,
                len == text@.len(),
                forall|k: int| 0 <= k < i ==> text@[k] != '.',
            decreases len - i,
        {
            i += 1;
        }
        proof {
            lemma_seconds_width(text@, i as nat);
        }
        if i <= MAX_SECONDS_WIDTH {
            read_timestamp(text)
        } else {
            None
        }
    }
}

} // verus!

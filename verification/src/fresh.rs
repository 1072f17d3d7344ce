//! What differs from one call to the next: random identifiers and the time.

use vstd::prelude::*;

use crate::chars::texts;

verus! {

pub open spec fn is_hex(c: char) -> bool {
    '0' <= c <= '9' || 'a' <= c <= 'f'
}

/// The text of a random identifier: groups of 8, 4, 4, 4 and 12 hexadecimal digits in lower
/// case, with hyphens between them, the third group beginning with its version.
pub open spec fn is_id(s: Seq<char>) -> bool {
    &&& s.len() == 36
    &&& forall|i: int|
        0 <= i < 36 ==> if i == 8 || i == 13 || i == 18 || i == 23 {
            s[i] == '-'
        } else {
            is_hex(#[trigger] s[i])
        }
    &&& s[14] == '4'
}

/// `uuid::Uuid::new_v4` draws a random identifier of version 4, and its `Display` writes it with
/// hyphens. Which identifier comes is left open.
#[verifier::external_body]
pub(crate) fn new_id() -> (out: String)
    ensures
        is_id(out@),
{
    uuid::Uuid::new_v4().to_string()
}

/// `chrono::Utc::now`, as the number of seconds since the start of 1970. Nothing is claimed of
/// the clock.
#[verifier::external_body]
pub(crate) fn now_seconds() -> (out: i64) {
    chrono::Utc::now().timestamp()
}

/// `chrono::Utc::now`, as the number of milliseconds since the start of 1970.
#[verifier::external_body]
pub(crate) fn now_millis() -> (out: i64) {
    chrono::Utc::now().timestamp_millis()
}

/// The text of a point in time in UTC: a year of at least four digits, and behind it the month, the
/// day, the hour, the minute, the second and the milliseconds, as in `-01-31T23:59:59.999Z`.
pub open spec fn is_stamp(s: Seq<char>) -> bool {
    let tail = s.skip(s.len() - 20);
    &&& s.len() >= 24
    &&& forall|i: int|
        0 <= i < 20 ==> if i == 0 || i == 3 {
            tail[i] == '-'
        } else if i == 6 {
            tail[i] == 'T'
        } else if i == 9 || i == 12 {
            tail[i] == ':'
        } else if i == 15 {
            tail[i] == '.'
        } else if i == 19 {
            tail[i] == 'Z'
        } else {
            '0' <= #[trigger] tail[i] <= '9'
        }
}

/// `chrono::Utc::now`, as a date and a time of the day in milliseconds, by
/// `chrono::DateTime::to_rfc3339_opts`, which marks UTC with a `Z`. Which point in time it is is
/// left open.
#[verifier::external_body]
pub(crate) fn now_rfc3339() -> (out: String)
    ensures
        is_stamp(out@),
{
    chrono::Utc::now().to_rfc3339_opts(chrono::SecondsFormat::Millis, true)
}

/// The texts are identifiers.
pub open spec fn are_ids(ids: Seq<Seq<char>>) -> bool {
    forall|i: int| 0 <= i < ids.len() ==> is_id(#[trigger] ids[i])
}

/// As many as `2 * n + 1` identifiers.
pub(crate) fn new_ids(n: usize) -> (out: Vec<String>)
    ensures
        out@.len() == 2 * n + 1,
        are_ids(texts(out@)),
{
    let mut out: Vec<String> = Vec::new();
    let mut i: usize = 0;
    out.push(new_id());
    assert(are_ids(texts(out@)));
    while i < n
        invariant
            i <= n,
            out@.len() == 2 * i + 1,
            are_ids(texts(out@)),
        decreases n - i,
    {
        let first = new_id();
        let second = new_id();
        let ghost had = texts(out@);
        let ghost more = had.push(first@).push(second@);
        out.push(first);
        out.push(second);
        assert(texts(out@) =~= more);
        i += 1;
    }
    out
}

} // verus!

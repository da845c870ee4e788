//! Expiry of cache entries: an entry's file name is its expiry, written as an
//! RFC 2822 date-time, and the entry is good strictly before that instant.

use vstd::prelude::*;
use vstd::string::*;

verus! {

/// The instant that `text` denotes when read as an RFC 2822 date-time, in
/// whole seconds since the Unix epoch; `None` when `text` is not such a
/// date-time. It stands for what `chrono::DateTime::parse_from_rfc2822`
/// followed by `DateTime::timestamp` yields, which depends on `text` alone.
pub uninterp spec fn rfc2822_seconds(text: Seq<char>) -> Option<i64>;

/// The expiry that the file name `name` stands for: none for the empty name,
/// which is no date-time, and what the name denotes as an RFC 2822
/// date-time otherwise.
pub open spec fn name_expiry(name: Seq<char>) -> Option<i64> {
    if name.len() == 0 {
        None
    } else {
        rfc2822_seconds(name)
    }
}

/// Calls `chrono::DateTime::parse_from_rfc2822` and, on success,
/// `DateTime::timestamp` on its result. Trusted: a parse error becomes
/// `None`; the empty text, in which the parser finds no day of the month,
/// is such an error; and of any other text the result is the named value
/// [`rfc2822_seconds`].
#[verifier::external_body]
pub(crate) fn parse_rfc2822(text: &str) -> (seconds: Option<i64>)
    ensures
        text@.len() == 0 ==> seconds is None,
        text@.len() > 0 ==> seconds == rfc2822_seconds(text@),
{
    match chrono::DateTime::parse_from_rfc2822(text) {
        Ok(instant) => Some(instant.timestamp()),
        Err(_) => None,
    }
}

/// An entry that expires at `expiry` is good at `now` exactly when `now` lies
/// strictly before it. Both are seconds since the Unix epoch.
pub open spec fn fresh_at(expiry: int, now: int) -> bool {
    now < expiry
}

/// Validity of an entry whose name parsed to `parsed`: a name that is no
/// date-time is never valid.
pub open spec fn parsed_valid(parsed: Option<i64>, now: i64) -> bool {
    match parsed {
        Some(expiry) => fresh_at(expiry as int, now as int),
        None => false,
    }
}

/// Validity at `now` of the entry stored under the file name `name`.
pub open spec fn name_valid(name: Seq<char>, now: i64) -> bool {
    parsed_valid(name_expiry(name), now)
}

/// Whether an entry that expires at `expiry` has expired at `now`: it has as
/// soon as `now` reaches `expiry`.
pub fn is_expired(expiry: i64, now: i64) -> (expired: bool)
    ensures
        expired == !fresh_at(expiry as int, now as int),
{
    now >= expiry
}

/// Validity at `now` of an entry, given what its name parsed to.
pub fn expiry_valid(parsed: Option<i64>, now: i64) -> (valid: bool)
    ensures
        valid == parsed_valid(parsed, now),
{
    match parsed {
        Some(expiry) => !is_expired(expiry, now),
        None => false,
    }
}

/// Validity at `now` of the entry stored under the file name `name`. An
/// entry that is not valid is to be deleted by whoever asked.
pub fn file_valid(name: &str, now: i64) -> (valid: bool)
    ensures
        valid == name_valid(name@, now),
{
    expiry_valid(parse_rfc2822(name), now)
}

/// The file name under which a response that expires at `expiry` is stored:
/// the expiry text itself. An empty expiry means that the response is not to
/// be stored at all.
pub fn encode(expiry: &str) -> (name: Option<String>)
    ensures
        expiry@.len() == 0 ==> name is None,
        expiry@.len() > 0 ==> name is Some && name->0@ == expiry@,
{
    if expiry.is_empty() {
        None
    } else {
        Some(String::from_str(expiry))
    }
}

/// Validity is strict: an entry is still good one second before its expiry,
/// and no longer good at its expiry or at any later instant.
pub proof fn lemma_expiry_boundary(expiry: i64, now: i64)
    ensures
        parsed_valid(Some(expiry), now) <==> now < expiry,
        now == expiry ==> !parsed_valid(Some(expiry), now),
        now + 1 == expiry ==> parsed_valid(Some(expiry), now),
        now - 1 == expiry ==> !parsed_valid(Some(expiry), now),
        !parsed_valid(None, now),
{
}

/// An entry that is valid at any instant has a name: the empty name is
/// never valid.
pub proof fn lemma_valid_name_is_not_empty(name: Seq<char>, now: i64)
    requires
        name_valid(name, now),
    ensures
        name.len() > 0,
        rfc2822_seconds(name) is Some,
        now < rfc2822_seconds(name)->0,
{
}

} // verus!

//! Fresh identifiers and the wall clock, from `uuid` and `chrono`.

use vstd::prelude::*;

verus! {

/// A lower-case hexadecimal digit.
pub open spec fn is_lower_hex(c: char) -> bool {
    ('0' <= c && c <= '9') || ('a' <= c && c <= 'f')
}

/// The shape of `Uuid::simple()` text: 32 lower-case hex digits.
pub open spec fn is_simple_uuid(s: Seq<char>) -> bool {
    s.len() == 32 && forall|i: int| 0 <= i < 32 ==> #[trigger] is_lower_hex(s[i])
}

/// A random version-4 UUID in its simple form (`Uuid::new_v4().simple()`).
/// The digits are random; the uuid crate formats them as 32 lower-case hex
/// characters, which is all that is claimed.
#[verifier::external_body]
pub(crate) fn fresh_uuid() -> (r: String)
    ensures
        is_simple_uuid(r@),
{
    uuid::Uuid::new_v4().simple().to_string()
}

/// `prefix` followed by a fresh UUID, e.g. `mtg_<hex>`.
pub fn prefixed_id(prefix: &str) -> (r: String)
    ensures
        r@.len() == prefix@.len() + 32,
        r@.subrange(0, prefix@.len() as int) == prefix@,
        is_simple_uuid(r@.subrange(prefix@.len() as int, r@.len() as int)),
{
    let id = fresh_uuid();
    let r = String::from_str(prefix).concat(id.as_str());
    assert(r@.subrange(0, prefix@.len() as int) =~= prefix@);
    assert(r@.subrange(prefix@.len() as int, r@.len() as int) =~= id@);
    r
}

/// The current time in milliseconds since the Unix epoch
/// (`chrono::Utc::now().timestamp_millis()`). Only that it is not before the
/// epoch is claimed (`Utc::now` panics on a clock set earlier); the value is
/// the clock.
#[verifier::external_body]
pub(crate) fn now_millis() -> (r: i64)
    ensures
        r >= 0,
{
    chrono::Utc::now().timestamp_millis()
}

} // verus!

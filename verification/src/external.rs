//! The library's trusted boundary: every call into an outside crate, and
//! into the one `std` function vstd gives no specification, stands here
//! behind a contract.

use vstd::prelude::*;

verus! {

/// The characters chrono prints for a unix-second timestamp under the
/// `%Y%m%d_%H%M%S` format. The civil date is a function of the seconds
/// alone, so the result gets a name rather than a restatement of the
/// calendar.
pub uninterp spec fn compact_stamp_chars(secs: int) -> Seq<char>;

/// The characters chrono prints for a unix-second timestamp under the
/// `%Y/%m/%d` format.
pub uninterp spec fn date_path_chars(secs: int) -> Seq<char>;

/// Relies on `uuid::Uuid::new_v4` and its `Display` impl: a fresh random
/// identifier always prints as 36 ASCII characters in hyphenated form.
/// Nothing is promised about which identifier comes back.
#[verifier::external_body]
pub fn fresh_id() -> (r: String)
    ensures
        r@.len() == 36,
        r.is_ascii(),
{
    uuid::Uuid::new_v4().to_string()
}

/// Relies on `rand::RngExt::random_range` over `0..n`: a uniformly drawn
/// value strictly below `n`. The range is non-empty by the precondition,
/// so the call cannot panic; nothing is promised about which value comes
/// back.
#[verifier::external_body]
pub fn random_below(n: u64) -> (r: u64)
    requires
        n >= 1,
    ensures
        r < n,
{
    <rand::rngs::ThreadRng as rand::RngExt>::random_range(&mut rand::rng(), 0..n)
}

/// Relies on `chrono::DateTime::from_timestamp` and `format("%Y%m%d_%H%M%S")`:
/// for an in-range timestamp the conversion succeeds and the formatted text
/// is 4+2+2 date digits, an underscore, and 2+2+2 time digits - 15 ASCII
/// characters, a function of the seconds alone.
#[verifier::external_body]
pub fn compact_timestamp(secs: i64) -> (r: String)
    requires
        crate::valid_timestamp(secs),
    ensures
        r@ == compact_stamp_chars(secs as int),
        r@.len() == 15,
        r.is_ascii(),
{
    let dt = chrono::DateTime::<chrono::Utc>::from_timestamp(secs, 0).unwrap();
    dt.format("%Y%m%d_%H%M%S").to_string()
}

/// Relies on `chrono::DateTime::from_timestamp` and `format("%Y/%m/%d")`:
/// for an in-range timestamp, 10 ASCII characters of slash-separated date,
/// a function of the seconds alone.
#[verifier::external_body]
pub fn date_path(secs: i64) -> (r: String)
    requires
        crate::valid_timestamp(secs),
    ensures
        r@ == date_path_chars(secs as int),
        r@.len() == 10,
        r.is_ascii(),
{
    let dt = chrono::DateTime::<chrono::Utc>::from_timestamp(secs, 0).unwrap();
    dt.format("%Y/%m/%d").to_string()
}

/// Relies on `std::string::String::push` (vstd specifies `String` but not
/// `push`): appends exactly the one character.
#[verifier::external_body]
pub fn push_char(s: &mut String, c: char)
    ensures
        final(s)@ == old(s)@.push(c),
{
    s.push(c)
}

} // verus!

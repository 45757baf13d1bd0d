//! Input validation for registrations and uploads, stated over the
//! character view of the inputs.

use vstd::prelude::*;

use crate::external::push_char;
use crate::utils::strings::str_contains_char;

verus! {

/// A plausible email: an `'@'` somewhere past a non-empty local part, a
/// `'.'`, and more than 5 characters in all.
pub open spec fn spec_is_valid_email(s: Seq<char>) -> bool {
    (exists|i: int| 1 <= i < s.len() && s[i] == '@') && s.contains('.') && s.len() > 5
}

/// Whether the text passes the email plausibility check.
pub fn is_valid_email(email: &str) -> (r: bool)
    ensures
        r == spec_is_valid_email(email@),
{
    let n: usize = email.unicode_len();
    let mut has_at: bool = false;
    let mut i: usize = 1;
    while i < n
        invariant
            n == email@.len(),
            1 <= i <= n || (n < 1 && i == 1),
            has_at <==> exists|j: int| 1 <= j < i && email@[j] == '@',
        decreases n - i,
    {
        if email.get_char(i) == '@' {
            proof {
                assert(email@[i as int] == '@');
            }
            has_at = true;
        }
        i = i + 1;
    }
    let has_dot: bool = str_contains_char(email, '.');
    has_at && has_dot && n > 5
}

/// An ASCII whitespace character, as trimming treats it.
pub open spec fn spec_is_space(c: char) -> bool {
    c == ' ' || c == '\t' || c == '\n' || c == '\r'
}

/// A usable display name: not blank (some non-whitespace character) and
/// at most 100 characters.
pub open spec fn spec_is_valid_dj_name(s: Seq<char>) -> bool {
    (exists|i: int| 0 <= i < s.len() && !spec_is_space(#[trigger] s[i])) && s.len() <= 100
}

/// Whether the text passes the display-name check.
pub fn is_valid_dj_name(name: &str) -> (r: bool)
    ensures
        r == spec_is_valid_dj_name(name@),
{
    let n: usize = name.unicode_len();
    if n > 100 {
        return false;
    }
    let mut i: usize = 0;
    while i < n
        invariant
            n == name@.len(),
            n <= 100,
            0 <= i <= n,
            forall|j: int| 0 <= j < i ==> spec_is_space(#[trigger] name@[j]),
        decreases n - i,
    {
        let c: char = name.get_char(i);
        if !(c == ' ' || c == '\t' || c == '\n' || c == '\r') {
            proof {
                assert(!spec_is_space(name@[i as int]));
            }
            return true;
        }
        i = i + 1;
    }
    false
}

/// A character a filename may not carry.
pub open spec fn spec_invalid_file_char(c: char) -> bool {
    c == '/' || c == '\\' || c == ':' || c == '*' || c == '?' || c == '"' || c == '<' || c == '>'
        || c == '|'
}

/// The sanitized filename: every forbidden character replaced by `'_'`,
/// and the result cut to 255 characters.
pub open spec fn spec_sanitize_filename(s: Seq<char>) -> Seq<char> {
    let replaced = s.map(
        |i: int, c: char|
            if spec_invalid_file_char(c) {
                '_'
            } else {
                c
            },
    );
    if replaced.len() <= 255 {
        replaced
    } else {
        replaced.take(255)
    }
}

/// Replaces path separators and other forbidden characters with
/// underscores and bounds the length at 255 characters.
pub fn sanitize_filename(filename: &str) -> (r: String)
    ensures
        r@ == spec_sanitize_filename(filename@),
{
    let n: usize = filename.unicode_len();
    let limit: usize = if n <= 255 {
        n
    } else {
        255
    };
    let mut out: String = String::new();
    let mut i: usize = 0;
    while i < limit
        invariant
            n == filename@.len(),
            limit == (if n <= 255 {
                n
            } else {
                255
            }),
            0 <= i <= limit,
            out@.len() == i,
            forall|j: int|
                0 <= j < i ==> (#[trigger] out@[j]) == (if spec_invalid_file_char(filename@[j]) {
                    '_'
                } else {
                    filename@[j]
                }),
        decreases limit - i,
    {
        let c: char = filename.get_char(i);
        let replaced: char = if c == '/' || c == '\\' || c == ':' || c == '*' || c == '?' || c
            == '"' || c == '<' || c == '>' || c == '|' {
            '_'
        } else {
            c
        };
        push_char(&mut out, replaced);
        i = i + 1;
    }
    proof {
        assert(out@ =~= spec_sanitize_filename(filename@));
    }
    out
}

/// A session duration an operator may book: positive and at most eight
/// hours.
pub open spec fn spec_valid_session_duration(duration_minutes: i32) -> bool {
    duration_minutes > 0 && duration_minutes <= 480
}

/// Whether the duration passes the booking check.
pub fn validate_session_duration(duration_minutes: i32) -> (r: bool)
    ensures
        r == spec_valid_session_duration(duration_minutes),
{
    duration_minutes > 0 && duration_minutes <= 480
}

} // verus!

//! Recording filenames, upload paths and human-readable sizes.

use vstd::prelude::*;

use crate::external::{compact_stamp_chars, compact_timestamp, date_path, date_path_chars, push_char};
use crate::utils::digits::{spec_decimal, spec_digit_char, digit_char, u64_to_string};
use crate::utils::validation::{sanitize_filename, spec_sanitize_filename};
use crate::valid_timestamp;
use vstd::string::StringExecFns;
use vstd::string::StrSliceExecFns;

verus! {

/// The whole part and the rounded tenth of `bytes / den`, with the carry
/// into the whole part applied.
pub open spec fn spec_scaled_parts(bytes: int, den: int) -> (int, int) {
    let whole = bytes / den;
    let tenths = ((bytes % den) * 10 + den / 2) / den;
    if tenths == 10 {
        (whole + 1, 0)
    } else {
        (whole, tenths)
    }
}

/// A byte count rendered for humans: plain bytes below 1024, else one
/// decimal place of the next unit up (KB, MB, GB), rounded to nearest.
pub open spec fn spec_format_file_size(bytes: int) -> Seq<char> {
    if bytes < 1024 {
        spec_decimal(bytes) + " B"@
    } else {
        let den = if bytes < 1024 * 1024 {
            1024int
        } else if bytes < 1024 * 1024 * 1024 {
            (1024 * 1024) as int
        } else {
            (1024 * 1024 * 1024) as int
        };
        let unit = if bytes < 1024 * 1024 {
            " KB"@
        } else if bytes < 1024 * 1024 * 1024 {
            " MB"@
        } else {
            " GB"@
        };
        let parts = spec_scaled_parts(bytes, den);
        spec_decimal(parts.0) + seq!['.'] + seq![spec_digit_char(parts.1)] + unit
    }
}

/// Renders a byte count for humans, one decimal place from KB upward.
pub fn format_file_size(bytes: u64) -> (r: String)
    ensures
        r@ == spec_format_file_size(bytes as int),
{
    if bytes < 1024 {
        let mut out: String = u64_to_string(bytes);
        out.append(" B");
        proof {
            assert(out@ =~= spec_format_file_size(bytes as int));
        }
        return out;
    }
    let den: u64 = if bytes < 1024 * 1024 {
        1024
    } else if bytes < 1024 * 1024 * 1024 {
        1024 * 1024
    } else {
        1024 * 1024 * 1024
    };
    let mut whole: u64 = bytes / den;
    let mut tenths: u64 = ((bytes % den) * 10 + den / 2) / den;
    proof {
        assert(tenths <= 10) by (nonlinear_arith)
            requires
                den >= 1,
                tenths == ((bytes % den) * 10 + den / 2) / (den as int),
                bytes % den < den,
        ;
    }
    if tenths == 10 {
        whole = whole + 1;
        tenths = 0;
    }
    let mut out: String = u64_to_string(whole);
    push_char(&mut out, '.');
    let digit: char = digit_char(tenths);
    push_char(&mut out, digit);
    if bytes < 1024 * 1024 {
        out.append(" KB");
    } else if bytes < 1024 * 1024 * 1024 {
        out.append(" MB");
    } else {
        out.append(" GB");
    }
    proof {
        assert(out@ =~= spec_format_file_size(bytes as int));
    }
    out
}

/// The filename a recording is stored under: the sanitized performer
/// name, the compact timestamp, and the first eight characters of the
/// session identifier.
pub fn generate_session_filename(dj_name: &str, session_id: &str, now: i64) -> (r: String)
    requires
        valid_timestamp(now),
        session_id.is_ascii(),
        session_id@.len() >= 8,
    ensures
        r@ == spec_sanitize_filename(dj_name@) + seq!['_'] + compact_stamp_chars(now as int)
            + "_session_"@ + session_id@.take(8) + ".mp3"@,
{
    let mut out: String = sanitize_filename(dj_name);
    push_char(&mut out, '_');
    let stamp: String = compact_timestamp(now);
    out.append(stamp.as_str());
    out.append("_session_");
    let id_prefix: &str = session_id.substring_ascii(0, 8);
    out.append(id_prefix);
    out.append(".mp3");
    proof {
        assert(out@ =~= spec_sanitize_filename(dj_name@) + seq!['_'] + compact_stamp_chars(
            now as int,
        ) + "_session_"@ + session_id@.take(8) + ".mp3"@);
    }
    out
}

/// The object-storage key a recording is uploaded under: the date path,
/// the session identifier, and the filename.
pub fn generate_cloud_upload_path(session_id: &str, filename: &str, now: i64) -> (r: String)
    requires
        valid_timestamp(now),
    ensures
        r@ == "sessions/"@ + date_path_chars(now as int) + seq!['/'] + session_id@ + seq!['/']
            + filename@,
{
    let mut out: String = "sessions/".to_owned();
    let date: String = date_path(now);
    out.append(date.as_str());
    push_char(&mut out, '/');
    out.append(session_id);
    push_char(&mut out, '/');
    out.append(filename);
    proof {
        assert(out@ =~= "sessions/"@ + date_path_chars(now as int) + seq!['/'] + session_id@
            + seq!['/'] + filename@);
    }
    out
}

/// The full path a recording is stored under, inside an already-ensured
/// recordings directory. Creating that directory is the caller's I/O;
/// the path itself is pure.
pub fn get_session_file_path(recordings_dir: &str, session_id: &str, dj_name: &str, now: i64) -> (r:
    String)
    requires
        valid_timestamp(now),
        session_id.is_ascii(),
        session_id@.len() >= 8,
    ensures
        r@ == recordings_dir@ + seq!['/'] + spec_sanitize_filename(dj_name@) + seq!['_']
            + compact_stamp_chars(now as int) + "_session_"@ + session_id@.take(8) + ".mp3"@,
{
    let filename: String = generate_session_filename(dj_name, session_id, now);
    let mut out: String = recordings_dir.to_owned();
    push_char(&mut out, '/');
    out.append(filename.as_str());
    proof {
        assert(out@ =~= recordings_dir@ + seq!['/'] + spec_sanitize_filename(dj_name@)
            + seq!['_'] + compact_stamp_chars(now as int) + "_session_"@ + session_id@.take(8)
            + ".mp3"@);
    }
    out
}

/// An upper-case ASCII letter mapped to lower case; anything else is
/// left alone.
pub open spec fn spec_lower_char(c: char) -> char {
    if c == 'A' {
        'a'
    } else if c == 'B' {
        'b'
    } else if c == 'C' {
        'c'
    } else if c == 'D' {
        'd'
    } else if c == 'E' {
        'e'
    } else if c == 'F' {
        'f'
    } else if c == 'G' {
        'g'
    } else if c == 'H' {
        'h'
    } else if c == 'I' {
        'i'
    } else if c == 'J' {
        'j'
    } else if c == 'K' {
        'k'
    } else if c == 'L' {
        'l'
    } else if c == 'M' {
        'm'
    } else if c == 'N' {
        'n'
    } else if c == 'O' {
        'o'
    } else if c == 'P' {
        'p'
    } else if c == 'Q' {
        'q'
    } else if c == 'R' {
        'r'
    } else if c == 'S' {
        's'
    } else if c == 'T' {
        't'
    } else if c == 'U' {
        'u'
    } else if c == 'V' {
        'v'
    } else if c == 'W' {
        'w'
    } else if c == 'X' {
        'x'
    } else if c == 'Y' {
        'y'
    } else if c == 'Z' {
        'z'
    } else {
        c
    }
}

/// An upper-case ASCII letter mapped to lower case.
pub fn lower_char(c: char) -> (r: char)
    ensures
        r == spec_lower_char(c),
{
    match c {
        'A' => 'a',
        'B' => 'b',
        'C' => 'c',
        'D' => 'd',
        'E' => 'e',
        'F' => 'f',
        'G' => 'g',
        'H' => 'h',
        'I' => 'i',
        'J' => 'j',
        'K' => 'k',
        'L' => 'l',
        'M' => 'm',
        'N' => 'n',
        'O' => 'o',
        'P' => 'p',
        'Q' => 'q',
        'R' => 'r',
        'S' => 's',
        'T' => 't',
        'U' => 'u',
        'V' => 'v',
        'W' => 'w',
        'X' => 'x',
        'Y' => 'y',
        'Z' => 'z',
        other => other,
    }
}

/// The suffix of `s` after its last occurrence of `c`; the whole of `s`
/// where `c` does not occur.
pub open spec fn spec_suffix_after_last(s: Seq<char>, c: char) -> Seq<char>
    decreases s.len(),
{
    if s.len() == 0 {
        s
    } else if s.last() == c {
        Seq::empty()
    } else {
        spec_suffix_after_last(s.drop_last(), c).push(s.last())
    }
}

/// The lower-cased extension of a path: the part of the file name (after
/// the last `'/'`) following its last `'.'`, provided a dot occurs past
/// the name's first character.
pub open spec fn spec_audio_extension(s: Seq<char>) -> Option<Seq<char>> {
    let name = spec_suffix_after_last(s, '/');
    if exists|i: int| 1 <= i < name.len() && name[i] == '.' {
        Some(spec_suffix_after_last(name, '.').map(|i: int, ch: char| spec_lower_char(ch)))
    } else {
        None
    }
}

/// Whether the path names an audio recording: its extension, compared
/// case-insensitively, is one of mp3, wav, flac, m4a, aac.
pub open spec fn spec_is_audio_file(s: Seq<char>) -> bool {
    match spec_audio_extension(s) {
        Some(ext) => {
            ||| ext == "mp3"@
            ||| ext == "wav"@
            ||| ext == "flac"@
            ||| ext == "m4a"@
            ||| ext == "aac"@
        },
        None => false,
    }
}

/// The suffix of the characters after the last occurrence of `c`, as a
/// vector.
pub fn suffix_after_last_chars(chars: &Vec<char>, c: char) -> (r: Vec<char>)
    ensures
        r@ == spec_suffix_after_last(chars@, c),
{
    let n: usize = chars.len();
    // Find the index one past the last occurrence of `c`, or 0.
    let mut start: usize = 0;
    let mut i: usize = 0;
    while i < n
        invariant
            n == chars@.len(),
            0 <= start <= i <= n,
            start > 0 ==> chars@[start - 1] == c,
            forall|j: int| start <= j < i ==> chars@[j] != c,
        decreases n - i,
    {
        if chars[i] == c {
            start = i + 1;
        }
        i = i + 1;
    }
    let mut out: Vec<char> = Vec::new();
    let mut k: usize = start;
    while k < n
        invariant
            n == chars@.len(),
            start <= n,
            start <= k <= n,
            out@ =~= chars@.subrange(start as int, k as int),
        decreases n - k,
    {
        out.push(chars[k]);
        proof {
            assert(out@ =~= chars@.subrange(start as int, k as int + 1));
        }
        k = k + 1;
    }
    proof {
        lemma_suffix_after_last_is_subrange(chars@, c, start as int);
        assert(out@ =~= spec_suffix_after_last(chars@, c));
    }
    out
}

/// The suffix after the last occurrence of `c` is the subrange starting
/// one past that occurrence.
proof fn lemma_suffix_after_last_is_subrange(s: Seq<char>, c: char, start: int)
    requires
        0 <= start <= s.len(),
        start > 0 ==> s[start - 1] == c,
        forall|j: int| start <= j < s.len() ==> s[j] != c,
    ensures
        spec_suffix_after_last(s, c) == s.subrange(start, s.len() as int),
    decreases s.len(),
{
    if s.len() == 0 {
        assert(spec_suffix_after_last(s, c) =~= s.subrange(start, s.len() as int));
    } else if s.last() == c {
        assert(start == s.len());
        assert(spec_suffix_after_last(s, c) =~= s.subrange(start, s.len() as int));
    } else {
        lemma_suffix_after_last_is_subrange(s.drop_last(), c, start);
        assert(spec_suffix_after_last(s, c) =~= s.subrange(start, s.len() as int));
    }
}

/// Whether two character vectors agree.
pub fn chars_eq(a: &Vec<char>, b: &Vec<char>) -> (r: bool)
    ensures
        r == (a@ == b@),
{
    if a.len() != b.len() {
        proof {
            assert(a@ != b@);
        }
        return false;
    }
    let n: usize = a.len();
    let mut i: usize = 0;
    while i < n
        invariant
            n == a@.len(),
            n == b@.len(),
            0 <= i <= n,
            forall|j: int| 0 <= j < i ==> a@[j] == b@[j],
        decreases n - i,
    {
        if a[i] != b[i] {
            proof {
                assert(a@ != b@);
            }
            return false;
        }
        i = i + 1;
    }
    proof {
        assert(a@ =~= b@);
    }
    true
}

/// Whether the path names an audio recording (mp3, wav, flac, m4a or
/// aac, compared case-insensitively).
pub fn is_audio_file(path: &str) -> (r: bool)
    ensures
        r == spec_is_audio_file(path@),
{
    let chars: Vec<char> = crate::utils::strings::str_chars(path);
    let name: Vec<char> = suffix_after_last_chars(&chars, '/');

    // A dot must occur past the name's first character.
    let mut has_dot: bool = false;
    let mut i: usize = 1;
    let name_len: usize = name.len();
    while i < name_len
        invariant
            name_len == name@.len(),
            1 <= i <= name_len || (name_len < 1 && i == 1),
            has_dot <==> exists|j: int| 1 <= j < i && name@[j] == '.',
        decreases name_len - i,
    {
        if name[i] == '.' {
            proof {
                assert(name@[i as int] == '.');
            }
            has_dot = true;
        }
        i = i + 1;
    }
    if !has_dot {
        return false;
    }

    let raw_ext: Vec<char> = suffix_after_last_chars(&name, '.');
    let mut ext: Vec<char> = Vec::new();
    let mut k: usize = 0;
    let ext_len: usize = raw_ext.len();
    while k < ext_len
        invariant
            ext_len == raw_ext@.len(),
            0 <= k <= ext_len,
            ext@ =~= raw_ext@.take(k as int).map(|i: int, ch: char| spec_lower_char(ch)),
        decreases ext_len - k,
    {
        ext.push(lower_char(raw_ext[k]));
        proof {
            assert(ext@ =~= raw_ext@.take(k as int + 1).map(
                |i: int, ch: char| spec_lower_char(ch),
            ));
        }
        k = k + 1;
    }
    proof {
        assert(raw_ext@.take(ext_len as int) =~= raw_ext@);
        assert(ext@ == spec_audio_extension(path@)->0);
    }

    let mp3: Vec<char> = crate::utils::strings::str_chars("mp3");
    let wav: Vec<char> = crate::utils::strings::str_chars("wav");
    let flac: Vec<char> = crate::utils::strings::str_chars("flac");
    let m4a: Vec<char> = crate::utils::strings::str_chars("m4a");
    let aac: Vec<char> = crate::utils::strings::str_chars("aac");
    let matched: bool = chars_eq(&ext, &mp3) || chars_eq(&ext, &wav) || chars_eq(&ext, &flac)
        || chars_eq(&ext, &m4a) || chars_eq(&ext, &aac);
    matched
}

} // verus!

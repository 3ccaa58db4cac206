//! The path of the genuine library, as the null-terminated UTF-16 string that
//! the platform's library loader takes.
//!
//! The system directory comes from a fixed-size buffer that the platform fills
//! with UTF-16 code units and pads with nulls, together with the count of units
//! it reported written.
use vstd::prelude::*;

use crate::text::chars_of;

verus! {

/// The system directory used when the platform reports none.
pub const FALLBACK_SYSTEM_DIRECTORY: &'static str = "C:\\Windows\\System32";

/// The file name of the genuine library, with the separator before it.
pub const LIBRARY_FILE: &'static str = "\\dinput8.dll";

pub open spec fn is_high_surrogate(u: u16) -> bool {
    0xD800 <= u <= 0xDBFF
}

pub open spec fn is_low_surrogate(u: u16) -> bool {
    0xDC00 <= u <= 0xDFFF
}

/// Well-formed UTF-16: every high surrogate is followed by a low surrogate,
/// and every low surrogate follows a high one.
pub open spec fn valid_utf16(s: Seq<u16>) -> bool {
    forall|i: int|
        #![trigger s[i]]
        0 <= i < s.len() ==> (is_high_surrogate(s[i]) ==> i + 1 < s.len() && is_low_surrogate(
            s[i + 1],
        )) && (is_low_surrogate(s[i]) ==> i > 0 && is_high_surrogate(s[i - 1]))
}

/// `s` with its leading null units removed.
pub open spec fn trim_start_nulls(s: Seq<u16>) -> Seq<u16>
    decreases s.len(),
{
    if s.len() > 0 && s[0] == 0 {
        trim_start_nulls(s.drop_first())
    } else {
        s
    }
}

/// `s` with its trailing null units removed.
pub open spec fn trim_end_nulls(s: Seq<u16>) -> Seq<u16>
    decreases s.len(),
{
    if s.len() > 0 && s.last() == 0 {
        trim_end_nulls(s.drop_last())
    } else {
        s
    }
}

pub open spec fn trim_nulls(s: Seq<u16>) -> Seq<u16> {
    trim_end_nulls(trim_start_nulls(s))
}

/// The UTF-16 code units of the ASCII text `s`: one unit per character.
pub open spec fn ascii_units(s: Seq<char>) -> Seq<u16> {
    Seq::new(s.len(), |i: int| (s[i] as u32) as u16)
}

/// The system directory that the buffer gives: its text without the nulls
/// around it, or the fallback directory where the platform wrote nothing or
/// the buffer is not well-formed UTF-16.
pub open spec fn directory_units(buffer: Seq<u16>, written: u32) -> Seq<u16> {
    if written == 0 || !valid_utf16(buffer) {
        ascii_units(FALLBACK_SYSTEM_DIRECTORY@)
    } else {
        trim_nulls(buffer)
    }
}

/// The full path of the genuine library, null-terminated.
pub open spec fn library_path_units(buffer: Seq<u16>, written: u32) -> Seq<u16> {
    directory_units(buffer, written) + ascii_units(LIBRARY_FILE@) + seq![0u16]
}

/// The UTF-16 code units of the ASCII text `s`.
fn units_of_ascii(s: &str) -> (r: Vec<u16>)
    ensures
        r@ == ascii_units(s@),
{
    let chars = chars_of(s);
    let mut out: Vec<u16> = Vec::new();
    let mut i: usize = 0;
    while i < chars.len()
        invariant
            i <= chars@.len(),
            chars@ == s@,
            out@ == ascii_units(s@.take(i as int)),
        decreases chars@.len() - i,
    {
        out.push((chars[i] as u32) as u16);
        i += 1;
        assert(out@ =~= ascii_units(s@.take(i as int)));
    }
    assert(s@.take(i as int) =~= s@);
    out
}

/// Tests whether `buffer` is well-formed UTF-16.
pub fn is_valid_utf16(buffer: &[u16]) -> (r: bool)
    ensures
        r == valid_utf16(buffer@),
{
    let n = buffer.len();
    let mut i: usize = 0;
    while i < n
        invariant
            i <= n,
            n == buffer@.len(),
            forall|j: int|
                #![trigger buffer@[j]]
                0 <= j < i ==> (is_high_surrogate(buffer@[j]) ==> j + 1 < n && is_low_surrogate(
                    buffer@[j + 1],
                )) && (is_low_surrogate(buffer@[j]) ==> j > 0 && is_high_surrogate(
                    buffer@[j - 1],
                )),
        decreases n - i,
    {
        let u = buffer[i];
        if 0xD800 <= u && u <= 0xDBFF {
            if i + 1 >= n || !(0xDC00 <= buffer[i + 1] && buffer[i + 1] <= 0xDFFF) {
                return false;
            }
        }
        if 0xDC00 <= u && u <= 0xDFFF {
            if i == 0 || !(0xD800 <= buffer[i - 1] && buffer[i - 1] <= 0xDBFF) {
                return false;
            }
        }
        i += 1;
    }
    true
}

/// The bounds of what is left of `buffer` once null units are trimmed from
/// both ends.
fn trimmed_null_bounds(buffer: &[u16]) -> (r: (usize, usize))
    ensures
        r.0 <= r.1 <= buffer@.len(),
        buffer@.subrange(r.0 as int, r.1 as int) == trim_nulls(buffer@),
{
    let n = buffer.len();
    let mut start: usize = 0;
    assert(buffer@.subrange(0, n as int) =~= buffer@);
    while start < n && buffer[start] == 0
        invariant
            start <= n,
            n == buffer@.len(),
            trim_start_nulls(buffer@) == trim_start_nulls(buffer@.subrange(start as int, n as int)),
        decreases n - start,
    {
        assert(buffer@.subrange(start as int, n as int).drop_first() =~= buffer@.subrange(
            start + 1,
            n as int,
        ));
        start += 1;
    }
    let ghost rest = buffer@.subrange(start as int, n as int);
    assert(trim_start_nulls(rest) == rest);
    let mut end: usize = n;
    while end > start && buffer[end - 1] == 0
        invariant
            start <= end <= n,
            n == buffer@.len(),
            rest == buffer@.subrange(start as int, n as int),
            trim_end_nulls(rest) == trim_end_nulls(buffer@.subrange(start as int, end as int)),
        decreases end,
    {
        assert(buffer@.subrange(start as int, end as int).drop_last() =~= buffer@.subrange(
            start as int,
            end - 1,
        ));
        end -= 1;
    }
    let ghost kept = buffer@.subrange(start as int, end as int);
    assert(trim_end_nulls(kept) == kept);
    (start, end)
}

/// The null-terminated path of the genuine library, from the buffer that the
/// platform filled with the system directory and the count of units it
/// reported written.
pub fn real_library_path(buffer: &[u16], written: u32) -> (r: Vec<u16>)
    ensures
        r@ == library_path_units(buffer@, written),
{
    let mut path: Vec<u16>;
    if written == 0 || !is_valid_utf16(buffer) {
        path = units_of_ascii(FALLBACK_SYSTEM_DIRECTORY);
    } else {
        let (start, end) = trimmed_null_bounds(buffer);
        path = Vec::new();
        let mut i: usize = start;
        while i < end
            invariant
                start <= i <= end <= buffer@.len(),
                path@ == buffer@.subrange(start as int, i as int),
            decreases end - i,
        {
            path.push(buffer[i]);
            i += 1;
            assert(path@ =~= buffer@.subrange(start as int, i as int));
        }
    }
    let ghost dir = path@;
    assert(dir == directory_units(buffer@, written));
    let file = units_of_ascii(LIBRARY_FILE);
    let mut j: usize = 0;
    while j < file.len()
        invariant
            j <= file@.len(),
            file@ == ascii_units(LIBRARY_FILE@),
            path@ == dir + file@.take(j as int),
        decreases file@.len() - j,
    {
        path.push(file[j]);
        j += 1;
        assert(path@ =~= dir + file@.take(j as int));
    }
    assert(file@.take(j as int) =~= file@);
    path.push(0);
    path
}

} // verus!

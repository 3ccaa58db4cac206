//! The configured delay: one unsigned integer kept as decimal text in a file
//! beside the shim.
//!
//! The file is modelled as `Option<Seq<char>>`: `None` when it is absent or
//! cannot be read as text, `Some(t)` when it holds the text `t`.
use vstd::prelude::*;

use crate::text::chars_of;

verus! {

/// The delay used when the file does not hold a valid number.
pub const DEFAULT_DELAY: usize = 1;

/// Characters with the Unicode `White_Space` property, which trimming removes.
pub open spec fn is_white_space(c: char) -> bool {
    let u = c as u32;
    (9 <= u <= 13) || u == 32 || u == 0x85 || u == 0xa0 || u == 0x1680 || (0x2000 <= u <= 0x200a)
        || u == 0x2028 || u == 0x2029 || u == 0x202f || u == 0x205f || u == 0x3000
}

pub open spec fn is_digit(c: char) -> bool {
    '0' <= c <= '9'
}

pub open spec fn digit_value(c: char) -> int {
    c as u32 - '0' as u32
}

/// `s` with its leading white space removed.
pub open spec fn trim_start(s: Seq<char>) -> Seq<char>
    decreases s.len(),
{
    if s.len() > 0 && is_white_space(s[0]) {
        trim_start(s.drop_first())
    } else {
        s
    }
}

/// `s` with its trailing white space removed.
pub open spec fn trim_end(s: Seq<char>) -> Seq<char>
    decreases s.len(),
{
    if s.len() > 0 && is_white_space(s.last()) {
        trim_end(s.drop_last())
    } else {
        s
    }
}

pub open spec fn trim(s: Seq<char>) -> Seq<char> {
    trim_end(trim_start(s))
}

pub open spec fn all_digits(s: Seq<char>) -> bool {
    forall|i: int| 0 <= i < s.len() ==> is_digit(#[trigger] s[i])
}

pub open spec fn all_white_space(s: Seq<char>) -> bool {
    forall|i: int| 0 <= i < s.len() ==> is_white_space(#[trigger] s[i])
}

/// The number that the decimal digits `s` denote, most significant first.
pub open spec fn digits_value(s: Seq<char>) -> nat
    decreases s.len(),
{
    if s.len() == 0 {
        0
    } else {
        (digits_value(s.drop_last()) * 10 + digit_value(s.last())) as nat
    }
}

/// An unsigned integer in decimal: an optional `+`, then at least one digit,
/// denoting a value that fits in `usize`.
pub open spec fn parse_unsigned(s: Seq<char>) -> Option<usize> {
    let body = if s.len() > 0 && s[0] == '+' {
        s.drop_first()
    } else {
        s
    };
    if body.len() > 0 && all_digits(body) && digits_value(body) <= usize::MAX {
        Some(digits_value(body) as usize)
    } else {
        None
    }
}

/// The delay that the text `t` sets, if it sets one.
pub open spec fn delay_of_text(t: Seq<char>) -> Option<usize> {
    parse_unsigned(trim(t))
}

/// The text written to the file when it holds no valid number.
pub open spec fn default_text() -> Seq<char> {
    seq!['1']
}

/// The delay that loading yields from the file `f`.
pub open spec fn loaded_delay(f: Option<Seq<char>>) -> usize {
    match f {
        Some(t) => match delay_of_text(t) {
            Some(n) => n,
            None => DEFAULT_DELAY,
        },
        None => DEFAULT_DELAY,
    }
}

/// Whether loading rewrites the file `f` with the default text.
pub open spec fn load_rewrites(f: Option<Seq<char>>) -> bool {
    match f {
        Some(t) => delay_of_text(t) is None,
        None => true,
    }
}

/// The file after loading from `f`.
pub open spec fn file_after_load(f: Option<Seq<char>>) -> Option<Seq<char>> {
    if load_rewrites(f) {
        Some(default_text())
    } else {
        f
    }
}

/// What loading decided: the delay, and the text to write back to the file
/// when it held no valid number.
pub struct ConfigLoad {
    pub delay: usize,
    pub rewrite: Option<String>,
}

pub open spec fn text_of(f: Option<&str>) -> Option<Seq<char>> {
    match f {
        Some(s) => Some(s@),
        None => None,
    }
}

/// Tests `c` for the Unicode `White_Space` property.
pub fn is_white_space_char(c: char) -> (r: bool)
    ensures
        r == is_white_space(c),
{
    let u = c as u32;
    (9 <= u && u <= 13) || u == 32 || u == 0x85 || u == 0xa0 || u == 0x1680 || (0x2000 <= u && u
        <= 0x200a) || u == 0x2028 || u == 0x2029 || u == 0x202f || u == 0x205f || u == 0x3000
}


/// The bounds of what is left of `chars` once white space is trimmed from both
/// ends.
fn trimmed_bounds(chars: &Vec<char>) -> (r: (usize, usize))
    ensures
        r.0 <= r.1 <= chars@.len(),
        chars@.subrange(r.0 as int, r.1 as int) == trim(chars@),
{
    let n = chars.len();
    let mut start: usize = 0;
    assert(chars@.subrange(0, n as int) =~= chars@);
    while start < n && is_white_space_char(chars[start])
        invariant
            start <= n,
            n == chars@.len(),
            trim_start(chars@) == trim_start(chars@.subrange(start as int, n as int)),
        decreases n - start,
    {
        assert(chars@.subrange(start as int, n as int).drop_first() =~= chars@.subrange(
            start + 1,
            n as int,
        ));
        start += 1;
    }
    let ghost rest = chars@.subrange(start as int, n as int);
    assert(trim_start(rest) == rest);
    let mut end: usize = n;
    while end > start && is_white_space_char(chars[end - 1])
        invariant
            start <= end <= n,
            n == chars@.len(),
            rest == chars@.subrange(start as int, n as int),
            trim_end(rest) == trim_end(chars@.subrange(start as int, end as int)),
        decreases end,
    {
        assert(chars@.subrange(start as int, end as int).drop_last() =~= chars@.subrange(
            start as int,
            end - 1,
        ));
        end -= 1;
    }
    let ghost kept = chars@.subrange(start as int, end as int);
    assert(trim_end(kept) == kept);
    (start, end)
}

/// The value of the digits of a prefix of `s` is at most the value of `s`.
proof fn lemma_prefix_value_le(s: Seq<char>, j: int)
    requires
        all_digits(s),
        0 <= j <= s.len(),
    ensures
        digits_value(s.take(j)) <= digits_value(s),
    decreases s.len(),
{
    if j == s.len() {
        assert(s.take(j) =~= s);
    } else {
        let d = s.drop_last();
        assert(all_digits(d)) by {
            assert forall|i: int| 0 <= i < d.len() implies is_digit(#[trigger] d[i]) by {
                assert(d[i] == s[i]);
            }
        }
        lemma_prefix_value_le(d, j);
        assert(d.take(j) =~= s.take(j));
        assert(is_digit(s.last()));
    }
}

/// Reads an unsigned decimal integer from `chars[start..end]`.
fn parse_unsigned_range(chars: &Vec<char>, start: usize, end: usize) -> (r: Option<usize>)
    requires
        start <= end <= chars@.len(),
    ensures
        r == parse_unsigned(chars@.subrange(start as int, end as int)),
{
    let ghost s = chars@.subrange(start as int, end as int);
    let mut i: usize = start;
    if i < end && chars[i] == '+' {
        i += 1;
    }
    let ghost body = chars@.subrange(i as int, end as int);
    assert(body =~= (if s.len() > 0 && s[0] == '+' {
        s.drop_first()
    } else {
        s
    }));
    if i == end {
        return None;
    }
    let mut acc: usize = 0;
    let mut k: usize = i;
    while k < end
        invariant
            start <= i <= k <= end <= chars@.len(),
            body == chars@.subrange(i as int, end as int),
            body.len() > 0,
            s == chars@.subrange(start as int, end as int),
            body =~= (if s.len() > 0 && s[0] == '+' {
                s.drop_first()
            } else {
                s
            }),
            acc == digits_value(body.take(k - i)),
            all_digits(body.take(k - i)),
        decreases end - k,
    {
        let c = chars[k];
        assert(body[k - i] == c);
        if !('0' <= c && c <= '9') {
            assert(!all_digits(body));
            return None;
        }
        let d = (c as u32 - '0' as u32) as usize;
        let ghost next = body.take(k + 1 - i);
        assert(next.drop_last() =~= body.take(k - i));
        assert(next.last() == c);
        assert(all_digits(next)) by {
            assert forall|j: int| 0 <= j < next.len() implies is_digit(#[trigger] next[j]) by {
                if j < k - i {
                    assert(next[j] == body.take(k - i)[j]);
                }
            }
        }
        match acc.checked_mul(10) {
            None => {
                proof {
                    if all_digits(body) {
                        lemma_prefix_value_le(body, k + 1 - i);
                    }
                }
                return None;
            },
            Some(m) => match m.checked_add(d) {
                None => {
                    proof {
                        if all_digits(body) {
                            lemma_prefix_value_le(body, k + 1 - i);
                        }
                    }
                    return None;
                },
                Some(v) => {
                    acc = v;
                },
            },
        }
        k += 1;
    }
    assert(body.take(k - i) =~= body);
    Some(acc)
}

/// The delay that the text `text` sets: its content, with the white space
/// around it removed, read as an unsigned decimal integer.
pub fn parse_delay(text: &str) -> (r: Option<usize>)
    ensures
        r == delay_of_text(text@),
{
    let chars = chars_of(text);
    let (start, end) = trimmed_bounds(&chars);
    parse_unsigned_range(&chars, start, end)
}

/// Decides the configured delay from the file's text, `None` when the file is
/// absent or unreadable. Where the file holds no valid number the delay is the
/// default, and the default text is handed back to be written to the file.
pub fn load_delay(contents: Option<&str>) -> (r: ConfigLoad)
    ensures
        r.delay == loaded_delay(text_of(contents)),
        r.rewrite is Some <==> load_rewrites(text_of(contents)),
        match r.rewrite {
            Some(t) => file_after_load(text_of(contents)) == Some(t@),
            None => file_after_load(text_of(contents)) == text_of(contents),
        },
{
    let parsed = match contents {
        Some(text) => parse_delay(text),
        None => None,
    };
    match parsed {
        Some(n) => ConfigLoad { delay: n, rewrite: None },
        None => {
            proof {
                reveal_strlit("1");
            }
            let t = "1".to_owned();
            assert(t@ =~= default_text());
            ConfigLoad { delay: DEFAULT_DELAY, rewrite: Some(t) }
        },
    }
}

proof fn lemma_trim_start_lead(lead: Seq<char>, rest: Seq<char>)
    requires
        all_white_space(lead),
        rest.len() > 0,
        !is_white_space(rest[0]),
    ensures
        trim_start(lead + rest) == rest,
    decreases lead.len(),
{
    if lead.len() == 0 {
        assert(lead + rest =~= rest);
    } else {
        let tail = lead.drop_first();
        assert((lead + rest)[0] == lead[0]);
        assert((lead + rest).drop_first() =~= tail + rest);
        assert(all_white_space(tail)) by {
            assert forall|i: int| 0 <= i < tail.len() implies is_white_space(#[trigger] tail[i]) by {
                assert(tail[i] == lead[i + 1]);
            }
        }
        lemma_trim_start_lead(tail, rest);
    }
}

proof fn lemma_trim_end_trail(body: Seq<char>, trail: Seq<char>)
    requires
        all_white_space(trail),
        body.len() > 0,
        !is_white_space(body.last()),
    ensures
        trim_end(body + trail) == body,
    decreases trail.len(),
{
    if trail.len() == 0 {
        assert(body + trail =~= body);
    } else {
        let front = trail.drop_last();
        assert((body + trail).last() == trail.last());
        assert((body + trail).drop_last() =~= body + front);
        assert(all_white_space(front)) by {
            assert forall|i: int| 0 <= i < front.len() implies is_white_space(
                #[trigger] front[i],
            ) by {
                assert(front[i] == trail[i]);
            }
        }
        lemma_trim_end_trail(body, front);
    }
}

/// A decimal numeral whose value fits in `usize`, with any white space before
/// and after it, loads as the number it denotes, and the file is kept.
pub proof fn lemma_load_padded_number(lead: Seq<char>, digits: Seq<char>, trail: Seq<char>)
    requires
        all_white_space(lead),
        all_white_space(trail),
        digits.len() > 0,
        all_digits(digits),
        digits_value(digits) <= usize::MAX,
    ensures
        loaded_delay(Some(lead + digits + trail)) == digits_value(digits),
        file_after_load(Some(lead + digits + trail)) == Some(lead + digits + trail),
{
    let t = lead + digits + trail;
    assert(is_digit(digits[0]));
    assert(is_digit(digits.last()));
    assert(t =~= lead + (digits + trail));
    assert((digits + trail)[0] == digits[0]);
    lemma_trim_start_lead(lead, digits + trail);
    lemma_trim_end_trail(digits, trail);
    assert(trim(t) == digits);
}

/// A file that is absent, empty or holds no valid number loads as the default
/// delay and is left holding the default text.
pub proof fn lemma_load_invalid(f: Option<Seq<char>>)
    requires
        match f {
            Some(t) => t.len() == 0 || delay_of_text(t) is None,
            None => true,
        },
    ensures
        loaded_delay(f) == DEFAULT_DELAY,
        file_after_load(f) == Some(default_text()),
{
    if let Some(t) = f {
        if t.len() == 0 {
            assert(trim_start(t) == t);
            assert(trim(t) == t);
        }
    }
}

/// Loading twice, with no change to the file in between, yields the same delay
/// both times, and the second load leaves the file as the first left it.
pub proof fn lemma_load_idempotent(f: Option<Seq<char>>)
    ensures
        loaded_delay(file_after_load(f)) == loaded_delay(f),
        file_after_load(file_after_load(f)) == file_after_load(f),
{
    let d = default_text();
    assert(d.drop_last() =~= Seq::<char>::empty());
    assert(digits_value(d.drop_last()) == 0);
    assert(d.last() == '1');
    assert(digit_value('1') == 1);
    assert(digits_value(d) == 1);
    lemma_load_padded_number(Seq::empty(), d, Seq::empty());
    assert(Seq::<char>::empty() + d + Seq::<char>::empty() =~= d);
}

} // verus!

//! Parsing of Chinese numeral tokens (zero through the hundreds) into
//! unsigned integers, and the canonical numeral for each value up to 99.

use vstd::prelude::*;
use vstd::string::StrSliceExecFns;

verus! {

/// The value of a single Chinese digit character, zero through nine.
pub open spec fn spec_digit(c: char) -> Option<u32> {
    if c == '零' {
        Some(0u32)
    } else if c == '一' {
        Some(1u32)
    } else if c == '二' {
        Some(2u32)
    } else if c == '三' {
        Some(3u32)
    } else if c == '四' {
        Some(4u32)
    } else if c == '五' {
        Some(5u32)
    } else if c == '六' {
        Some(6u32)
    } else if c == '七' {
        Some(7u32)
    } else if c == '八' {
        Some(8u32)
    } else if c == '九' {
        Some(9u32)
    } else {
        None
    }
}

/// A non-zero digit stands at position `i`.
pub open spec fn spec_nonzero_digit_at(s: Seq<char>, i: int) -> bool {
    0 <= i < s.len() && spec_digit(s[i]) is Some && spec_digit(s[i]).unwrap() >= 1
}

/// The optional hundreds step of a composite token: a non-zero digit
/// followed by the hundred marker, or nothing. Yields the value so far
/// and the next position.
pub open spec fn spec_hundreds(s: Seq<char>) -> (u32, int) {
    if s.len() >= 2 && s[1] == '百' && spec_nonzero_digit_at(s, 0) {
        ((spec_digit(s[0]).unwrap() * 100) as u32, 2)
    } else {
        (0u32, 0)
    }
}

/// The optional tens step: the bare ten marker, or a non-zero digit
/// followed by the ten marker, or nothing.
pub open spec fn spec_tens(s: Seq<char>, i: int, r: u32) -> (u32, int)
    recommends
        0 <= i,
        r <= 900,
{
    if i < s.len() && s[i] == '十' {
        ((r + 10) as u32, i + 1)
    } else if i + 1 < s.len() && s[i + 1] == '十' && spec_nonzero_digit_at(s, i) {
        ((r + spec_digit(s[i]).unwrap() * 10) as u32, i + 2)
    } else {
        (r, i)
    }
}

/// The optional units step: one non-zero digit, or nothing.
pub open spec fn spec_units(s: Seq<char>, i: int, r: u32) -> (u32, int)
    recommends
        0 <= i,
        r <= 990,
{
    if i < s.len() && spec_nonzero_digit_at(s, i) {
        ((r + spec_digit(s[i]).unwrap()) as u32, i + 1)
    } else {
        (r, i)
    }
}

/// The value of a Chinese numeral token: single digits (zero through
/// nine), the bare ten, ten-with-unit, tens-with-multiplier, and a
/// hundreds digit followed by the hundred marker and the same tens and
/// units. A composite token counts only when the steps consume it
/// whole: a trailing character the grammar does not place makes the
/// token no numeral. `None` means the token is no numeral under this
/// grammar, which is distinct from the valid numeral zero (the
/// one-character zero token alone).
pub open spec fn spec_chinese_num(s: Seq<char>) -> Option<u32> {
    if s.len() == 0 {
        None
    } else if s.len() == 1 {
        if s[0] == '十' {
            Some(10u32)
        } else {
            spec_digit(s[0])
        }
    } else {
        let h = spec_hundreds(s);
        let t = spec_tens(s, h.1, h.0);
        let u = spec_units(s, t.1, t.0);
        if u.1 == s.len() {
            Some(u.0)
        } else {
            None
        }
    }
}

/// The digit value of one character, or `None` if it is no digit.
pub fn digit_value(c: char) -> (r: Option<u32>)
    ensures
        r == spec_digit(c),
{
    match c {
        '零' => Some(0),
        '一' => Some(1),
        '二' => Some(2),
        '三' => Some(3),
        '四' => Some(4),
        '五' => Some(5),
        '六' => Some(6),
        '七' => Some(7),
        '八' => Some(8),
        '九' => Some(9),
        _ => None,
    }
}

/// Convert a Chinese numeral token to an integer, or `None` if the
/// token cannot be decomposed, whole, by the supported grammar.
pub fn chinese_num_to_int(s: &str) -> (r: Option<u32>)
    ensures
        r == spec_chinese_num(s@),
{
    let n = s.unicode_len();
    if n == 0 {
        return None;
    }
    if n == 1 {
        let c = s.get_char(0);
        if c == '十' {
            return Some(10);
        }
        return digit_value(c);
    }

    let mut result: u32 = 0;
    let mut i: usize = 0;

    // Hundreds: a non-zero digit followed by the hundred marker.
    if s.get_char(1) == '百' {
        if let Some(d) = digit_value(s.get_char(0)) {
            if d >= 1 {
                result = d * 100;
                i = 2;
            }
        }
    }
    proof {
        assert((result, i as int) == spec_hundreds(s@));
    }

    // Tens: the bare ten marker, or a non-zero digit before it.
    let ghost after_hundreds = (result, i as int);
    if i < n && s.get_char(i) == '十' {
        result = result + 10;
        i = i + 1;
    } else if i + 1 < n && s.get_char(i + 1) == '十' {
        if let Some(d) = digit_value(s.get_char(i)) {
            if d >= 1 {
                result = result + d * 10;
                i = i + 2;
            }
        }
    }
    proof {
        assert((result, i as int) == spec_tens(s@, after_hundreds.1, after_hundreds.0));
    }

    // Units: one non-zero digit.
    let ghost after_tens = (result, i as int);
    if i < n {
        if let Some(d) = digit_value(s.get_char(i)) {
            if d >= 1 {
                result = result + d;
                i = i + 1;
            }
        }
    }
    proof {
        assert((result, i as int) == spec_units(s@, after_tens.1, after_tens.0));
    }

    // The token counts only when the steps consumed it whole.
    if i == n {
        Some(result)
    } else {
        None
    }
}

/// The section letter for a Chinese section-marker suffix.
pub open spec fn spec_suffix_letter(c: char) -> Option<char> {
    if c == '甲' {
        Some('A')
    } else if c == '乙' {
        Some('B')
    } else if c == '丙' {
        Some('C')
    } else {
        None
    }
}

/// Map a Chinese section-marker suffix to its letter.
pub fn chinese_suffix_to_letter(c: char) -> (r: Option<char>)
    ensures
        r == spec_suffix_letter(c),
{
    match c {
        '甲' => Some('A'),
        '乙' => Some('B'),
        '丙' => Some('C'),
        _ => None,
    }
}

/// The digit character for a value one through nine.
pub open spec fn spec_digit_char(d: u32) -> char
    recommends
        1 <= d <= 9,
{
    if d == 1 {
        '一'
    } else if d == 2 {
        '二'
    } else if d == 3 {
        '三'
    } else if d == 4 {
        '四'
    } else if d == 5 {
        '五'
    } else if d == 6 {
        '六'
    } else if d == 7 {
        '七'
    } else if d == 8 {
        '八'
    } else {
        '九'
    }
}

/// The canonical numeral for a value between 1 and 99: a bare digit,
/// the bare ten, ten-with-unit, or tens-with-multiplier.
pub open spec fn numeral_for(n: u32) -> Seq<char>
    recommends
        1 <= n <= 99,
{
    if n <= 9 {
        seq![spec_digit_char(n)]
    } else if n == 10 {
        seq!['十']
    } else if n <= 19 {
        seq!['十', spec_digit_char((n % 10) as u32)]
    } else if n % 10 == 0 {
        seq![spec_digit_char((n / 10) as u32), '十']
    } else {
        seq![spec_digit_char((n / 10) as u32), '十', spec_digit_char((n % 10) as u32)]
    }
}

/// Parsing is a left inverse of the canonical numeral: every value
/// between 1 and 99 comes back from its canonical numeral unchanged.
pub proof fn lemma_numeral_round_trip(n: u32)
    requires
        1 <= n <= 99,
    ensures
        spec_chinese_num(numeral_for(n)) == Some(n),
{
    if n <= 9 {
        assert(spec_chinese_num(numeral_for(n)) == Some(n));
    } else if n == 10 {
        assert(spec_chinese_num(numeral_for(n)) == Some(n));
    } else if n <= 19 {
        assert(spec_chinese_num(numeral_for(n)) == Some(n));
    } else if n % 10 == 0 {
        assert(spec_chinese_num(numeral_for(n)) == Some(n));
    } else {
        assert(spec_chinese_num(numeral_for(n)) == Some(n));
    }
}

} // verus!

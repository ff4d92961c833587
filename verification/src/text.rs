//! Decimal numbers in text.

use vstd::prelude::*;
use vstd::string::*;

verus! {

/// The character that writes the digit `d`.
pub open spec fn decimal_digit(d: nat) -> char {
    (d + 0x30) as char
}

/// The decimal text of `n`, without leading zeros.
pub open spec fn spec_decimal(n: nat) -> Seq<char>
    decreases n,
{
    if n < 10 {
        seq![decimal_digit(n)]
    } else {
        spec_decimal(n / 10).push(decimal_digit(n % 10))
    }
}

/// The one-character text of a digit.
fn digit_str(d: usize) -> (text: &'static str)
    requires
        d <= 9,
    ensures
        text@ == seq![decimal_digit(d as nat)],
{
    proof {
        reveal_strlit("0");
        reveal_strlit("1");
        reveal_strlit("2");
        reveal_strlit("3");
        reveal_strlit("4");
        reveal_strlit("5");
        reveal_strlit("6");
        reveal_strlit("7");
        reveal_strlit("8");
        reveal_strlit("9");
    }
    let text = match d {
        0 => "0",
        1 => "1",
        2 => "2",
        3 => "3",
        4 => "4",
        5 => "5",
        6 => "6",
        7 => "7",
        8 => "8",
        _ => "9",
    };
    assert(text@ =~= seq![decimal_digit(d as nat)]);
    text
}

/// Appends the decimal text of `n` to `text`.
pub fn push_decimal(text: &mut String, n: usize)
    ensures
        final(text)@ == old(text)@ + spec_decimal(n as nat),
    decreases n,
{
    if n >= 10 {
        push_decimal(text, n / 10);
    }
    text.append(digit_str(n % 10));
    proof {
        assert(final(text)@ =~= old(text)@ + spec_decimal(n as nat));
    }
}

/// Whether `c` is white space: whether it has the Unicode property
/// White_Space.
pub open spec fn is_whitespace_char(c: char) -> bool {
    let u = c as u32;
    (0x09 <= u <= 0x0d) || u == 0x20 || u == 0x85 || u == 0xa0 || u == 0x1680 || (0x2000 <= u
        <= 0x200a) || u == 0x2028 || u == 0x2029 || u == 0x202f || u == 0x205f || u == 0x3000
}

pub fn is_whitespace(c: char) -> (white: bool)
    ensures
        white == is_whitespace_char(c),
{
    let u: u32 = c as u32;
    (0x09 <= u && u <= 0x0d) || u == 0x20 || u == 0x85 || u == 0xa0 || u == 0x1680 || (0x2000 <= u
        && u <= 0x200a) || u == 0x2028 || u == 0x2029 || u == 0x202f || u == 0x205f || u == 0x3000
}

/// The text without the white space at its start.
pub open spec fn trim_start(s: Seq<char>) -> Seq<char>
    decreases s.len(),
{
    if s.len() > 0 && is_whitespace_char(s[0]) {
        trim_start(s.skip(1))
    } else {
        s
    }
}

/// The text without the white space at its end.
pub open spec fn trim_end(s: Seq<char>) -> Seq<char>
    decreases s.len(),
{
    if s.len() > 0 && is_whitespace_char(s.last()) {
        trim_end(s.drop_last())
    } else {
        s
    }
}

/// The text without the white space at its start and at its end.
pub open spec fn spec_trim(s: Seq<char>) -> Seq<char> {
    trim_end(trim_start(s))
}

/// The characters of `s`, one by one.
pub fn to_chars(s: &str) -> (chars: Vec<char>)
    ensures
        chars@ == s@,
{
    let n: usize = s.unicode_len();
    let mut chars: Vec<char> = Vec::new();
    let mut i: usize = 0;
    while i < n
        invariant
            i <= n,
            n == s@.len(),
            chars@ == s@.take(i as int),
        decreases n - i,
    {
        chars.push(s.get_char(i));
        proof {
            assert(chars@ =~= s@.take(i as int + 1));
        }
        i += 1;
    }
    proof {
        assert(s@.take(n as int) =~= s@);
    }
    chars
}

/// The part of `chars[from..to]` that is left when the white space at its
/// start and at its end is taken off.
pub fn trim_range(chars: &[char], from: usize, to: usize) -> (range: (usize, usize))
    requires
        from <= to <= chars@.len(),
    ensures
        from <= range.0 <= range.1 <= to,
        chars@.subrange(range.0 as int, range.1 as int) == spec_trim(
            chars@.subrange(from as int, to as int),
        ),
{
    let mut a: usize = from;
    while a < to && is_whitespace(chars[a])
        invariant
            from <= a <= to <= chars@.len(),
            trim_start(chars@.subrange(from as int, to as int)) == trim_start(
                chars@.subrange(a as int, to as int),
            ),
        decreases to - a,
    {
        proof {
            let part = chars@.subrange(a as int, to as int);
            assert(part[0] == chars@[a as int]);
            assert(part.skip(1) =~= chars@.subrange(a as int + 1, to as int));
        }
        a += 1;
    }
    proof {
        let part = chars@.subrange(a as int, to as int);
        if a < to {
            assert(part[0] == chars@[a as int]);
        }
        assert(trim_start(part) == part);
    }
    let mut b: usize = to;
    while b > a && is_whitespace(chars[b - 1])
        invariant
            a <= b <= to <= chars@.len(),
            trim_end(chars@.subrange(a as int, to as int)) == trim_end(
                chars@.subrange(a as int, b as int),
            ),
        decreases b - a,
    {
        proof {
            let part = chars@.subrange(a as int, b as int);
            assert(part.last() == chars@[b as int - 1]);
            assert(part.drop_last() =~= chars@.subrange(a as int, b as int - 1));
        }
        b -= 1;
    }
    proof {
        let part = chars@.subrange(a as int, b as int);
        if b > a {
            assert(part.last() == chars@[b as int - 1]);
        }
        assert(trim_end(part) == part);
    }
    (a, b)
}

/// Index of the first character of `s` that is one of `stops`, or the
/// length of `s` where none is.
pub open spec fn first_of(s: Seq<char>, stops: Seq<char>) -> int
    decreases s.len(),
{
    if s.len() == 0 {
        0
    } else if stops.contains(s[0]) {
        0
    } else {
        1 + first_of(s.skip(1), stops)
    }
}

pub proof fn lemma_first_of(s: Seq<char>, stops: Seq<char>)
    ensures
        0 <= first_of(s, stops) <= s.len(),
        first_of(s, stops) < s.len() ==> stops.contains(s[first_of(s, stops)]),
        forall|i: int| 0 <= i < first_of(s, stops) ==> !stops.contains(#[trigger] s[i]),
    decreases s.len(),
{
    if s.len() > 0 && !stops.contains(s[0]) {
        lemma_first_of(s.skip(1), stops);
        assert forall|i: int| 0 <= i < first_of(s, stops) implies !stops.contains(
            #[trigger] s[i],
        ) by {
            if i > 0 {
                assert(s[i] == s.skip(1)[i - 1]);
            }
        }
    }
}

/// Whether `c` is one of `stops`.
pub fn is_one_of(c: char, stops: &[char]) -> (found: bool)
    ensures
        found == stops@.contains(c),
{
    let mut k: usize = 0;
    while k < stops.len()
        invariant
            k <= stops.len(),
            forall|j: int| 0 <= j < k ==> stops@[j] != c,
        decreases stops.len() - k,
    {
        if stops[k] == c {
            return true;
        }
        k += 1;
    }
    false
}

/// Index of the first character of `chars[from..to]` that is one of
/// `stops`, or `to` where none is.
pub fn find(chars: &[char], from: usize, to: usize, stops: &[char]) -> (index: usize)
    requires
        from <= to <= chars@.len(),
    ensures
        from <= index <= to,
        index - from == first_of(chars@.subrange(from as int, to as int), stops@),
{
    let mut i: usize = from;
    while i < to && !is_one_of(chars[i], stops)
        invariant
            from <= i <= to <= chars@.len(),
            first_of(chars@.subrange(from as int, to as int), stops@) == i - from + first_of(
                chars@.subrange(i as int, to as int),
                stops@,
            ),
        decreases to - i,
    {
        proof {
            let part = chars@.subrange(i as int, to as int);
            assert(part[0] == chars@[i as int]);
            assert(part.skip(1) =~= chars@.subrange(i as int + 1, to as int));
        }
        i += 1;
    }
    proof {
        let part = chars@.subrange(i as int, to as int);
        if i < to {
            assert(part[0] == chars@[i as int]);
        }
    }
    i
}

pub open spec fn is_decimal_digit(c: char) -> bool {
    '0' <= c <= '9'
}

pub open spec fn all_decimal_digits(s: Seq<char>) -> bool {
    forall|i: int| 0 <= i < s.len() ==> is_decimal_digit(#[trigger] s[i])
}

/// The number that decimal digits write.
pub open spec fn decimal_value(s: Seq<char>) -> nat
    decreases s.len(),
{
    if s.len() == 0 {
        0
    } else {
        decimal_value(s.drop_last()) * 10 + (s.last() as u32 - 0x30) as nat
    }
}

/// The 8-bit number that `s` writes in decimal: one or more digits, with
/// or without a plus sign in front, that make a number up to 255. `None`
/// for any other text.
pub open spec fn spec_parse_u8(s: Seq<char>) -> Option<u8> {
    let digits = if s.len() > 0 && s[0] == '+' {
        s.skip(1)
    } else {
        s
    };
    if digits.len() == 0 || !all_decimal_digits(digits) || decimal_value(digits) > 255 {
        None
    } else {
        Some(decimal_value(digits) as u8)
    }
}

/// The digits read so far never make a larger number than all of them.
pub proof fn lemma_decimal_prefix(s: Seq<char>, n: int)
    requires
        all_decimal_digits(s),
        0 <= n <= s.len(),
    ensures
        decimal_value(s.take(n)) <= decimal_value(s),
    decreases s.len() - n,
{
    if n < s.len() {
        lemma_decimal_prefix(s, n + 1);
        let longer = s.take(n + 1);
        assert(longer.drop_last() =~= s.take(n));
        assert(is_decimal_digit(s[n]));
        assert(longer.last() == s[n]);
    } else {
        assert(s.take(n) =~= s);
    }
}

/// Reads `chars[from..to]` as an 8-bit number in decimal.
pub fn parse_u8(chars: &[char], from: usize, to: usize) -> (value: Option<u8>)
    requires
        from <= to <= chars@.len(),
    ensures
        value == spec_parse_u8(chars@.subrange(from as int, to as int)),
{
    let ghost text = chars@.subrange(from as int, to as int);
    let start: usize = if from < to && chars[from] == '+' {
        from + 1
    } else {
        from
    };
    let ghost digits = chars@.subrange(start as int, to as int);
    proof {
        if from < to {
            assert(text[0] == chars@[from as int]);
        }
        if start > from {
            assert(text.skip(1) =~= digits);
        } else {
            assert(text =~= digits);
        }
    }
    if start == to {
        return None;
    }
    let mut value: u32 = 0;
    let mut i: usize = start;
    proof {
        assert(digits.take(0) =~= Seq::empty());
    }
    while i < to
        invariant
            from <= start <= i <= to <= chars@.len(),
            start < to,
            digits == chars@.subrange(start as int, to as int),
            text == chars@.subrange(from as int, to as int),
            digits == if text.len() > 0 && text[0] == '+' {
                text.skip(1)
            } else {
                text
            },
            all_decimal_digits(digits.take(i - start)),
            value == decimal_value(digits.take(i - start)),
            value <= 255,
        decreases to - i,
    {
        let c: char = chars[i];
        let ghost read = digits.take(i - start);
        let ghost longer = digits.take(i - start + 1);
        proof {
            assert(digits[i - start] == c);
            assert(longer.drop_last() =~= read);
            assert(longer.last() == c);
        }
        if !('0' <= c && c <= '9') {
            proof {
                assert(!is_decimal_digit(digits[i - start]));
            }
            return None;
        }
        let digit: u32 = c as u32 - 0x30;
        value = value * 10 + digit;
        proof {
            assert forall|k: int| 0 <= k < longer.len() implies is_decimal_digit(
                #[trigger] longer[k],
            ) by {
                if k < read.len() {
                    assert(longer[k] == read[k]);
                }
            }
        }
        if value > 255 {
            proof {
                if all_decimal_digits(digits) {
                    lemma_decimal_prefix(digits, i - start + 1);
                }
            }
            return None;
        }
        i += 1;
    }
    proof {
        assert(digits.take(to - start) =~= digits);
    }
    Some(value as u8)
}

/// Whether two texts are the same.
pub fn same_text(a: &[char], b: &[char]) -> (same: bool)
    ensures
        same == (a@ == b@),
{
    if a.len() != b.len() {
        return false;
    }
    let mut i: usize = 0;
    while i < a.len()
        invariant
            i <= a.len(),
            a.len() == b.len(),
            forall|k: int| 0 <= k < i ==> a@[k] == b@[k],
        decreases a.len() - i,
    {
        if a[i] != b[i] {
            return false;
        }
        i += 1;
    }
    proof {
        assert(a@ =~= b@);
    }
    true
}

/// Whether `chars` is the text `literal`.
pub fn is_text(chars: &[char], literal: &str) -> (same: bool)
    ensures
        same == (chars@ == literal@),
{
    let other = to_chars(literal);
    same_text(chars, other.as_slice())
}

/// The text in upper case, as `str::to_uppercase` gives it.
pub uninterp spec fn spec_to_uppercase(s: Seq<char>) -> Seq<char>;

/// `str::to_uppercase`: the text in upper case, by the Unicode case
/// mappings. Nothing is claimed of the result but that equal texts give
/// equal results.
#[verifier::external_body]
pub(crate) fn to_uppercase(s: &str) -> (upper: String)
    ensures
        upper@ == spec_to_uppercase(s@),
{
    s.to_uppercase()
}

} // verus!

//! X.121 addresses.

use vstd::prelude::*;
use vstd::string::*;

verus! {

/// Longest X.121 address, in digits.
pub const X121_MAX_DIGITS: usize = 15;

/// Whether `digits` are the decimal digits of an X.121 address.
pub open spec fn x121_valid(digits: Seq<u8>) -> bool {
    &&& digits.len() <= X121_MAX_DIGITS
    &&& forall|i: int| 0 <= i < digits.len() ==> #[trigger] digits[i] <= 9
}

pub open spec fn is_digit_char(c: char) -> bool {
    '0' <= c <= '9'
}

/// The character that writes the digit `d`.
pub open spec fn digit_char(d: u8) -> char {
    (d + 0x30) as char
}

/// The digit that the character `c` writes.
pub open spec fn char_digit(c: char) -> u8 {
    (c as u32 - 0x30) as u8
}

/// Whether `text` writes an X.121 address: at most 15 characters, all of them
/// decimal digits.
pub open spec fn x121_text_valid(text: Seq<char>) -> bool {
    &&& text.len() <= X121_MAX_DIGITS
    &&& forall|i: int| 0 <= i < text.len() ==> is_digit_char(#[trigger] text[i])
}

/// Why `text` writes no X.121 address, for a text that writes none.
pub open spec fn x121_text_error(text: Seq<char>) -> Seq<char> {
    if text.len() > X121_MAX_DIGITS {
        "address too long"@
    } else {
        "address is not made of digits"@
    }
}

/// X.121 address: up to 15 decimal digits. The view is the digit sequence.
#[derive(Debug, PartialEq, Eq)]
pub struct X121Addr {
    digits: Vec<u8>,
}

impl View for X121Addr {
    type V = Seq<u8>;

    closed spec fn view(&self) -> Seq<u8> {
        self.digits@
    }
}

impl Clone for X121Addr {
    fn clone(&self) -> (copy: Self)
        ensures
            copy@ == self@,
    {
        proof {
            use_type_invariant(self);
        }
        X121Addr { digits: self.digits.clone() }
    }
}

impl X121Addr {
    #[verifier::type_invariant]
    spec fn inv(&self) -> bool {
        x121_valid(self.digits@)
    }

    /// The address with no digits.
    pub fn null() -> (addr: X121Addr)
        ensures
            addr@ == Seq::<u8>::empty(),
    {
        X121Addr { digits: Vec::new() }
    }

    pub fn is_null(&self) -> (null: bool)
        ensures
            null == (self@.len() == 0),
    {
        self.digits.len() == 0
    }

    /// Number of digits. Every address is valid, which callers learn here.
    pub fn len(&self) -> (n: usize)
        ensures
            n == self@.len(),
            x121_valid(self@),
    {
        proof {
            use_type_invariant(self);
        }
        self.digits.len()
    }

    /// The digit at `index`, most significant first.
    pub fn digit(&self, index: usize) -> (d: u8)
        requires
            index < self@.len(),
        ensures
            d == self@[index as int],
            d <= 9,
    {
        proof {
            use_type_invariant(self);
        }
        self.digits[index]
    }

    /// The address made of `digits`, or `None` unless they are at most 15
    /// values from 0 to 9.
    pub fn from_digits(digits: &[u8]) -> (addr: Option<X121Addr>)
        ensures
            addr is Some <==> x121_valid(digits@),
            addr is Some ==> addr->0@ == digits@,
    {
        if digits.len() > X121_MAX_DIGITS {
            return None;
        }
        let mut out: Vec<u8> = Vec::new();
        let mut i: usize = 0;
        while i < digits.len()
            invariant
                i <= digits.len() <= X121_MAX_DIGITS,
                out@ == digits@.take(i as int),
                x121_valid(out@),
            decreases digits.len() - i,
        {
            let d: u8 = digits[i];
            if d > 9 {
                return None;
            }
            out.push(d);
            proof {
                assert(digits@.take(i as int + 1) =~= digits@.take(i as int).push(d));
            }
            i += 1;
        }
        proof {
            assert(digits@.take(digits.len() as int) =~= digits@);
        }
        Some(X121Addr { digits: out })
    }

    /// Reads an address from its decimal text. Fails unless the text is at
    /// most 15 decimal digits; the empty text is the null address.
    pub fn parse(s: &str) -> (addr: Result<X121Addr, String>)
        ensures
            addr is Ok <==> x121_text_valid(s@),
            addr is Ok ==> addr->Ok_0@ == s@.map_values(|c: char| char_digit(c)),
            addr is Err ==> addr->Err_0@ == x121_text_error(s@),
    {
        let n: usize = s.unicode_len();
        if n > X121_MAX_DIGITS {
            return Err("address too long".to_owned());
        }
        let mut out: Vec<u8> = Vec::new();
        let mut i: usize = 0;
        while i < n
            invariant
                i <= n,
                n == s@.len(),
                n <= X121_MAX_DIGITS,
                out@ == s@.take(i as int).map_values(|c: char| char_digit(c)),
                x121_valid(out@),
                x121_text_valid(s@.take(i as int)),
            decreases n - i,
        {
            let c: char = s.get_char(i);
            if !('0' <= c && c <= '9') {
                return Err("address is not made of digits".to_owned());
            }
            let d: u8 = (c as u32 - 0x30) as u8;
            out.push(d);
            proof {
                assert(s@.take(i as int + 1) =~= s@.take(i as int).push(c));
                assert(s@.take(i as int + 1).map_values(|c: char| char_digit(c)) =~= s@.take(
                    i as int,
                ).map_values(|c: char| char_digit(c)).push(d));
            }
            i += 1;
        }
        proof {
            assert(s@.take(n as int) =~= s@);
        }
        Ok(X121Addr { digits: out })
    }

    /// The address as decimal text.
    pub fn to_text(&self) -> (text: String)
        ensures
            text@ == self@.map_values(|d: u8| digit_char(d)),
    {
        proof {
            use_type_invariant(self);
        }
        let mut text = String::new();
        let mut i: usize = 0;
        while i < self.digits.len()
            invariant
                i <= self.digits.len(),
                x121_valid(self.digits@),
                text@ == self.digits@.take(i as int).map_values(|d: u8| digit_char(d)),
            decreases self.digits.len() - i,
        {
            let d: u8 = self.digits[i];
            text.append(digit_text(d));
            proof {
                assert(self.digits@.take(i as int + 1) =~= self.digits@.take(i as int).push(d));
                assert(self.digits@.take(i as int + 1).map_values(|d: u8| digit_char(d))
                    =~= self.digits@.take(i as int).map_values(|d: u8| digit_char(d)) + seq![
                    digit_char(d),
                ]);
            }
            i += 1;
        }
        proof {
            assert(self.digits@.take(self.digits.len() as int) =~= self.digits@);
        }
        text
    }
}

/// The one-character text of a digit.
fn digit_text(d: u8) -> (text: &'static str)
    requires
        d <= 9,
    ensures
        text@ == seq![digit_char(d)],
{
    proof {
        reveal_strlit("0");
        reveal_strlit("1");
        reveal_strlit("2");
        reveal_strlit("3");
        reveal_strlit("4");
        reveal_strlit("5");
        reveal_strlit("6");
        reveal_strlit("7");
        reveal_strlit("8");
        reveal_strlit("9");
    }
    let text = match d {
        0 => "0",
        1 => "1",
        2 => "2",
        3 => "3",
        4 => "4",
        5 => "5",
        6 => "6",
        7 => "7",
        8 => "8",
        _ => "9",
    };
    assert(text@ =~= seq![digit_char(d)]);
    text
}

impl core::str::FromStr for X121Addr {
    type Err = String;

    /// Reads an address from its decimal text, as [`X121Addr::parse`] does.
    fn from_str(s: &str) -> (addr: Result<X121Addr, String>)
        ensures
            addr is Ok <==> x121_text_valid(s@),
            addr is Ok ==> addr->Ok_0@ == s@.map_values(|c: char| char_digit(c)),
            addr is Err ==> addr->Err_0@ == x121_text_error(s@),
    {
        X121Addr::parse(s)
    }
}

} // verus!

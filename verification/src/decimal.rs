//! Decimal text: the canonical digit string of an unsigned integer, and the
//! parse that reads one back.
//!
//! These are the building blocks for the parser-backed formatters: a value is
//! rendered as its shortest base-ten digit string, and a committed string is
//! read back digit by digit. The spec functions [`dec_rep`] and [`dec_val`]
//! are the mathematical models the formatter contracts are stated over.

use vstd::prelude::*;
use vstd::string::*;

verus! {

/// Why a piece of text failed to parse as a number.
///
/// This is the underlying cause carried by the wrapped variant of
/// [`ValidationError`](crate::error::ValidationError).
#[derive(Clone, Copy, Debug, PartialEq, Eq, Structural)]
pub enum ParseError {
    /// The input (or a required part of it) was empty.
    Empty,
    /// A character that cannot appear in a number at that position.
    InvalidDigit,
    /// The number is too large for the target type.
    Overflow,
}

/// True of the ten ASCII digit characters.
pub open spec fn is_digit_char(c: char) -> bool {
    '0' <= c && c <= '9'
}

/// The numeric value of an ASCII digit character.
pub open spec fn digit_val(c: char) -> nat
    recommends
        is_digit_char(c),
{
    (c as int - '0' as int) as nat
}

/// The ASCII digit character for a value below ten.
pub open spec fn char_of_digit(d: nat) -> char
    recommends
        d < 10,
{
    if d == 0 {
        '0'
    } else if d == 1 {
        '1'
    } else if d == 2 {
        '2'
    } else if d == 3 {
        '3'
    } else if d == 4 {
        '4'
    } else if d == 5 {
        '5'
    } else if d == 6 {
        '6'
    } else if d == 7 {
        '7'
    } else if d == 8 {
        '8'
    } else {
        '9'
    }
}

/// True when every character of `s` is an ASCII digit.
pub open spec fn all_digits(s: Seq<char>) -> bool {
    forall|i: int| 0 <= i < s.len() ==> is_digit_char(#[trigger] s[i])
}

/// The shortest base-ten digit string of `n` (most significant digit first).
pub open spec fn dec_rep(n: nat) -> Seq<char>
    decreases n,
{
    if n < 10 {
        seq![char_of_digit(n)]
    } else {
        dec_rep(n / 10).push(char_of_digit(n % 10))
    }
}

/// The number that a digit string denotes, read most significant digit first.
pub open spec fn dec_val(s: Seq<char>) -> nat
    recommends
        all_digits(s),
    decreases s.len(),
{
    if s.len() == 0 {
        0
    } else {
        dec_val(s.drop_last()) * 10 + digit_val(s.last())
    }
}

/// The digit character of a value below ten denotes that value.
pub proof fn lemma_digit_val_of_char(d: nat)
    requires
        d < 10,
    ensures
        is_digit_char(char_of_digit(d)),
        digit_val(char_of_digit(d)) == d,
{
}

/// Rendering a number and reading the digits back returns the same number.
pub proof fn lemma_dec_val_of_dec_rep(n: nat)
    ensures
        all_digits(dec_rep(n)),
        dec_rep(n).len() >= 1,
        dec_val(dec_rep(n)) == n,
    decreases n,
{
    if n < 10 {
        lemma_digit_val_of_char(n);
        let s = seq![char_of_digit(n)];
        assert(dec_rep(n) == s);
        assert(s.drop_last() =~= Seq::<char>::empty());
        assert(dec_val(Seq::<char>::empty()) == 0);
        assert(s.last() == char_of_digit(n));
        assert(dec_val(s) == dec_val(s.drop_last()) * 10 + digit_val(s.last()));
        assert(forall|i: int|
            0 <= i < s.len() ==> is_digit_char(#[trigger] s[i]));
    } else {
        lemma_dec_val_of_dec_rep(n / 10);
        lemma_digit_val_of_char(n % 10);
        let prefix = dec_rep(n / 10);
        let whole = prefix.push(char_of_digit(n % 10));
        assert(whole.drop_last() =~= prefix);
        assert(whole.last() == char_of_digit(n % 10));
        assert(dec_val(whole) == dec_val(prefix) * 10 + digit_val(char_of_digit(n % 10)));
        assert(n / 10 * 10 + n % 10 == n);
    }
}

/// Appending a digit multiplies the value by ten and adds the digit.
pub proof fn lemma_dec_val_push(s: Seq<char>, c: char)
    ensures
        dec_val(s.push(c)) == dec_val(s) * 10 + digit_val(c),
{
    assert(s.push(c).drop_last() =~= s);
    assert(s.push(c).last() == c);
}

/// A digit string denotes at least as much as any of its prefixes.
pub proof fn lemma_dec_val_prefix(s: Seq<char>, i: int)
    requires
        0 <= i <= s.len(),
    ensures
        dec_val(s.subrange(0, i)) <= dec_val(s),
    decreases s.len(),
{
    if i == s.len() {
        assert(s.subrange(0, i) =~= s);
    } else {
        let t = s.drop_last();
        lemma_dec_val_prefix(t, i);
        assert(t.subrange(0, i) =~= s.subrange(0, i));
        assert(dec_val(s) == dec_val(t) * 10 + digit_val(s.last()));
        assert(dec_val(t) * 10 >= dec_val(t));
    }
}

/// At most two digits denote at most ninety-nine.
pub proof fn lemma_dec_val_two_digits(s: Seq<char>)
    requires
        all_digits(s),
        s.len() <= 2,
    ensures
        dec_val(s) <= 99,
        s.len() <= 1 ==> dec_val(s) <= 9,
{
    if s.len() > 0 {
        let t = s.drop_last();
        assert(s.last() == s[s.len() - 1]);
        assert(is_digit_char(s[s.len() - 1]));
        assert(digit_val(s.last()) <= 9);
        if s.len() == 2 {
            assert(t.drop_last() =~= Seq::<char>::empty());
            assert(dec_val(Seq::<char>::empty()) == 0);
            assert(t.last() == s[0]);
            assert(is_digit_char(s[0]));
            assert(dec_val(t) == dec_val(t.drop_last()) * 10 + digit_val(t.last()));
            assert(dec_val(t) <= 9);
            assert(dec_val(s) == dec_val(t) * 10 + digit_val(s.last()));
        } else {
            assert(t =~= Seq::<char>::empty());
            assert(dec_val(t) == 0);
            assert(dec_val(s) == dec_val(t) * 10 + digit_val(s.last()));
        }
    }
}

/// The one-character string holding the digit of a value below ten.
pub fn digit_str(d: u64) -> (r: &'static str)
    requires
        d < 10,
    ensures
        r@ == seq![char_of_digit(d as nat)],
{
    if d == 0 {
        proof {
            reveal_strlit("0");
            assert("0"@ =~= seq![char_of_digit(0)]);
        }
        "0"
    } else if d == 1 {
        proof {
            reveal_strlit("1");
            assert("1"@ =~= seq![char_of_digit(1)]);
        }
        "1"
    } else if d == 2 {
        proof {
            reveal_strlit("2");
            assert("2"@ =~= seq![char_of_digit(2)]);
        }
        "2"
    } else if d == 3 {
        proof {
            reveal_strlit("3");
            assert("3"@ =~= seq![char_of_digit(3)]);
        }
        "3"
    } else if d == 4 {
        proof {
            reveal_strlit("4");
            assert("4"@ =~= seq![char_of_digit(4)]);
        }
        "4"
    } else if d == 5 {
        proof {
            reveal_strlit("5");
            assert("5"@ =~= seq![char_of_digit(5)]);
        }
        "5"
    } else if d == 6 {
        proof {
            reveal_strlit("6");
            assert("6"@ =~= seq![char_of_digit(6)]);
        }
        "6"
    } else if d == 7 {
        proof {
            reveal_strlit("7");
            assert("7"@ =~= seq![char_of_digit(7)]);
        }
        "7"
    } else if d == 8 {
        proof {
            reveal_strlit("8");
            assert("8"@ =~= seq![char_of_digit(8)]);
        }
        "8"
    } else {
        proof {
            reveal_strlit("9");
            assert("9"@ =~= seq![char_of_digit(9)]);
        }
        "9"
    }
}

/// Render `n` as its shortest base-ten digit string.
pub fn format_u64(n: u64) -> (r: String)
    ensures
        r@ == dec_rep(n as nat),
    decreases n,
{
    if n < 10 {
        digit_str(n).to_owned()
    } else {
        let mut r = format_u64(n / 10);
        r.append(digit_str(n % 10));
        proof {
            assert((n / 10) as nat == n as nat / 10);
            assert((n % 10) as nat == n as nat % 10);
            assert(dec_rep(n as nat / 10).push(char_of_digit(n as nat % 10)) =~= dec_rep(
                n as nat / 10,
            ) + seq![char_of_digit(n as nat % 10)]);
        }
        r
    }
}

/// What [`parse_u64`] returns: the denoted number where the text is a digit
/// string whose value fits in a `u64`, and the reason it is rejected
/// otherwise.
pub open spec fn spec_parse_u64(s: Seq<char>) -> Result<u64, ParseError> {
    if s.len() == 0 {
        Err(ParseError::Empty)
    } else if !all_digits(s) {
        Err(ParseError::InvalidDigit)
    } else if dec_val(s) > u64::MAX {
        Err(ParseError::Overflow)
    } else {
        Ok(dec_val(s) as u64)
    }
}

/// Read a base-ten digit string back as a number.
///
/// Empty text, text holding a non-digit, and text denoting more than
/// `u64::MAX` are rejected, each with its own [`ParseError`].
pub fn parse_u64(s: &str) -> (r: Result<u64, ParseError>)
    ensures
        r == spec_parse_u64(s@),
{
    let len = s.unicode_len();
    if len == 0 {
        return Err(ParseError::Empty);
    }
    let mut i: usize = 0;
    while i < len
        invariant
            len == s@.len(),
            i <= len,
            forall|j: int| 0 <= j < i ==> is_digit_char(#[trigger] s@[j]),
        decreases len - i,
    {
        let c = s.get_char(i);
        if c < '0' || c > '9' {
            return Err(ParseError::InvalidDigit);
        }
        i += 1;
    }
    let mut acc: u64 = 0;
    let mut k: usize = 0;
    while k < len
        invariant
            len == s@.len(),
            1 <= len,
            all_digits(s@),
            k <= len,
            acc as nat == dec_val(s@.subrange(0, k as int)),
        decreases len - k,
    {
        let c = s.get_char(k);
        let d: u64 = ((c as u32) - 48) as u64;
        proof {
            assert(is_digit_char(s@[k as int]));
            assert(d as nat == digit_val(s@[k as int]));
            assert(s@.subrange(0, k as int).push(s@[k as int]) =~= s@.subrange(0, k + 1));
            lemma_dec_val_push(s@.subrange(0, k as int), s@[k as int]);
        }
        let scaled = match acc.checked_mul(10) {
            Some(v) => v,
            None => {
                proof {
                    lemma_dec_val_prefix(s@, k + 1);
                }
                return Err(ParseError::Overflow);
            },
        };
        acc = match scaled.checked_add(d) {
            Some(v) => v,
            None => {
                proof {
                    lemma_dec_val_prefix(s@, k + 1);
                }
                return Err(ParseError::Overflow);
            },
        };
        k += 1;
    }
    proof {
        assert(s@.subrange(0, len as int) =~= s@);
    }
    Ok(acc)
}

} // verus!

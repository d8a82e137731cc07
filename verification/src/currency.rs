//! A currency [`Formatter`] with true partial-input tolerance.
//!
//! This formatter edits an amount of money held as a whole number of cents.
//! Its display text carries a leading dollar symbol and always shows two
//! decimal places; while editing, the symbol is hidden and trailing zero
//! cents are dropped. Partial validation accepts any prefix-shaped amount —
//! digits, at most one decimal point, at most two digits after it — so text
//! such as a bare `"12."` is accepted as valid-in-progress even though
//! committing it would fail. This is the intended divergence between partial
//! validation and final conversion that the [`Formatter`] contract allows.
//!
//! [`Formatter`]: crate::formatter::Formatter

use vstd::prelude::*;
use vstd::string::*;
use crate::decimal::{
    self, all_digits, char_of_digit, dec_rep, dec_val, digit_val, is_digit_char, ParseError,
};
use crate::error::{ErrorContent, ValidationError};
use crate::formatter::Formatter;
use crate::selection::Selection;
use crate::validation::{Validation, ValidationContent};

verus! {

/// An amount of money as a whole number of cents.
///
/// Holding the amount as cents keeps currency arithmetic exact; the
/// [`CurrencyFormatter`] renders it with a decimal point, two places when on
/// display and only the places that are needed while editing.
#[derive(Clone, Copy, Debug, PartialEq, Eq, Structural)]
pub struct Cents {
    /// The amount, in hundredths of the currency unit.
    pub cents: u64,
}

impl Cents {
    /// The amount holding `cents` hundredths of the currency unit.
    pub fn new(cents: u64) -> (r: Self)
        ensures
            r == (Cents { cents }),
    {
        Cents { cents }
    }
}

/// The text with a single leading dollar symbol removed, if one is there.
pub open spec fn strip_symbol(s: Seq<char>) -> Seq<char> {
    if s.len() > 0 && s[0] == '$' {
        s.subrange(1, s.len() as int)
    } else {
        s
    }
}

/// True when `b` splits at position `i` into a committable amount: a
/// nonempty run of digits, a decimal point at `i`, then one or two digits.
pub open spec fn valid_split(b: Seq<char>, i: int) -> bool {
    &&& 1 <= i < b.len()
    &&& b[i] == '.'
    &&& all_digits(b.subrange(0, i))
    &&& 1 <= b.len() - i - 1 <= 2
    &&& all_digits(b.subrange(i + 1, b.len() as int))
}

/// True when `b` (the text after the symbol) is a committable amount:
/// digits alone, or digits, a decimal point and one or two digits.
pub open spec fn valid_body(b: Seq<char>) -> bool {
    ||| b.len() >= 1 && all_digits(b)
    ||| exists|i: int| valid_split(b, i)
}

/// The cents that the one or two digits after the decimal point denote.
pub open spec fn frac_cents(f: Seq<char>) -> nat
    recommends
        1 <= f.len() <= 2,
        all_digits(f),
{
    if f.len() == 1 {
        dec_val(f) * 10
    } else {
        dec_val(f)
    }
}

/// The number of cents a committable amount denotes (unbounded).
pub open spec fn body_cents(b: Seq<char>) -> nat
    recommends
        valid_body(b),
{
    if b.len() >= 1 && all_digits(b) {
        dec_val(b) * 100
    } else {
        let i = choose|i: int| valid_split(b, i);
        dec_val(b.subrange(0, i)) * 100 + frac_cents(b.subrange(i + 1, b.len() as int))
    }
}

/// What committing currency text returns: the denoted cents where the text
/// is an optional dollar symbol and a committable amount that fits in a
/// `u64`, and the reason it is rejected otherwise.
pub open spec fn spec_parse_cents(s: Seq<char>) -> Result<Cents, ParseError> {
    let b = strip_symbol(s);
    if b.len() == 0 {
        Err(ParseError::Empty)
    } else if !valid_body(b) {
        Err(ParseError::InvalidDigit)
    } else if body_cents(b) > u64::MAX {
        Err(ParseError::Overflow)
    } else {
        Ok(Cents { cents: body_cents(b) as u64 })
    }
}

/// True when `b` (the text after the symbol) could still become a
/// committable amount: any run of digits, with at most one decimal point
/// followed by at most two digits. The empty text qualifies.
pub open spec fn partial_body(b: Seq<char>) -> bool {
    ||| all_digits(b)
    ||| exists|i: int| partial_split(b, i)
}

/// True when `b` splits at position `i` into digits, a decimal point, and
/// at most two further digits; either run of digits may be empty.
pub open spec fn partial_split(b: Seq<char>, i: int) -> bool {
    &&& 0 <= i < b.len()
    &&& b[i] == '.'
    &&& all_digits(b.subrange(0, i))
    &&& b.len() - i - 1 <= 2
    &&& all_digits(b.subrange(i + 1, b.len() as int))
}

/// True of text the currency formatter accepts as valid-in-progress.
pub open spec fn spec_accepts_partial(s: Seq<char>) -> bool {
    partial_body(strip_symbol(s))
}

/// The display text of an amount: a dollar symbol, the units, a decimal
/// point, and exactly two digits of cents.
pub open spec fn spec_format_cents(c: Cents) -> Seq<char> {
    let frac = c.cents as nat % 100;
    seq!['$'] + dec_rep(c.cents as nat / 100) + seq![
        '.',
        char_of_digit(frac / 10),
        char_of_digit(frac % 10),
    ]
}

/// The editing text of an amount: no symbol, and only the decimal places
/// that are needed — none for whole units, one when the cents end in zero.
pub open spec fn spec_edit_format_cents(c: Cents) -> Seq<char> {
    let frac = c.cents as nat % 100;
    dec_rep(c.cents as nat / 100) + (if frac == 0 {
        Seq::<char>::empty()
    } else if frac % 10 == 0 {
        seq!['.', char_of_digit(frac / 10)]
    } else {
        seq!['.', char_of_digit(frac / 10), char_of_digit(frac % 10)]
    })
}

/// A committable amount splits at only one position: each run of digits
/// around the decimal point holds no further point.
pub proof fn lemma_valid_split_unique(b: Seq<char>, i: int, j: int)
    requires
        valid_split(b, i),
        valid_split(b, j),
    ensures
        i == j,
{
    if i < j {
        assert(is_digit_char(b.subrange(i + 1, b.len() as int)[j - i - 1]));
        assert(b.subrange(i + 1, b.len() as int)[j - i - 1] == b[j]);
    }
    if j < i {
        assert(is_digit_char(b.subrange(j + 1, b.len() as int)[i - j - 1]));
        assert(b.subrange(j + 1, b.len() as int)[i - j - 1] == b[i]);
    }
}

/// The currency formatter itself. It is stateless: one instance serves
/// every edit event.
pub struct CurrencyFormatter;

/// Committing the display text of an amount returns that amount.
pub proof fn lemma_cents_round_trip(c: Cents)
    ensures
        spec_parse_cents(spec_format_cents(c)) == Ok::<Cents, ParseError>(c),
{
    let t = spec_format_cents(c);
    let units = c.cents as nat / 100;
    let frac = c.cents as nat % 100;
    decimal::lemma_dec_val_of_dec_rep(units);
    decimal::lemma_digit_val_of_char(frac / 10);
    decimal::lemma_digit_val_of_char(frac % 10);
    let rep = dec_rep(units);
    let fr = seq![char_of_digit(frac / 10), char_of_digit(frac % 10)];
    let body = rep + seq!['.'] + fr;
    assert(t =~= seq!['$'] + body);
    assert(t[0] == '$');
    let b = strip_symbol(t);
    assert(b =~= body);
    let i = rep.len() as int;
    assert(body[i] == '.');
    assert(body.subrange(0, i) =~= rep);
    assert(body.subrange(i + 1, body.len() as int) =~= fr);
    assert(valid_split(body, i));
    assert(!is_digit_char(body[i]));
    assert(!(body.len() >= 1 && all_digits(body)));
    let j = choose|j: int| valid_split(body, j);
    assert(valid_split(body, j));
    lemma_valid_split_unique(body, i, j);
    assert(fr.drop_last() =~= seq![char_of_digit(frac / 10)]);
    assert(fr.last() == char_of_digit(frac % 10));
    let tens = seq![char_of_digit(frac / 10)];
    assert(tens.drop_last() =~= Seq::<char>::empty());
    assert(dec_val(Seq::<char>::empty()) == 0);
    assert(tens.last() == char_of_digit(frac / 10));
    assert(dec_val(tens) == dec_val(tens.drop_last()) * 10 + digit_val(tens.last()));
    assert(dec_val(fr.drop_last()) == frac / 10);
    assert(dec_val(fr) == (frac / 10) * 10 + frac % 10);
    assert((frac / 10) * 10 + frac % 10 == frac);
    assert(frac_cents(fr) == frac);
    assert(body_cents(body) == units * 100 + frac);
    assert(units * 100 + frac == c.cents as nat);
}

/// Decide whether `s` is acceptable as in-progress currency text.
fn check_partial(s: &str) -> (r: bool)
    ensures
        r == spec_accepts_partial(s@),
{
    let len = s.unicode_len();
    let start: usize = if len > 0 && s.get_char(0) == '$' {
        1
    } else {
        0
    };
    let ghost b = strip_symbol(s@);
    proof {
        assert(b =~= s@.subrange(start as int, len as int));
    }
    let mut i: usize = start;
    let mut dot_idx: Option<usize> = None;
    while i < len
        invariant
            len == s@.len(),
            b =~= s@.subrange(start as int, len as int),
            b == strip_symbol(s@),
            start <= i <= len,
            start <= 1,
            match dot_idx {
                None => forall|j: int| start <= j < i ==> is_digit_char(#[trigger] s@[j]),
                Some(d) => {
                    &&& start <= d < i
                    &&& s@[d as int] == '.'
                    &&& i - d - 1 <= 2
                    &&& forall|j: int| start <= j < d ==> is_digit_char(#[trigger] s@[j])
                    &&& forall|j: int| d < j < i ==> is_digit_char(#[trigger] s@[j])
                },
            },
        decreases len - i,
    {
        let c = s.get_char(i);
        if c == '.' {
            match dot_idx {
                Some(d) => {
                    proof {
                        let di = d - start;
                        assert(b[di] == '.');
                        assert(b[i - start] == '.');
                        assert(!is_digit_char(b[di]));
                        assert forall|k: int| !partial_split(b, k) by {
                            if partial_split(b, k) {
                                if k < di {
                                    assert(is_digit_char(s@[k + start]));
                                } else if k == di {
                                    assert(is_digit_char(
                                        b.subrange(k + 1, b.len() as int)[i - start - k - 1],
                                    ));
                                } else {
                                    assert(is_digit_char(b.subrange(0, k)[di]));
                                }
                            }
                        }
                    }
                    return false;
                },
                None => {
                    dot_idx = Some(i);
                },
            }
        } else if '0' <= c && c <= '9' {
            match dot_idx {
                Some(d) => {
                    if i - d >= 3 {
                        proof {
                            let di = d - start;
                            assert(b[di] == '.');
                            assert(!is_digit_char(b[di]));
                            assert(b.len() > i - start);
                            assert forall|k: int| !partial_split(b, k) by {
                                if partial_split(b, k) {
                                    if k < di {
                                        assert(is_digit_char(s@[k + start]));
                                    } else if k == di {
                                        assert(b.len() - k - 1 >= i - d);
                                    } else {
                                        assert(is_digit_char(b.subrange(0, k)[di]));
                                    }
                                }
                            }
                        }
                        return false;
                    }
                },
                None => {},
            }
        } else {
            proof {
                let p = i - start;
                assert(b[p] == s@[i as int]);
                assert(!is_digit_char(b[p]));
                assert(b[p] != '.');
                assert forall|k: int| !partial_split(b, k) by {
                    if partial_split(b, k) {
                        if k < p {
                            assert(is_digit_char(b.subrange(k + 1, b.len() as int)[p - k - 1]));
                        } else if k == p {
                            assert(b[k] == '.');
                        } else {
                            assert(is_digit_char(b.subrange(0, k)[p]));
                        }
                    }
                }
            }
            return false;
        }
        i += 1;
    }
    proof {
        match dot_idx {
            None => {
                assert forall|k: int| 0 <= k < b.len() implies is_digit_char(#[trigger] b[k]) by {
                    assert(b[k] == s@[k + start]);
                }
                assert(all_digits(b));
            },
            Some(d) => {
                let di = d - start;
                assert(b[di] == '.');
                assert forall|k: int| 0 <= k < di implies is_digit_char(
                    #[trigger] b.subrange(0, di)[k],
                ) by {
                    assert(b.subrange(0, di)[k] == s@[k + start]);
                }
                assert forall|k: int| 0 <= k < b.len() - di - 1 implies is_digit_char(
                    #[trigger] b.subrange(di + 1, b.len() as int)[k],
                ) by {
                    assert(b.subrange(di + 1, b.len() as int)[k] == s@[k + d + 1]);
                }
                assert(partial_split(b, di));
            },
        }
    }
    true
}

/// Read committed currency text back as an amount of cents.
///
/// The text may open with one dollar symbol; the rest must be digits, with
/// an optional decimal point followed by one or two digits. Anything else
/// is rejected: empty text (or a bare symbol) as [`ParseError::Empty`], a
/// malformed shape as [`ParseError::InvalidDigit`], and an amount over
/// `u64::MAX` cents as [`ParseError::Overflow`].
#[verifier::rlimit(60)]
pub fn parse_cents(s: &str) -> (r: Result<Cents, ParseError>)
    ensures
        r == spec_parse_cents(s@),
{
    let len = s.unicode_len();
    let start: usize = if len > 0 && s.get_char(0) == '$' {
        1
    } else {
        0
    };
    let ghost b = strip_symbol(s@);
    proof {
        assert(b =~= s@.subrange(start as int, len as int));
    }
    if start == len {
        return Err(ParseError::Empty);
    }
    let mut i: usize = start;
    let mut dot_idx: Option<usize> = None;
    while i < len
        invariant
            len == s@.len(),
            b =~= s@.subrange(start as int, len as int),
            start <= 1,
            start <= i <= len,
            start < len,
            match dot_idx {
                None => forall|j: int| start <= j < i ==> s@[j] != '.',
                Some(d) => {
                    &&& start <= d < len
                    &&& s@[d as int] == '.'
                    &&& forall|j: int| start <= j < d ==> s@[j] != '.'
                },
            },
        decreases len - i,
    {
        let c = s.get_char(i);
        if c == '.' && dot_idx.is_none() {
            dot_idx = Some(i);
        }
        i += 1;
    }
    match dot_idx {
        None => {
            let body = s.substring_char(start, len);
            proof {
                assert(body@ =~= b);
                assert forall|k: int| !valid_split(b, k) by {
                    if valid_split(b, k) {
                        assert(b[k] == s@[k + start]);
                    }
                }
            }
            match decimal::parse_u64(body) {
                Ok(units) => {
                    match units.checked_mul(100) {
                        Some(c) => Ok(Cents { cents: c }),
                        None => Err(ParseError::Overflow),
                    }
                },
                Err(e) => {
                    proof {
                        if e == ParseError::Overflow {
                            assert(dec_val(b) * 100 >= dec_val(b));
                        }
                    }
                    Err(e)
                },
            }
        },
        Some(d) => {
            let ghost di = d - start;
            proof {
                assert(b[di] == '.');
                assert(!is_digit_char(b[di]));
                assert(!all_digits(b));
            }
            if d == start {
                proof {
                    assert forall|k: int| !valid_split(b, k) by {
                        if valid_split(b, k) {
                            assert(is_digit_char(b.subrange(0, k)[0]));
                        }
                    }
                }
                return Err(ParseError::InvalidDigit);
            }
            let fl = len - d - 1;
            if fl == 0 || fl > 2 {
                proof {
                    assert forall|k: int| !valid_split(b, k) by {
                        if valid_split(b, k) {
                            if k < di {
                                assert(b[k] == s@[k + start]);
                            } else if k > di {
                                assert(is_digit_char(b.subrange(0, k)[di]));
                            }
                        }
                    }
                }
                return Err(ParseError::InvalidDigit);
            }
            let intpart = s.substring_char(start, d);
            let fracpart = s.substring_char(d + 1, len);
            proof {
                assert(intpart@ =~= b.subrange(0, di));
                assert(fracpart@ =~= b.subrange(di + 1, b.len() as int));
            }
            let frac_units = match decimal::parse_u64(fracpart) {
                Ok(f) => f,
                Err(e) => {
                    proof {
                        if e == ParseError::Overflow {
                            decimal::lemma_dec_val_two_digits(fracpart@);
                        }
                        assert(e == ParseError::InvalidDigit);
                        assert forall|k: int| !valid_split(b, k) by {
                            if valid_split(b, k) {
                                if k < di {
                                    assert(b[k] == s@[k + start]);
                                } else if k > di {
                                    assert(is_digit_char(b.subrange(0, k)[di]));
                                }
                            }
                        }
                    }
                    return Err(ParseError::InvalidDigit);
                },
            };
            proof {
                decimal::lemma_dec_val_two_digits(fracpart@);
            }
            let fc: u64 = if fl == 1 {
                frac_units * 10
            } else {
                frac_units
            };
            proof {
                assert(fc as nat == frac_cents(b.subrange(di + 1, b.len() as int)));
            }
            match decimal::parse_u64(intpart) {
                Ok(units) => {
                    proof {
                        assert(valid_split(b, di));
                        let j = choose|j: int| valid_split(b, j);
                        assert(valid_split(b, j));
                        lemma_valid_split_unique(b, di, j);
                        assert(body_cents(b) == units as nat * 100 + fc as nat);
                    }
                    match units.checked_mul(100) {
                        Some(u100) => match u100.checked_add(fc) {
                            Some(c) => Ok(Cents { cents: c }),
                            None => Err(ParseError::Overflow),
                        },
                        None => Err(ParseError::Overflow),
                    }
                },
                Err(e) => {
                    if e == ParseError::Overflow {
                        proof {
                            assert(valid_split(b, di));
                            let j = choose|j: int| valid_split(b, j);
                            assert(valid_split(b, j));
                            lemma_valid_split_unique(b, di, j);
                            let units_val = dec_val(b.subrange(0, di));
                            assert(units_val * 100 >= units_val);
                            assert(body_cents(b) > u64::MAX);
                        }
                        Err(ParseError::Overflow)
                    } else {
                        proof {
                            assert(e == ParseError::InvalidDigit);
                            assert forall|k: int| !valid_split(b, k) by {
                                if valid_split(b, k) {
                                    if k < di {
                                        assert(b[k] == s@[k + start]);
                                    } else if k > di {
                                        assert(is_digit_char(b.subrange(0, k)[di]));
                                    }
                                }
                            }
                        }
                        Err(ParseError::InvalidDigit)
                    }
                },
            }
        },
    }
}

impl Formatter<Cents> for CurrencyFormatter {
    open spec fn spec_format(&self, value: Cents) -> Seq<char> {
        spec_format_cents(value)
    }

    open spec fn spec_format_for_editing(&self, value: Cents) -> Seq<char> {
        spec_edit_format_cents(value)
    }

    open spec fn accepts_partial(&self, input: Seq<char>) -> bool {
        spec_accepts_partial(input)
    }

    open spec fn spec_validate(&self, input: Seq<char>, sel: Selection) -> ValidationContent {
        ValidationContent {
            result: if spec_accepts_partial(input) {
                Ok(())
            } else {
                Err(ErrorContent::Wrapped(ParseError::InvalidDigit))
            },
            selection_change: None,
            text_change: None,
        }
    }

    open spec fn spec_value(&self, input: Seq<char>) -> Result<Cents, ErrorContent> {
        match spec_parse_cents(input) {
            Ok(c) => Ok(c),
            Err(e) => Err(ErrorContent::Wrapped(e)),
        }
    }

    fn format(&self, value: &Cents) -> String {
        let units = value.cents / 100;
        let frac = value.cents % 100;
        let mut r = "$".to_owned();
        let units_text = decimal::format_u64(units);
        r.append(units_text.as_str());
        r.append(".");
        r.append(decimal::digit_str(frac / 10));
        r.append(decimal::digit_str(frac % 10));
        proof {
            reveal_strlit("$");
            reveal_strlit(".");
            assert(r@ =~= spec_format_cents(*value));
        }
        r
    }

    fn format_for_editing(&self, value: &Cents) -> String {
        let units = value.cents / 100;
        let frac = value.cents % 100;
        let mut r = decimal::format_u64(units);
        if frac == 0 {
            proof {
                assert(r@ =~= spec_edit_format_cents(*value));
            }
        } else if frac % 10 == 0 {
            r.append(".");
            r.append(decimal::digit_str(frac / 10));
            proof {
                reveal_strlit(".");
                assert(r@ =~= spec_edit_format_cents(*value));
            }
        } else {
            r.append(".");
            r.append(decimal::digit_str(frac / 10));
            r.append(decimal::digit_str(frac % 10));
            proof {
                reveal_strlit(".");
                assert(r@ =~= spec_edit_format_cents(*value));
            }
        }
        r
    }

    fn validate_partial_input(&self, input: &str, _sel: &Selection) -> Validation {
        if check_partial(input) {
            Validation::success()
        } else {
            Validation::failure_with_err(ParseError::InvalidDigit)
        }
    }

    fn value(&self, input: &str) -> Result<Cents, ValidationError> {
        match parse_cents(input) {
            Ok(c) => Ok(c),
            Err(e) => Err(ValidationError::from_err(e)),
        }
    }

    proof fn lemma_round_trip(&self, value: Cents) {
        lemma_cents_round_trip(value);
    }
}

} // verus!

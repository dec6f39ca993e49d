//! The optional-numeral decoder. A numeral is an optional sign followed by
//! decimal digits with at most one decimal point and at least one digit. A
//! decoded numeral keeps its digits exactly, so its value is the exact
//! rational the text denotes.

use vstd::prelude::*;
use crate::digits::{
    all_digits, digit_values, digits_below_ten, digits_value, is_digit_char, pow10,
    lemma_digit_values_below_ten, collect_digits,
};
use crate::scan::find_char;
use crate::scan::find_from;
use crate::errors::{ErrorView, FieldName, ParseError, ParseErrorKind};

verus! {

/// The text starts with a minus sign.
pub open spec fn sign_is_negative(s: Seq<char>) -> bool {
    s.len() > 0 && s[0] == '-'
}

/// The text starts with an explicit sign.
pub open spec fn has_sign(s: Seq<char>) -> bool {
    s.len() > 0 && (s[0] == '-' || s[0] == '+')
}

/// The text with any leading sign removed.
pub open spec fn unsigned_part(s: Seq<char>) -> Seq<char> {
    if has_sign(s) {
        s.subrange(1, s.len() as int)
    } else {
        s
    }
}

/// The digits before the decimal point of an unsigned numeral body.
pub open spec fn int_part(u: Seq<char>) -> Seq<char> {
    u.subrange(0, find_char(u, '.') as int)
}

/// The digits after the decimal point; empty when there is no point.
pub open spec fn frac_part(u: Seq<char>) -> Seq<char> {
    if find_char(u, '.') < u.len() {
        u.subrange(find_char(u, '.') as int + 1, u.len() as int)
    } else {
        Seq::empty()
    }
}

/// An unsigned numeral body: digits around at most one decimal point, at
/// least one digit in all.
pub open spec fn is_unsigned_numeral(u: Seq<char>) -> bool {
    &&& all_digits(int_part(u))
    &&& all_digits(frac_part(u))
    &&& int_part(u).len() + frac_part(u).len() > 0
}

/// A numeral: an optional sign, then an unsigned numeral body.
pub open spec fn is_numeral(s: Seq<char>) -> bool {
    is_unsigned_numeral(unsigned_part(s))
}

/// Ghost image of a decoded numeral.
pub ghost struct DecimalView {
    pub negative: bool,
    pub int_digits: Seq<u8>,
    pub frac_digits: Seq<u8>,
}

impl DecimalView {
    /// Digits are digits and at least one is there.
    pub open spec fn wf(self) -> bool {
        &&& digits_below_ten(self.int_digits)
        &&& digits_below_ten(self.frac_digits)
        &&& self.int_digits.len() + self.frac_digits.len() > 0
    }

    /// Denominator of the denoted rational: a power of ten.
    pub open spec fn denom(self) -> int {
        pow10(self.frac_digits.len())
    }

    /// Numerator of the denoted rational; the value is `numer / denom`.
    pub open spec fn numer(self) -> int {
        let magnitude = digits_value(self.int_digits) * pow10(self.frac_digits.len())
            + digits_value(self.frac_digits);
        if self.negative {
            -magnitude
        } else {
            magnitude
        }
    }

    /// The same digits under the opposite sign.
    pub open spec fn negated(self) -> DecimalView {
        DecimalView { negative: !self.negative, ..self }
    }
}

/// The decoded image of a valid numeral text.
pub open spec fn spec_numeral(s: Seq<char>) -> DecimalView {
    let u = unsigned_part(s);
    DecimalView {
        negative: sign_is_negative(s),
        int_digits: digit_values(int_part(u)),
        frac_digits: digit_values(frac_part(u)),
    }
}

/// A decoded numeral: sign and the exact digits before and after the
/// decimal point. The value denoted is
/// `(-1)^negative * (int_digits ++ frac_digits) / 10^|frac_digits|`.
#[derive(Clone, Debug, PartialEq, Eq)]
pub struct DecimalNumber {
    pub negative: bool,
    pub int_digits: Vec<u8>,
    pub frac_digits: Vec<u8>,
}

impl View for DecimalNumber {
    type V = DecimalView;

    open spec fn view(&self) -> DecimalView {
        DecimalView {
            negative: self.negative,
            int_digits: self.int_digits@,
            frac_digits: self.frac_digits@,
        }
    }
}

/// Decode one non-empty field as a numeral; `None` exactly when the text is
/// no numeral.
pub fn parse_numeral(field: &str) -> (r: Option<DecimalNumber>)
    ensures
        r is Some <==> is_numeral(field@),
        r matches Some(d) ==> d@ == spec_numeral(field@) && d@.wf(),
{
    let n = field.unicode_len();
    let mut idx: usize = 0;
    let mut negative = false;
    if n > 0 {
        let c0 = field.get_char(0);
        if c0 == '-' {
            negative = true;
            idx = 1;
        } else if c0 == '+' {
            idx = 1;
        }
    }
    let ghost u = unsigned_part(field@);
    proof {
        assert(u =~= field@.subrange(idx as int, n as int));
        assert(negative == sign_is_negative(field@));
    }
    let dot = find_from(field, idx, '.');
    proof {
        assert(find_char(u, '.') == dot - idx);
        assert(int_part(u) =~= field@.subrange(idx as int, dot as int));
        if dot < n {
            assert(frac_part(u) =~= field@.subrange(dot as int + 1, n as int));
        }
    }
    let int_digits = match collect_digits(field, idx, dot) {
        Some(v) => v,
        None => {
            return None;
        },
    };
    let frac_digits = if dot < n {
        match collect_digits(field, dot + 1, n) {
            Some(v) => v,
            None => {
                return None;
            },
        }
    } else {
        Vec::new()
    };
    if int_digits.len() == 0 && frac_digits.len() == 0 {
        proof {
            assert(frac_part(u) =~= Seq::<char>::empty());
        }
        return None;
    }
    proof {
        lemma_digit_values_below_ten(int_part(u));
        lemma_digit_values_below_ten(frac_part(u));
        if dot >= n {
            assert(frac_part(u) =~= Seq::<char>::empty());
            assert(frac_digits@ =~= digit_values(frac_part(u)));
        }
    }
    Some(DecimalNumber { negative, int_digits, frac_digits })
}

/// Decode the field at `index` as an optional numeral: an absent or empty
/// field is `None`; a present text that is no numeral fails as a malformed
/// numeral naming `field`; a numeral is decoded exactly.
pub fn decode_numeral_field(fields: &Vec<String>, index: usize, field: FieldName) -> (r: Result<
    Option<DecimalNumber>,
    ParseError,
>)
    ensures
        ({
            let f = crate::tokenize::field_view(fields@, index as int);
            match r {
                Ok(None) => f.len() == 0,
                Ok(Some(d)) => f.len() > 0 && is_numeral(f) && d@ == spec_numeral(f) && d@.wf(),
                Err(e) => f.len() > 0 && !is_numeral(f) && e@ == (ErrorView {
                    kind: ParseErrorKind::MalformedNumeral,
                    field,
                    value: f,
                }),
            }
        }),
{
    let f: &str = if index < fields.len() {
        fields[index].as_str()
    } else {
        proof {
            reveal_strlit("");
            assert(""@ =~= Seq::<char>::empty());
        }
        ""
    };
    if f.unicode_len() == 0 {
        return Ok(None);
    }
    match parse_numeral(f) {
        Some(d) => Ok(Some(d)),
        None => Err(ParseError::new(ParseErrorKind::MalformedNumeral, field, f)),
    }
}

} // verus!

//! The sexagesimal coordinate decoder. A coordinate field holds degrees and
//! minutes run together (`DDDMM.MMMM`): the last two digits before the
//! decimal point are whole minutes, everything before them whole degrees.
//! The hemisphere letter gives the sign. The decoded value in decimal
//! degrees is `degrees + minutes / 60`, negated for the southern or western
//! hemisphere.

use vstd::prelude::*;
use crate::digits::{
    all_digits, digit_values, digits_below_ten, digits_value, pow10,
    lemma_digit_values_below_ten, collect_digits,
};
use crate::numeral::{int_part, frac_part};
use crate::scan::{find_char, find_from};
use crate::errors::{ErrorView, FieldName, ParseError, ParseErrorKind};

verus! {

/// The hemisphere letter is one of the two letters of its axis.
pub open spec fn hemisphere_valid(h: Seq<char>, pos: char, neg: char) -> bool {
    h == seq![pos] || h == seq![neg]
}

/// The hemisphere letter is the negative one of its axis.
pub open spec fn hemisphere_negative(h: Seq<char>, neg: char) -> bool {
    h == seq![neg]
}

/// A coordinate numeral: digits around at most one decimal point, at least
/// two of them before it.
pub open spec fn is_coordinate_numeral(u: Seq<char>) -> bool {
    &&& all_digits(int_part(u))
    &&& all_digits(frac_part(u))
    &&& int_part(u).len() >= 2
}

/// A present coordinate fails exactly when its hemisphere letter is not one
/// of its axis' two letters, or its numeral is malformed.
pub open spec fn coordinate_fails(num: Seq<char>, h: Seq<char>, pos: char, neg: char) -> bool {
    num.len() > 0 && (!hemisphere_valid(h, pos, neg) || !is_coordinate_numeral(num))
}

/// Ghost image of a decoded coordinate.
pub ghost struct CoordView {
    pub negative: bool,
    pub deg_digits: Seq<u8>,
    pub min_digits: Seq<u8>,
    pub min_frac_digits: Seq<u8>,
}

impl CoordView {
    /// Digits are digits, and whole minutes have exactly two.
    pub open spec fn wf(self) -> bool {
        &&& digits_below_ten(self.deg_digits)
        &&& digits_below_ten(self.min_digits)
        &&& digits_below_ten(self.min_frac_digits)
        &&& self.min_digits.len() == 2
    }

    /// Denominator of the value in decimal degrees.
    pub open spec fn denom(self) -> int {
        60 * pow10(self.min_frac_digits.len())
    }

    /// Numerator of the value in decimal degrees: the value is
    /// `numer / denom == degrees + minutes / 60`, negated for the
    /// negative hemisphere.
    pub open spec fn numer(self) -> int {
        let magnitude = digits_value(self.deg_digits) * 60 * pow10(self.min_frac_digits.len())
            + digits_value(self.min_digits) * pow10(self.min_frac_digits.len())
            + digits_value(self.min_frac_digits);
        if self.negative {
            -magnitude
        } else {
            magnitude
        }
    }
}

/// The decoded image of a valid coordinate numeral under a given sign.
pub open spec fn spec_coordinate(num: Seq<char>, negative: bool) -> CoordView {
    let ip = int_part(num);
    CoordView {
        negative,
        deg_digits: digit_values(ip.subrange(0, ip.len() - 2)),
        min_digits: digit_values(ip.subrange(ip.len() - 2, ip.len() as int)),
        min_frac_digits: digit_values(frac_part(num)),
    }
}

/// A decoded coordinate: sign, whole-degree digits, and the minutes' digits
/// before and after their decimal point. The value in decimal degrees is
/// `(-1)^negative * (degrees + minutes / 60)`.
#[derive(Clone, Debug, PartialEq, Eq)]
pub struct Coordinate {
    pub negative: bool,
    pub deg_digits: Vec<u8>,
    pub min_digits: Vec<u8>,
    pub min_frac_digits: Vec<u8>,
}

impl View for Coordinate {
    type V = CoordView;

    open spec fn view(&self) -> CoordView {
        CoordView {
            negative: self.negative,
            deg_digits: self.deg_digits@,
            min_digits: self.min_digits@,
            min_frac_digits: self.min_frac_digits@,
        }
    }
}

/// Decode one axis' coordinate from its numeral and hemisphere fields.
/// An empty numeral is an absent coordinate. A present numeral with a
/// hemisphere letter outside the axis' two letters fails as an invalid
/// enumeration; a present numeral that is no coordinate numeral fails as
/// malformed.
pub fn decode_coordinate(
    num: &str,
    hemi: &str,
    pos: char,
    neg: char,
    num_field: FieldName,
    hemi_field: FieldName,
) -> (r: Result<Option<Coordinate>, ParseError>)
    ensures
        match r {
            Ok(None) => num@.len() == 0,
            Ok(Some(c)) => num@.len() > 0 && hemisphere_valid(hemi@, pos, neg)
                && is_coordinate_numeral(num@) && c@ == spec_coordinate(
                num@,
                hemisphere_negative(hemi@, neg),
            ) && c@.wf(),
            Err(e) => num@.len() > 0 && !(hemisphere_valid(hemi@, pos, neg)
                && is_coordinate_numeral(num@)) && e@ == (if !hemisphere_valid(hemi@, pos, neg) {
                ErrorView {
                    kind: ParseErrorKind::InvalidEnumeration,
                    field: hemi_field,
                    value: hemi@,
                }
            } else {
                ErrorView { kind: ParseErrorKind::MalformedNumeral, field: num_field, value: num@ }
            }),
        },
{
    let n = num.unicode_len();
    if n == 0 {
        return Ok(None);
    }
    let hn = hemi.unicode_len();
    let mut negative = false;
    let mut valid = false;
    if hn == 1 {
        let hc = hemi.get_char(0);
        if hc == neg {
            negative = true;
            valid = true;
        } else if hc == pos {
            valid = true;
        }
        proof {
            assert(hemi@ == seq![pos] ==> hemi@[0] == pos);
            assert(hemi@ == seq![neg] ==> hemi@[0] == neg);
            if hc == pos || hc == neg {
                if hc == neg {
                    assert(hemi@ =~= seq![neg]);
                } else {
                    assert(hemi@ =~= seq![pos]);
                }
            }
        }
    } else {
        proof {
            assert(hemi@ == seq![pos] ==> hemi@.len() == 1);
            assert(hemi@ == seq![neg] ==> hemi@.len() == 1);
        }
    }
    if !valid {
        return Err(ParseError::new(ParseErrorKind::InvalidEnumeration, hemi_field, hemi));
    }
    let dot = find_from(num, 0, '.');
    proof {
        assert(num@.subrange(0, n as int) =~= num@);
        assert(find_char(num@, '.') == dot);
        assert(int_part(num@) =~= num@.subrange(0, dot as int));
        if dot < n {
            assert(frac_part(num@) =~= num@.subrange(dot as int + 1, n as int));
        } else {
            assert(frac_part(num@) =~= Seq::<char>::empty());
        }
    }
    if dot < 2 {
        return Err(ParseError::new(ParseErrorKind::MalformedNumeral, num_field, num));
    }
    let int_digits = match collect_digits(num, 0, dot) {
        Some(v) => v,
        None => {
            return Err(ParseError::new(ParseErrorKind::MalformedNumeral, num_field, num));
        },
    };
    let min_frac_digits = if dot < n {
        match collect_digits(num, dot + 1, n) {
            Some(v) => v,
            None => {
                return Err(ParseError::new(ParseErrorKind::MalformedNumeral, num_field, num));
            },
        }
    } else {
        Vec::new()
    };
    let mut deg_digits: Vec<u8> = Vec::new();
    let mut k: usize = 0;
    proof {
        assert(deg_digits@ =~= int_digits@.subrange(0, 0));
    }
    while k < int_digits.len() - 2
        invariant
            int_digits@.len() >= 2,
            k <= int_digits@.len() - 2,
            deg_digits@ == int_digits@.subrange(0, k as int),
        decreases int_digits@.len() - 2 - k,
    {
        deg_digits.push(int_digits[k]);
        proof {
            assert(int_digits@.subrange(0, k as int + 1) =~= int_digits@.subrange(
                0,
                k as int,
            ).push(int_digits@[k as int]));
        }
        k += 1;
    }
    let mut min_digits: Vec<u8> = Vec::new();
    min_digits.push(int_digits[int_digits.len() - 2]);
    min_digits.push(int_digits[int_digits.len() - 1]);
    proof {
        let ip = int_part(num@);
        lemma_digit_values_below_ten(ip);
        lemma_digit_values_below_ten(frac_part(num@));
        assert(min_digits@ =~= int_digits@.subrange(
            int_digits@.len() - 2,
            int_digits@.len() as int,
        ));
        assert(deg_digits@ =~= digit_values(ip.subrange(0, ip.len() - 2)));
        assert(min_digits@ =~= digit_values(ip.subrange(ip.len() - 2, ip.len() as int)));
        if dot >= n {
            assert(min_frac_digits@ =~= digit_values(frac_part(num@)));
        }
    }
    Ok(Some(Coordinate { negative, deg_digits, min_digits, min_frac_digits }))
}

/// Decode a latitude: hemisphere letters `N` (north, positive) and `S`
/// (south, negative).
pub fn parse_latitude_ddmm_mmm(num: &str, hemi: &str) -> (r: Result<Option<Coordinate>, ParseError>)
    ensures
        match r {
            Ok(None) => num@.len() == 0,
            Ok(Some(c)) => num@.len() > 0 && hemisphere_valid(hemi@, 'N', 'S')
                && is_coordinate_numeral(num@) && c@ == spec_coordinate(
                num@,
                hemisphere_negative(hemi@, 'S'),
            ) && c@.wf(),
            Err(e) => coordinate_fails(num@, hemi@, 'N', 'S') && e@ == (if !hemisphere_valid(
                hemi@,
                'N',
                'S',
            ) {
                ErrorView {
                    kind: ParseErrorKind::InvalidEnumeration,
                    field: FieldName::LatitudeHemisphere,
                    value: hemi@,
                }
            } else {
                ErrorView {
                    kind: ParseErrorKind::MalformedNumeral,
                    field: FieldName::Latitude,
                    value: num@,
                }
            }),
        },
{
    decode_coordinate(num, hemi, 'N', 'S', FieldName::Latitude, FieldName::LatitudeHemisphere)
}

/// Decode a longitude: hemisphere letters `E` (east, positive) and `W`
/// (west, negative).
pub fn parse_longitude_dddmm_mmm(num: &str, hemi: &str) -> (r: Result<
    Option<Coordinate>,
    ParseError,
>)
    ensures
        match r {
            Ok(None) => num@.len() == 0,
            Ok(Some(c)) => num@.len() > 0 && hemisphere_valid(hemi@, 'E', 'W')
                && is_coordinate_numeral(num@) && c@ == spec_coordinate(
                num@,
                hemisphere_negative(hemi@, 'W'),
            ) && c@.wf(),
            Err(e) => coordinate_fails(num@, hemi@, 'E', 'W') && e@ == (if !hemisphere_valid(
                hemi@,
                'E',
                'W',
            ) {
                ErrorView {
                    kind: ParseErrorKind::InvalidEnumeration,
                    field: FieldName::LongitudeHemisphere,
                    value: hemi@,
                }
            } else {
                ErrorView {
                    kind: ParseErrorKind::MalformedNumeral,
                    field: FieldName::Longitude,
                    value: num@,
                }
            }),
        },
{
    decode_coordinate(num, hemi, 'E', 'W', FieldName::Longitude, FieldName::LongitudeHemisphere)
}

} // verus!

//! Decimal digits: character classification and the integers that digit
//! strings denote. These are the arithmetic leaves shared by the numeral,
//! coordinate and date-time decoders.

use vstd::prelude::*;

verus! {

/// A decimal digit as a character: `'0'` through `'9'`.
pub open spec fn is_digit_char(c: char) -> bool {
    48 <= c as int && c as int <= 57
}

/// Numeric value of a digit character.
pub open spec fn digit_of_char(c: char) -> int {
    c as int - 48
}

/// Every character of the sequence is a decimal digit.
pub open spec fn all_digits(s: Seq<char>) -> bool {
    forall|i: int| 0 <= i < s.len() ==> is_digit_char(#[trigger] s[i])
}

/// The digit values of a digit-character sequence.
pub open spec fn digit_values(s: Seq<char>) -> Seq<u8> {
    s.map_values(|c: char| (c as int - 48) as u8)
}

/// Every entry is below ten.
pub open spec fn digits_below_ten(ds: Seq<u8>) -> bool {
    forall|i: int| 0 <= i < ds.len() ==> #[trigger] ds[i] < 10
}

/// The integer denoted by a big-endian sequence of digit values.
pub open spec fn digits_value(ds: Seq<u8>) -> int
    decreases ds.len(),
{
    if ds.len() == 0 {
        0
    } else {
        digits_value(ds.drop_last()) * 10 + ds.last()
    }
}

/// Ten to the given power.
pub open spec fn pow10(n: nat) -> int
    decreases n,
{
    if n == 0 {
        1
    } else {
        10 * pow10((n - 1) as nat)
    }
}

/// Digit characters carry digit values.
pub proof fn lemma_digit_values_below_ten(s: Seq<char>)
    requires
        all_digits(s),
    ensures
        digits_below_ten(digit_values(s)),
{
    assert forall|i: int| 0 <= i < digit_values(s).len() implies #[trigger] digit_values(s)[i]
        < 10 by {
        assert(is_digit_char(s[i]));
    }
}

/// Classify one character as a decimal digit.
pub fn is_digit(c: char) -> (b: bool)
    ensures
        b == is_digit_char(c),
{
    let u: u32 = c as u32;
    48 <= u && u <= 57
}

/// The numeric value of a digit character.
pub fn char_digit(c: char) -> (d: u8)
    requires
        is_digit_char(c),
    ensures
        d == digit_of_char(c),
        d < 10,
{
    (c as u8) - 48
}

/// Read the characters of `s` between positions `a` and `b` as digit values;
/// `None` exactly when one of them is no digit.
pub fn collect_digits(s: &str, a: usize, b: usize) -> (r: Option<Vec<u8>>)
    requires
        a <= b <= s@.len(),
    ensures
        r is Some <==> all_digits(s@.subrange(a as int, b as int)),
        r matches Some(v) ==> v@ == digit_values(s@.subrange(a as int, b as int)),
{
    let mut v: Vec<u8> = Vec::new();
    let mut i: usize = a;
    proof {
        assert(s@.subrange(a as int, a as int) =~= Seq::<char>::empty());
        assert(v@ =~= digit_values(s@.subrange(a as int, a as int)));
    }
    while i < b
        invariant
            a <= i <= b <= s@.len(),
            all_digits(s@.subrange(a as int, i as int)),
            v@ == digit_values(s@.subrange(a as int, i as int)),
        decreases b - i,
    {
        let c = s.get_char(i);
        if !is_digit(c) {
            proof {
                assert(s@.subrange(a as int, b as int)[i as int - a as int] == s@[i as int]);
            }
            return None;
        }
        let d = char_digit(c);
        v.push(d);
        proof {
            let pre = s@.subrange(a as int, i as int);
            let ext = s@.subrange(a as int, i as int + 1);
            assert(ext =~= pre.push(s@[i as int]));
            assert forall|j: int| 0 <= j < ext.len() implies is_digit_char(#[trigger] ext[j]) by {
                if j < i as int - a as int {
                    assert(pre[j] == ext[j]);
                }
            }
            assert(digit_values(ext) =~= digit_values(pre).push((s@[i as int] as int - 48) as u8));
            assert((s@[i as int] as int - 48) as u8 == d);
        }
        i += 1;
    }
    proof {
        assert(s@.subrange(a as int, b as int) =~= s@.subrange(a as int, i as int));
    }
    Some(v)
}

} // verus!

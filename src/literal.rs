use vstd::prelude::*;

use crate::error::CalcError;
use crate::math::Math;
use crate::text::{chars_of, copy_range, is_white_space, string_of, trim, trim_chars};

verus! {

pub open spec fn is_dec_digit(c: char) -> bool {
    '0' <= c <= '9'
}

pub open spec fn is_hex_digit(c: char) -> bool {
    is_dec_digit(c) || ('a' <= c <= 'f') || ('A' <= c <= 'F')
}

/// Whether `c` is a digit of base 16 (when `is_hex`) or of base 10.
pub open spec fn is_digit_of(c: char, is_hex: bool) -> bool {
    if is_hex {
        is_hex_digit(c)
    } else {
        is_dec_digit(c)
    }
}

/// The value of a decimal or hexadecimal digit.
pub open spec fn digit_value(c: char) -> nat {
    if is_dec_digit(c) {
        (c as int - '0' as int) as nat
    } else if 'a' <= c <= 'f' {
        (c as int - 'a' as int + 10) as nat
    } else {
        (c as int - 'A' as int + 10) as nat
    }
}

pub open spec fn all_digits_of(s: Seq<char>, is_hex: bool) -> bool {
    forall|i: int| 0 <= i < s.len() ==> is_digit_of(#[trigger] s[i], is_hex)
}

pub open spec fn radix_of(is_hex: bool) -> nat {
    if is_hex {
        16
    } else {
        10
    }
}

/// The number that the digits `s` write in base `radix`, most significant first.
pub open spec fn value_in_radix(s: Seq<char>, radix: nat) -> nat
    decreases s.len(),
{
    if s.len() == 0 {
        0
    } else {
        value_in_radix(s.drop_last(), radix) * radix + digit_value(s.last())
    }
}

/// Whether `s` is a non-empty run of digits whose value fits in a `usize`.
pub open spec fn is_number(s: Seq<char>, is_hex: bool) -> bool {
    &&& s.len() > 0
    &&& all_digits_of(s, is_hex)
    &&& value_in_radix(s, radix_of(is_hex)) <= usize::MAX
}

/// What reading the digits `s` in the given base gives.
pub open spec fn number_of(s: Seq<char>, is_hex: bool) -> Result<usize, CalcError> {
    if is_number(s, is_hex) {
        Ok(value_in_radix(s, radix_of(is_hex)) as usize)
    } else {
        Err(CalcError::LiteralParseError)
    }
}

pub open spec fn has_hex_prefix(s: Seq<char>) -> bool {
    s.len() >= 2 && s[0] == '0' && s[1] == 'x'
}

/// A token with one leading `0x` taken off, then trimmed of white space.
pub open spec fn literal_body(s: Seq<char>) -> Seq<char> {
    if has_hex_prefix(s) {
        trim(s.skip(2))
    } else {
        trim(s)
    }
}

/// How a token is classified: `Some(true)` to read as hexadecimal, `Some(false)`
/// as decimal, `None` when it is neither. A `0x` prefix asks for hexadecimal;
/// without it, all-decimal text is decimal, and other hexadecimal text is hexadecimal.
pub open spec fn literal_kind(s: Seq<char>) -> Option<bool> {
    let body = literal_body(s);
    if has_hex_prefix(s) {
        if all_digits_of(body, true) {
            Some(true)
        } else {
            None
        }
    } else if all_digits_of(body, false) {
        Some(false)
    } else if all_digits_of(body, true) {
        Some(true)
    } else {
        None
    }
}

/// The operand that a token stands for.
pub open spec fn literal_of(s: Seq<char>) -> Result<usize, CalcError> {
    match literal_kind(s) {
        Some(is_hex) => number_of(literal_body(s), is_hex),
        None => Err(CalcError::LiteralParseError),
    }
}

/// A prefix of a run of digits never has a greater value than the whole.
pub proof fn lemma_prefix_value_le(s: Seq<char>, radix: nat, i: int)
    requires
        0 <= i <= s.len(),
        radix >= 1,
    ensures
        value_in_radix(s.take(i), radix) <= value_in_radix(s, radix),
    decreases s.len(),
{
    if i == s.len() {
        assert(s.take(i) =~= s);
    } else {
        let p = s.drop_last();
        lemma_prefix_value_le(p, radix, i);
        assert(p.take(i) =~= s.take(i));
        let v = value_in_radix(p, radix);
        assert(v * radix >= v) by (nonlinear_arith)
            requires
                radix >= 1,
        ;
    }
}

/// Trimming leaves a run of hexadecimal digits as it is.
proof fn lemma_trim_digits(s: Seq<char>)
    requires
        all_digits_of(s, true),
    ensures
        trim(s) == s,
{
    if s.len() > 0 {
        assert(is_hex_digit(s[0]) && !is_white_space(s[0]));
        assert(is_hex_digit(s[s.len() - 1]) && !is_white_space(s.last()));
    }
}

/// A token of decimal digits, without a `0x` prefix, reads as its base-10
/// value, although each of its digits is a hexadecimal digit too.
pub proof fn lemma_decimal_token(s: Seq<char>)
    requires
        s.len() > 0,
        all_digits_of(s, false),
        value_in_radix(s, 10) <= usize::MAX,
    ensures
        literal_of(s) == Ok::<usize, CalcError>(value_in_radix(s, 10) as usize),
{
    assert(all_digits_of(s, true));
    assert(!has_hex_prefix(s)) by {
        if s.len() >= 2 {
            assert(is_dec_digit(s[1]));
        }
    }
    lemma_trim_digits(s);
}

/// A token `0x` followed by hexadecimal digits reads as their base-16 value,
/// also where every digit is a decimal digit.
pub proof fn lemma_prefixed_hex_token(digits: Seq<char>)
    requires
        digits.len() > 0,
        all_digits_of(digits, true),
        value_in_radix(digits, 16) <= usize::MAX,
    ensures
        literal_of(seq!['0', 'x'] + digits) == Ok::<usize, CalcError>(
            value_in_radix(digits, 16) as usize,
        ),
{
    let s = seq!['0', 'x'] + digits;
    assert(has_hex_prefix(s));
    assert(s.skip(2) =~= digits);
    lemma_trim_digits(digits);
}

fn is_digit_char(c: char, is_hex: bool) -> (r: bool)
    ensures
        r == is_digit_of(c, is_hex),
{
    if is_hex {
        ('0' <= c && c <= '9') || ('a' <= c && c <= 'f') || ('A' <= c && c <= 'F')
    } else {
        '0' <= c && c <= '9'
    }
}

fn all_digits(cs: &[char], is_hex: bool) -> (r: bool)
    ensures
        r == all_digits_of(cs@, is_hex),
{
    let mut i: usize = 0;
    while i < cs.len()
        invariant
            i <= cs@.len(),
            all_digits_of(cs@.take(i as int), is_hex),
        decreases cs@.len() - i,
    {
        if !is_digit_char(cs[i], is_hex) {
            assert(!is_digit_of(cs@[i as int], is_hex));
            return false;
        }
        assert(cs@.take(i + 1) =~= cs@.take(i as int).push(cs@[i as int]));
        i = i + 1;
    }
    assert(cs@.take(i as int) =~= cs@);
    true
}

fn digit_value_of(c: char) -> (r: usize)
    requires
        is_hex_digit(c),
    ensures
        r == digit_value(c),
        r < 16,
{
    if '0' <= c && c <= '9' {
        (c as u32 - '0' as u32) as usize
    } else if 'a' <= c && c <= 'f' {
        (c as u32 - 'a' as u32 + 10) as usize
    } else {
        (c as u32 - 'A' as u32 + 10) as usize
    }
}

impl Math {
    /// Reads `inp` as digits of base 16 (when `is_hex`) or of base 10. Empty text,
    /// a character outside those digits, or a value past `usize::MAX` is a
    /// `LiteralParseError`.
    pub fn hexstr_to_int(inp: &str, is_hex: bool) -> (r: Result<usize, CalcError>)
        ensures
            r == number_of(inp@, is_hex),
    {
        let cs = chars_of(inp);
        let ghost s = cs@;
        if cs.len() == 0 {
            return Err(CalcError::LiteralParseError);
        }
        if !all_digits(cs.as_slice(), is_hex) {
            return Err(CalcError::LiteralParseError);
        }
        let radix: usize = if is_hex {
            16
        } else {
            10
        };
        let mut v: usize = 0;
        let mut i: usize = 0;
        assert(s.take(0) =~= Seq::<char>::empty());
        while i < cs.len()
            invariant
                s == cs@,
                s == inp@,
                i <= s.len(),
                all_digits_of(s, is_hex),
                radix == radix_of(is_hex),
                v == value_in_radix(s.take(i as int), radix as nat),
            decreases s.len() - i,
        {
            let c = cs[i];
            assert(is_digit_of(s[i as int], is_hex));
            let d = digit_value_of(c);
            assert(s.take(i + 1).drop_last() =~= s.take(i as int));
            assert(value_in_radix(s.take(i + 1), radix as nat) == v * radix + d);
            match v.checked_mul(radix) {
                None => {
                    proof {
                        lemma_prefix_value_le(s, radix as nat, i + 1);
                    }
                    return Err(CalcError::LiteralParseError);
                },
                Some(m) => match m.checked_add(d) {
                    None => {
                        proof {
                            lemma_prefix_value_le(s, radix as nat, i + 1);
                        }
                        return Err(CalcError::LiteralParseError);
                    },
                    Some(next) => {
                        v = next;
                    },
                },
            }
            i = i + 1;
        }
        assert(s.take(i as int) =~= s);
        Ok(v)
    }

    /// Takes one leading `0x` off `num_str`, trims white space, and classifies
    /// what is left: `Ok((body, is_hex))`, or a `LiteralParseError` when the body
    /// is neither decimal nor hexadecimal digits.
    pub fn check_num(num_str: &str) -> (r: Result<(String, bool), CalcError>)
        ensures
            literal_kind(num_str@) is None ==> r == Err::<(String, bool), CalcError>(
                CalcError::LiteralParseError,
            ),
            literal_kind(num_str@) matches Some(is_hex) ==> r matches Ok((body, h)) && body@
                == literal_body(num_str@) && h == is_hex,
    {
        let cs = chars_of(num_str);
        let prefixed = cs.len() >= 2 && cs[0] == '0' && cs[1] == 'x';
        let rest = if prefixed {
            copy_range(cs.as_slice(), 2, cs.len())
        } else {
            cs
        };
        let body = trim_chars(rest.as_slice());
        assert(prefixed ==> rest@ =~= num_str@.skip(2));
        if prefixed {
            if all_digits(body.as_slice(), true) {
                Ok((string_of(body.as_slice()), true))
            } else {
                Err(CalcError::LiteralParseError)
            }
        } else if all_digits(body.as_slice(), false) {
            Ok((string_of(body.as_slice()), false))
        } else if all_digits(body.as_slice(), true) {
            Ok((string_of(body.as_slice()), true))
        } else {
            Err(CalcError::LiteralParseError)
        }
    }

    /// The operand that the token `num_str` stands for.
    pub fn parse_operand(num_str: &str) -> (r: Result<usize, CalcError>)
        ensures
            r == literal_of(num_str@),
    {
        match Math::check_num(num_str) {
            Ok((body, is_hex)) => Math::hexstr_to_int(body.as_str(), is_hex),
            Err(e) => Err(e),
        }
    }
}

} // verus!

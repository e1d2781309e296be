use vstd::prelude::*;

use crate::args::{evaluate_args, outcome_of_args};
use crate::error::CalcError;
use crate::math::views_of;
use crate::text::string_of;

verus! {

/// The width of the field that each rendering of the result is left-aligned in.
pub const FIELD_WIDTH: usize = 16;

/// The lowercase digit for `d < 16`.
pub open spec fn digit_char(d: nat) -> char {
    if d < 10 {
        (d + 48) as char
    } else {
        (d + 87) as char
    }
}

/// `n` written in base `radix`, most significant digit first, without leading
/// zeros (zero is `0`).
pub open spec fn digits_in(n: nat, radix: nat) -> Seq<char>
    decreases n
    via digits_in_decreases
{
    if n < radix || radix < 2 {
        seq![digit_char(n)]
    } else {
        digits_in(n / radix, radix).push(digit_char(n % radix))
    }
}

#[via_fn]
proof fn digits_in_decreases(n: nat, radix: nat) {
    if !(n < radix || radix < 2) {
        assert(n / radix < n) by (nonlinear_arith)
            requires
                radix >= 2,
                n >= radix,
        ;
    }
}

/// `s` followed by spaces up to `FIELD_WIDTH` characters.
pub open spec fn padded(s: Seq<char>) -> Seq<char> {
    if s.len() >= FIELD_WIDTH {
        s
    } else {
        s + Seq::new((FIELD_WIDTH - s.len()) as nat, |i: int| ' ')
    }
}

/// The output line for a result: a tab, then the decimal, the lowercase
/// hexadecimal and the `0b`-prefixed binary renderings, each left-aligned in a
/// field of `FIELD_WIDTH` characters, separated by two tabs.
pub open spec fn line_of(v: usize) -> Seq<char> {
    seq!['\t'] + padded(digits_in(v as nat, 10)) + seq!['\t', '\t'] + padded(
        digits_in(v as nat, 16),
    ) + seq!['\t', '\t'] + padded(seq!['0', 'b'] + digits_in(v as nat, 2))
}

/// What the program writes on its standard output for the given arguments.
pub open spec fn output_of(args: Seq<Seq<char>>) -> Seq<char> {
    match outcome_of_args(args) {
        Ok(v) => line_of(v) + seq!['\n'],
        Err(_) => Seq::empty(),
    }
}

fn digit_to_char(d: usize) -> (r: char)
    requires
        d < 16,
    ensures
        r == digit_char(d as nat),
{
    if d < 10 {
        (d as u8 + 48u8) as char
    } else {
        (d as u8 + 87u8) as char
    }
}

/// The digits of `n` in base `radix`.
pub fn digits(n: usize, radix: usize) -> (r: Vec<char>)
    requires
        2 <= radix <= 16,
    ensures
        r@ == digits_in(n as nat, radix as nat),
    decreases n,
{
    if n < radix {
        vec![digit_to_char(n)]
    } else {
        assert(n / radix < n) by (nonlinear_arith)
            requires
                radix >= 2,
                n >= radix,
        ;
        let mut v = digits(n / radix, radix);
        v.push(digit_to_char(n % radix));
        v
    }
}

/// Appends `s`, padded with spaces to `FIELD_WIDTH`, to `out`.
fn push_padded(out: &mut Vec<char>, s: &[char])
    ensures
        final(out)@ == old(out)@ + padded(s@),
{
    let mut i: usize = 0;
    while i < s.len()
        invariant
            i <= s@.len(),
            out@ == old(out)@ + s@.take(i as int),
        decreases s@.len() - i,
    {
        out.push(s[i]);
        i = i + 1;
        assert(out@ =~= old(out)@ + s@.take(i as int));
    }
    assert(s@.take(i as int) =~= s@);
    let mut k: usize = s.len();
    while k < FIELD_WIDTH
        invariant
            s@.len() <= k <= FIELD_WIDTH || (k == s@.len() && k >= FIELD_WIDTH),
            out@ == old(out)@ + s@ + Seq::new((k - s@.len()) as nat, |i: int| ' '),
        decreases FIELD_WIDTH - k,
    {
        out.push(' ');
        k = k + 1;
        assert(out@ =~= old(out)@ + s@ + Seq::new((k - s@.len()) as nat, |i: int| ' '));
    }
    assert(out@ =~= old(out)@ + padded(s@));
}

/// The output line for the result `res`.
pub fn result_line(res: usize) -> (r: String)
    ensures
        r@ == line_of(res),
{
    let mut out: Vec<char> = Vec::new();
    out.push('\t');
    let dec = digits(res, 10);
    push_padded(&mut out, dec.as_slice());
    out.push('\t');
    out.push('\t');
    let hex = digits(res, 16);
    push_padded(&mut out, hex.as_slice());
    out.push('\t');
    out.push('\t');
    let mut bin: Vec<char> = Vec::new();
    bin.push('0');
    bin.push('b');
    let mut bits = digits(res, 2);
    bin.append(&mut bits);
    push_padded(&mut out, bin.as_slice());
    assert(out@ =~= line_of(res));
    string_of(out.as_slice())
}

/// Runs the program on its arguments (after its name): the output line for the
/// result, or the error.
pub fn run(args: &[String]) -> (r: Result<String, CalcError>)
    ensures
        match outcome_of_args(views_of(args@)) {
            Ok(v) => r matches Ok(line) && line@ == line_of(v),
            Err(e) => r == Err::<String, CalcError>(e),
        },
{
    match evaluate_args(args) {
        Ok(v) => Ok(result_line(v)),
        Err(e) => Err(e),
    }
}

/// The same arguments always give the same standard output.
pub proof fn lemma_output_repeatable(first: Seq<Seq<char>>, second: Seq<Seq<char>>)
    requires
        first == second,
    ensures
        output_of(first) == output_of(second),
{
}

} // verus!

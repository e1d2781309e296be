use vstd::prelude::*;

use crate::error::CalcError;
use crate::literal::literal_of;
use crate::text::chars_of;
use vstd::arithmetic::div_mod::{lemma_mul_mod_noop_right, lemma_small_mod};
use vstd::arithmetic::power2::{lemma2_to64, lemma_pow2_unfold, pow2};

verus! {

/// One of the nine binary operations.
#[derive(Clone, Copy, Debug, PartialEq, Eq, Structural)]
pub enum Operation {
    Addition,
    Subtraction,
    Multiplication,
    Division,
    Modulo,
    BitwiseAnd,
    BitwiseOr,
    ShiftRight,
    ShiftLeft,
}

/// An expression `lhs op rhs` and, once evaluated, its result `res`.
pub struct Math {
    pub lhs: usize,
    pub op: Operation,
    pub rhs: usize,
    pub res: usize,
}

/// The operation that an operator token names, if any.
pub open spec fn op_of(s: Seq<char>) -> Option<Operation> {
    if s == seq!['+'] {
        Some(Operation::Addition)
    } else if s == seq!['-'] {
        Some(Operation::Subtraction)
    } else if s == seq!['*'] {
        Some(Operation::Multiplication)
    } else if s == seq!['/'] {
        Some(Operation::Division)
    } else if s == seq!['%'] {
        Some(Operation::Modulo)
    } else if s == seq!['<', '<'] {
        Some(Operation::ShiftLeft)
    } else if s == seq!['>', '>'] {
        Some(Operation::ShiftRight)
    } else if s == seq!['&', '&'] {
        Some(Operation::BitwiseAnd)
    } else if s == seq!['|', '|'] {
        Some(Operation::BitwiseOr)
    } else {
        None
    }
}

/// The number of values of a `usize`: results wrap modulo this.
pub open spec fn word_modulus() -> int {
    usize::MAX as int + 1
}

/// `x` reduced modulo the word size.
pub open spec fn wrapped(x: int) -> usize {
    (x % word_modulus()) as usize
}

/// A shift amount reduced modulo the bit width of a `usize`.
pub open spec fn shift_amount(r: usize) -> u32 {
    (r as int % usize::BITS as int) as u32
}

/// Whether `op` divides by `rhs` and `rhs` is zero.
pub open spec fn divides_by_zero(op: Operation, rhs: usize) -> bool {
    (op == Operation::Division || op == Operation::Modulo) && rhs == 0
}

/// The value of `lhs op rhs` on unsigned machine words: sums, differences and
/// products wrap, shift amounts are taken modulo the bit width.
pub open spec fn eval_op(op: Operation, lhs: usize, rhs: usize) -> usize {
    match op {
        Operation::Addition => wrapped(lhs + rhs),
        Operation::Subtraction => wrapped(lhs - rhs),
        Operation::Multiplication => wrapped(lhs * rhs),
        Operation::Division => (lhs / rhs) as usize,
        Operation::Modulo => (lhs % rhs) as usize,
        Operation::BitwiseAnd => lhs & rhs,
        Operation::BitwiseOr => lhs | rhs,
        Operation::ShiftRight => lhs >> shift_amount(rhs),
        Operation::ShiftLeft => lhs << shift_amount(rhs),
    }
}

/// What evaluating `lhs op rhs` gives: its value, or `ZeroDivisor`.
pub open spec fn evaluation(op: Operation, lhs: usize, rhs: usize) -> Result<usize, CalcError> {
    if divides_by_zero(op, rhs) {
        Err(CalcError::ZeroDivisor)
    } else {
        Ok(eval_op(op, lhs, rhs))
    }
}

/// The expression that three tokens `LHS OP RHS` stand for. The operator is
/// looked up first, then the left and the right operand are read.
pub open spec fn expression_of(tokens: Seq<Seq<char>>) -> Result<
    (usize, Operation, usize),
    CalcError,
> {
    if tokens.len() != 3 {
        Err(CalcError::UsageError)
    } else {
        match op_of(tokens[1]) {
            None => Err(CalcError::UsageError),
            Some(op) => match literal_of(tokens[0]) {
                Err(e) => Err(e),
                Ok(lhs) => match literal_of(tokens[2]) {
                    Err(e) => Err(e),
                    Ok(rhs) => Ok((lhs, op, rhs)),
                },
            },
        }
    }
}

/// The character views of a sequence of strings.
pub open spec fn views_of(v: Seq<String>) -> Seq<Seq<char>> {
    v.map_values(|t: String| t@)
}

/// What a full evaluation of three tokens gives.
pub open spec fn outcome_of(tokens: Seq<Seq<char>>) -> Result<usize, CalcError> {
    match expression_of(tokens) {
        Err(e) => Err(e),
        Ok((lhs, op, rhs)) => evaluation(op, lhs, rhs),
    }
}

proof fn lemma_wrapping_add_is_mod(x: usize, y: usize)
    ensures
        x.wrapping_add(y) == wrapped(x + y),
{
    let m = word_modulus();
    if x + y > usize::MAX {
        assert((x + y) % m == x + y - m) by {
            vstd::arithmetic::div_mod::lemma_fundamental_div_mod_converse(x + y, m, 1, x + y - m);
        }
    } else {
        assert((x + y) % m == x + y) by {
            vstd::arithmetic::div_mod::lemma_small_mod((x + y) as nat, m as nat);
        }
    }
}

proof fn lemma_wrapping_sub_is_mod(x: usize, y: usize)
    ensures
        x.wrapping_sub(y) == wrapped(x - y),
{
    let m = word_modulus();
    if x - y < 0 {
        assert((x - y) % m == x - y + m) by {
            vstd::arithmetic::div_mod::lemma_fundamental_div_mod_converse(x - y, m, -1, x - y + m);
        }
    } else {
        assert((x - y) % m == x - y) by {
            vstd::arithmetic::div_mod::lemma_small_mod((x - y) as nat, m as nat);
        }
    }
}

/// Truncating a shift amount to `u32` before reducing it modulo the bit width
/// changes nothing.
proof fn lemma_shift_amount_truncated(r: usize)
    ensures
        (r as u32) as int % usize::BITS as int == r as int % usize::BITS as int,
{
    if usize::BITS == 32 {
        assert(r as u32 == r) by (bit_vector)
            requires
                usize::BITS == 32,
        ;
    } else {
        assert(usize::BITS == 64);
        let t = r as u32;
        assert(t as int == r as int % 0x1_0000_0000) by (bit_vector)
            requires
                usize::BITS == 64,
                t == r as u32,
        ;
        vstd::arithmetic::div_mod::lemma_mod_mod(r as int, 64, 0x400_0000);
    }
}

/// Doubling by a shift of one place wraps modulo the word size.
proof fn lemma_shift_one_doubles(y: usize)
    ensures
        (y << 1u32) as int == (2 * y) % word_modulus(),
{
    if usize::BITS == 64 {
        assert(usize::BITS == 64 ==> (y << 1u32) as int == (2 * y as int)
            % 0x1_0000_0000_0000_0000) by (bit_vector);
    } else {
        assert(usize::BITS == 32 ==> (y << 1u32) as int == (2 * y as int) % 0x1_0000_0000)
            by (bit_vector);
    }
}

/// Shifting left by `k` places, for `k` under the bit width, multiplies by
/// `2^k` modulo the word size.
pub proof fn lemma_shift_left_is_wrapping_mul(x: usize, k: u32)
    requires
        k < usize::BITS,
    ensures
        x << k == wrapped(x * pow2(k as nat)),
    decreases k,
{
    let m = word_modulus();
    if k == 0 {
        assert(x << 0u32 == x) by (bit_vector);
        lemma2_to64();
        lemma_small_mod(x as nat, m as nat);
        assert(x * pow2(0) == x);
    } else {
        let j = (k - 1) as u32;
        lemma_shift_left_is_wrapping_mul(x, j);
        let y = x << j;
        if usize::BITS == 64 {
            assert(usize::BITS == 64 && k < 64 && j == k - 1 ==> x << k == (x << j) << 1u32)
                by (bit_vector);
        } else {
            assert(usize::BITS == 32 && k < 32 && j == k - 1 ==> x << k == (x << j) << 1u32)
                by (bit_vector);
        }
        lemma_shift_one_doubles(y);
        let p = pow2(j as nat);
        lemma_pow2_unfold(k as nat);
        assert(x * pow2(k as nat) == 2 * (x * p)) by (nonlinear_arith)
            requires
                pow2(k as nat) == 2 * p,
        ;
        lemma_mul_mod_noop_right(2, x * p, m);
        assert(y as int == (x * p) % m);
        assert((x << k) as int == (2 * y) % m);
        assert((x << k) as int == (x * pow2(k as nat)) % m);
    }
}

/// Each operation agrees with Rust's own operation on `usize`: `wrapping_add`,
/// `wrapping_sub`, `wrapping_mul`, `/` and `%` (for a non-zero divisor), `&`,
/// `|`, and `wrapping_shr` / `wrapping_shl` with the right operand cast to `u32`;
/// a left shift multiplies by two to the reduced shift amount, modulo the word size.
pub proof fn lemma_eval_matches_native(lhs: usize, rhs: usize)
    ensures
        eval_op(Operation::Addition, lhs, rhs) == lhs.wrapping_add(rhs),
        eval_op(Operation::Subtraction, lhs, rhs) == lhs.wrapping_sub(rhs),
        eval_op(Operation::Multiplication, lhs, rhs) == lhs.wrapping_mul(rhs),
        rhs != 0 ==> eval_op(Operation::Division, lhs, rhs) == lhs / rhs,
        rhs != 0 ==> eval_op(Operation::Modulo, lhs, rhs) == lhs % rhs,
        eval_op(Operation::BitwiseAnd, lhs, rhs) == lhs & rhs,
        eval_op(Operation::BitwiseOr, lhs, rhs) == lhs | rhs,
        eval_op(Operation::ShiftRight, lhs, rhs) == lhs.wrapping_shr(rhs as u32),
        eval_op(Operation::ShiftLeft, lhs, rhs) == lhs.wrapping_shl(rhs as u32),
        eval_op(Operation::ShiftLeft, lhs, rhs) == wrapped(
            lhs * pow2((rhs as int % usize::BITS as int) as nat),
        ),
{
    lemma_wrapping_add_is_mod(lhs, rhs);
    lemma_wrapping_sub_is_mod(lhs, rhs);
    lemma_shift_amount_truncated(rhs);
    lemma_shift_left_is_wrapping_mul(lhs, shift_amount(rhs));
}

impl Math {
    /// The operation that `op_str` names, or `None` for any other token.
    pub fn get_op(op_str: &str) -> (r: Option<Operation>)
        ensures
            r == op_of(op_str@),
    {
        let cs = chars_of(op_str);
        let ghost s = cs@;
        if cs.len() == 1 {
            let c = cs[0];
            assert(s =~= seq![c]);
            if c == '+' {
                Some(Operation::Addition)
            } else if c == '-' {
                Some(Operation::Subtraction)
            } else if c == '*' {
                Some(Operation::Multiplication)
            } else if c == '/' {
                Some(Operation::Division)
            } else if c == '%' {
                Some(Operation::Modulo)
            } else {
                None
            }
        } else if cs.len() == 2 {
            let a = cs[0];
            let b = cs[1];
            assert(s =~= seq![a, b]);
            if a == '<' && b == '<' {
                Some(Operation::ShiftLeft)
            } else if a == '>' && b == '>' {
                Some(Operation::ShiftRight)
            } else if a == '&' && b == '&' {
                Some(Operation::BitwiseAnd)
            } else if a == '|' && b == '|' {
                Some(Operation::BitwiseOr)
            } else {
                None
            }
        } else {
            assert(s.len() != 1 && s.len() != 2);
            assert(seq!['+'].len() == 1 && seq!['<', '<'].len() == 2);
            None
        }
    }

    /// Reads the expression `expr[0] expr[1] expr[2]`. A count of tokens other
    /// than three, or an unknown operator, is a `UsageError`; an operand that
    /// does not read is a `LiteralParseError`.
    pub fn new(expr: &[String]) -> (r: Result<Math, CalcError>)
        ensures
            match expression_of(views_of(expr@)) {
                Ok((lhs, op, rhs)) => r matches Ok(m) && m.lhs == lhs && m.op == op && m.rhs
                    == rhs && m.res == 0,
                Err(e) => r == Err::<Math, CalcError>(e),
            },
    {
        let ghost t = views_of(expr@);
        if expr.len() != 3 {
            return Err(CalcError::UsageError);
        }
        assert(t[0] == expr@[0]@ && t[1] == expr@[1]@ && t[2] == expr@[2]@);
        let op = match Math::get_op(expr[1].as_str()) {
            Some(op) => op,
            None => {
                return Err(CalcError::UsageError);
            },
        };
        let lhs = match Math::parse_operand(expr[0].as_str()) {
            Ok(v) => v,
            Err(e) => {
                return Err(e);
            },
        };
        let rhs = match Math::parse_operand(expr[2].as_str()) {
            Ok(v) => v,
            Err(e) => {
                return Err(e);
            },
        };
        Ok(Math { lhs, op, rhs, res: 0 })
    }

    pub fn add(&mut self)
        ensures
            final(self).res == eval_op(Operation::Addition, old(self).lhs, old(self).rhs),
            final(self).lhs == old(self).lhs,
            final(self).op == old(self).op,
            final(self).rhs == old(self).rhs,
    {
        proof {
            lemma_wrapping_add_is_mod(self.lhs, self.rhs);
        }
        self.res = self.lhs.wrapping_add(self.rhs);
    }

    pub fn sub(&mut self)
        ensures
            final(self).res == eval_op(Operation::Subtraction, old(self).lhs, old(self).rhs),
            final(self).lhs == old(self).lhs,
            final(self).op == old(self).op,
            final(self).rhs == old(self).rhs,
    {
        proof {
            lemma_wrapping_sub_is_mod(self.lhs, self.rhs);
        }
        self.res = self.lhs.wrapping_sub(self.rhs);
    }

    pub fn mul(&mut self)
        ensures
            final(self).res == eval_op(Operation::Multiplication, old(self).lhs, old(self).rhs),
            final(self).lhs == old(self).lhs,
            final(self).op == old(self).op,
            final(self).rhs == old(self).rhs,
    {
        self.res = self.lhs.wrapping_mul(self.rhs);
    }

    pub fn div(&mut self)
        requires
            old(self).rhs != 0,
        ensures
            final(self).res == eval_op(Operation::Division, old(self).lhs, old(self).rhs),
            final(self).lhs == old(self).lhs,
            final(self).op == old(self).op,
            final(self).rhs == old(self).rhs,
    {
        self.res = self.lhs / self.rhs;
    }

    pub fn modulo(&mut self)
        requires
            old(self).rhs != 0,
        ensures
            final(self).res == eval_op(Operation::Modulo, old(self).lhs, old(self).rhs),
            final(self).lhs == old(self).lhs,
            final(self).op == old(self).op,
            final(self).rhs == old(self).rhs,
    {
        self.res = self.lhs % self.rhs;
    }

    pub fn and(&mut self)
        ensures
            final(self).res == eval_op(Operation::BitwiseAnd, old(self).lhs, old(self).rhs),
            final(self).lhs == old(self).lhs,
            final(self).op == old(self).op,
            final(self).rhs == old(self).rhs,
    {
        self.res = self.lhs & self.rhs;
    }

    pub fn or(&mut self)
        ensures
            final(self).res == eval_op(Operation::BitwiseOr, old(self).lhs, old(self).rhs),
            final(self).lhs == old(self).lhs,
            final(self).op == old(self).op,
            final(self).rhs == old(self).rhs,
    {
        self.res = self.lhs | self.rhs;
    }

    pub fn rshift(&mut self)
        ensures
            final(self).res == eval_op(Operation::ShiftRight, old(self).lhs, old(self).rhs),
            final(self).lhs == old(self).lhs,
            final(self).op == old(self).op,
            final(self).rhs == old(self).rhs,
    {
        let amount = (self.rhs % (usize::BITS as usize)) as u32;
        self.res = self.lhs.wrapping_shr(amount);
    }

    pub fn lshift(&mut self)
        ensures
            final(self).res == eval_op(Operation::ShiftLeft, old(self).lhs, old(self).rhs),
            final(self).lhs == old(self).lhs,
            final(self).op == old(self).op,
            final(self).rhs == old(self).rhs,
    {
        let amount = (self.rhs % (usize::BITS as usize)) as u32;
        self.res = self.lhs.wrapping_shl(amount);
    }

    /// Evaluates the expression and stores its value in `res`. A division or a
    /// remainder by zero is a `ZeroDivisor` and leaves `res` as it was.
    pub fn math(&mut self) -> (r: Result<usize, CalcError>)
        ensures
            r == evaluation(old(self).op, old(self).lhs, old(self).rhs),
            r matches Ok(v) ==> final(self).res == v,
            r is Err ==> final(self).res == old(self).res,
            final(self).lhs == old(self).lhs,
            final(self).op == old(self).op,
            final(self).rhs == old(self).rhs,
    {
        match self.op {
            Operation::Addition => self.add(),
            Operation::Subtraction => self.sub(),
            Operation::Multiplication => self.mul(),
            Operation::Division => {
                if self.rhs == 0 {
                    return Err(CalcError::ZeroDivisor);
                }
                self.div()
            },
            Operation::Modulo => {
                if self.rhs == 0 {
                    return Err(CalcError::ZeroDivisor);
                }
                self.modulo()
            },
            Operation::ShiftLeft => self.lshift(),
            Operation::ShiftRight => self.rshift(),
            Operation::BitwiseAnd => self.and(),
            Operation::BitwiseOr => self.or(),
        }
        Ok(self.res)
    }
}

} // verus!

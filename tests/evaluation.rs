use bitcalc::{CalcError, Math, Operation};

fn eval(lhs: &str, op: &str, rhs: &str) -> Result<usize, CalcError> {
    let args = [lhs, op, rhs].map(|x| x.to_string());
    Math::new(&args).unwrap().math()
}

#[test]
fn operator_table() {
    assert_eq!(Math::get_op("+"), Some(Operation::Addition));
    assert_eq!(Math::get_op("-"), Some(Operation::Subtraction));
    assert_eq!(Math::get_op("*"), Some(Operation::Multiplication));
    assert_eq!(Math::get_op("/"), Some(Operation::Division));
    assert_eq!(Math::get_op("%"), Some(Operation::Modulo));
    assert_eq!(Math::get_op("<<"), Some(Operation::ShiftLeft));
    assert_eq!(Math::get_op(">>"), Some(Operation::ShiftRight));
    assert_eq!(Math::get_op("&&"), Some(Operation::BitwiseAnd));
    assert_eq!(Math::get_op("||"), Some(Operation::BitwiseOr));
}

#[test]
fn unknown_operators_have_no_match() {
    assert_eq!(Math::get_op("^"), None);
    assert_eq!(Math::get_op("&"), None);
    assert_eq!(Math::get_op("++"), None);
    assert_eq!(Math::get_op("<<<"), None);
    assert_eq!(Math::get_op(""), None);
}

#[test]
fn arithmetic_wraps_modulo_the_word() {
    let max = format!("{}", usize::MAX);
    assert_eq!(eval(&max, "+", "1"), Ok(0));
    assert_eq!(eval("0", "-", "1"), Ok(usize::MAX));
    assert_eq!(eval(&max, "*", "2"), Ok(usize::MAX - 1));
    assert_eq!(eval("5", "+", "7"), Ok(12));
    assert_eq!(eval("9", "-", "4"), Ok(5));
    assert_eq!(eval("6", "*", "7"), Ok(42));
}

#[test]
fn division_and_remainder_truncate() {
    assert_eq!(eval("7", "/", "2"), Ok(3));
    assert_eq!(eval("7", "%", "3"), Ok(1));
    assert_eq!(eval("2", "/", "7"), Ok(0));
}

#[test]
fn zero_divisor_is_an_error() {
    assert_eq!(eval("7", "/", "0"), Err(CalcError::ZeroDivisor));
    assert_eq!(eval("7", "%", "0"), Err(CalcError::ZeroDivisor));
}

#[test]
fn bitwise_operations() {
    assert_eq!(eval("0xc", "&&", "0xa"), Ok(8));
    assert_eq!(eval("0xc", "||", "0xa"), Ok(14));
}

#[test]
fn shift_amount_wraps_at_the_bit_width() {
    let bits = usize::BITS as usize;
    assert_eq!(eval("1", "<<", "3"), Ok(8));
    assert_eq!(eval("8", ">>", "2"), Ok(2));
    assert_eq!(eval("1", "<<", &format!("{}", bits + 1)), Ok(2));
    assert_eq!(eval("8", ">>", &format!("{}", bits + 2)), Ok(2));
    assert_eq!(eval("5", "<<", &format!("{}", bits)), Ok(5));
    let m = 1usize.wrapping_shl(300u32);
    assert_eq!(eval("1", "<<", "300"), Ok(m));
}

#[test]
fn math_stores_the_result() {
    let args = ["3", "*", "4"].map(|x| x.to_string());
    let mut m = Math::new(&args).unwrap();
    assert_eq!(m.res, 0);
    assert_eq!(m.math(), Ok(12));
    assert_eq!(m.res, 12);
    assert_eq!((m.lhs, m.op, m.rhs), (3, Operation::Multiplication, 4));
}

#[test]
fn each_method_computes_its_operation() {
    let mut m = Math { lhs: 12, op: Operation::Addition, rhs: 5, res: 0 };
    m.add();
    assert_eq!(m.res, 17);
    m.sub();
    assert_eq!(m.res, 7);
    m.mul();
    assert_eq!(m.res, 60);
    m.div();
    assert_eq!(m.res, 2);
    m.modulo();
    assert_eq!(m.res, 2);
    m.and();
    assert_eq!(m.res, 4);
    m.or();
    assert_eq!(m.res, 13);
    m.lshift();
    assert_eq!(m.res, 384);
    m.rshift();
    assert_eq!(m.res, 0);
}

#[test]
fn new_rejects_bad_expressions() {
    let unknown = ["1", "^", "2"].map(|x| x.to_string());
    assert_eq!(Math::new(&unknown).err(), Some(CalcError::UsageError));
    let both_bad = ["abcg", "^", "2"].map(|x| x.to_string());
    assert_eq!(Math::new(&both_bad).err(), Some(CalcError::UsageError));
    let bad_literal = ["abcg", "+", "2"].map(|x| x.to_string());
    assert_eq!(Math::new(&bad_literal).err(), Some(CalcError::LiteralParseError));
    let bad_rhs = ["1", "+", "zz"].map(|x| x.to_string());
    assert_eq!(Math::new(&bad_rhs).err(), Some(CalcError::LiteralParseError));
    let short = ["1", "+"].map(|x| x.to_string());
    assert_eq!(Math::new(&short).err(), Some(CalcError::UsageError));
}

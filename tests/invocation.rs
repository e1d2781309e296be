use bitcalc::{assemble, evaluate_args, is_single_digit, result_line, run, split_words};
use bitcalc::{CalcError, Math, Operation};

fn strings(v: &[&str]) -> Vec<String> {
    v.iter().map(|x| x.to_string()).collect()
}

#[test]
fn single_operand_is_added_to_zero() {
    let args = strings(&["22"]);
    let tokens = assemble(&args).unwrap();
    assert_eq!(tokens, strings(&["22", "+", "0"]));
    let m = Math::new(&tokens).unwrap();
    assert_eq!((m.lhs, m.op, m.rhs), (22, Operation::Addition, 0));
    assert_eq!(evaluate_args(&args), Ok(22));
}

#[test]
fn one_argument_with_spaces_is_split() {
    let args = strings(&["22 * 1"]);
    let tokens = assemble(&args).unwrap();
    assert_eq!(tokens, strings(&["22", "*", "1"]));
    let m = Math::new(&tokens).unwrap();
    assert_eq!((m.lhs, m.op, m.rhs), (22, Operation::Multiplication, 1));
    assert_eq!(evaluate_args(&args), Ok(22));
}

#[test]
fn three_arguments_are_used_directly() {
    let args = strings(&["22", "*", "1"]);
    let tokens = assemble(&args).unwrap();
    assert_eq!(tokens, args);
    let m = Math::new(&tokens).unwrap();
    assert_eq!((m.lhs, m.op, m.rhs), (22, Operation::Multiplication, 1));
    assert_eq!(evaluate_args(&args), Ok(22));
}

#[test]
fn no_arguments_is_a_usage_error() {
    assert_eq!(assemble(&[]), Err(CalcError::UsageError));
    assert_eq!(evaluate_args(&[]), Err(CalcError::UsageError));
    assert_eq!(run(&[]), Err(CalcError::UsageError));
}

#[test]
fn unknown_operator_is_a_usage_error() {
    assert_eq!(evaluate_args(&strings(&["1", "^", "2"])), Err(CalcError::UsageError));
    assert_eq!(evaluate_args(&strings(&["1 ^ 2"])), Err(CalcError::UsageError));
}

#[test]
fn bad_literal_is_a_parse_error() {
    assert_eq!(evaluate_args(&strings(&["abcg"])), Err(CalcError::LiteralParseError));
    assert_eq!(evaluate_args(&strings(&["abcg", "+", "1"])), Err(CalcError::LiteralParseError));
}

#[test]
fn empty_fragments_are_dropped() {
    assert_eq!(evaluate_args(&strings(&["  22  *  1 "])), Ok(22));
    assert_eq!(split_words(&[' ', 'a', ' ', ' ', 'b', 'c', ' ']), strings(&["a", "bc"]));
    assert_eq!(split_words(&[]), Vec::<String>::new());
}

#[test]
fn wrong_word_count_is_a_usage_error() {
    assert_eq!(evaluate_args(&strings(&["1 + 2 + 3"])), Err(CalcError::UsageError));
    assert_eq!(evaluate_args(&strings(&["1 +"])), Err(CalcError::UsageError));
    assert_eq!(evaluate_args(&strings(&["1 2", "x"])), Err(CalcError::UsageError));
}

#[test]
fn other_counts_read_the_quoted_first_argument() {
    assert_eq!(evaluate_args(&strings(&["\"3 + 4\"", "x"])), Ok(7));
    assert_eq!(evaluate_args(&strings(&["\"3 << 2\"", "a", "b", "c"])), Ok(12));
    assert_eq!(evaluate_args(&strings(&["3 - 4", "ignored"])), Ok(usize::MAX));
}

#[test]
fn single_digit_means_no_space() {
    assert!(is_single_digit("22"));
    assert!(is_single_digit(""));
    assert!(!is_single_digit("22 "));
    assert!(!is_single_digit("2 * 2"));
}

#[test]
fn result_line_renders_three_bases() {
    let line = result_line(23);
    assert_eq!(line, "\t23              \t\t17              \t\t0b10111         ");
    assert!(line.contains("23") && line.contains("17") && line.contains("0b10111"));
}

#[test]
fn result_line_matches_std_formatting() {
    for v in [0usize, 1, 23, 255, 65535, 1 << 20, usize::MAX] {
        let expected = format!("\t{:<16}\t\t{:<16x}\t\t{:<#16b}", v, v, v);
        assert_eq!(result_line(v), expected);
    }
}

#[test]
fn same_invocation_gives_same_output() {
    let args = strings(&["0x17", "||", "4"]);
    let first = run(&args);
    let second = run(&args);
    assert_eq!(first, second);
    assert_eq!(first.unwrap(), result_line(23));
}

#[test]
fn error_messages() {
    assert_eq!(
        CalcError::UsageError.message(),
        "Expected exactly 3 arguments: LHS <operator> RHS!"
    );
    assert_eq!(CalcError::LiteralParseError.message(), "Failed to parse one of the inputs!");
    assert_eq!(CalcError::ZeroDivisor.message(), "Division by zero!");
}

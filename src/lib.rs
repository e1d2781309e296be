pub mod args;
pub mod error;
pub mod format;
pub mod literal;
pub mod math;
pub mod text;

pub use args::{assemble, evaluate_args, is_single_digit, split_words};
pub use error::CalcError;
pub use format::{result_line, run};
pub use math::{Math, Operation};

//! Exam question parsing: turns loosely structured exam text into question
//! records by trying several known layouts and keeping the most complete reading.

pub mod fields;
pub mod parsing;
pub mod pattern;
pub mod question;
pub mod scanner;
pub mod select;
pub mod strategy;
pub mod text;
pub mod upstream;

pub use parsing::parse_questions_from_text;
pub use question::{ParseResult, Question};

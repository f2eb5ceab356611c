//! The question record and the result of a parse, with their mathematical views.

use vstd::prelude::*;

verus! {

/// The message of a result for text in which no layout was recognised.
pub const NO_FORMAT_MESSAGE: &'static str = "Could not detect a valid exam format.";

/// What precedes the reason in the message of a result for text that the
/// recognition step could not produce.
pub const RECOGNITION_FAILED_PREFIX: &'static str = "OCR failed after native fallback: ";

/// One question of an exam.
#[derive(Debug, Clone, PartialEq, Eq)]
pub struct Question {
    /// The number written in front of the question, 0 where it could not be read.
    pub id: u32,
    /// The question itself, continuation lines joined by single spaces.
    pub text: String,
    /// The options in the order in which they were met, each as `label. text`.
    pub options: Vec<String>,
    /// The label of the right answer in upper case, empty where none was met.
    pub correct_answer: String,
}

/// A question as a mathematical value.
pub struct QuestionView {
    pub id: u32,
    pub text: Seq<char>,
    pub options: Seq<Seq<char>>,
    pub correct_answer: Seq<char>,
}

impl View for Question {
    type V = QuestionView;

    open spec fn view(&self) -> QuestionView {
        QuestionView {
            id: self.id,
            text: self.text@,
            options: self.options.deep_view(),
            correct_answer: self.correct_answer@,
        }
    }
}

impl DeepView for Question {
    type V = QuestionView;

    open spec fn deep_view(&self) -> QuestionView {
        self@
    }
}

/// The outcome of parsing a text: the questions found, or why there are none.
#[derive(Debug, Clone, PartialEq, Eq)]
pub struct ParseResult {
    /// Whether a layout was recognised.
    pub valid: bool,
    /// The questions in the order of the text; empty where `valid` is false.
    pub questions: Vec<Question>,
    /// The reason of a failure; present exactly where `valid` is false.
    pub error: Option<String>,
}

/// A parse result as a mathematical value.
pub struct ParseResultView {
    pub valid: bool,
    pub questions: Seq<QuestionView>,
    pub error: Option<Seq<char>>,
}

impl View for ParseResult {
    type V = ParseResultView;

    open spec fn view(&self) -> ParseResultView {
        ParseResultView {
            valid: self.valid,
            questions: self.questions.deep_view(),
            error: self.error.deep_view(),
        }
    }
}

/// A question is complete when an answer was recorded for it.
pub open spec fn is_complete(q: QuestionView) -> bool {
    q.correct_answer.len() > 0
}

/// The result that carries `questions`.
pub open spec fn success(questions: Seq<QuestionView>) -> ParseResultView {
    ParseResultView { valid: true, questions, error: None }
}

/// The result that carries no question and the message `reason`.
pub open spec fn failure(reason: Seq<char>) -> ParseResultView {
    ParseResultView { valid: false, questions: Seq::empty(), error: Some(reason) }
}

impl ParseResult {
    /// A result is well formed when it is either valid without an error, or
    /// invalid with an error and no question.
    pub open spec fn well_formed(&self) -> bool {
        if self.valid {
            self.error is None
        } else {
            self.error is Some && self.questions@.len() == 0
        }
    }

    /// The valid result with the given questions.
    pub fn found(questions: Vec<Question>) -> (r: ParseResult)
        ensures
            r@ == success(questions.deep_view()),
            r.well_formed(),
    {
        ParseResult { valid: true, questions, error: None }
    }

    /// The invalid result for text in which no layout was recognised.
    pub fn no_format() -> (r: ParseResult)
        ensures
            r@ == failure(NO_FORMAT_MESSAGE@),
            r.well_formed(),
    {
        let r = ParseResult {
            valid: false,
            questions: Vec::new(),
            error: Some(String::from_str(NO_FORMAT_MESSAGE)),
        };
        proof {
            assert(r.questions.deep_view() =~= Seq::<QuestionView>::empty());
        }
        r
    }

    /// The invalid result for a document whose text could not be recognised,
    /// `reason` saying why.
    pub fn recognition_failed(reason: &str) -> (r: ParseResult)
        ensures
            r@ == failure(RECOGNITION_FAILED_PREFIX@ + reason@),
            r.well_formed(),
    {
        let mut message = String::from_str(RECOGNITION_FAILED_PREFIX);
        message.append(reason);
        let r = ParseResult { valid: false, questions: Vec::new(), error: Some(message) };
        proof {
            assert(r.questions.deep_view() =~= Seq::<QuestionView>::empty());
        }
        r
    }
}

} // verus!

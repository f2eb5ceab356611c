//! The layouts that the parser knows, and how a line reads under one of them.

use crate::fields::{
    format_option, option_text, parse_id, parse_number, to_upper, upper, upper_char,
};
use crate::pattern::{
    capture_groups, compiles, group, group_text, regex_captures, regex_compiles,
};
use crate::text::to_chars;
use vstd::prelude::*;

verus! {

/// Dot style, start of a question: a number, a dot, the text.
pub const DOT_QUESTION: &'static str = r"^\s*(\d+)\.\s+(.+)";

/// Dot style, an option: a letter from A to D in either case, a dot, the text.
pub const DOT_OPTION: &'static str = r"^\s*([A-D]|[a-d])\.\s+(.+)";

/// The answer line of the dot and parenthesis styles: one of the key words,
/// in any case, a colon, a letter from A to D.
pub const LETTER_ANSWER: &'static str = r"(?i)(?:Answer|Ans|Correct)\s*:\s*([A-D]|[a-d])";

/// Parenthesis style, start of a question: a number, a closing parenthesis or
/// a dot, the text.
pub const PAREN_QUESTION: &'static str = r"^\s*(\d+)[\).]\s+(.+)";

/// Parenthesis style, an option: a letter, a closing parenthesis or a dot,
/// the text.
pub const PAREN_OPTION: &'static str = r"^\s*([A-D]|[a-d])[\).]\s+(.+)";

/// Header style, start of a question: `Q` or `Question`, a number, a colon or
/// a dot, the text.
pub const HEADER_QUESTION: &'static str = r"^\s*(?:Q|Question)\s*(\d+)[:.]\s+(.+)";

/// Header style, an option: a digit from 1 to 4 or a letter from A to D,
/// bare or in parentheses, then the text.
pub const HEADER_OPTION: &'static str = r"^\s*\(?([1-4]|[A-D]|[a-d])\)?\s+(.+)";

/// Header style, the answer line: a key word, a colon, a letter from A to D
/// or a digit from 1 to 4.
pub const HEADER_ANSWER: &'static str = r"(?i)(?:Answer|Ans|Correct)\s*:\s*([A-D]|[a-d]|[1-4])";

/// One layout: the patterns of the line that starts a question, of an option
/// line and of the answer line. A layout is made by `Strategy::new` from
/// patterns that compile, or by `Strategy::try_new`, which tests them.
#[derive(Debug, Clone, PartialEq, Eq)]
pub struct Strategy {
    /// Group 1 is the question's number, group 2 the start of its text.
    pub question: String,
    /// Group 1 is the option's label, group 2 its text.
    pub option: String,
    /// Group 1 is the label of the right answer.
    pub answer: String,
}

/// A layout as a mathematical value.
pub struct StrategyView {
    pub question: Seq<char>,
    pub option: Seq<char>,
    pub answer: Seq<char>,
}

impl View for Strategy {
    type V = StrategyView;

    open spec fn view(&self) -> StrategyView {
        StrategyView { question: self.question@, option: self.option@, answer: self.answer@ }
    }
}

impl DeepView for Strategy {
    type V = StrategyView;

    open spec fn deep_view(&self) -> StrategyView {
        self@
    }
}

/// Whether the three patterns of a layout all compile.
pub open spec fn patterns_compile(q: Seq<char>, o: Seq<char>, a: Seq<char>) -> bool {
    regex_compiles(q) && regex_compiles(o) && regex_compiles(a)
}

/// The layout with the given patterns.
pub open spec fn layout(q: Seq<char>, o: Seq<char>, a: Seq<char>) -> StrategyView {
    StrategyView { question: q, option: o, answer: a }
}

/// The dot style: `1. Question`, `A. Option`, `Answer: A`.
pub open spec fn dot_style() -> StrategyView {
    StrategyView { question: DOT_QUESTION@, option: DOT_OPTION@, answer: LETTER_ANSWER@ }
}

/// The parenthesis style: `1) Question`, `a) Option`, `Answer: A`.
pub open spec fn paren_style() -> StrategyView {
    StrategyView { question: PAREN_QUESTION@, option: PAREN_OPTION@, answer: LETTER_ANSWER@ }
}

/// The header style: `Q1: Question`, `(1) Option`, `Answer: A`.
pub open spec fn header_style() -> StrategyView {
    StrategyView { question: HEADER_QUESTION@, option: HEADER_OPTION@, answer: HEADER_ANSWER@ }
}

/// The built-in layouts in the order in which they are tried.
pub open spec fn catalog_model() -> Seq<StrategyView> {
    seq![dot_style(), paren_style(), header_style()]
}

/// What a line is under a layout.
pub enum LineEvent {
    /// The line starts a question.
    Question { id: u32, text: String },
    /// The line is an option, already formatted.
    Choice { option: String },
    /// The line names the right answer, already in upper case.
    Answer { label: String },
    /// The line is none of these.
    Other { line: String },
}

/// A line event as a mathematical value.
pub enum LineEventView {
    Question { id: u32, text: Seq<char> },
    Choice { option: Seq<char> },
    Answer { label: Seq<char> },
    Other { line: Seq<char> },
}

impl View for LineEvent {
    type V = LineEventView;

    open spec fn view(&self) -> LineEventView {
        match self {
            LineEvent::Question { id, text } => LineEventView::Question { id: *id, text: text@ },
            LineEvent::Choice { option } => LineEventView::Choice { option: option@ },
            LineEvent::Answer { label } => LineEventView::Answer { label: label@ },
            LineEvent::Other { line } => LineEventView::Other { line: line@ },
        }
    }
}

/// The number and the text that a question-start match captured.
pub open spec fn question_of(groups: Seq<Option<Seq<char>>>) -> (u32, Seq<char>) {
    (parse_id(group_text(groups, 1)), group_text(groups, 2))
}

/// The option that an option match captured, formatted.
pub open spec fn option_of(groups: Seq<Option<Seq<char>>>) -> Seq<char> {
    option_text(group_text(groups, 1), group_text(groups, 2))
}

/// The answer label that an answer match captured, in upper case.
pub open spec fn answer_of(groups: Seq<Option<Seq<char>>>) -> Seq<char> {
    upper(group_text(groups, 1))
}

/// The question that `line` starts under `s`, if it starts one.
pub open spec fn question_start(s: StrategyView, line: Seq<char>) -> Option<(u32, Seq<char>)> {
    match regex_captures(s.question, line) {
        Some(groups) => Some(question_of(groups)),
        None => None,
    }
}

/// The option that `line` holds under `s`, if it holds one.
pub open spec fn option_line(s: StrategyView, line: Seq<char>) -> Option<Seq<char>> {
    match regex_captures(s.option, line) {
        Some(groups) => Some(option_of(groups)),
        None => None,
    }
}

/// The answer label that `line` holds under `s`, if it holds one.
pub open spec fn answer_line(s: StrategyView, line: Seq<char>) -> Option<Seq<char>> {
    match regex_captures(s.answer, line) {
        Some(groups) => Some(answer_of(groups)),
        None => None,
    }
}

/// What `line` is under `s` once it is known not to start a question: an
/// option if the option pattern matches, else an answer if the answer pattern
/// matches, else nothing special.
pub open spec fn classify_body(s: StrategyView, line: Seq<char>) -> LineEventView {
    match option_line(s, line) {
        Some(option) => LineEventView::Choice { option },
        None => match answer_line(s, line) {
            Some(label) => LineEventView::Answer { label },
            None => LineEventView::Other { line },
        },
    }
}

/// What `line` is under `s`. The start of a question takes precedence over
/// an option, and an option over an answer.
pub open spec fn classify(s: StrategyView, line: Seq<char>) -> LineEventView {
    match question_start(s, line) {
        Some(q) => LineEventView::Question { id: q.0, text: q.1 },
        None => classify_body(s, line),
    }
}

/// Whether `label` is a single letter from A to D, in either case, or a
/// single digit from 1 to 4: what an answer line is meant to name.
pub open spec fn is_answer_label(label: Seq<char>) -> bool {
    &&& label.len() == 1
    &&& {
        let n = label[0] as u32;
        0x41 <= n <= 0x44 || 0x61 <= n <= 0x64 || 0x31 <= n <= 0x34
    }
}

/// Whether `token` is one of `A`, `B`, `C`, `D`, `1`, `2`, `3`, `4`.
pub open spec fn is_answer_token(token: Seq<char>) -> bool {
    &&& token.len() == 1
    &&& {
        let n = token[0] as u32;
        0x41 <= n <= 0x44 || 0x31 <= n <= 0x34
    }
}

/// Whether the answer pattern of `s`, on each of `lines` that it matches,
/// captures an answer label. This is a statement about what the pattern
/// matches, which is for `regex` to decide.
pub open spec fn captures_answer_labels(s: StrategyView, lines: Seq<Seq<char>>) -> bool {
    forall|i: int|
        0 <= i < lines.len() ==> (regex_captures(s.answer, #[trigger] lines[i]) matches Some(groups)
            ==> is_answer_label(group_text(groups, 1)))
}

/// The upper-case form of an answer label is an answer token.
pub proof fn lemma_upper_label_is_token(label: Seq<char>)
    requires
        is_answer_label(label),
    ensures
        is_answer_token(upper(label)),
{
    assert(upper(label)[0] == upper_char(label[0]));
}

/// Tells whether `s` is one of `A`, `B`, `C`, `D`, `1`, `2`, `3`, `4`.
pub fn is_token(s: &str) -> (r: bool)
    ensures
        r == is_answer_token(s@),
{
    let chars = to_chars(s);
    if chars.len() != 1 {
        return false;
    }
    let n: u32 = chars[0] as u32;
    (0x41 <= n && n <= 0x44) || (0x31 <= n && n <= 0x34)
}

/// Reads the number and the text out of a question-start match.
pub fn question_fields(groups: &Vec<Option<String>>) -> (r: (u32, String))
    ensures
        (r.0, r.1@) == question_of(groups.deep_view()),
{
    let number = group(groups, 1);
    (parse_number(number.as_str()), group(groups, 2))
}

/// Reads the formatted option out of an option match.
pub fn option_field(groups: &Vec<Option<String>>) -> (r: String)
    ensures
        r@ == option_of(groups.deep_view()),
{
    let label = group(groups, 1);
    let text = group(groups, 2);
    format_option(label.as_str(), text.as_str())
}

/// Reads the upper-cased answer label out of an answer match.
pub fn answer_field(groups: &Vec<Option<String>>) -> (r: String)
    ensures
        r@ == answer_of(groups.deep_view()),
{
    let label = group(groups, 1);
    to_upper(label.as_str())
}

impl Strategy {
    /// The layout with the given patterns, each of which has to compile: the
    /// first is kept as the question pattern, the second as the option
    /// pattern, the third as the answer pattern.
    pub fn new(q: &str, o: &str, a: &str) -> (s: Strategy)
        requires
            patterns_compile(q@, o@, a@),
        ensures
            s@ == layout(q@, o@, a@),
            patterns_compile(s@.question, s@.option, s@.answer),
    {
        Strategy {
            question: String::from_str(q),
            option: String::from_str(o),
            answer: String::from_str(a),
        }
    }

    /// The layout with the given patterns if each of them compiles, and
    /// `None` as soon as one does not.
    pub fn try_new(q: &str, o: &str, a: &str) -> (r: Option<Strategy>)
        ensures
            r is Some <==> patterns_compile(q@, o@, a@),
            r matches Some(s) ==> s@ == layout(q@, o@, a@),
    {
        if compiles(q) && compiles(o) && compiles(a) {
            Some(Strategy::new(q, o, a))
        } else {
            None
        }
    }

    /// The number and first text of the question that `line` starts, if it
    /// starts one.
    pub fn match_question(&self, line: &str) -> (r: Option<(u32, String)>)
        ensures
            r.deep_view() == question_start(self@, line@),
    {
        match capture_groups(self.question.as_str(), line) {
            Some(groups) => Some(question_fields(&groups)),
            None => None,
        }
    }

    /// The formatted option that `line` holds, if it holds one.
    pub fn match_option(&self, line: &str) -> (r: Option<String>)
        ensures
            r.deep_view() == option_line(self@, line@),
    {
        match capture_groups(self.option.as_str(), line) {
            Some(groups) => Some(option_field(&groups)),
            None => None,
        }
    }

    /// The upper-cased answer label that `line` holds, if it holds one.
    pub fn match_answer(&self, line: &str) -> (r: Option<String>)
        ensures
            r.deep_view() == answer_line(self@, line@),
    {
        match capture_groups(self.answer.as_str(), line) {
            Some(groups) => Some(answer_field(&groups)),
            None => None,
        }
    }

    /// What `line` is, given that it does not start a question.
    pub fn classify_body(&self, line: &str) -> (r: LineEvent)
        ensures
            r@ == classify_body(self@, line@),
    {
        match self.match_option(line) {
            Some(option) => LineEvent::Choice { option },
            None => match self.match_answer(line) {
                Some(label) => LineEvent::Answer { label },
                None => LineEvent::Other { line: String::from_str(line) },
            },
        }
    }

    /// What `line` is under this layout.
    pub fn classify(&self, line: &str) -> (r: LineEvent)
        ensures
            r@ == classify(self@, line@),
    {
        match self.match_question(line) {
            Some((id, text)) => LineEvent::Question { id, text },
            None => self.classify_body(line),
        }
    }
}

/// The built-in layouts, in the order in which they are tried. Their
/// patterns are the constants of this module, written out here.
pub fn catalog() -> (r: Vec<Strategy>)
    ensures
        r.deep_view() == catalog_model(),
{
    let mut r: Vec<Strategy> = Vec::new();
    r.push(
        Strategy {
            question: String::from_str(DOT_QUESTION),
            option: String::from_str(DOT_OPTION),
            answer: String::from_str(LETTER_ANSWER),
        },
    );
    r.push(
        Strategy {
            question: String::from_str(PAREN_QUESTION),
            option: String::from_str(PAREN_OPTION),
            answer: String::from_str(LETTER_ANSWER),
        },
    );
    r.push(
        Strategy {
            question: String::from_str(HEADER_QUESTION),
            option: String::from_str(HEADER_OPTION),
            answer: String::from_str(HEADER_ANSWER),
        },
    );
    proof {
        assert(r.deep_view() =~= catalog_model());
    }
    r
}

} // verus!

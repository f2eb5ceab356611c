//! The line-by-line walk that assembles questions under one layout.

use crate::fields::{is_lower, lemma_upper_has_no_lower};
use crate::question::{Question, QuestionView};
use crate::strategy::{
    captures_answer_labels, classify, is_answer_token, lemma_upper_label_is_token,
    question_start, LineEvent, LineEventView, Strategy, StrategyView,
};
use vstd::prelude::*;

verus! {

/// Where a walk stands: the questions already kept, in order, and the one
/// that is being assembled, if any.
pub struct ScanState {
    pub done: Seq<QuestionView>,
    pub open: Option<QuestionView>,
}

/// The state before the first line.
pub open spec fn initial() -> ScanState {
    ScanState { done: Seq::empty(), open: None }
}

/// A question that has just been started.
pub open spec fn fresh(id: u32, text: Seq<char>) -> QuestionView {
    QuestionView { id, text, options: Seq::empty(), correct_answer: Seq::empty() }
}

/// A question is kept only if it has at least two options.
pub open spec fn is_kept(q: QuestionView) -> bool {
    q.options.len() >= 2
}

/// The questions kept once the one being assembled is closed: it joins them
/// if it has at least two options and is dropped otherwise.
pub open spec fn flush(st: ScanState) -> Seq<QuestionView> {
    match st.open {
        Some(q) => if is_kept(q) {
            st.done.push(q)
        } else {
            st.done
        },
        None => st.done,
    }
}

/// What a line that does not start a question does to the question being
/// assembled. An option is appended. An answer replaces the answer so far.
/// Any other line continues the question's text, after a single space, as
/// long as the question has neither option nor answer; after that it is
/// dropped.
pub open spec fn extend(q: QuestionView, ev: LineEventView) -> QuestionView {
    match ev {
        LineEventView::Question { id, text } => q,
        LineEventView::Choice { option } => QuestionView { options: q.options.push(option), ..q },
        LineEventView::Answer { label } => QuestionView { correct_answer: label, ..q },
        LineEventView::Other { line } => if q.options.len() == 0 && q.correct_answer.len() == 0 {
            QuestionView { text: q.text + seq![' '] + line, ..q }
        } else {
            q
        },
    }
}

/// The state after one more line. The start of a question closes the one
/// being assembled and opens a new one; any other line changes the question
/// being assembled, and nothing where there is none.
pub open spec fn step(st: ScanState, ev: LineEventView) -> ScanState {
    match ev {
        LineEventView::Question { id, text } => ScanState {
            done: flush(st),
            open: Some(fresh(id, text)),
        },
        _ => match st.open {
            Some(q) => ScanState { done: st.done, open: Some(extend(q, ev)) },
            None => st,
        },
    }
}

/// The state after the first `n` of `lines` under `s`.
pub open spec fn scan_prefix(s: StrategyView, lines: Seq<Seq<char>>, n: nat) -> ScanState
    decreases n,
{
    if n == 0 {
        initial()
    } else {
        step(scan_prefix(s, lines, (n - 1) as nat), classify(s, lines[n - 1]))
    }
}

/// The questions that `lines` hold under `s`.
pub open spec fn candidates(s: StrategyView, lines: Seq<Seq<char>>) -> Seq<QuestionView> {
    flush(scan_prefix(s, lines, lines.len()))
}

/// Whether every question of `qs` has at least two options.
pub open spec fn all_kept(qs: Seq<QuestionView>) -> bool {
    forall|i: int| 0 <= i < qs.len() ==> is_kept(#[trigger] qs[i])
}

/// Whether `s` holds no ASCII lower-case letter.
pub open spec fn has_no_lower(s: Seq<char>) -> bool {
    forall|i: int| 0 <= i < s.len() ==> !is_lower(#[trigger] s[i])
}

/// Whether the answer of every question of `qs` is free of ASCII lower-case
/// letters.
pub open spec fn answers_upper(qs: Seq<QuestionView>) -> bool {
    forall|i: int| 0 <= i < qs.len() ==> has_no_lower(#[trigger] qs[i].correct_answer)
}

/// An answer that a line yields under a layout holds no ASCII lower-case
/// letter.
pub proof fn lemma_classified_answer_is_upper(s: StrategyView, line: Seq<char>)
    ensures
        classify(s, line) matches LineEventView::Answer { label } ==> has_no_lower(label),
{
    if let LineEventView::Answer { label } = classify(s, line) {
        let groups = crate::pattern::regex_captures(s.answer, line)->0;
        lemma_upper_has_no_lower(crate::pattern::group_text(groups, 1));
    }
}

/// At every point of a walk, the questions kept have at least two options
/// each, and no answer, kept or being assembled, holds an ASCII lower-case
/// letter.
pub proof fn lemma_scan_prefix_sound(s: StrategyView, lines: Seq<Seq<char>>, n: nat)
    requires
        n <= lines.len(),
    ensures
        all_kept(scan_prefix(s, lines, n).done),
        answers_upper(scan_prefix(s, lines, n).done),
        scan_prefix(s, lines, n).open matches Some(q) ==> has_no_lower(q.correct_answer),
    decreases n,
{
    if n > 0 {
        lemma_scan_prefix_sound(s, lines, (n - 1) as nat);
        lemma_classified_answer_is_upper(s, lines[n - 1]);
    }
}

/// The questions that a walk returns have at least two options each, and
/// their answers hold no ASCII lower-case letter.
pub proof fn lemma_candidates_sound(s: StrategyView, lines: Seq<Seq<char>>)
    ensures
        all_kept(candidates(s, lines)),
        answers_upper(candidates(s, lines)),
{
    lemma_scan_prefix_sound(s, lines, lines.len());
}

/// Whether the answer of every question of `qs` is empty or an answer token.
pub open spec fn answers_are_tokens(qs: Seq<QuestionView>) -> bool {
    forall|i: int|
        0 <= i < qs.len() ==> (#[trigger] qs[i]).correct_answer.len() == 0 || is_answer_token(
            qs[i].correct_answer,
        )
}

/// Where the answer pattern captures nothing but answer labels on the lines
/// walked, every answer, kept or being assembled, is empty or an answer
/// token.
pub proof fn lemma_scan_prefix_tokens(s: StrategyView, lines: Seq<Seq<char>>, n: nat)
    requires
        n <= lines.len(),
        captures_answer_labels(s, lines),
    ensures
        answers_are_tokens(scan_prefix(s, lines, n).done),
        scan_prefix(s, lines, n).open matches Some(q) ==> q.correct_answer.len() == 0
            || is_answer_token(q.correct_answer),
    decreases n,
{
    if n > 0 {
        lemma_scan_prefix_tokens(s, lines, (n - 1) as nat);
        let line = lines[n - 1];
        if let LineEventView::Answer { label } = classify(s, line) {
            let groups = crate::pattern::regex_captures(s.answer, line)->0;
            lemma_upper_label_is_token(crate::pattern::group_text(groups, 1));
        }
    }
}

/// Where the answer pattern captures nothing but answer labels on `lines`,
/// every answer of the questions that the walk returns is empty or an answer
/// token.
pub proof fn lemma_candidates_tokens(s: StrategyView, lines: Seq<Seq<char>>)
    requires
        captures_answer_labels(s, lines),
    ensures
        answers_are_tokens(candidates(s, lines)),
{
    lemma_scan_prefix_tokens(s, lines, lines.len());
}

/// As long as no line starts a question, a walk stays where it began.
pub proof fn lemma_scan_without_start(s: StrategyView, lines: Seq<Seq<char>>, n: nat)
    requires
        n <= lines.len(),
        forall|i: int| 0 <= i < n ==> question_start(s, #[trigger] lines[i]) is None,
    ensures
        scan_prefix(s, lines, n) == initial(),
    decreases n,
{
    if n > 0 {
        lemma_scan_without_start(s, lines, (n - 1) as nat);
    }
}

/// The walk itself.
pub struct Scanner {
    done: Vec<Question>,
    open: Option<Question>,
}

impl View for Scanner {
    type V = ScanState;

    closed spec fn view(&self) -> ScanState {
        ScanState { done: self.done.deep_view(), open: self.open.deep_view() }
    }
}

impl Scanner {
    /// A walk that has seen no line.
    pub fn new() -> (r: Scanner)
        ensures
            r@ == initial(),
    {
        let r = Scanner { done: Vec::new(), open: None };
        proof {
            assert(r.done.deep_view() =~= Seq::<QuestionView>::empty());
        }
        r
    }

    /// Whether a question is being assembled.
    pub fn is_open(&self) -> (r: bool)
        ensures
            r == (self@.open is Some),
    {
        self.open.is_some()
    }

    /// Closes the question being assembled, keeping it if it has at least
    /// two options.
    fn close(&mut self)
        ensures
            final(self)@ == (ScanState { done: flush(old(self)@), open: None }),
    {
        let ghost before = self.done.deep_view();
        match self.open.take() {
            Some(q) => {
                if q.options.len() >= 2 {
                    self.done.push(q);
                    proof {
                        assert(self.done.deep_view() =~= before.push(q@));
                    }
                }
            },
            None => {},
        }
    }

    /// Takes one line, given as what it is under the layout.
    pub fn feed(&mut self, event: LineEvent)
        ensures
            final(self)@ == step(old(self)@, event@),
    {
        match event {
            LineEvent::Question { id, text } => {
                self.close();
                let q = Question { id, text, options: Vec::new(), correct_answer: String::new() };
                proof {
                    assert(q.options.deep_view() =~= Seq::<Seq<char>>::empty());
                }
                self.open = Some(q);
            },
            LineEvent::Choice { option } => {
                match self.open.take() {
                    Some(mut q) => {
                        let ghost before = q.options.deep_view();
                        q.options.push(option);
                        proof {
                            assert(q.options.deep_view() =~= before.push(option@));
                        }
                        self.open = Some(q);
                    },
                    None => {},
                }
            },
            LineEvent::Answer { label } => {
                match self.open.take() {
                    Some(mut q) => {
                        q.correct_answer = label;
                        self.open = Some(q);
                    },
                    None => {},
                }
            },
            LineEvent::Other { line } => {
                match self.open.take() {
                    Some(mut q) => {
                        if q.options.len() == 0 && q.correct_answer.as_str().is_empty() {
                            q.text.push(' ');
                            q.text.append(line.as_str());
                            proof {
                                assert(old(self)@.open->0.text.push(' ') =~= old(
                                    self,
                                )@.open->0.text + seq![' ']);
                            }
                        }
                        self.open = Some(q);
                    },
                    None => {},
                }
            },
        }
    }

    /// Takes one line of text and reads it under `strategy`. While no
    /// question is being assembled, only the question pattern is tried.
    pub fn advance(&mut self, strategy: &Strategy, line: &str)
        ensures
            final(self)@ == step(old(self)@, classify(strategy@, line@)),
    {
        match strategy.match_question(line) {
            Some((id, text)) => {
                self.feed(LineEvent::Question { id, text });
            },
            None => {
                if self.is_open() {
                    let event = strategy.classify_body(line);
                    self.feed(event);
                }
            },
        }
    }

    /// Ends the walk: closes the question being assembled and hands out the
    /// questions kept.
    pub fn finish(self) -> (r: Vec<Question>)
        ensures
            r.deep_view() == flush(self@),
    {
        let mut s = self;
        s.close();
        s.done
    }
}

/// Walks `lines` under `strategy` and returns the questions they hold.
pub fn scan(strategy: &Strategy, lines: &Vec<String>) -> (r: Vec<Question>)
    ensures
        r.deep_view() == candidates(strategy@, lines.deep_view()),
{
    let mut scanner = Scanner::new();
    let mut i: usize = 0;
    while i < lines.len()
        invariant
            i <= lines.len(),
            scanner@ == scan_prefix(strategy@, lines.deep_view(), i as nat),
        decreases lines.len() - i,
    {
        scanner.advance(strategy, lines[i].as_str());
        i += 1;
    }
    scanner.finish()
}

} // verus!

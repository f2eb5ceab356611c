//! The parser: from raw text to the questions it holds.

use crate::question::{
    failure, success, ParseResult, ParseResultView, Question, QuestionView, NO_FORMAT_MESSAGE,
};
use crate::scanner::{
    all_kept, answers_are_tokens, answers_upper, candidates, has_no_lower, is_kept,
    lemma_candidates_sound, lemma_candidates_tokens, lemma_scan_without_start,
};
use crate::select::{
    best_of, candidate_lists, lemma_best_is_first_maximum, lemma_best_is_one_of, select_best,
};
use crate::strategy::{
    captures_answer_labels, catalog, catalog_model, is_answer_token, is_token, question_start,
};
use crate::text::{clean_lines, preprocess};
use vstd::prelude::*;

verus! {

/// The result for the list of questions kept: a failure where it is empty.
pub open spec fn assemble_model(best: Seq<QuestionView>) -> ParseResultView {
    if best.len() == 0 {
        failure(NO_FORMAT_MESSAGE@)
    } else {
        success(best)
    }
}

/// The questions that `lines` hold: the best list over the built-in layouts.
pub open spec fn best_questions(lines: Seq<Seq<char>>) -> Seq<QuestionView> {
    best_of(candidate_lists(catalog_model(), lines))
}

/// The result of parsing lines that are already trimmed and non-empty.
pub open spec fn parse_lines_model(lines: Seq<Seq<char>>) -> ParseResultView {
    assemble_model(best_questions(lines))
}

/// The result of parsing `text`.
pub open spec fn parse_model(text: Seq<char>) -> ParseResultView {
    parse_lines_model(clean_lines(text))
}

/// Text of which no line starts a question under any built-in layout gives
/// the invalid result: no question, and the message that no layout was
/// recognised.
pub proof fn lemma_no_question_start_is_no_format(text: Seq<char>)
    requires
        forall|k: int, i: int|
            0 <= k < catalog_model().len() && 0 <= i < clean_lines(text).len() ==> question_start(
                #[trigger] catalog_model()[k],
                #[trigger] clean_lines(text)[i],
            ) is None,
    ensures
        parse_model(text) == failure(NO_FORMAT_MESSAGE@),
{
    let lines = clean_lines(text);
    let lists = candidate_lists(catalog_model(), lines);
    assert forall|k: int| 0 <= k < lists.len() implies (#[trigger] lists[k]).len() == 0 by {
        let s = catalog_model()[k];
        assert forall|i: int| 0 <= i < lines.len() implies question_start(
            s,
            #[trigger] lines[i],
        ) is None by {
            assert(question_start(catalog_model()[k], clean_lines(text)[i]) is None);
        }
        lemma_scan_without_start(s, lines, lines.len());
    }
    lemma_best_is_one_of(lists);
}

/// Parsing is a function of the text: two results for the same text are the
/// same, field by field and character by character.
pub proof fn lemma_parse_is_deterministic(a: ParseResult, b: ParseResult, text: Seq<char>)
    requires
        a@ == parse_model(text),
        b@ == parse_model(text),
    ensures
        a@ == b@,
        a.valid == b.valid,
        a.error.deep_view() == b.error.deep_view(),
        a.questions.deep_view() == b.questions.deep_view(),
{
}

/// Every question of a result has at least two options.
pub proof fn lemma_questions_have_two_options(lines: Seq<Seq<char>>)
    ensures
        all_kept(parse_lines_model(lines).questions),
{
    lemma_best_questions_sound(lines);
}

/// No answer of a result holds an ASCII lower-case letter: an answer is
/// either empty or the upper-cased label that an answer line gave.
pub proof fn lemma_answers_are_upper_case(lines: Seq<Seq<char>>)
    ensures
        answers_upper(parse_lines_model(lines).questions),
{
    lemma_best_questions_sound(lines);
}

/// Where the answer patterns of the built-in layouts capture nothing but
/// answer labels on the lines given, every answer of the result is empty or
/// one of `A`, `B`, `C`, `D`, `1`, `2`, `3`, `4`. What the patterns capture is
/// not proved here: it is the premise.
pub proof fn lemma_answers_are_tokens(lines: Seq<Seq<char>>)
    requires
        forall|k: int|
            0 <= k < catalog_model().len() ==> captures_answer_labels(
                #[trigger] catalog_model()[k],
                lines,
            ),
    ensures
        answers_are_tokens(parse_lines_model(lines).questions),
{
    let lists = candidate_lists(catalog_model(), lines);
    lemma_best_is_one_of(lists);
    if best_of(lists).len() > 0 {
        let k = choose|k: int| 0 <= k < lists.len() && #[trigger] lists[k] == best_of(lists);
        assert(captures_answer_labels(catalog_model()[k], lines));
        lemma_candidates_tokens(catalog_model()[k], lines);
    }
}

/// A result is valid exactly when it has a question, and it carries the
/// message exactly when it has none.
pub proof fn lemma_valid_iff_questions(lines: Seq<Seq<char>>)
    ensures
        parse_lines_model(lines).valid <==> parse_lines_model(lines).questions.len() > 0,
        parse_lines_model(lines).valid <==> parse_lines_model(lines).error is None,
        !parse_lines_model(lines).valid ==> parse_lines_model(lines).error == Some(
            NO_FORMAT_MESSAGE@,
        ),
{
}

/// The result holds the questions of exactly one layout: the first to reach
/// the greatest score.
pub proof fn lemma_questions_come_from_one_layout(lines: Seq<Seq<char>>)
    requires
        parse_lines_model(lines).valid,
    ensures
        exists|k: int|
            0 <= k < catalog_model().len() && parse_lines_model(lines).questions == candidates(
                #[trigger] catalog_model()[k],
                lines,
            ),
{
    let lists = candidate_lists(catalog_model(), lines);
    lemma_best_is_first_maximum(lists);
    let k = choose|k: int| 0 <= k < lists.len() && #[trigger] lists[k] == best_of(lists);
    assert(lists[k] == candidates(catalog_model()[k], lines));
}

proof fn lemma_best_questions_sound(lines: Seq<Seq<char>>)
    ensures
        all_kept(best_questions(lines)),
        answers_upper(best_questions(lines)),
        all_kept(parse_lines_model(lines).questions),
        answers_upper(parse_lines_model(lines).questions),
{
    let lists = candidate_lists(catalog_model(), lines);
    lemma_best_is_one_of(lists);
    if best_of(lists).len() > 0 {
        let k = choose|k: int| 0 <= k < lists.len() && #[trigger] lists[k] == best_of(lists);
        lemma_candidates_sound(catalog_model()[k], lines);
    }
}

/// Tells whether the answer of every question is empty or one of `A`, `B`,
/// `C`, `D`, `1`, `2`, `3`, `4`.
pub fn has_token_answers(questions: &Vec<Question>) -> (r: bool)
    ensures
        r == answers_are_tokens(questions.deep_view()),
{
    let mut i: usize = 0;
    while i < questions.len()
        invariant
            i <= questions.len(),
            answers_are_tokens(questions.deep_view().take(i as int)),
        decreases questions.len() - i,
    {
        let answer = questions[i].correct_answer.as_str();
        if !answer.is_empty() && !is_token(answer) {
            proof {
                assert(questions.deep_view()[i as int].correct_answer == answer@);
            }
            return false;
        }
        proof {
            let all = questions.deep_view();
            assert forall|k: int| 0 <= k < i + 1 implies (#[trigger] all.take(i + 1)[k]).correct_answer.len()
                == 0 || is_answer_token(all.take(i + 1)[k].correct_answer) by {
                if k < i {
                    assert(all.take(i as int)[k] == all.take(i + 1)[k]);
                }
            }
        }
        i += 1;
    }
    proof {
        assert(questions.deep_view().take(questions.len() as int) =~= questions.deep_view());
    }
    true
}

/// Turns the list of questions kept into a result.
pub fn assemble(best: Vec<Question>) -> (r: ParseResult)
    ensures
        r@ == assemble_model(best.deep_view()),
        r.well_formed(),
{
    if best.len() == 0 {
        ParseResult::no_format()
    } else {
        ParseResult::found(best)
    }
}

/// Parses lines that are already trimmed and non-empty.
pub fn parse_lines(lines: &Vec<String>) -> (r: ParseResult)
    ensures
        r@ == parse_lines_model(lines.deep_view()),
        r.well_formed(),
        all_kept(r@.questions),
        answers_upper(r@.questions),
{
    proof {
        lemma_best_questions_sound(lines.deep_view());
    }
    let strategies = catalog();
    assemble(select_best(&strategies, lines))
}

/// Parses the text of an exam into its questions. The text is read under
/// each built-in layout, and the reading with the greatest score is
/// returned; where no layout yields a question, the result is invalid and
/// says so.
pub fn parse_questions_from_text(text: &str) -> (r: ParseResult)
    ensures
        r@ == parse_model(text@),
        r.well_formed(),
        r.valid <==> r.questions@.len() > 0,
        forall|i: int|
            0 <= i < r.questions@.len() ==> (#[trigger] r.questions@[i]).options@.len() >= 2,
        forall|i: int|
            0 <= i < r.questions@.len() ==> has_no_lower(
                (#[trigger] r.questions@[i]).correct_answer@,
            ),
{
    let lines = preprocess(text);
    let r = parse_lines(&lines);
    proof {
        assert forall|i: int| 0 <= i < r.questions@.len() implies (#[trigger] r.questions@[i]).options@.len()
            >= 2 && has_no_lower(r.questions@[i].correct_answer@) by {
            let q = r.questions@[i];
            assert(r@.questions[i] == q@);
            assert(is_kept(r@.questions[i]));
            assert(has_no_lower(r@.questions[i].correct_answer));
            assert(q@.options.len() == q.options@.len());
        }
    }
    r
}

} // verus!

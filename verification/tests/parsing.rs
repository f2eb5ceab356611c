use exam_parser::parsing::{assemble, has_token_answers, parse_lines};
use exam_parser::upstream::{join_pages, needs_recognition, parse_recognised, FALLBACK_THRESHOLD};
use exam_parser::{parse_questions_from_text, ParseResult, Question};

fn lines(v: &[&str]) -> Vec<String> {
    v.iter().map(|s| s.to_string()).collect()
}

fn record(id: u32, text: &str, options: &[&str], correct_answer: &str) -> Question {
    Question {
        id,
        text: text.to_string(),
        options: lines(options),
        correct_answer: correct_answer.to_string(),
    }
}

fn no_format() -> ParseResult {
    ParseResult {
        valid: false,
        questions: Vec::new(),
        error: Some("Could not detect a valid exam format.".to_string()),
    }
}

#[test]
fn empty_text_is_invalid() {
    assert_eq!(parse_questions_from_text(""), no_format());
    assert_eq!(parse_questions_from_text("   \n\n\t"), no_format());
}

#[test]
fn text_without_question_start_is_invalid() {
    let samples = [
        "A. x\nB. y\nAnswer: A",
        "Answer: B",
        "one\ntwo\nthree",
        "(a) Paris\n(b) Lyon",
        "1.No space after the dot\nA. x\nB. y",
    ];
    for s in samples {
        assert_eq!(parse_questions_from_text(s), no_format(), "{:?}", s);
    }
}

#[test]
fn question_starts_without_enough_options_are_invalid() {
    assert_eq!(parse_questions_from_text("1. Alone"), no_format());
    assert_eq!(parse_questions_from_text("1. One option\nA. x\nAnswer: A"), no_format());
}

#[test]
fn parsing_twice_gives_the_same_result() {
    let text = "Exam\n1. One?\nA. x\nB. y\nAnswer: a\n2) Two?\na) p\nb) q\n";
    let a = parse_questions_from_text(text);
    let b = parse_questions_from_text(text);
    assert_eq!(a, b);
    assert_eq!(format!("{:?}", a), format!("{:?}", b));
}

#[test]
fn every_question_has_at_least_two_options() {
    let text = "1. One?\nA. x\n2. Two?\nA. x\nB. y\n3. Three?\n4. Four?\nA. x\nB. y\nC. z\nD. w";
    let r = parse_questions_from_text(text);
    assert!(r.valid);
    assert_eq!(r.questions.len(), 2);
    assert_eq!(r.questions[0].id, 2);
    assert_eq!(r.questions[1].id, 4);
    for q in &r.questions {
        assert!(q.options.len() >= 2);
    }
}

#[test]
fn answers_are_upper_case() {
    let r = parse_questions_from_text("1. One?\na. x\nb. y\nanswer: b\n2. Two?\na. x\nb. y\nCORRECT : d");
    assert_eq!(r.questions[0].correct_answer, "B");
    assert_eq!(r.questions[1].correct_answer, "D");
    assert_eq!(r.questions[0].options, lines(&["a. x", "b. y"]));
}

#[test]
fn header_style_accepts_digit_answers() {
    let r = parse_questions_from_text("Question 5. Pick\n(1) one\n(2) two\nAnswer: 2");
    assert_eq!(
        r,
        ParseResult {
            valid: true,
            questions: vec![record(5, "Pick", &["1. one", "2. two"], "2")],
            error: None,
        }
    );
}

#[test]
fn parenthesis_style_is_found() {
    let r = parse_questions_from_text("1) First?\n  a) x\n  b) y\n  Answer: B\n2) Second?\n  a) p\n  b) q\n");
    assert_eq!(
        r.questions,
        vec![
            record(1, "First?", &["a. x", "b. y"], "B"),
            record(2, "Second?", &["a. p", "b. q"], ""),
        ]
    );
}

#[test]
fn layout_with_more_answers_is_preferred() {
    let text = "Q1: One?\n(1) x\n(2) y\nAnswer: 1\n1. Other?\nA. p\nB. q\n";
    let r = parse_questions_from_text(text);
    assert_eq!(r.questions, vec![record(1, "One?", &["1. x", "2. y"], "1")]);
}

#[test]
fn earlier_layout_is_kept_on_equal_scores() {
    let text = "Q1: One?\n(a) x\n(b) y\n1. Other?\nA. p\nB. q\n";
    let r = parse_questions_from_text(text);
    assert_eq!(r.questions, vec![record(1, "Other?", &["A. p", "B. q"], "")]);
}

#[test]
fn multi_line_question_and_noise() {
    let text = "Preamble\n1. What is the\n   capital of France?\nA. Paris\nsome noise\nB. Lyon\nAnswer: A\ntrailing";
    let r = parse_questions_from_text(text);
    assert_eq!(
        r.questions,
        vec![record(1, "What is the capital of France?", &["A. Paris", "B. Lyon"], "A")]
    );
}

#[test]
fn unreadable_id_is_zero() {
    let r = parse_questions_from_text("99999999999. Big?\nA. x\nB. y");
    assert!(r.valid);
    assert_eq!(r.questions[0].id, 0);
}

#[test]
fn windows_line_endings_are_handled() {
    let r = parse_questions_from_text("1. One?\r\nA. x\r\nB. y\r\nAnswer: B\r\n");
    assert_eq!(r.questions, vec![record(1, "One?", &["A. x", "B. y"], "B")]);
}

#[test]
fn parse_lines_takes_prepared_lines() {
    let r = parse_lines(&lines(&["1. One?", "A. x", "B. y"]));
    assert_eq!(r.questions, vec![record(1, "One?", &["A. x", "B. y"], "")]);
    assert_eq!(parse_lines(&Vec::new()), no_format());
}

#[test]
fn assemble_fails_on_an_empty_list() {
    assert_eq!(assemble(Vec::new()), no_format());
    let q = record(1, "Q", &["A. x", "B. y"], "A");
    assert_eq!(
        assemble(vec![q.clone()]),
        ParseResult { valid: true, questions: vec![q], error: None }
    );
}

#[test]
fn result_constructors() {
    assert_eq!(ParseResult::no_format(), no_format());
    assert_eq!(
        ParseResult::recognition_failed("tesseract missing"),
        ParseResult {
            valid: false,
            questions: Vec::new(),
            error: Some("OCR failed after native fallback: tesseract missing".to_string()),
        }
    );
    let q = record(1, "Q", &["A. x", "B. y"], "");
    assert_eq!(
        ParseResult::found(vec![q.clone()]),
        ParseResult { valid: true, questions: vec![q], error: None }
    );
}

#[test]
fn short_text_needs_recognition() {
    assert_eq!(FALLBACK_THRESHOLD, 50);
    assert!(needs_recognition(""));
    assert!(needs_recognition("   \n   "));
    let forty_nine = "x".repeat(49);
    let fifty = "x".repeat(50);
    assert!(needs_recognition(&forty_nine));
    assert!(!needs_recognition(&fifty));
    assert!(needs_recognition(&format!("   {}\n\n", forty_nine)));
    assert!(!needs_recognition(&format!("   {}\n\n", fifty)));
    let padded = format!("{}{}", "y".repeat(10), " ".repeat(100));
    assert!(needs_recognition(&padded));
    let inner = format!("a{}b", " ".repeat(48));
    assert!(!needs_recognition(&inner));
}

#[test]
fn threshold_counts_characters() {
    assert!(needs_recognition(&"é".repeat(49)));
    assert!(!needs_recognition(&"é".repeat(50)));
}

#[test]
fn pages_are_joined_with_line_feeds() {
    assert_eq!(join_pages(&Vec::new()), "");
    assert_eq!(join_pages(&lines(&["one"])), "one\n");
    assert_eq!(join_pages(&lines(&["one", "", "three\n"])), "one\n\nthree\n\n");
}

#[test]
fn recognition_outcome_is_concluded() {
    let text = "1. What is 2+2?\nA. 3\nB. 4\nAnswer: B".to_string();
    assert_eq!(parse_recognised(Ok(text.clone())), parse_questions_from_text(&text));
    assert_eq!(
        parse_recognised(Err("boom".to_string())),
        ParseResult {
            valid: false,
            questions: Vec::new(),
            error: Some("OCR failed after native fallback: boom".to_string()),
        }
    );
}

#[test]
fn joined_pages_parse_as_one_text() {
    let pages = lines(&["1. One?\nA. x", "B. y\nAnswer: A"]);
    let r = parse_questions_from_text(&join_pages(&pages));
    assert_eq!(r.questions, vec![record(1, "One?", &["A. x", "B. y"], "A")]);
}

#[test]
fn answers_of_parsed_text_are_tokens() {
    let texts = [
        "1. What is 2+2?\nA. 3\nB. 4\nAnswer: B",
        "Q1: Capital of France?\n(a) Paris\n(b) Lyon\nAns: a",
        "Question 5. Pick\n(1) one\n(2) two\nAnswer: 2",
        "1) First?\na) x\nb) y\ncorrect : d\n2) Second?\na) p\nb) q\n",
        "1. No answer\nA. x\nB. y",
        "nothing here",
    ];
    for t in texts {
        assert!(has_token_answers(&parse_questions_from_text(t).questions), "{:?}", t);
    }
}

#[test]
fn token_test_tells_answers_apart() {
    assert!(has_token_answers(&Vec::new()));
    assert!(has_token_answers(&vec![
        record(1, "Q", &["A. x", "B. y"], ""),
        record(2, "Q", &["A. x", "B. y"], "C"),
        record(3, "Q", &["1. x", "2. y"], "4"),
    ]));
    assert!(!has_token_answers(&vec![record(1, "Q", &["A. x", "B. y"], "c")]));
    assert!(!has_token_answers(&vec![
        record(1, "Q", &["A. x", "B. y"], "A"),
        record(2, "Q", &["A. x", "B. y"], "AB"),
    ]));
    assert!(!has_token_answers(&vec![record(1, "Q", &["A. x", "B. y"], "E")]));
}

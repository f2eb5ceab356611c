use exam_parser::select::{score, select_best};
use exam_parser::strategy::{catalog, Strategy};
use exam_parser::Question;

fn layout(q: &str, o: &str, a: &str) -> Strategy {
    match Strategy::try_new(q, o, a) {
        Some(s) => s,
        None => panic!("a pattern of the layout does not compile"),
    }
}

fn lines(v: &[&str]) -> Vec<String> {
    v.iter().map(|s| s.to_string()).collect()
}

fn record(id: u32, correct_answer: &str) -> Question {
    Question {
        id,
        text: "t".to_string(),
        options: lines(&["A. x", "B. y"]),
        correct_answer: correct_answer.to_string(),
    }
}

#[test]
fn score_counts_questions_once_and_answers_twice() {
    assert_eq!(score(&Vec::new()), 0);
    assert_eq!(score(&vec![record(1, "")]), 1);
    assert_eq!(score(&vec![record(1, "A")]), 3);
    assert_eq!(score(&vec![record(1, "A"), record(2, "")]), 4);
    assert_eq!(score(&vec![record(1, "A"), record(2, ""), record(3, "C")]), 7);
    assert_eq!(score(&vec![record(1, ""), record(2, ""), record(3, "")]), 3);
}

#[test]
fn more_answers_beat_as_many_questions() {
    let with_answer = layout(r"^(\d+)\. (.+)", r"^([a-d])\) (.+)", r"^Key: ([a-d])");
    let without_answer = layout(r"^(\d+)\. (.+)", r"^([a-d])\) (.+)", r"^Solution: ([a-d])");
    let text = lines(&["1. One?", "a) x", "b) y", "Key: a"]);
    let want = vec![Question {
        id: 1,
        text: "One?".to_string(),
        options: lines(&["a. x", "b. y"]),
        correct_answer: "A".to_string(),
    }];
    assert_eq!(select_best(&vec![with_answer.clone(), without_answer.clone()], &text), want);
    assert_eq!(select_best(&vec![without_answer, with_answer], &text), want);
}

#[test]
fn more_questions_with_answers_beat_more_bare_questions() {
    let bare = layout(r"^(\d+)\. (.+)", r"^([a-d])\) (.+)", r"^never$ (x)");
    let keyed = layout(r"^(1)\. (.+)", r"^([a-d])\) (.+)", r"^Key: ([a-d])");
    let text = lines(&["1. One?", "a) x", "b) y", "Key: a", "2. Two?", "a) x", "b) y"]);
    let best = select_best(&vec![bare, keyed], &text);
    assert_eq!(best.len(), 1);
    assert_eq!(best[0].correct_answer, "A");
    assert_eq!(best[0].options, lines(&["a. x", "b. y", "a. x", "b. y"]));
}

#[test]
fn on_a_tie_the_earlier_layout_is_kept() {
    let whole = layout(r"^(\d+)\. (.+)", r"^([a-d])\) (.+)", r"^Key: ([a-d])");
    let first_word = layout(r"^(\d+)\. (\w+)", r"^([a-d])\) (.+)", r"^Key: ([a-d])");
    let text = lines(&["1. One two three", "a) x", "b) y", "Key: b"]);
    let a = select_best(&vec![whole.clone(), first_word.clone()], &text);
    assert_eq!(a[0].text, "One two three");
    let b = select_best(&vec![first_word, whole], &text);
    assert_eq!(b[0].text, "One");
}

#[test]
fn later_layout_wins_only_with_a_greater_score() {
    let c = catalog();
    let text = lines(&["1) One?", "a) x", "b) y", "Answer: a"]);
    let best = select_best(&c, &text);
    assert_eq!(best.len(), 1);
    assert_eq!(best[0].options, lines(&["a. x", "b. y"]));
}

#[test]
fn nothing_is_kept_when_no_layout_finds_a_question() {
    assert!(select_best(&catalog(), &lines(&["just", "some", "words"])).is_empty());
    assert!(select_best(&Vec::new(), &lines(&["1. One?", "A. x", "B. y"])).is_empty());
    assert!(select_best(&catalog(), &Vec::new()).is_empty());
}

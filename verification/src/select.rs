//! Scoring the questions found under each layout and keeping the best list.

use crate::question::{is_complete, Question, QuestionView};
use crate::scanner::{candidates, scan};
use crate::strategy::{Strategy, StrategyView};
use vstd::prelude::*;

verus! {

/// How many of `qs` have an answer.
pub open spec fn complete_count(qs: Seq<QuestionView>) -> nat {
    qs.filter(|q: QuestionView| is_complete(q)).len()
}

/// The score of a list of questions: one for each question and two more for
/// each question that has an answer.
pub open spec fn score_of(qs: Seq<QuestionView>) -> nat {
    qs.len() + 2 * complete_count(qs)
}

/// The list kept after the first `n` of `lists`: a list replaces the one kept
/// so far only if its score is strictly greater. Nothing is kept at first, an
/// empty list with score 0.
pub open spec fn best_prefix(lists: Seq<Seq<QuestionView>>, n: nat) -> Seq<QuestionView>
    decreases n,
{
    if n == 0 {
        Seq::empty()
    } else {
        let kept = best_prefix(lists, (n - 1) as nat);
        if score_of(lists[n - 1]) > score_of(kept) {
            lists[n - 1]
        } else {
            kept
        }
    }
}

/// The list kept out of `lists`.
pub open spec fn best_of(lists: Seq<Seq<QuestionView>>) -> Seq<QuestionView> {
    best_prefix(lists, lists.len())
}

/// The question lists that `lines` give under each of `strategies`.
pub open spec fn candidate_lists(strategies: Seq<StrategyView>, lines: Seq<Seq<char>>) -> Seq<
    Seq<QuestionView>,
> {
    Seq::new(strategies.len(), |i: int| candidates(strategies[i], lines))
}

/// The score of the empty list is 0, and only the empty list has score 0.
pub proof fn lemma_score_zero(qs: Seq<QuestionView>)
    ensures
        score_of(qs) == 0 <==> qs.len() == 0,
        complete_count(qs) <= qs.len(),
        score_of(qs) <= 3 * qs.len(),
{
    qs.lemma_filter_len(|q: QuestionView| is_complete(q));
}

/// Counting the complete questions, one more question at a time.
pub proof fn lemma_complete_count_push(qs: Seq<QuestionView>, q: QuestionView)
    ensures
        complete_count(qs.push(q)) == complete_count(qs) + (if is_complete(q) {
            1nat
        } else {
            0nat
        }),
{
    qs.lemma_filter_push(q, |q: QuestionView| is_complete(q));
}

/// Of two lists with as many questions, the one with more answers has the
/// greater score, and it is the one kept, whichever comes first.
pub proof fn lemma_more_answers_win(a: Seq<QuestionView>, b: Seq<QuestionView>)
    requires
        a.len() == b.len(),
        complete_count(a) > complete_count(b),
    ensures
        score_of(a) > score_of(b),
        best_of(seq![a, b]) == a,
        best_of(seq![b, a]) == a,
{
    reveal_with_fuel(best_prefix, 3);
    lemma_score_zero(Seq::<QuestionView>::empty());
    lemma_score_zero(a);
    lemma_score_zero(b);
}

/// Of two lists with the same score, the earlier one is kept.
pub proof fn lemma_tie_keeps_earlier(a: Seq<QuestionView>, b: Seq<QuestionView>)
    requires
        score_of(a) == score_of(b),
    ensures
        best_of(seq![a, b]) == a,
{
    reveal_with_fuel(best_prefix, 3);
    lemma_score_zero(Seq::<QuestionView>::empty());
    lemma_score_zero(a);
    if a.len() == 0 {
        assert(a =~= Seq::<QuestionView>::empty());
    }
}

/// What is kept is the first list with the greatest score: no list scores
/// more, and no earlier list scores as much. Where every list scores 0,
/// nothing is kept.
pub proof fn lemma_best_is_first_maximum(lists: Seq<Seq<QuestionView>>)
    ensures
        forall|i: int| 0 <= i < lists.len() ==> score_of(#[trigger] lists[i]) <= score_of(best_of(lists)),
        best_of(lists).len() == 0 ==> forall|i: int|
            0 <= i < lists.len() ==> (#[trigger] lists[i]).len() == 0,
        best_of(lists).len() > 0 ==> exists|k: int|
            0 <= k < lists.len() && #[trigger] lists[k] == best_of(lists) && forall|i: int|
                0 <= i < k ==> score_of(#[trigger] lists[i]) < score_of(lists[k]),
{
    lemma_best_prefix(lists, lists.len());
    let best = best_of(lists);
    lemma_score_zero(best);
    assert forall|i: int| 0 <= i < lists.len() && best.len() == 0 implies (#[trigger] lists[i]).len()
        == 0 by {
        lemma_score_zero(lists[i]);
    }
}

proof fn lemma_best_prefix(lists: Seq<Seq<QuestionView>>, n: nat)
    requires
        n <= lists.len(),
    ensures
        forall|i: int| 0 <= i < n ==> score_of(#[trigger] lists[i]) <= score_of(best_prefix(lists, n)),
        best_prefix(lists, n).len() > 0 ==> exists|k: int|
            0 <= k < n && #[trigger] lists[k] == best_prefix(lists, n) && forall|i: int|
                0 <= i < k ==> score_of(#[trigger] lists[i]) < score_of(lists[k]),
    decreases n,
{
    if n > 0 {
        let m = (n - 1) as nat;
        lemma_best_prefix(lists, m);
        let kept = best_prefix(lists, m);
        let now = best_prefix(lists, n);
        if score_of(lists[n - 1]) > score_of(kept) {
            assert(lists[n - 1] == now);
        } else if now.len() > 0 {
            let k = choose|k: int|
                0 <= k < m && #[trigger] lists[k] == kept && forall|i: int|
                    0 <= i < k ==> score_of(#[trigger] lists[i]) < score_of(lists[k]);
            assert(lists[k] == now);
        }
    }
}

/// What is kept is either nothing or one of the lists.
pub proof fn lemma_best_is_one_of(lists: Seq<Seq<QuestionView>>)
    ensures
        best_of(lists).len() == 0 || exists|k: int|
            0 <= k < lists.len() && #[trigger] lists[k] == best_of(lists),
{
    lemma_best_is_first_maximum(lists);
}

/// The score of `qs`. It is computed in 128 bits, where three times a length
/// always fits.
pub fn score(qs: &Vec<Question>) -> (r: u128)
    ensures
        r == score_of(qs.deep_view()),
{
    let mut complete: usize = 0;
    let mut i: usize = 0;
    let ghost all = qs.deep_view();
    proof {
        assert(all.take(0) =~= Seq::<QuestionView>::empty());
        lemma_score_zero(all.take(0));
    }
    while i < qs.len()
        invariant
            i <= qs.len(),
            all == qs.deep_view(),
            complete == complete_count(all.take(i as int)),
            complete <= i,
        decreases qs.len() - i,
    {
        proof {
            assert(all.take(i + 1) =~= all.take(i as int).push(all[i as int]));
            lemma_complete_count_push(all.take(i as int), all[i as int]);
        }
        if !qs[i].correct_answer.as_str().is_empty() {
            complete += 1;
        }
        i += 1;
    }
    proof {
        assert(all.take(qs.len() as int) =~= all);
    }
    qs.len() as u128 + 2 * (complete as u128)
}

/// Walks `lines` under each of `strategies` in turn and returns the list of
/// questions with the greatest score, the earliest of them on a tie.
pub fn select_best(strategies: &Vec<Strategy>, lines: &Vec<String>) -> (best: Vec<Question>)
    ensures
        best.deep_view() == best_of(candidate_lists(strategies.deep_view(), lines.deep_view())),
{
    let mut best: Vec<Question> = Vec::new();
    let mut max_score: u128 = 0;
    let mut i: usize = 0;
    let ghost lists = candidate_lists(strategies.deep_view(), lines.deep_view());
    proof {
        assert(best.deep_view() =~= Seq::<QuestionView>::empty());
        lemma_score_zero(best.deep_view());
    }
    while i < strategies.len()
        invariant
            i <= strategies.len(),
            lists == candidate_lists(strategies.deep_view(), lines.deep_view()),
            best.deep_view() == best_prefix(lists, i as nat),
            max_score == score_of(best.deep_view()),
        decreases strategies.len() - i,
    {
        let found = scan(&strategies[i], lines);
        let found_score = score(&found);
        if found_score > max_score {
            max_score = found_score;
            best = found;
        }
        i += 1;
    }
    best
}

} // verus!

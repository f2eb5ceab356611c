//! The boundary with the step that produces the text: when extracted text is
//! too short to be trusted, how recognised pages are joined, and what becomes
//! of a recognition that failed.

use crate::parsing::{parse_model, parse_questions_from_text};
use crate::question::{failure, ParseResult, RECOGNITION_FAILED_PREFIX};
use crate::text::{to_chars, trim, trim_bounds};
use vstd::prelude::*;

verus! {

/// Extracted text with fewer characters than this, once trimmed, is not
/// trusted.
pub const FALLBACK_THRESHOLD: usize = 50;

/// Whether `text`, once trimmed, is shorter than the threshold.
pub open spec fn is_too_short(text: Seq<char>) -> bool {
    trim(text).len() < FALLBACK_THRESHOLD
}

/// The pages one after the other, a line feed after each.
pub open spec fn joined_pages(pages: Seq<Seq<char>>) -> Seq<char>
    decreases pages.len(),
{
    if pages.len() == 0 {
        Seq::empty()
    } else {
        joined_pages(pages.drop_last()) + pages.last() + seq!['\n']
    }
}

/// Tells whether extracted text is too short to be parsed, so that the
/// document has to be recognised from its page images instead.
pub fn needs_recognition(text: &str) -> (r: bool)
    ensures
        r == is_too_short(text@),
{
    let chars = to_chars(text);
    let (a, b) = trim_bounds(&chars, 0, chars.len());
    proof {
        assert(chars@.subrange(0, chars@.len() as int) =~= chars@);
    }
    b - a < FALLBACK_THRESHOLD
}

/// Joins the text of the pages, in the order given, into one text.
pub fn join_pages(pages: &Vec<String>) -> (r: String)
    ensures
        r@ == joined_pages(pages.deep_view()),
{
    let mut out = String::new();
    let mut i: usize = 0;
    let ghost all = pages.deep_view();
    while i < pages.len()
        invariant
            i <= pages.len(),
            all == pages.deep_view(),
            out@ == joined_pages(all.take(i as int)),
        decreases pages.len() - i,
    {
        proof {
            assert(all.take(i + 1).drop_last() =~= all.take(i as int));
            assert(all.take(i + 1).last() == pages@[i as int]@);
        }
        let ghost before = out@;
        out.append(pages[i].as_str());
        out.push('\n');
        proof {
            assert((before + pages@[i as int]@).push('\n') =~= before + pages@[i as int]@ + seq![
                '\n',
            ]);
        }
        i += 1;
    }
    proof {
        assert(all.take(pages.len() as int) =~= all);
    }
    out
}

/// Concludes on the outcome of recognition: recognised text is parsed, and a
/// failure becomes the invalid result that carries its reason.
pub fn parse_recognised(outcome: Result<String, String>) -> (r: ParseResult)
    ensures
        r.well_formed(),
        match outcome {
            Ok(text) => r@ == parse_model(text@),
            Err(reason) => r@ == failure(RECOGNITION_FAILED_PREFIX@ + reason@),
        },
{
    match outcome {
        Ok(text) => parse_questions_from_text(text.as_str()),
        Err(reason) => ParseResult::recognition_failed(reason.as_str()),
    }
}

} // verus!

//! Turning captured text into question fields: the numeric identifier, the
//! upper-cased answer label and the formatted option.

use crate::text::to_chars;
use vstd::prelude::*;

verus! {

/// Whether `c` is one of the ASCII digits `0` to `9`.
pub open spec fn is_digit(c: char) -> bool {
    0x30 <= c as u32 <= 0x39
}

/// The value of an ASCII digit.
pub open spec fn digit_value(c: char) -> nat {
    if is_digit(c) {
        (c as u32 - 0x30) as nat
    } else {
        0
    }
}

/// Whether every character of `s` is an ASCII digit.
pub open spec fn all_digits(s: Seq<char>) -> bool {
    forall|i: int| 0 <= i < s.len() ==> is_digit(#[trigger] s[i])
}

/// The number that the digits of `s` write in base ten.
pub open spec fn decimal_value(s: Seq<char>) -> nat
    decreases s.len(),
{
    if s.len() == 0 {
        0
    } else {
        10 * decimal_value(s.drop_last()) + digit_value(s.last())
    }
}

/// `s` without one leading plus sign.
pub open spec fn without_plus(s: Seq<char>) -> Seq<char> {
    if s.len() > 0 && s.first() == '+' {
        s.drop_first()
    } else {
        s
    }
}

/// The identifier that `s` writes: its decimal value where `s` is one or more
/// ASCII digits, after an optional plus sign, and the value fits 32 bits;
/// otherwise 0.
pub open spec fn parse_id(s: Seq<char>) -> u32 {
    let d = without_plus(s);
    if d.len() > 0 && all_digits(d) && decimal_value(d) <= u32::MAX {
        decimal_value(d) as u32
    } else {
        0
    }
}

/// The upper-case form of an ASCII lower-case letter; any other character is
/// left as it is.
pub open spec fn upper_char(c: char) -> char {
    if is_lower(c) {
        ((c as u32 - 0x20) as u8) as char
    } else {
        c
    }
}

/// `s` with each ASCII lower-case letter replaced by its upper-case form.
pub open spec fn upper(s: Seq<char>) -> Seq<char> {
    s.map_values(|c: char| upper_char(c))
}

/// Whether `c` is an ASCII lower-case letter.
pub open spec fn is_lower(c: char) -> bool {
    0x61 <= c as u32 <= 0x7A
}

/// An option as it is stored: the label, a dot, a space, then the text.
pub open spec fn option_text(label: Seq<char>, text: Seq<char>) -> Seq<char> {
    label + seq!['.', ' '] + text
}

/// A longer digit string writes a number at least as large as any prefix of it.
pub proof fn lemma_decimal_value_grows(s: Seq<char>, k: int)
    requires
        0 <= k <= s.len(),
    ensures
        decimal_value(s.take(k)) <= decimal_value(s),
    decreases s.len(),
{
    if k < s.len() {
        lemma_decimal_value_grows(s.drop_last(), k);
        assert(s.drop_last().take(k) =~= s.take(k));
    } else {
        assert(s.take(k) =~= s);
    }
}

/// Upper-casing leaves no ASCII lower-case letter, keeps the length, and
/// changes nothing when applied again.
pub proof fn lemma_upper_has_no_lower(s: Seq<char>)
    ensures
        upper(s).len() == s.len(),
        forall|i: int| 0 <= i < s.len() ==> !is_lower(#[trigger] upper(s)[i]),
        upper(upper(s)) == upper(s),
{
    assert forall|i: int| 0 <= i < s.len() implies !is_lower(#[trigger] upper(s)[i]) by {
        lemma_upper_char(s[i]);
    }
    assert forall|i: int| 0 <= i < s.len() implies upper(upper(s))[i] == upper(s)[i] by {
        lemma_upper_char(s[i]);
    }
    assert(upper(upper(s)) =~= upper(s));
}

proof fn lemma_upper_char(c: char)
    ensures
        !is_lower(upper_char(c)),
        upper_char(upper_char(c)) == upper_char(c),
{
}

/// Reads a question identifier; text that is no 32-bit decimal number gives 0.
pub fn parse_number(s: &str) -> (id: u32)
    ensures
        id == parse_id(s@),
{
    let chars = to_chars(s);
    let n = chars.len();
    let start: usize = if n > 0 && chars[0] == '+' {
        1
    } else {
        0
    };
    let ghost d = without_plus(s@);
    proof {
        assert(d =~= chars@.skip(start as int));
    }
    if start == n {
        return 0;
    }
    let mut acc: u64 = 0;
    let mut i: usize = start;
    while i < n
        invariant
            start <= i <= n,
            n == chars.len(),
            d == without_plus(s@),
            d == chars@.skip(start as int),
            d.len() == n - start,
            all_digits(d.take(i - start)),
            acc == decimal_value(d.take(i - start)),
            acc <= u32::MAX,
        decreases n - i,
    {
        let c = chars[i];
        let v: u32 = c as u32;
        proof {
            assert(d[i - start] == c);
            assert(d.take(i - start + 1).drop_last() =~= d.take(i - start));
            assert(d.take(i - start + 1).last() == c);
        }
        if v < 0x30 || v > 0x39 {
            proof {
                assert(!is_digit(d[i - start]));
            }
            return 0;
        }
        acc = acc * 10 + (v - 0x30) as u64;
        if acc > u32::MAX as u64 {
            proof {
                lemma_decimal_value_grows(d, i - start + 1);
            }
            return 0;
        }
        proof {
            assert forall|k: int| 0 <= k < i - start + 1 implies is_digit(
                #[trigger] d.take(i - start + 1)[k],
            ) by {
                if k < i - start {
                    assert(d.take(i - start)[k] == d[k]);
                }
            }
        }
        i += 1;
    }
    proof {
        assert(d.take(n - start) =~= d);
    }
    acc as u32
}

/// Upper-cases the ASCII letters of `s`.
pub fn to_upper(s: &str) -> (r: String)
    ensures
        r@ == upper(s@),
{
    let mut out = String::new();
    for c in it: s.chars()
        invariant
            it.seq() == s@,
            out@ == upper(it.seq().take(it.index())),
    {
        let ghost before = it.seq().take(it.index());
        let v: u32 = c as u32;
        let u: char = if 0x61 <= v && v <= 0x7A {
            ((v - 0x20) as u8) as char
        } else {
            c
        };
        out.push(u);
        proof {
            assert(it.seq().take(it.index() + 1) =~= before.push(c));
            assert(upper(before.push(c)) =~= upper(before).push(upper_char(c)));
        }
    }
    proof {
        assert(s@.take(s@.len() as int) =~= s@);
    }
    out
}

/// Formats an option from its label and its text.
pub fn format_option(label: &str, text: &str) -> (r: String)
    ensures
        r@ == option_text(label@, text@),
{
    let mut out = String::from_str(label);
    out.push('.');
    out.push(' ');
    out.append(text);
    proof {
        assert(label@.push('.').push(' ') =~= label@ + seq!['.', ' ']);
    }
    out
}

} // verus!

//! Character-level text utilities: white space, trimming, and the line
//! preprocessor that turns raw text into trimmed, non-empty lines.

use vstd::prelude::*;

verus! {

/// Whether `c` carries the Unicode `White_Space` property.
pub open spec fn is_space(c: char) -> bool {
    let n = c as u32;
    ||| 0x09 <= n <= 0x0D
    ||| n == 0x20
    ||| n == 0x85
    ||| n == 0xA0
    ||| n == 0x1680
    ||| 0x2000 <= n <= 0x200A
    ||| n == 0x2028
    ||| n == 0x2029
    ||| n == 0x202F
    ||| n == 0x205F
    ||| n == 0x3000
}

/// `s` without its leading white space.
pub open spec fn trim_start(s: Seq<char>) -> Seq<char>
    decreases s.len(),
{
    if s.len() > 0 && is_space(s.first()) {
        trim_start(s.drop_first())
    } else {
        s
    }
}

/// `s` without its trailing white space.
pub open spec fn trim_end(s: Seq<char>) -> Seq<char>
    decreases s.len(),
{
    if s.len() > 0 && is_space(s.last()) {
        trim_end(s.drop_last())
    } else {
        s
    }
}

/// `s` without its surrounding white space.
pub open spec fn trim(s: Seq<char>) -> Seq<char> {
    trim_end(trim_start(s))
}

/// Position of the first line feed in `s`, or `s.len()` when there is none.
pub open spec fn line_end(s: Seq<char>) -> int
    decreases s.len(),
{
    if s.len() == 0 || s.first() == '\n' {
        0
    } else {
        1 + line_end(s.drop_first())
    }
}

/// The segments of `s` between line feeds, in order. A final line feed does
/// not open another segment, and the empty text has no segment at all.
pub open spec fn split_lines(s: Seq<char>) -> Seq<Seq<char>>
    decreases s.len(),
{
    if s.len() == 0 {
        Seq::empty()
    } else {
        let k = line_end(s);
        if 0 <= k < s.len() {
            seq![s.take(k)] + split_lines(s.skip(k + 1))
        } else {
            seq![s]
        }
    }
}

/// Whether a line has any character.
pub open spec fn is_nonempty(line: Seq<char>) -> bool {
    line.len() > 0
}

/// The lines of `text`, each trimmed, with the ones that are empty after
/// trimming left out. Order is that of the text.
pub open spec fn clean_lines(text: Seq<char>) -> Seq<Seq<char>> {
    split_lines(text).map_values(|l: Seq<char>| trim(l)).filter(|l: Seq<char>| is_nonempty(l))
}

/// A prefix of spaces ending at a non-space (or at the end) is exactly what
/// `trim_start` removes.
pub proof fn lemma_trim_start_at(s: Seq<char>, a: int)
    requires
        0 <= a <= s.len(),
        forall|i: int| 0 <= i < a ==> is_space(#[trigger] s[i]),
        a < s.len() ==> !is_space(s[a]),
    ensures
        trim_start(s) == s.skip(a),
    decreases a,
{
    if a == 0 {
        assert(s.skip(0) =~= s);
    } else {
        let t = s.drop_first();
        assert(is_space(s[0]));
        assert forall|i: int| 0 <= i < a - 1 implies is_space(#[trigger] t[i]) by {
            assert(t[i] == s[i + 1]);
        }
        lemma_trim_start_at(t, a - 1);
        assert(t.skip(a - 1) =~= s.skip(a));
    }
}

/// A suffix of spaces starting after a non-space (or at the start) is exactly
/// what `trim_end` removes.
pub proof fn lemma_trim_end_at(s: Seq<char>, b: int)
    requires
        0 <= b <= s.len(),
        forall|i: int| b <= i < s.len() ==> is_space(#[trigger] s[i]),
        0 < b ==> !is_space(s[b - 1]),
    ensures
        trim_end(s) == s.take(b),
    decreases s.len() - b,
{
    if b == s.len() {
        assert(s.take(b) =~= s);
    } else {
        let t = s.drop_last();
        assert(is_space(s[s.len() - 1]));
        lemma_trim_end_at(t, b);
        assert(t.take(b) =~= s.take(b));
    }
}

/// The trimmed text is the range between the first and the last non-space.
pub proof fn lemma_trim_is_range(s: Seq<char>, a: int, b: int)
    requires
        0 <= a <= b <= s.len(),
        forall|i: int| 0 <= i < a ==> is_space(#[trigger] s[i]),
        forall|i: int| b <= i < s.len() ==> is_space(#[trigger] s[i]),
        a < b ==> !is_space(s[a]) && !is_space(s[b - 1]),
    ensures
        trim(s) == s.subrange(a, b),
{
    if a < b {
        lemma_trim_start_at(s, a);
        let t = s.skip(a);
        assert forall|i: int| b - a <= i < t.len() implies is_space(#[trigger] t[i]) by {
            assert(t[i] == s[i + a]);
        }
        lemma_trim_end_at(t, b - a);
        assert(t.take(b - a) =~= s.subrange(a, b));
    } else {
        lemma_trim_start_at(s, s.len() as int);
        assert(s.skip(s.len() as int) =~= Seq::<char>::empty());
        assert(s.subrange(a, b) =~= Seq::<char>::empty());
    }
}

/// A trimmed text neither starts nor ends with white space.
pub proof fn lemma_trim_has_no_outer_space(s: Seq<char>)
    ensures
        trim(s).len() > 0 ==> !is_space(trim(s).first()) && !is_space(trim(s).last()),
        trim(s).len() <= s.len(),
{
    lemma_trim_start_shape(s);
    lemma_trim_end_shape(trim_start(s));
}

proof fn lemma_trim_start_shape(s: Seq<char>)
    ensures
        trim_start(s).len() <= s.len(),
        trim_start(s).len() > 0 ==> !is_space(trim_start(s).first()),
        trim_start(s).len() > 0 ==> trim_start(s).last() == s.last(),
    decreases s.len(),
{
    if s.len() > 0 && is_space(s.first()) {
        lemma_trim_start_shape(s.drop_first());
    }
}

proof fn lemma_trim_end_shape(s: Seq<char>)
    ensures
        trim_end(s).len() <= s.len(),
        trim_end(s).len() > 0 ==> !is_space(trim_end(s).last()),
        trim_end(s).len() > 0 ==> trim_end(s).first() == s.first(),
    decreases s.len(),
{
    if s.len() > 0 && is_space(s.last()) {
        lemma_trim_end_shape(s.drop_last());
    }
}

/// The first line feed is where no earlier character is one.
pub proof fn lemma_line_end_at(s: Seq<char>, k: int)
    requires
        0 <= k <= s.len(),
        forall|i: int| 0 <= i < k ==> #[trigger] s[i] != '\n',
        k < s.len() ==> s[k] == '\n',
    ensures
        line_end(s) == k,
    decreases k,
{
    if k > 0 {
        let t = s.drop_first();
        assert(s.first() == s[0]);
        assert forall|i: int| 0 <= i < k - 1 implies #[trigger] t[i] != '\n' by {
            assert(t[i] == s[i + 1]);
        }
        lemma_line_end_at(t, k - 1);
    }
}

/// How `clean_lines` proceeds from the first line to the rest of the text.
pub proof fn lemma_clean_lines_step(s: Seq<char>, k: int)
    requires
        s.len() > 0,
        k == line_end(s),
        0 <= k <= s.len(),
    ensures
        clean_lines(s) == (if is_nonempty(trim(s.take(k))) {
            seq![trim(s.take(k))]
        } else {
            Seq::empty()
        }) + (if k < s.len() {
            clean_lines(s.skip(k + 1))
        } else {
            Seq::empty()
        }),
{
    let tr = |l: Seq<char>| trim(l);
    let ne = |l: Seq<char>| is_nonempty(l);
    let head = seq![s.take(k)];
    let rest = if k < s.len() {
        split_lines(s.skip(k + 1))
    } else {
        Seq::empty()
    };
    assert(s.take(s.len() as int) =~= s);
    assert(split_lines(s) =~= head + rest);
    assert((head + rest).map_values(tr) =~= head.map_values(tr) + rest.map_values(tr));
    Seq::filter_distributes_over_add(head.map_values(tr), rest.map_values(tr), ne);
    assert(head.map_values(tr) =~= seq![trim(s.take(k))]);
    lemma_filter_one(trim(s.take(k)));
    assert(Seq::<Seq<char>>::empty().map_values(tr) =~= Seq::<Seq<char>>::empty());
    lemma_filter_none();
}

proof fn lemma_filter_one(l: Seq<char>)
    ensures
        seq![l].filter(|l: Seq<char>| is_nonempty(l)) == (if is_nonempty(l) {
            seq![l]
        } else {
            Seq::empty()
        }),
{
    let ne = |l: Seq<char>| is_nonempty(l);
    reveal_with_fuel(Seq::filter, 2);
    assert(seq![l].drop_last() =~= Seq::<Seq<char>>::empty());
    assert(Seq::<Seq<char>>::empty().filter(ne) =~= Seq::<Seq<char>>::empty());
    assert(seq![l].filter(ne) =~= if is_nonempty(l) {
        seq![l]
    } else {
        Seq::empty()
    });
}

proof fn lemma_filter_none()
    ensures
        Seq::<Seq<char>>::empty().filter(|l: Seq<char>| is_nonempty(l)) == Seq::<
            Seq<char>,
        >::empty(),
{
    reveal_with_fuel(Seq::filter, 1);
}

/// Whether `s` holds no line feed.
pub open spec fn has_no_line_feed(s: Seq<char>) -> bool {
    forall|k: int| 0 <= k < s.len() ==> #[trigger] s[k] != '\n'
}

/// The first line feed lies within the text, and nothing before it is one.
pub proof fn lemma_line_end_is_first(s: Seq<char>)
    ensures
        0 <= line_end(s) <= s.len(),
        has_no_line_feed(s.take(line_end(s))),
        line_end(s) < s.len() ==> s[line_end(s)] == '\n',
    decreases s.len(),
{
    if s.len() > 0 && s.first() != '\n' {
        let t = s.drop_first();
        lemma_line_end_is_first(t);
        let k = line_end(s);
        assert forall|i: int| 0 <= i < k implies #[trigger] s.take(k)[i] != '\n' by {
            if i > 0 {
                assert(t.take(k - 1)[i - 1] == s[i]);
            }
        }
    }
}

proof fn lemma_split_lines_have_no_line_feed(s: Seq<char>, j: int)
    requires
        0 <= j < split_lines(s).len(),
    ensures
        has_no_line_feed(split_lines(s)[j]),
    decreases s.len(),
{
    lemma_line_end_is_first(s);
    let k = line_end(s);
    if k < s.len() {
        if j > 0 {
            lemma_split_lines_have_no_line_feed(s.skip(k + 1), j - 1);
        }
    } else {
        assert(s.take(k) =~= s);
    }
}

proof fn lemma_trim_keeps_no_line_feed(s: Seq<char>)
    requires
        has_no_line_feed(s),
    ensures
        has_no_line_feed(trim(s)),
{
    lemma_trim_start_keeps(s);
    lemma_trim_end_keeps(trim_start(s));
}

proof fn lemma_trim_start_keeps(s: Seq<char>)
    requires
        has_no_line_feed(s),
    ensures
        has_no_line_feed(trim_start(s)),
    decreases s.len(),
{
    if s.len() > 0 && is_space(s.first()) {
        let t = s.drop_first();
        assert forall|k: int| 0 <= k < t.len() implies #[trigger] t[k] != '\n' by {
            assert(t[k] == s[k + 1]);
        }
        lemma_trim_start_keeps(t);
    }
}

proof fn lemma_trim_end_keeps(s: Seq<char>)
    requires
        has_no_line_feed(s),
    ensures
        has_no_line_feed(trim_end(s)),
    decreases s.len(),
{
    if s.len() > 0 && is_space(s.last()) {
        let t = s.drop_last();
        assert forall|k: int| 0 <= k < t.len() implies #[trigger] t[k] != '\n' by {
            assert(t[k] == s[k]);
        }
        lemma_trim_end_keeps(t);
    }
}

/// Every cleaned line has a character, neither starts nor ends with white
/// space, and holds no line feed.
pub proof fn lemma_clean_lines_are_trimmed(text: Seq<char>, i: int)
    requires
        0 <= i < clean_lines(text).len(),
    ensures
        clean_lines(text)[i].len() > 0,
        !is_space(clean_lines(text)[i].first()),
        !is_space(clean_lines(text)[i].last()),
        has_no_line_feed(clean_lines(text)[i]),
{
    let tr = |l: Seq<char>| trim(l);
    let ne = |l: Seq<char>| is_nonempty(l);
    let mapped = split_lines(text).map_values(tr);
    mapped.lemma_filter_pred(ne, i);
    let line = mapped.filter(ne)[i];
    mapped.lemma_filter_contains_rev(ne, line);
    let j = choose|j: int| 0 <= j < mapped.len() && mapped[j] == line;
    lemma_trim_has_no_outer_space(split_lines(text)[j]);
    lemma_split_lines_have_no_line_feed(text, j);
    lemma_trim_keeps_no_line_feed(split_lines(text)[j]);
}

/// Tells whether `c` is Unicode white space.
pub fn is_whitespace(c: char) -> (r: bool)
    ensures
        r == is_space(c),
{
    let n: u32 = c as u32;
    (0x09 <= n && n <= 0x0D) || n == 0x20 || n == 0x85 || n == 0xA0 || n == 0x1680 || (0x2000 <= n
        && n <= 0x200A) || n == 0x2028 || n == 0x2029 || n == 0x202F || n == 0x205F || n == 0x3000
}

/// The characters of `text`, one element each.
pub fn to_chars(text: &str) -> (r: Vec<char>)
    ensures
        r@ == text@,
{
    let mut out: Vec<char> = Vec::new();
    for c in it: text.chars()
        invariant
            it.seq() == text@,
            out@ == it.seq().take(it.index()),
    {
        out.push(c);
    }
    out
}

/// `String::push` appends exactly the given character.
pub assume_specification[ String::push ](s: &mut String, c: char)
    ensures
        final(s)@ == old(s)@.push(c),
;

/// The string made of `chars[from..to]`.
pub fn string_from(chars: &Vec<char>, from: usize, to: usize) -> (r: String)
    requires
        from <= to <= chars.len(),
    ensures
        r@ == chars@.subrange(from as int, to as int),
{
    let mut out = String::new();
    let mut i: usize = from;
    while i < to
        invariant
            from <= i <= to <= chars.len(),
            out@ == chars@.subrange(from as int, i as int),
        decreases to - i,
    {
        out.push(chars[i]);
        i += 1;
    }
    out
}

/// The bounds `(a, b)` of `chars[from..to]` once trimmed: `a == b` when the
/// range holds only white space.
pub fn trim_bounds(chars: &Vec<char>, from: usize, to: usize) -> (r: (usize, usize))
    requires
        from <= to <= chars.len(),
    ensures
        from <= r.0 <= r.1 <= to,
        trim(chars@.subrange(from as int, to as int)) == chars@.subrange(r.0 as int, r.1 as int),
{
    let mut a: usize = from;
    while a < to && is_whitespace(chars[a])
        invariant
            from <= a <= to <= chars.len(),
            forall|i: int| from <= i < a ==> is_space(#[trigger] chars@[i]),
        decreases to - a,
    {
        a += 1;
    }
    let mut b: usize = to;
    while b > a && is_whitespace(chars[b - 1])
        invariant
            a <= b <= to <= chars.len(),
            forall|i: int| b <= i < to ==> is_space(#[trigger] chars@[i]),
        decreases b,
    {
        b -= 1;
    }
    proof {
        let s = chars@.subrange(from as int, to as int);
        assert forall|i: int| 0 <= i < a - from implies is_space(#[trigger] s[i]) by {
            assert(s[i] == chars@[i + from]);
        }
        assert forall|i: int| b - from <= i < s.len() implies is_space(#[trigger] s[i]) by {
            assert(s[i] == chars@[i + from]);
        }
        lemma_trim_is_range(s, a - from, b - from);
        assert(s.subrange(a - from, b - from) =~= chars@.subrange(a as int, b as int));
    }
    (a, b)
}

/// Line preprocessor: the lines of `text`, trimmed, without the empty ones.
pub fn preprocess(text: &str) -> (lines: Vec<String>)
    ensures
        lines.deep_view() == clean_lines(text@),
{
    let chars = to_chars(text);
    let n = chars.len();
    let mut lines: Vec<String> = Vec::new();
    let mut i: usize = 0;
    proof {
        assert(chars@.skip(0) =~= chars@);
        assert(lines.deep_view() =~= Seq::<Seq<char>>::empty());
    }
    while i < n
        invariant
            n == chars.len(),
            i <= n,
            chars@ == text@,
            lines.deep_view() + clean_lines(chars@.skip(i as int)) == clean_lines(chars@),
        decreases n - i,
    {
        let mut j: usize = i;
        while j < n && chars[j] != '\n'
            invariant
                i <= j <= n,
                n == chars.len(),
                forall|k: int| i <= k < j ==> #[trigger] chars@[k] != '\n',
            decreases n - j,
        {
            j += 1;
        }
        let (a, b) = trim_bounds(&chars, i, j);
        let ghost rest = chars@.skip(i as int);
        let ghost before = lines.deep_view();
        proof {
            assert forall|k: int| 0 <= k < j - i implies #[trigger] rest[k] != '\n' by {
                assert(rest[k] == chars@[k + i]);
            }
            lemma_line_end_at(rest, j - i);
            lemma_clean_lines_step(rest, j - i);
            assert(rest.take(j - i) =~= chars@.subrange(i as int, j as int));
            if j < n {
                assert(rest.skip(j - i + 1) =~= chars@.skip(j + 1));
            }
        }
        if a < b {
            let line = string_from(&chars, a, b);
            lines.push(line);
            proof {
                assert(lines.deep_view() =~= before.push(line@));
            }
        }
        if j < n {
            i = j + 1;
        } else {
            i = n;
            proof {
                assert(chars@.skip(n as int) =~= Seq::<char>::empty());
                lemma_clean_lines_of_empty();
            }
        }
    }
    proof {
        assert(chars@.skip(n as int) =~= Seq::<char>::empty());
        lemma_clean_lines_of_empty();
    }
    lines
}

/// The empty text has no lines.
pub proof fn lemma_clean_lines_of_empty()
    ensures
        clean_lines(Seq::<char>::empty()) == Seq::<Seq<char>>::empty(),
{
    lemma_filter_none();
    assert(split_lines(Seq::<char>::empty()) =~= Seq::<Seq<char>>::empty());
    assert(Seq::<Seq<char>>::empty().map_values(|l: Seq<char>| trim(l)) =~= Seq::<
        Seq<char>,
    >::empty());
}

} // verus!

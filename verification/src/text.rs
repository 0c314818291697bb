//! Text primitives over sequences of characters: white space, trimming,
//! line breaks, splitting into words and decimal numerals.
use vstd::prelude::*;

verus! {

/// `String::push` writes `c` behind the text that `s` holds, and leaves that
/// text as it is.
pub assume_specification[ String::push ](s: &mut String, c: char)
    ensures
        final(s)@ == old(s)@.push(c),
;

/// The code points that carry the Unicode property `White_Space`.
pub open spec fn is_white_space(c: char) -> bool {
    let n: u32 = c as u32;
    ||| 0x09 <= n <= 0x0D
    ||| n == 0x20
    ||| n == 0x85
    ||| n == 0xA0
    ||| n == 0x1680
    ||| 0x2000 <= n <= 0x200A
    ||| n == 0x2028
    ||| n == 0x2029
    ||| n == 0x202F
    ||| n == 0x205F
    ||| n == 0x3000
}

/// A line feed or a carriage return.
pub open spec fn is_line_break(c: char) -> bool {
    c == '\n' || c == '\r'
}

/// Whether `c` is white space.
pub fn is_whitespace(c: char) -> (b: bool)
    ensures
        b == is_white_space(c),
{
    let n: u32 = c as u32;
    (0x09 <= n && n <= 0x0D) || n == 0x20 || n == 0x85 || n == 0xA0 || n == 0x1680 || (0x2000 <= n
        && n <= 0x200A) || n == 0x2028 || n == 0x2029 || n == 0x202F || n == 0x205F || n == 0x3000
}

/// The characters of `s`, in order.
pub fn chars_of(s: &str) -> (chars: Vec<char>)
    ensures
        chars@ == s@,
{
    let mut chars: Vec<char> = Vec::new();
    for c in it: s.chars()
        invariant
            it.seq() == s@,
            chars@ == it.seq().take(it.index() as int),
    {
        chars.push(c);
    }
    chars
}

/// The text made of `chars[from..to]`.
pub(crate) fn text_of(chars: &Vec<char>, from: usize, to: usize) -> (s: String)
    requires
        from <= to <= chars.len(),
    ensures
        s@ == chars@.subrange(from as int, to as int),
{
    let mut s = String::new();
    let mut i: usize = from;
    while i < to
        invariant
            from <= i <= to <= chars.len(),
            s@ == chars@.subrange(from as int, i as int),
        decreases to - i,
    {
        s.push(chars[i]);
        i = i + 1;
    }
    s
}

/// `s` without its leading white space.
pub open spec fn trim_start(s: Seq<char>) -> Seq<char>
    decreases s.len(),
{
    if s.len() > 0 && is_white_space(s[0]) {
        trim_start(s.drop_first())
    } else {
        s
    }
}

/// `s` without its trailing white space.
pub open spec fn trim_end(s: Seq<char>) -> Seq<char>
    decreases s.len(),
{
    if s.len() > 0 && is_white_space(s.last()) {
        trim_end(s.drop_last())
    } else {
        s
    }
}

/// `s` without its leading and trailing white space.
pub open spec fn trimmed(s: Seq<char>) -> Seq<char> {
    trim_end(trim_start(s))
}

/// `s` neither begins nor ends with white space.
pub open spec fn is_trimmed(s: Seq<char>) -> bool {
    s.len() > 0 ==> !is_white_space(s[0]) && !is_white_space(s.last())
}

/// Skipping `k` white-space characters that are followed by none is `trim_start`.
proof fn lemma_trim_start_is_skip(s: Seq<char>, k: int)
    requires
        0 <= k <= s.len(),
        forall|i: int| 0 <= i < k ==> is_white_space(#[trigger] s[i]),
        k < s.len() ==> !is_white_space(s[k]),
    ensures
        trim_start(s) == s.skip(k),
    decreases k,
{
    if k == 0 {
        assert(s.skip(0) =~= s);
    } else {
        let rest = s.drop_first();
        assert forall|i: int| 0 <= i < k - 1 implies is_white_space(#[trigger] rest[i]) by {
            assert(rest[i] == s[i + 1]);
        }
        lemma_trim_start_is_skip(rest, k - 1);
        assert(rest.skip(k - 1) =~= s.skip(k));
    }
}

/// Keeping all but the last white-space characters is `trim_end`.
proof fn lemma_trim_end_is_take(s: Seq<char>, k: int)
    requires
        0 <= k <= s.len(),
        forall|i: int| k <= i < s.len() ==> is_white_space(#[trigger] s[i]),
        0 < k ==> !is_white_space(s[k - 1]),
    ensures
        trim_end(s) == s.take(k),
    decreases s.len() - k,
{
    if k == s.len() {
        assert(s.take(k) =~= s);
    } else {
        let rest = s.drop_last();
        lemma_trim_end_is_take(rest, k);
        assert(rest.take(k) =~= s.take(k));
    }
}

/// Trimming leaves a text that neither begins nor ends with white space, and
/// that trimming leaves as it is.
pub proof fn lemma_trimmed_is_trimmed(s: Seq<char>)
    ensures
        is_trimmed(trimmed(s)),
        trimmed(trimmed(s)) == trimmed(s),
{
    lemma_trim_bounds(s);
    lemma_trim_fixes_trimmed(trimmed(s));
}

/// A text that neither begins nor ends with white space is its own trimming.
pub proof fn lemma_trim_fixes_trimmed(s: Seq<char>)
    requires
        is_trimmed(s),
    ensures
        trimmed(s) == s,
{
}

/// `trimmed(s)` is the part of `s` from its first to its last character that
/// is no white space.
pub proof fn lemma_trim_bounds(s: Seq<char>) -> (bounds: (int, int))
    ensures
        0 <= bounds.0 <= bounds.1 <= s.len(),
        trimmed(s) == s.subrange(bounds.0, bounds.1),
        forall|i: int| 0 <= i < bounds.0 ==> is_white_space(#[trigger] s[i]),
        forall|i: int| bounds.1 <= i < s.len() ==> is_white_space(#[trigger] s[i]),
        bounds.0 < bounds.1 ==> !is_white_space(s[bounds.0]) && !is_white_space(s[bounds.1 - 1]),
        is_trimmed(trimmed(s)),
    decreases s.len(),
{
    if s.len() > 0 && is_white_space(s[0]) {
        let inner = lemma_trim_bounds(s.drop_first());
        let rest = s.drop_first();
        assert(rest.subrange(inner.0, inner.1) =~= s.subrange(inner.0 + 1, inner.1 + 1));
        assert forall|i: int| 0 <= i < inner.0 + 1 implies is_white_space(#[trigger] s[i]) by {
            if i > 0 {
                assert(s[i] == rest[i - 1]);
            }
        }
        assert forall|i: int| inner.1 + 1 <= i < s.len() implies is_white_space(
            #[trigger] s[i],
        ) by {
            assert(s[i] == rest[i - 1]);
        }
        if inner.0 < inner.1 {
            assert(rest[inner.0] == s[inner.0 + 1]);
            assert(rest[inner.1 - 1] == s[inner.1]);
            (inner.0 + 1, inner.1 + 1)
        } else {
            assert(s.subrange(inner.0 + 1, inner.1 + 1) =~= s.subrange(s.len() as int, s.len() as int));
            (s.len() as int, s.len() as int)
        }
    } else {
        let k = lemma_trim_end_bound(s);
        assert(s.take(k) =~= s.subrange(0, k));
        (0, k)
    }
}

/// `trim_end(s)` is a prefix of `s` that does not end with white space.
proof fn lemma_trim_end_bound(s: Seq<char>) -> (k: int)
    ensures
        0 <= k <= s.len(),
        trim_end(s) == s.take(k),
        forall|i: int| k <= i < s.len() ==> is_white_space(#[trigger] s[i]),
        0 < k ==> !is_white_space(s[k - 1]),
    decreases s.len(),
{
    if s.len() > 0 && is_white_space(s.last()) {
        let rest = s.drop_last();
        let k = lemma_trim_end_bound(rest);
        assert(rest.take(k) =~= s.take(k));
        assert forall|i: int| k <= i < s.len() implies is_white_space(#[trigger] s[i]) by {
            if i < rest.len() {
                assert(s[i] == rest[i]);
            }
        }
        k
    } else {
        assert(s.take(s.len() as int) =~= s);
        s.len() as int
    }
}

/// The part of `s` between the white space at its two ends is `trimmed(s)`.
proof fn lemma_trimmed_is_subrange(s: Seq<char>, a: int, b: int)
    requires
        0 <= a <= b <= s.len(),
        forall|i: int| 0 <= i < a ==> is_white_space(#[trigger] s[i]),
        forall|i: int| b <= i < s.len() ==> is_white_space(#[trigger] s[i]),
        a < b ==> !is_white_space(s[a]) && !is_white_space(s[b - 1]),
    ensures
        trimmed(s) == s.subrange(a, b),
{
    if a < b {
        lemma_trim_start_is_skip(s, a);
        let t = s.skip(a);
        assert forall|i: int| b - a <= i < t.len() implies is_white_space(#[trigger] t[i]) by {
            assert(t[i] == s[i + a]);
        }
        assert(t[b - a - 1] == s[b - 1]);
        lemma_trim_end_is_take(t, b - a);
        assert(t.take(b - a) =~= s.subrange(a, b));
    } else {
        lemma_trim_start_is_skip(s, s.len() as int);
        assert(s.skip(s.len() as int) =~= s.subrange(a, b));
    }
}

/// Where the trimmed part of `chars` begins and ends.
pub(crate) fn trim_range(chars: &Vec<char>) -> (r: (usize, usize))
    ensures
        r.0 <= r.1 <= chars.len(),
        trimmed(chars@) == chars@.subrange(r.0 as int, r.1 as int),
{
    let n: usize = chars.len();
    let mut start: usize = 0;
    while start < n && is_whitespace(chars[start])
        invariant
            start <= n == chars.len(),
            forall|i: int| 0 <= i < start ==> is_white_space(#[trigger] chars@[i]),
        decreases n - start,
    {
        start = start + 1;
    }
    let mut end: usize = n;
    while end > start && is_whitespace(chars[end - 1])
        invariant
            start <= end <= n == chars.len(),
            forall|i: int| end <= i < n ==> is_white_space(#[trigger] chars@[i]),
        decreases end,
    {
        end = end - 1;
    }
    proof {
        lemma_trimmed_is_subrange(chars@, start as int, end as int);
    }
    (start, end)
}

/// `s` without its leading and trailing white space.
pub fn trim(s: &str) -> (t: String)
    ensures
        t@ == trimmed(s@),
{
    let chars = chars_of(s);
    let (start, end) = trim_range(&chars);
    text_of(&chars, start, end)
}

/// Holds of the characters that are no line breaks.
pub open spec fn no_line_break() -> spec_fn(char) -> bool {
    |c: char| !is_line_break(c)
}

/// `s` without its line feeds and carriage returns.
pub open spec fn without_line_breaks(s: Seq<char>) -> Seq<char> {
    s.filter(no_line_break())
}

/// The characters of `chars[from..to]` that are no line breaks.
pub(crate) fn strip_line_breaks(chars: &Vec<char>, from: usize, to: usize) -> (kept: Vec<char>)
    requires
        from <= to <= chars.len(),
    ensures
        kept@ == without_line_breaks(chars@.subrange(from as int, to as int)),
{
    let mut kept: Vec<char> = Vec::new();
    let mut i: usize = from;
    proof {
        reveal(Seq::filter);
    }
    while i < to
        invariant
            from <= i <= to <= chars.len(),
            kept@ == without_line_breaks(chars@.subrange(from as int, i as int)),
        decreases to - i,
    {
        let c = chars[i];
        proof {
            reveal(Seq::filter);
            let before = chars@.subrange(from as int, i as int);
            let now = chars@.subrange(from as int, i + 1);
            assert(now.drop_last() =~= before);
            assert(now.last() == c);
        }
        if c != '\n' && c != '\r' {
            kept.push(c);
        }
        i = i + 1;
    }
    kept
}

/// What is left of a text without its line breaks holds none; a text that
/// holds none is left as it is; and a text that neither begins nor ends with
/// white space keeps its first and its last character.
pub proof fn lemma_without_line_breaks(s: Seq<char>)
    ensures
        forall|i: int|
            0 <= i < without_line_breaks(s).len() ==> !is_line_break(
                #[trigger] without_line_breaks(s)[i],
            ),
        (forall|i: int| 0 <= i < s.len() ==> !is_line_break(#[trigger] s[i]))
            ==> without_line_breaks(s) == s,
        is_trimmed(s) ==> is_trimmed(without_line_breaks(s)),
{
    let kept = without_line_breaks(s);
    assert forall|i: int| 0 <= i < kept.len() implies !is_line_break(#[trigger] kept[i]) by {
        s.lemma_filter_pred(no_line_break(), i);
    }
    if forall|i: int| 0 <= i < s.len() ==> !is_line_break(#[trigger] s[i]) {
        lemma_nothing_to_strip(s);
    }
    if is_trimmed(s) && s.len() > 0 {
        lemma_strip_keeps_ends(s);
    }
}

/// One character that is no line break is kept.
proof fn lemma_strip_one(c: char)
    requires
        !is_line_break(c),
    ensures
        without_line_breaks(seq![c]) == seq![c],
{
    reveal_with_fuel(Seq::filter, 2);
    let one = seq![c];
    assert(one.drop_last() =~= Seq::<char>::empty());
    assert(one.last() == c);
    assert(Seq::<char>::empty().push(c) =~= one);
}

/// A text that neither begins nor ends with a line break keeps its first and
/// its last character.
proof fn lemma_strip_keeps_ends(s: Seq<char>)
    requires
        s.len() > 0,
        !is_line_break(s[0]),
        !is_line_break(s.last()),
    ensures
        without_line_breaks(s).len() > 0,
        without_line_breaks(s)[0] == s[0],
        without_line_breaks(s).last() == s.last(),
{
    let first = seq![s[0]];
    let rest = s.drop_first();
    assert(first + rest =~= s);
    Seq::filter_distributes_over_add(first, rest, no_line_break());
    lemma_strip_one(s[0]);
    let last = seq![s.last()];
    let front = s.drop_last();
    assert(front + last =~= s);
    Seq::filter_distributes_over_add(front, last, no_line_break());
    lemma_strip_one(s.last());
}

/// A text that holds no line break is left as it is.
proof fn lemma_nothing_to_strip(s: Seq<char>)
    requires
        forall|i: int| 0 <= i < s.len() ==> !is_line_break(#[trigger] s[i]),
    ensures
        without_line_breaks(s) == s,
    decreases s.len(),
{
    reveal(Seq::filter);
    if s.len() > 0 {
        let front = s.drop_last();
        assert forall|i: int| 0 <= i < front.len() implies !is_line_break(#[trigger] front[i]) by {
            assert(front[i] == s[i]);
        }
        lemma_nothing_to_strip(front);
        assert(!is_line_break(s[s.len() - 1]));
        assert(front.push(s.last()) =~= s);
    }
}

/// The index of the first white space in `s`, or its length where it has none.
pub open spec fn word_end(s: Seq<char>) -> int
    decreases s.len(),
{
    if s.len() == 0 || is_white_space(s[0]) {
        0
    } else {
        1 + word_end(s.drop_first())
    }
}

/// The words of `s`: its longest runs of characters that are no white space,
/// from left to right.
pub open spec fn words(s: Seq<char>) -> Seq<Seq<char>>
    decreases s.len(),
    via words_decreases
{
    if s.len() == 0 {
        Seq::empty()
    } else if is_white_space(s[0]) {
        words(s.drop_first())
    } else {
        seq![s.take(word_end(s))] + words(s.skip(word_end(s)))
    }
}

#[via_fn]
proof fn words_decreases(s: Seq<char>) {
    lemma_word_end(s);
}

/// `word_end(s)` is the index of the first white space of `s`, or its length.
pub proof fn lemma_word_end(s: Seq<char>)
    ensures
        0 <= word_end(s) <= s.len(),
        s.len() > 0 && !is_white_space(s[0]) ==> word_end(s) > 0,
        forall|i: int| 0 <= i < word_end(s) ==> !is_white_space(#[trigger] s[i]),
        word_end(s) < s.len() ==> is_white_space(s[word_end(s)]),
    decreases s.len(),
{
    if s.len() == 0 || is_white_space(s[0]) {
    } else {
        let rest = s.drop_first();
        lemma_word_end(rest);
        assert forall|i: int| 0 <= i < word_end(s) implies !is_white_space(#[trigger] s[i]) by {
            if i > 0 {
                assert(s[i] == rest[i - 1]);
            }
        }
        if word_end(s) < s.len() {
            assert(s[word_end(s)] == rest[word_end(rest)]);
        }
    }
}

/// An index before which `s` has no white space, and at which it has one or
/// ends, is `word_end(s)`.
proof fn lemma_word_end_is(s: Seq<char>, k: int)
    requires
        0 <= k <= s.len(),
        forall|i: int| 0 <= i < k ==> !is_white_space(#[trigger] s[i]),
        k < s.len() ==> is_white_space(s[k]),
    ensures
        word_end(s) == k,
    decreases k,
{
    if k > 0 {
        let rest = s.drop_first();
        assert forall|i: int| 0 <= i < k - 1 implies !is_white_space(#[trigger] rest[i]) by {
            assert(rest[i] == s[i + 1]);
        }
        if k < s.len() {
            assert(rest[k - 1] == s[k]);
        }
        assert(!is_white_space(s[0]));
        lemma_word_end_is(rest, k - 1);
    }
}

/// `w` is not empty and holds no white space.
pub open spec fn is_word(w: Seq<char>) -> bool {
    w.len() > 0 && forall|i: int| 0 <= i < w.len() ==> !is_white_space(#[trigger] w[i])
}

/// Every word of a text is a word, and a text has no word if and only if it
/// is white space throughout.
pub proof fn lemma_words(s: Seq<char>)
    ensures
        forall|k: int| 0 <= k < words(s).len() ==> is_word(#[trigger] words(s)[k]),
        words(s).len() == 0 <==> forall|i: int| 0 <= i < s.len() ==> is_white_space(#[trigger] s[i]),
    decreases s.len(),
{
    if s.len() == 0 {
    } else if is_white_space(s[0]) {
        let rest = s.drop_first();
        lemma_words(rest);
        if words(s).len() == 0 {
            assert forall|i: int| 0 <= i < s.len() implies is_white_space(#[trigger] s[i]) by {
                if i > 0 {
                    assert(s[i] == rest[i - 1]);
                }
            }
        } else {
            let i = choose|i: int| 0 <= i < rest.len() && !is_white_space(#[trigger] rest[i]);
            assert(s[i + 1] == rest[i]);
        }
    } else {
        lemma_word_end(s);
        let n = word_end(s);
        let first = s.take(n);
        let rest = s.skip(n);
        lemma_words(rest);
        assert(is_word(first)) by {
            assert forall|i: int| 0 <= i < first.len() implies !is_white_space(
                #[trigger] first[i],
            ) by {
                assert(first[i] == s[i]);
            }
        }
        let all = seq![first] + words(rest);
        assert forall|k: int| 0 <= k < all.len() implies is_word(#[trigger] all[k]) by {
            if k > 0 {
                assert(all[k] == words(rest)[k - 1]);
            }
        }
        assert(!is_white_space(s[0]));
    }
}

/// A word is the one word of itself.
pub proof fn lemma_word_alone(w: Seq<char>)
    requires
        is_word(w),
    ensures
        words(w) == seq![w],
{
    lemma_word_end_is(w, w.len() as int);
    assert(!is_white_space(w[0]));
    assert(w.take(w.len() as int) =~= w);
    let rest = w.skip(w.len() as int);
    assert(rest.len() == 0);
    assert(words(rest) =~= Seq::<Seq<char>>::empty());
    assert(seq![w] + Seq::<Seq<char>>::empty() =~= seq![w]);
}

/// White space between two texts keeps their words apart: where the first
/// ends with white space or the second begins with it, the words of the two
/// texts joined are the words of the first and then those of the second.
pub proof fn lemma_words_join(a: Seq<char>, b: Seq<char>)
    requires
        a.len() == 0 || b.len() == 0 || is_white_space(a.last()) || is_white_space(b[0]),
    ensures
        words(a + b) == words(a) + words(b),
    decreases a.len(),
{
    let joined = a + b;
    if a.len() == 0 {
        assert(joined =~= b);
        assert(words(a) + words(b) =~= words(b));
    } else if is_white_space(a[0]) {
        let rest = a.drop_first();
        assert(joined.drop_first() =~= rest + b);
        if rest.len() > 0 {
            assert(rest.last() == a.last());
        }
        lemma_words_join(rest, b);
    } else {
        lemma_word_end(a);
        let n = word_end(a);
        let rest = a.skip(n);
        assert forall|i: int| 0 <= i < n implies !is_white_space(#[trigger] joined[i]) by {
            assert(joined[i] == a[i]);
        }
        if n < a.len() {
            assert(joined[n] == a[n]);
        } else if b.len() > 0 {
            assert(!is_white_space(a[n - 1]));
            assert(joined[n] == b[0]);
        }
        lemma_word_end_is(joined, n);
        assert(joined.take(n) =~= a.take(n));
        assert(joined.skip(n) =~= rest + b);
        if rest.len() > 0 {
            assert(rest.last() == a.last());
        }
        lemma_words_join(rest, b);
        assert(!is_white_space(joined[0]));
        assert(seq![a.take(n)] + (words(rest) + words(b)) =~= (seq![a.take(n)] + words(rest))
            + words(b));
    }
}

/// The texts that `v` holds.
pub open spec fn texts(v: Seq<String>) -> Seq<Seq<char>> {
    Seq::new(v.len(), |i: int| v[i]@)
}

/// The words of `chars`.
pub(crate) fn split_words(chars: &Vec<char>) -> (out: Vec<String>)
    ensures
        texts(out@) == words(chars@),
{
    let n: usize = chars.len();
    let mut out: Vec<String> = Vec::new();
    let mut i: usize = 0;
    assert(chars@.skip(0) =~= chars@);
    assert(texts(out@) + words(chars@) =~= words(chars@));
    while i < n
        invariant
            i <= n == chars.len(),
            texts(out@) + words(chars@.skip(i as int)) == words(chars@),
        decreases n - i,
    {
        let ghost rest = chars@.skip(i as int);
        assert(rest[0] == chars@[i as int]);
        if is_whitespace(chars[i]) {
            assert(rest.drop_first() =~= chars@.skip(i + 1));
            i = i + 1;
        } else {
            let mut j: usize = i + 1;
            while j < n && !is_whitespace(chars[j])
                invariant
                    i < j <= n == chars.len(),
                    rest == chars@.skip(i as int),
                    forall|k: int| 0 <= k < j - i ==> !is_white_space(#[trigger] rest[k]),
                decreases n - j,
            {
                assert(rest[j - i] == chars@[j as int]);
                j = j + 1;
            }
            let word = text_of(chars, i, j);
            let ghost before = out@;
            out.push(word);
            proof {
                if j < n {
                    assert(rest[j - i] == chars@[j as int]);
                }
                lemma_word_end_is(rest, j - i);
                assert(rest.take(j - i) =~= chars@.subrange(i as int, j as int));
                assert(rest.skip(j - i) =~= chars@.skip(j as int));
                let tail = words(chars@.skip(j as int));
                assert(texts(out@) =~= texts(before).push(word@));
                assert(texts(before).push(word@) + tail =~= texts(before) + (seq![word@] + tail));
            }
            i = j;
        }
    }
    proof {
        assert(chars@.skip(n as int).len() == 0);
        assert(texts(out@) + Seq::<Seq<char>>::empty() =~= texts(out@));
    }
    out
}

/// The words of `s`: its longest runs of characters that are no white space.
pub fn split_whitespace(s: &str) -> (out: Vec<String>)
    ensures
        texts(out@) == words(s@),
{
    let chars = chars_of(s);
    split_words(&chars)
}

/// The digit that stands for `d`.
pub open spec fn digit(d: nat) -> char
    recommends
        d < 10,
{
    ((0x30 + d) as u8) as char
}

/// `n` written in decimal, without leading zeros.
pub open spec fn decimal(n: nat) -> Seq<char>
    decreases n,
{
    if n < 10 {
        seq![digit(n)]
    } else {
        decimal(n / 10).push(digit(n % 10))
    }
}

/// The decimal digits of `m`, or nothing where `m` is zero.
spec fn leading_digits(m: nat) -> Seq<char> {
    if m == 0 {
        Seq::empty()
    } else {
        decimal(m)
    }
}

/// The last digit of a numeral stands for the remainder by ten.
proof fn lemma_decimal_step(m: nat)
    ensures
        decimal(m) == leading_digits(m / 10).push(digit(m % 10)),
{
    if m < 10 {
        assert(m / 10 == 0);
        assert(m % 10 == m);
        assert(Seq::<char>::empty().push(digit(m)) =~= seq![digit(m)]);
    }
}

/// `n` written in decimal.
pub fn decimal_text(n: usize) -> (s: String)
    ensures
        s@ == decimal(n as nat),
{
    let mut low_first: Vec<char> = Vec::new();
    let mut m: usize = n;
    proof {
        lemma_decimal_step(n as nat);
    }
    low_first.push(((0x30 + m % 10) as u8) as char);
    m = m / 10;
    assert(leading_digits(m as nat) + low_first@.reverse() =~= decimal(n as nat));
    while m > 0
        invariant
            leading_digits(m as nat) + low_first@.reverse() == decimal(n as nat),
        decreases m,
    {
        let ghost before = low_first@;
        let ghost d = digit((m % 10) as nat);
        proof {
            lemma_decimal_step(m as nat);
        }
        low_first.push(((0x30 + m % 10) as u8) as char);
        proof {
            assert(low_first@.reverse() =~= seq![d] + before.reverse());
            assert(leading_digits((m / 10) as nat).push(d) + before.reverse() =~= leading_digits(
                (m / 10) as nat,
            ) + (seq![d] + before.reverse()));
        }
        m = m / 10;
    }
    assert(leading_digits(0) + low_first@.reverse() =~= low_first@.reverse());
    let mut s = String::new();
    let mut k: usize = low_first.len();
    while k > 0
        invariant
            k <= low_first.len(),
            s@ == low_first@.reverse().take(low_first.len() - k),
        decreases k,
    {
        k = k - 1;
        s.push(low_first[k]);
        proof {
            let r = low_first@.reverse();
            assert(r.take(low_first.len() - k) =~= r.take(low_first.len() - k - 1).push(
                low_first@[k as int],
            ));
        }
    }
    assert(low_first@.reverse().take(low_first.len() as int) =~= low_first@.reverse());
    s
}

} // verus!

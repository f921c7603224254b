//! Unicode whitespace, the words of a text, the most frequent of them, and
//! trimming.
use vstd::prelude::*;

verus! {

/// The Unicode `White_Space` property: the characters that separate words.
pub open spec fn is_white_space(c: char) -> bool {
    let n = c as u32;
    ||| 0x09 <= n <= 0x0d
    ||| n == 0x20
    ||| n == 0x85
    ||| n == 0xa0
    ||| n == 0x1680
    ||| 0x2000 <= n <= 0x200a
    ||| n == 0x2028
    ||| n == 0x2029
    ||| n == 0x202f
    ||| n == 0x205f
    ||| n == 0x3000
}

/// Whether `c` has the Unicode `White_Space` property.
pub fn is_whitespace_char(c: char) -> (r: bool)
    ensures
        r == is_white_space(c),
{
    let n = c as u32;
    (0x09 <= n && n <= 0x0d) || n == 0x20 || n == 0x85 || n == 0xa0 || n == 0x1680 || (0x2000
        <= n && n <= 0x200a) || n == 0x2028 || n == 0x2029 || n == 0x202f || n == 0x205f || n
        == 0x3000
}

/// `r` is `s` without its leading and trailing whitespace.
pub open spec fn is_trimmed_of(r: Seq<char>, s: Seq<char>) -> bool {
    exists|a: int, b: int|
        {
            &&& 0 <= a <= b <= s.len()
            &&& r == s.subrange(a, b)
            &&& forall|i: int| 0 <= i < a ==> is_white_space(#[trigger] s[i])
            &&& forall|i: int| b <= i < s.len() ==> is_white_space(#[trigger] s[i])
            &&& a < b ==> !is_white_space(s[a]) && !is_white_space(s[b - 1])
        }
}

/// `s` without its leading and trailing whitespace, as `str::trim` gives it.
pub fn trim_input(s: &str) -> (r: String)
    ensures
        is_trimmed_of(r@, s@),
{
    let chars = chars_of(s);
    let n = chars.len();
    let mut a: usize = 0;
    while a < n && is_whitespace_char(chars[a])
        invariant
            n == chars@.len(),
            a <= n,
            forall|i: int| 0 <= i < a ==> is_white_space(#[trigger] chars@[i]),
        decreases n - a,
    {
        a = a + 1;
    }
    let mut b: usize = n;
    while b > a && is_whitespace_char(chars[b - 1])
        invariant
            n == chars@.len(),
            a <= b <= n,
            a < n ==> !is_white_space(chars@[a as int]),
            forall|i: int| b <= i < n ==> is_white_space(#[trigger] chars@[i]),
        decreases b - a,
    {
        b = b - 1;
    }
    let r = String::from_str(s.substring_char(a, b));
    assert(is_trimmed_of(r@, s@)) by {
        assert(r@ == s@.subrange(a as int, b as int));
    }
    r
}

/// The characters of `text`, in order.
fn chars_of(text: &str) -> (r: Vec<char>)
    ensures
        r@ == text@,
{
    let mut out: Vec<char> = Vec::new();
    for c in it: text.chars()
        invariant
            out@ == it.seq().take(it.index() as int),
    {
        out.push(c);
    }
    out
}


/// Scans `s` from the left: the `(start, end)` spans of the words that are
/// complete, and the start of the word still open at the end of `s`, if any.
pub open spec fn scan_words(s: Seq<char>) -> (Seq<(int, int)>, Option<int>)
    decreases s.len(),
{
    if s.len() == 0 {
        (Seq::empty(), None)
    } else {
        let (done, open) = scan_words(s.drop_last());
        let i = s.len() - 1;
        if is_white_space(s[i]) {
            match open {
                Some(start) => (done.push((start, i)), None),
                None => (done, None),
            }
        } else {
            match open {
                Some(start) => (done, Some(start)),
                None => (done, Some(i)),
            }
        }
    }
}

/// The spans of the maximal runs of non-whitespace characters of `s`.
pub open spec fn word_spans(s: Seq<char>) -> Seq<(int, int)> {
    let (done, open) = scan_words(s);
    match open {
        Some(start) => done.push((start, s.len() as int)),
        None => done,
    }
}

/// The words of `s`, as `str::split_whitespace` yields them.
pub open spec fn split_words(s: Seq<char>) -> Seq<Seq<char>> {
    word_spans(s).map_values(|p: (int, int)| s.subrange(p.0, p.1))
}

/// Spans as integers.
pub open spec fn spans_view(v: Seq<(usize, usize)>) -> Seq<(int, int)> {
    v.map_values(|p: (usize, usize)| (p.0 as int, p.1 as int))
}

/// The spans of the words of `chars`.
fn spans_of(chars: &Vec<char>) -> (r: Vec<(usize, usize)>)
    ensures
        spans_view(r@) == word_spans(chars@),
{
    let n = chars.len();
    let mut done: Vec<(usize, usize)> = Vec::new();
    let mut open: Option<usize> = None;
    let mut k: usize = 0;
    while k < n
        invariant
            n == chars@.len(),
            k <= n,
            (spans_view(done@), match open {
                Some(st) => Some(st as int),
                None => None::<int>,
            }) == scan_words(chars@.take(k as int)),
        decreases n - k,
    {
        let c = chars[k];
        assert(chars@.take(k as int + 1).drop_last() =~= chars@.take(k as int));
        if is_whitespace_char(c) {
            match open {
                Some(st) => {
                    let ghost before = done@;
                    done.push((st, k));
                    assert(spans_view(done@) =~= spans_view(before).push((st as int, k as int)));
                    open = None;
                },
                None => {},
            }
        } else {
            match open {
                Some(_) => {},
                None => {
                    open = Some(k);
                },
            }
        }
        k = k + 1;
    }
    assert(chars@.take(n as int) =~= chars@);
    match open {
        Some(st) => {
            let ghost before = done@;
            done.push((st, n));
            assert(spans_view(done@) =~= spans_view(before).push((st as int, n as int)));
        },
        None => {},
    }
    done
}


/// Every span lies inside `s` and is not empty; an open word starts inside `s`.
proof fn lemma_scan_bounds(s: Seq<char>)
    ensures
        forall|k: int|
            0 <= k < scan_words(s).0.len() ==> 0 <= #[trigger] scan_words(s).0[k].0
                < scan_words(s).0[k].1 <= s.len(),
        scan_words(s).1 matches Some(st) ==> 0 <= st < s.len(),
    decreases s.len(),
{
    if s.len() > 0 {
        lemma_scan_bounds(s.drop_last());
    }
}

/// Every word span lies inside `s` and is not empty.
pub proof fn lemma_word_spans_bounds(s: Seq<char>)
    ensures
        forall|k: int|
            0 <= k < word_spans(s).len() ==> 0 <= #[trigger] word_spans(s)[k].0 < word_spans(
                s,
            )[k].1 <= s.len(),
{
    lemma_scan_bounds(s);
}

/// What the scan of `s` keeps: complete words are runs of non-whitespace
/// characters each followed by whitespace, an open word runs to the end of `s`,
/// and nothing is found exactly when `s` is all whitespace.
proof fn lemma_scan_words_props(s: Seq<char>)
    ensures
        forall|k: int|
            0 <= k < scan_words(s).0.len() ==> {
                let (a, b) = #[trigger] scan_words(s).0[k];
                &&& 0 <= a < b < s.len()
                &&& is_white_space(s[b])
                &&& forall|i: int| a <= i < b ==> !is_white_space(#[trigger] s[i])
            },
        scan_words(s).1 matches Some(st) ==> 0 <= st < s.len() && forall|i: int|
            st <= i < s.len() ==> !is_white_space(#[trigger] s[i]),
        (scan_words(s).0.len() == 0 && scan_words(s).1 is None) <==> forall|i: int|
            0 <= i < s.len() ==> is_white_space(#[trigger] s[i]),
    decreases s.len(),
{
    if s.len() > 0 {
        let p = s.drop_last();
        lemma_scan_words_props(p);
        let n = s.len() - 1;
        assert forall|i: int| 0 <= i < p.len() implies #[trigger] p[i] == s[i] by {}
        let (pd, po) = scan_words(p);
        let (d, o) = scan_words(s);
        assert forall|k: int| 0 <= k < pd.len() implies {
            let (a, b) = #[trigger] pd[k];
            &&& 0 <= a < b < s.len()
            &&& is_white_space(s[b])
            &&& forall|i: int| a <= i < b ==> !is_white_space(#[trigger] s[i])
        } by {
            let (a, b) = pd[k];
            assert(is_white_space(p[b]));
            assert forall|i: int| a <= i < b implies !is_white_space(#[trigger] s[i]) by {
                assert(!is_white_space(p[i]));
            }
        }
        if is_white_space(s[n]) {
            match po {
                Some(st) => {
                    assert(d == pd.push((st, n)));
                    assert forall|k: int| 0 <= k < d.len() implies {
                        let (a, b) = #[trigger] d[k];
                        &&& 0 <= a < b < s.len()
                        &&& is_white_space(s[b])
                        &&& forall|i: int| a <= i < b ==> !is_white_space(#[trigger] s[i])
                    } by {
                        if k < pd.len() {
                            assert(d[k] == pd[k]);
                        } else {
                            assert forall|i: int| st <= i < n implies !is_white_space(#[trigger] s[i]) by {
                                assert(!is_white_space(p[i]));
                            }
                        }
                    }
                },
                None => {
                    assert(d == pd);
                },
            }
        } else {
            match po {
                Some(st) => {
                    assert(d == pd);
                    assert forall|i: int| st <= i < s.len() implies !is_white_space(#[trigger] s[i]) by {
                        if i < n {
                            assert(!is_white_space(p[i]));
                        }
                    }
                },
                None => {
                    assert(d == pd);
                },
            }
        }
        if !(forall|i: int| 0 <= i < s.len() ==> is_white_space(#[trigger] s[i])) {
            let j = choose|j: int| 0 <= j < s.len() && !is_white_space(#[trigger] s[j]);
            if j < n {
                assert(!is_white_space(p[j]));
            }
        } else {
            assert forall|i: int| 0 <= i < p.len() implies is_white_space(#[trigger] p[i]) by {
                assert(is_white_space(s[i]));
            }
            assert(is_white_space(s[n]));
        }
    }
}

/// The words of a text are not empty and hold no whitespace, and a text has no
/// words exactly when it is all whitespace.
pub proof fn law_words_are_whitespace_free(s: Seq<char>)
    ensures
        forall|k: int|
            0 <= k < split_words(s).len() ==> #[trigger] split_words(s)[k].len() > 0 && forall|i: int|
                0 <= i < split_words(s)[k].len() ==> !is_white_space(#[trigger] split_words(s)[k][i]),
        split_words(s).len() == 0 <==> forall|i: int| 0 <= i < s.len() ==> is_white_space(#[trigger] s[i]),
{
    lemma_scan_words_props(s);
    lemma_word_spans_bounds(s);
    let (done, open) = scan_words(s);
    assert forall|k: int| 0 <= k < split_words(s).len() implies #[trigger] split_words(s)[k].len() > 0
        && forall|i: int| 0 <= i < split_words(s)[k].len() ==> !is_white_space(#[trigger] split_words(s)[k][i]) by {
        let (a, b) = word_spans(s)[k];
        assert(split_words(s)[k] == s.subrange(a, b));
        if k < done.len() {
            assert(word_spans(s)[k] == done[k]);
        }
        assert forall|i: int| 0 <= i < split_words(s)[k].len() implies !is_white_space(#[trigger] split_words(s)[k][i]) by {
            assert(split_words(s)[k][i] == s[a + i]);
        }
    }
}

/// Spans start where a run of non-whitespace starts, come in order without
/// overlapping, and together with the open word cover every non-whitespace
/// character scanned.
proof fn lemma_scan_maximal(s: Seq<char>)
    ensures
        ({
            let (done, open) = scan_words(s);
            &&& forall|k: int|
                0 <= k < done.len() ==> (#[trigger] done[k].0 == 0 || is_white_space(s[done[k].0 - 1]))
            &&& forall|k: int, j: int| 0 <= k < j < done.len() ==> #[trigger] done[k].1 < #[trigger] done[j].0
            &&& open matches Some(st) ==> {
                &&& (st == 0 || is_white_space(s[st - 1]))
                &&& forall|k: int| 0 <= k < done.len() ==> #[trigger] done[k].1 < st
            }
            &&& forall|i: int|
                0 <= i < s.len() && !is_white_space(#[trigger] s[i]) ==> (exists|k: int|
                    0 <= k < done.len() && #[trigger] done[k].0 <= i < done[k].1) || (open matches Some(st)
                    && st <= i)
        }),
    decreases s.len(),
{
    lemma_scan_words_props(s);
    if s.len() > 0 {
        let p = s.drop_last();
        lemma_scan_maximal(p);
        lemma_scan_words_props(p);
        let n = s.len() - 1;
        assert forall|i: int| 0 <= i < p.len() implies #[trigger] p[i] == s[i] by {}
        let (pd, po) = scan_words(p);
        let (d, o) = scan_words(s);
        if is_white_space(s[n]) {
            match po {
                Some(st) => {
                    assert(d == pd.push((st, n)));
                    assert forall|k: int| 0 <= k < d.len() implies (#[trigger] d[k].0 == 0 || is_white_space(s[d[k].0 - 1])) by {
                        if k < pd.len() {
                            assert(d[k] == pd[k]);
                            if pd[k].0 != 0 {
                                assert(is_white_space(p[pd[k].0 - 1]));
                            }
                        } else {
                            if st != 0 {
                                assert(is_white_space(p[st - 1]));
                            }
                        }
                    }
                    assert forall|k: int, j: int| 0 <= k < j < d.len() implies #[trigger] d[k].1 < #[trigger] d[j].0 by {
                        assert(d[k] == pd[k]);
                        if j < pd.len() {
                            assert(d[j] == pd[j]);
                        }
                    }
                    assert forall|i: int| 0 <= i < s.len() && !is_white_space(#[trigger] s[i]) implies (exists|k: int|
                        0 <= k < d.len() && #[trigger] d[k].0 <= i < d[k].1) by {
                        assert(i < n);
                        assert(!is_white_space(p[i]));
                        if exists|k: int| 0 <= k < pd.len() && #[trigger] pd[k].0 <= i < pd[k].1 {
                            let k = choose|k: int| 0 <= k < pd.len() && #[trigger] pd[k].0 <= i < pd[k].1;
                            assert(d[k] == pd[k]);
                        } else {
                            assert(d[pd.len() as int] == (st, n));
                        }
                    }
                },
                None => {
                    assert(d == pd);
                    assert forall|k: int| 0 <= k < d.len() implies (#[trigger] d[k].0 == 0 || is_white_space(s[d[k].0 - 1])) by {
                        if pd[k].0 != 0 {
                            assert(is_white_space(p[pd[k].0 - 1]));
                        }
                    }
                    assert forall|i: int| 0 <= i < s.len() && !is_white_space(#[trigger] s[i]) implies (exists|k: int|
                        0 <= k < d.len() && #[trigger] d[k].0 <= i < d[k].1) by {
                        assert(i < n);
                        assert(!is_white_space(p[i]));
                    }
                },
            }
        } else {
            assert(d == pd);
            assert forall|k: int| 0 <= k < d.len() implies (#[trigger] d[k].0 == 0 || is_white_space(s[d[k].0 - 1])) by {
                if pd[k].0 != 0 {
                    assert(is_white_space(p[pd[k].0 - 1]));
                }
            }
            match po {
                Some(st) => {
                    if st != 0 {
                        assert(is_white_space(p[st - 1]));
                    }
                    assert forall|i: int| 0 <= i < s.len() && !is_white_space(#[trigger] s[i]) implies (exists|k: int|
                        0 <= k < d.len() && #[trigger] d[k].0 <= i < d[k].1) || (o matches Some(st2) && st2 <= i) by {
                        if i < n {
                            assert(!is_white_space(p[i]));
                        }
                    }
                },
                None => {
                    assert(o == Some(n));
                    if n > 0 {
                        // the character before the new word is whitespace, or a word would be open
                        if !is_white_space(p[n - 1]) {
                            assert(exists|k: int| 0 <= k < pd.len() && #[trigger] pd[k].0 <= n - 1 < pd[k].1);
                            let k = choose|k: int| 0 <= k < pd.len() && #[trigger] pd[k].0 <= n - 1 < pd[k].1;
                            assert(pd[k].1 < p.len());
                        }
                        assert(is_white_space(s[n - 1]));
                    }
                    assert forall|k: int| 0 <= k < d.len() implies #[trigger] d[k].1 < n by {
                        assert(pd[k].1 < p.len());
                    }
                    assert forall|i: int| 0 <= i < s.len() && !is_white_space(#[trigger] s[i]) implies (exists|k: int|
                        0 <= k < d.len() && #[trigger] d[k].0 <= i < d[k].1) || (o matches Some(st2) && st2 <= i) by {
                        if i < n {
                            assert(!is_white_space(p[i]));
                        }
                    }
                },
            }
        }
    }
}

/// The words are exactly the maximal runs of non-whitespace characters: each
/// word's span starts at the beginning of the text or right after whitespace and
/// ends at the end of the text or right before whitespace, holds no whitespace,
/// the spans come in order without overlapping, and every non-whitespace
/// character of the text lies in one of them. Each word is the text of its span.
pub proof fn law_words_are_maximal_runs(s: Seq<char>)
    ensures
        split_words(s).len() == word_spans(s).len(),
        forall|k: int|
            0 <= k < word_spans(s).len() ==> {
                let (a, b) = #[trigger] word_spans(s)[k];
                &&& 0 <= a < b <= s.len()
                &&& a == 0 || is_white_space(s[a - 1])
                &&& b == s.len() || is_white_space(s[b])
                &&& forall|i: int| a <= i < b ==> !is_white_space(#[trigger] s[i])
                &&& split_words(s)[k] == s.subrange(a, b)
            },
        forall|k: int, j: int|
            0 <= k < j < word_spans(s).len() ==> #[trigger] word_spans(s)[k].1 < #[trigger] word_spans(s)[j].0,
        forall|i: int|
            0 <= i < s.len() && !is_white_space(#[trigger] s[i]) ==> exists|k: int|
                0 <= k < word_spans(s).len() && #[trigger] word_spans(s)[k].0 <= i < word_spans(s)[k].1,
{
    lemma_scan_words_props(s);
    lemma_scan_maximal(s);
    lemma_word_spans_bounds(s);
    let (done, open) = scan_words(s);
    let sp = word_spans(s);
    assert forall|k: int| 0 <= k < sp.len() implies {
        let (a, b) = #[trigger] sp[k];
        &&& 0 <= a < b <= s.len()
        &&& a == 0 || is_white_space(s[a - 1])
        &&& b == s.len() || is_white_space(s[b])
        &&& forall|i: int| a <= i < b ==> !is_white_space(#[trigger] s[i])
        &&& split_words(s)[k] == s.subrange(a, b)
    } by {
        if k < done.len() {
            assert(sp[k] == done[k]);
        }
    }
    assert forall|k: int, j: int| 0 <= k < j < sp.len() implies #[trigger] sp[k].1 < #[trigger] sp[j].0 by {
        assert(sp[k] == done[k]);
        if j < done.len() {
            assert(sp[j] == done[j]);
        }
    }
    assert forall|i: int| 0 <= i < s.len() && !is_white_space(#[trigger] s[i]) implies exists|k: int|
        0 <= k < sp.len() && #[trigger] sp[k].0 <= i < sp[k].1 by {
        if exists|k: int| 0 <= k < done.len() && #[trigger] done[k].0 <= i < done[k].1 {
            let k = choose|k: int| 0 <= k < done.len() && #[trigger] done[k].0 <= i < done[k].1;
            assert(sp[k] == done[k]);
        } else {
            assert(sp[done.len() as int].0 <= i < sp[done.len() as int].1);
        }
    }
}

/// How many times `w` occurs in `words`.
pub open spec fn count_word(words: Seq<Seq<char>>, w: Seq<char>) -> nat
    decreases words.len(),
{
    if words.len() == 0 {
        0
    } else {
        count_word(words.drop_last(), w) + if words.last() == w {
            1nat
        } else {
            0nat
        }
    }
}

/// `i` is the first position of a word that occurs at least as often as any other.
pub open spec fn is_first_most_frequent(words: Seq<Seq<char>>, i: int) -> bool {
    &&& 0 <= i < words.len()
    &&& forall|j: int| 0 <= j < words.len() ==> count_word(words, #[trigger] words[j]) <= count_word(words, words[i])
    &&& forall|j: int| 0 <= j < i ==> count_word(words, #[trigger] words[j]) < count_word(words, words[i])
}

/// `spans` are the spans in `chars` of the words `words`, in order.
pub open spec fn spans_match(chars: Seq<char>, spans: Seq<(usize, usize)>, words: Seq<Seq<char>>) -> bool {
    &&& spans.len() == words.len()
    &&& forall|k: int|
        0 <= k < spans.len() ==> #[trigger] spans[k].0 < spans[k].1 <= chars.len() && words[k]
            == chars.subrange(spans[k].0 as int, spans[k].1 as int)
}

proof fn lemma_spans_match(chars: Seq<char>, spans: Seq<(usize, usize)>)
    requires
        spans_view(spans) == word_spans(chars),
    ensures
        spans_match(chars, spans, split_words(chars)),
{
    lemma_word_spans_bounds(chars);
    assert forall|k: int| 0 <= k < spans.len() implies #[trigger] spans[k].0 < spans[k].1 <= chars.len()
        && split_words(chars)[k] == chars.subrange(spans[k].0 as int, spans[k].1 as int) by {
        assert(spans_view(spans)[k] == word_spans(chars)[k]);
    }
}

/// Whether the characters of the two spans are the same.
fn same_chars(chars: &Vec<char>, a: (usize, usize), b: (usize, usize)) -> (r: bool)
    requires
        a.0 <= a.1 <= chars@.len(),
        b.0 <= b.1 <= chars@.len(),
    ensures
        r == (chars@.subrange(a.0 as int, a.1 as int) == chars@.subrange(b.0 as int, b.1 as int)),
{
    let len = a.1 - a.0;
    if len != b.1 - b.0 {
        proof {
            assert(chars@.subrange(a.0 as int, a.1 as int).len() != chars@.subrange(b.0 as int, b.1 as int).len());
        }
        return false;
    }
    let mut k: usize = 0;
    while k < len
        invariant
            a.0 <= a.1 <= chars@.len(),
            b.0 <= b.1 <= chars@.len(),
            len == a.1 - a.0,
            len == b.1 - b.0,
            k <= len,
            forall|t: int|
                0 <= t < k ==> #[trigger] chars@.subrange(a.0 as int, a.1 as int)[t] == chars@.subrange(
                    b.0 as int,
                    b.1 as int,
                )[t],
        decreases len - k,
    {
        assert(chars@.subrange(a.0 as int, a.1 as int)[k as int] == chars@[a.0 + k]);
        assert(chars@.subrange(b.0 as int, b.1 as int)[k as int] == chars@[b.0 + k]);
        if chars[a.0 + k] != chars[b.0 + k] {
            proof {
                assert(chars@.subrange(a.0 as int, a.1 as int)[k as int] != chars@.subrange(b.0 as int, b.1 as int)[k as int]);
            }
            return false;
        }
        k = k + 1;
    }
    assert(chars@.subrange(a.0 as int, a.1 as int) =~= chars@.subrange(b.0 as int, b.1 as int));
    true
}

/// The most frequent whitespace-separated word of `text` and how many times it
/// occurs. Where several words occur equally often, the one that comes first wins;
/// a text without words gives the empty word and a count of zero.
pub fn most_frequent_word(text: &str) -> (r: (String, usize))
    ensures
        split_words(text@).len() == 0 ==> r.0@ == Seq::<char>::empty() && r.1 == 0,
        split_words(text@).len() > 0 ==> exists|i: int|
            is_first_most_frequent(split_words(text@), i) && r.0@ == split_words(text@)[i]
                && r.1 == count_word(split_words(text@), split_words(text@)[i]),
{
    let chars = chars_of(text);
    let spans = spans_of(&chars);
    let ghost words = split_words(text@);
    proof {
        lemma_spans_match(chars@, spans@);
    }
    let n = spans.len();
    let mut max_count: usize = 0;
    let mut best: usize = 0;
    let mut i: usize = 0;
    while i < n
        invariant
            n == spans@.len(),
            n == words.len(),
            spans_match(chars@, spans@, words),
            i <= n,
            max_count <= n,
            i == 0 ==> max_count == 0,
            i > 0 ==> {
                &&& best < i
                &&& max_count == count_word(words, words[best as int])
                &&& forall|j: int| 0 <= j < i ==> count_word(words, #[trigger] words[j]) <= max_count
                &&& forall|j: int| 0 <= j < best ==> count_word(words, #[trigger] words[j]) < max_count
            },
        decreases n - i,
    {
        let mut count: usize = 0;
        let mut j: usize = 0;
        while j < n
            invariant
                n == spans@.len(),
                n == words.len(),
                spans_match(chars@, spans@, words),
                i < n,
                j <= n,
                count <= j,
                count == count_word(words.take(j as int), words[i as int]),
            decreases n - j,
        {
            assert(words.take(j as int + 1).drop_last() =~= words.take(j as int));
            assert(spans@[i as int].0 < spans@[i as int].1);
            assert(spans@[j as int].0 < spans@[j as int].1);
            if same_chars(&chars, spans[i], spans[j]) {
                count = count + 1;
            }
            j = j + 1;
        }
        assert(words.take(n as int) =~= words);
        proof {
            lemma_count_positive(words, i as int);
        }
        if count > max_count {
            max_count = count;
            best = i;
        }
        i = i + 1;
    }
    if n == 0 {
        (String::new(), 0)
    } else {
        let (start, end) = spans[best];
        let word = String::from_str(text.substring_char(start, end));
        proof {
            assert(count_word(words, words[best as int]) >= 1) by {
                lemma_count_positive(words, best as int);
            }
            assert(is_first_most_frequent(words, best as int));
        }
        (word, max_count)
    }
}

/// A word occurs at least once in a sequence that holds it.
proof fn lemma_count_positive(words: Seq<Seq<char>>, i: int)
    requires
        0 <= i < words.len(),
    ensures
        count_word(words, words[i]) >= 1,
    decreases words.len(),
{
    if i < words.len() - 1 {
        lemma_count_positive(words.drop_last(), i);
        assert(words.drop_last()[i] == words[i]);
    }
}


/// How often a word occurs is its multiplicity in the multiset of the words.
proof fn lemma_count_word_multiset(words: Seq<Seq<char>>, w: Seq<char>)
    ensures
        count_word(words, w) == words.to_multiset().count(w),
    decreases words.len(),
{
    broadcast use vstd::seq_lib::group_to_multiset_ensures;
    broadcast use vstd::multiset::group_multiset_axioms;

    if words.len() == 0 {
        assert(words.to_multiset() =~= vstd::multiset::Multiset::<Seq<char>>::empty());
    } else {
        lemma_count_word_multiset(words.drop_last(), w);
        assert(words =~= words.drop_last().push(words.last()));
    }
}

/// The most frequent word does not depend on the order of the words: when two
/// texts have the same words, each as often, their most frequent words occur
/// equally often, and the one of the second text occurs that often in the first.
pub proof fn law_most_frequent_reorder(t1: Seq<char>, t2: Seq<char>, i1: int, i2: int)
    requires
        split_words(t1).to_multiset() == split_words(t2).to_multiset(),
        is_first_most_frequent(split_words(t1), i1),
        is_first_most_frequent(split_words(t2), i2),
    ensures
        count_word(split_words(t2), split_words(t2)[i2]) == count_word(split_words(t1), split_words(t1)[i1]),
        count_word(split_words(t1), split_words(t2)[i2]) == count_word(split_words(t1), split_words(t1)[i1]),
{
    broadcast use vstd::seq_lib::group_to_multiset_ensures;

    let ws1 = split_words(t1);
    let ws2 = split_words(t2);
    let w1 = ws1[i1];
    let w2 = ws2[i2];
    lemma_count_word_multiset(ws1, w1);
    lemma_count_word_multiset(ws2, w1);
    lemma_count_word_multiset(ws1, w2);
    lemma_count_word_multiset(ws2, w2);
    assert(ws1.contains(w1));
    assert(ws2.contains(w2));
    assert(ws2.to_multiset().count(w1) > 0);
    assert(ws1.to_multiset().count(w2) > 0);
    assert(ws2.contains(w1));
    assert(ws1.contains(w2));
    let j2 = choose|j: int| 0 <= j < ws2.len() && ws2[j] == w1;
    let j1 = choose|j: int| 0 <= j < ws1.len() && ws1[j] == w2;
    assert(count_word(ws2, ws2[j2]) <= count_word(ws2, w2));
    assert(count_word(ws1, ws1[j1]) <= count_word(ws1, w1));
}


/// Spans moved right by `off`.
pub open spec fn shift_spans(spans: Seq<(int, int)>, off: int) -> Seq<(int, int)> {
    spans.map_values(|p: (int, int)| (p.0 + off, p.1 + off))
}

/// An open word's start moved right by `off`.
pub open spec fn shift_start(start: Option<int>, off: int) -> Option<int> {
    match start {
        Some(st) => Some(st + off),
        None => None,
    }
}

/// Scanning `x + b`, where `x` leaves no word open, finds the words of `x`, then
/// those of `b`, moved by the length of `x`.
proof fn lemma_scan_concat(x: Seq<char>, b: Seq<char>)
    requires
        scan_words(x).1 is None,
    ensures
        scan_words(x + b).0 == scan_words(x).0 + shift_spans(scan_words(b).0, x.len() as int),
        scan_words(x + b).1 == shift_start(scan_words(b).1, x.len() as int),
    decreases b.len(),
{
    let off = x.len() as int;
    if b.len() == 0 {
        assert(x + b =~= x);
        assert(shift_spans(scan_words(b).0, off) =~= Seq::<(int, int)>::empty());
        assert(scan_words(x).0 + Seq::<(int, int)>::empty() =~= scan_words(x).0);
    } else {
        let bp = b.drop_last();
        lemma_scan_concat(x, bp);
        assert((x + b).drop_last() =~= x + bp);
        assert((x + b)[(x + b).len() - 1] == b[b.len() - 1]);
        let (bd, bo) = scan_words(bp);
        let d = scan_words(x).0;
        let i = b.len() - 1;
        if is_white_space(b[i]) {
            match bo {
                Some(st) => {
                    assert(shift_spans(bd.push((st, i)), off) =~= shift_spans(bd, off).push((st + off, i + off)));
                    assert(d + shift_spans(bd, off).push((st + off, i + off)) =~= (d + shift_spans(bd, off)).push((st + off, i + off)));
                },
                None => {},
            }
        }
    }
}

/// A text that ends in whitespace leaves no word open, and its complete words are
/// the words of the text before that whitespace.
proof fn lemma_scan_ends_in_space(a: Seq<char>, c: char)
    requires
        is_white_space(c),
    ensures
        scan_words(a.push(c)).1 is None,
        scan_words(a.push(c)).0 == word_spans(a),
{
    assert(a.push(c).drop_last() =~= a);
}

/// The words of `a`, a whitespace character, then `b`, are the words of `a`
/// followed by those of `b`.
pub proof fn lemma_split_words_concat(a: Seq<char>, c: char, b: Seq<char>)
    requires
        is_white_space(c),
    ensures
        split_words(a.push(c) + b) == split_words(a) + split_words(b),
{
    let x = a.push(c);
    let off = x.len() as int;
    lemma_scan_ends_in_space(a, c);
    lemma_scan_concat(x, b);
    lemma_word_spans_bounds(a);
    lemma_word_spans_bounds(b);
    let (bd, bo) = scan_words(b);
    let sa = word_spans(a);
    let sb = word_spans(b);
    assert(word_spans(x + b) =~= sa + shift_spans(sb, off)) by {
        match bo {
            Some(st) => {
                assert(shift_spans(bd.push((st, b.len() as int)), off) =~= shift_spans(bd, off).push((st + off, b.len() + off)));
                assert(sa + shift_spans(bd, off).push((st + off, b.len() + off)) =~= (sa + shift_spans(bd, off)).push((st + off, b.len() + off)));
            },
            None => {},
        }
    }
    let full = x + b;
    assert forall|k: int| 0 <= k < split_words(full).len() implies #[trigger] split_words(full)[k] == (split_words(a) + split_words(b))[k] by {
        if k < sa.len() {
            let (p0, p1) = sa[k];
            assert(full.subrange(p0, p1) =~= a.subrange(p0, p1));
        } else {
            let (p0, p1) = sb[k - sa.len()];
            assert(full.subrange(p0 + off, p1 + off) =~= b.subrange(p0, p1));
        }
    }
    assert(split_words(full) =~= split_words(a) + split_words(b));
}

/// A text written twice, with a space between, has each word twice as often,
/// and the same most frequent word, at the same place, with twice the count.
pub proof fn law_most_frequent_doubled(t: Seq<char>, i: int)
    ensures
        split_words(t.push(' ') + t) == split_words(t) + split_words(t),
        split_words(t).len() == 0 ==> split_words(t.push(' ') + t).len() == 0,
        is_first_most_frequent(split_words(t), i) ==> {
            let d = split_words(t.push(' ') + t);
            &&& is_first_most_frequent(d, i)
            &&& d[i] == split_words(t)[i]
            &&& count_word(d, d[i]) == 2 * count_word(split_words(t), split_words(t)[i])
        },
{
    broadcast use vstd::multiset::group_multiset_axioms;

    lemma_split_words_concat(t, ' ', t);
    let ws = split_words(t);
    let d = ws + ws;
    assert forall|w: Seq<char>| #[trigger] count_word(d, w) == 2 * count_word(ws, w) by {
        lemma_count_word_multiset(d, w);
        lemma_count_word_multiset(ws, w);
        vstd::seq_lib::lemma_multiset_commutative(ws, ws);
    }
    if is_first_most_frequent(ws, i) {
        assert forall|j: int| 0 <= j < d.len() implies count_word(d, #[trigger] d[j]) <= count_word(d, d[i]) by {
            if j < ws.len() {
                assert(d[j] == ws[j]);
                assert(count_word(ws, ws[j]) <= count_word(ws, ws[i]));
            } else {
                assert(d[j] == ws[j - ws.len()]);
                assert(count_word(ws, ws[j - ws.len()]) <= count_word(ws, ws[i]));
            }
        }
        assert forall|j: int| 0 <= j < i implies count_word(d, #[trigger] d[j]) < count_word(d, d[i]) by {
            assert(d[j] == ws[j]);
            assert(count_word(ws, ws[j]) < count_word(ws, ws[i]));
        }
    }
}

} // verus!

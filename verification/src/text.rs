//! Character-level text utilities with their mathematical meaning.

use vstd::prelude::*;

verus! {

/// The Unicode `White_Space` property, the characters that
/// `char::is_whitespace` accepts.
pub open spec fn is_ws(c: char) -> bool {
    let u = c as u32;
    ||| (0x9 <= u && u <= 0xD)
    ||| u == 0x20
    ||| u == 0x85
    ||| u == 0xA0
    ||| u == 0x1680
    ||| (0x2000 <= u && u <= 0x200A)
    ||| u == 0x2028
    ||| u == 0x2029
    ||| u == 0x202F
    ||| u == 0x205F
    ||| u == 0x3000
}

/// Whether `c` is white space in the Unicode sense.
pub fn is_whitespace_char(c: char) -> (b: bool)
    ensures
        b == is_ws(c),
{
    let u = c as u32;
    (0x9 <= u && u <= 0xD) || u == 0x20 || u == 0x85 || u == 0xA0 || u == 0x1680 || (0x2000
        <= u && u <= 0x200A) || u == 0x2028 || u == 0x2029 || u == 0x202F || u == 0x205F || u
        == 0x3000
}

/// The characters of a string slice, in order.
pub fn chars_of(s: &str) -> (v: Vec<char>)
    ensures
        v@ == s@,
{
    let mut v: Vec<char> = Vec::new();
    for c in it: s.chars()
        invariant
            v@ == it.seq().take(it.index() as int),
            it.seq() == s@,
    {
        v.push(c);
    }
    v
}

/// Appends one character to a string (`String::push`).
#[verifier::external_body]
pub(crate) fn push_char(s: &mut String, c: char)
    ensures
        final(s)@ == old(s)@.push(c),
{
    s.push(c);
}

/// A string holding exactly the given characters.
pub fn string_from_chars(v: &[char]) -> (s: String)
    ensures
        s@ == v@,
{
    let mut s = String::new();
    let mut i: usize = 0;
    while i < v.len()
        invariant
            i <= v.len(),
            s@ == v@.take(i as int),
        decreases v.len() - i,
    {
        push_char(&mut s, v[i]);
        assert(v@.take(i + 1) == v@.take(i as int).push(v@[i as int]));
        i = i + 1;
    }
    assert(v@.take(v.len() as int) == v@);
    s
}


/// `s` without its leading white space.
pub open spec fn trim_start(s: Seq<char>) -> Seq<char>
    decreases s.len(),
{
    if s.len() > 0 && is_ws(s[0]) {
        trim_start(s.drop_first())
    } else {
        s
    }
}

/// `s` without its trailing white space.
pub open spec fn trim_end(s: Seq<char>) -> Seq<char>
    decreases s.len(),
{
    if s.len() > 0 && is_ws(s.last()) {
        trim_end(s.drop_last())
    } else {
        s
    }
}

/// `s` without leading and trailing white space, as `str::trim` gives it.
pub open spec fn trim(s: Seq<char>) -> Seq<char> {
    trim_end(trim_start(s))
}

/// The number of leading white-space characters.
pub open spec fn leading_ws(s: Seq<char>) -> nat
    decreases s.len(),
{
    if s.len() > 0 && is_ws(s[0]) {
        1 + leading_ws(s.drop_first())
    } else {
        0
    }
}

proof fn lemma_trim_start_skip(s: Seq<char>)
    ensures
        leading_ws(s) <= s.len(),
        trim_start(s) == s.skip(leading_ws(s) as int),
        forall|j: int| 0 <= j < leading_ws(s) ==> is_ws(#[trigger] s[j]),
        leading_ws(s) < s.len() ==> !is_ws(s[leading_ws(s) as int]),
    decreases s.len(),
{
    if s.len() > 0 && is_ws(s[0]) {
        lemma_trim_start_skip(s.drop_first());
        assert(s.drop_first().skip(leading_ws(s.drop_first()) as int) == s.skip(
            leading_ws(s) as int,
        ));
        assert forall|j: int| 0 <= j < leading_ws(s) implies is_ws(#[trigger] s[j]) by {
            if j > 0 {
                assert(s[j] == s.drop_first()[j - 1]);
            }
        }
    } else {
        assert(s.skip(0) == s);
    }
}

/// The number of trailing white-space characters.
pub open spec fn trailing_ws(s: Seq<char>) -> nat
    decreases s.len(),
{
    if s.len() > 0 && is_ws(s.last()) {
        1 + trailing_ws(s.drop_last())
    } else {
        0
    }
}

proof fn lemma_trim_end_take(s: Seq<char>)
    ensures
        trailing_ws(s) <= s.len(),
        trim_end(s) == s.take(s.len() - trailing_ws(s)),
        forall|j: int| s.len() - trailing_ws(s) <= j < s.len() ==> is_ws(#[trigger] s[j]),
        trailing_ws(s) < s.len() ==> !is_ws(s[s.len() - trailing_ws(s) - 1]),
    decreases s.len(),
{
    if s.len() > 0 && is_ws(s.last()) {
        lemma_trim_end_take(s.drop_last());
        assert(s.drop_last().take(s.drop_last().len() - trailing_ws(s.drop_last())) == s.take(
            s.len() - trailing_ws(s),
        ));
        assert forall|j: int| s.len() - trailing_ws(s) <= j < s.len() implies is_ws(
            #[trigger] s[j],
        ) by {
            if j < s.len() - 1 {
                assert(s[j] == s.drop_last()[j]);
            }
        }
    } else {
        assert(s.take(s.len() as int) == s);
    }
}

/// `trim(s)` is a contiguous run of `s`: the characters from the first
/// position given to the second.
pub proof fn lemma_trim_span(s: Seq<char>) -> (r: (int, int))
    ensures
        0 <= r.0 <= r.1 <= s.len(),
        trim(s) == s.subrange(r.0, r.1),
        forall|j: int| r.1 <= j < s.len() ==> is_ws(#[trigger] s[j]),
{
    lemma_trim_start_skip(s);
    let a = trim_start(s);
    lemma_trim_end_take(a);
    let l = leading_ws(s) as int;
    let e = a.len() - trailing_ws(a);
    assert(trim(s) =~= s.subrange(l, l + e));
    assert forall|j: int| l + e <= j < s.len() implies is_ws(#[trigger] s[j]) by {
        assert(s[j] == a[j - l]);
    }
    (l, l + e)
}

/// Trimming a trimmed text changes nothing.
pub proof fn lemma_trim_idempotent(s: Seq<char>)
    ensures
        trim(trim(s)) == trim(s),
{
    lemma_trim_start_skip(s);
    let a = trim_start(s);
    lemma_trim_end_take(a);
    let t = trim(s);
    assert(t == a.take(a.len() - trailing_ws(a)));
    if t.len() > 0 {
        assert(t[0] == a[0]);
        assert(a[0] == s[leading_ws(s) as int]);
        assert(!is_ws(t[0]));
        assert(t.last() == a[a.len() - trailing_ws(a) - 1]);
        assert(!is_ws(t.last()));
    }
    assert(trim_start(t) == t);
    assert(trim_end(t) == t);
}

/// The characters of `v` without leading and trailing white space.
pub fn trim_chars(v: &[char]) -> (r: Vec<char>)
    ensures
        r@ == trim(v@),
{
    let mut lo: usize = 0;
    proof {
        lemma_trim_start_skip(v@);
    }
    while lo < v.len() && is_whitespace_char(v[lo])
        invariant
            lo <= v.len(),
            lo <= leading_ws(v@),
            leading_ws(v@) <= v@.len(),
            forall|j: int| 0 <= j < leading_ws(v@) ==> is_ws(#[trigger] v@[j]),
            leading_ws(v@) < v@.len() ==> !is_ws(v@[leading_ws(v@) as int]),
        decreases v.len() - lo,
    {
        lo = lo + 1;
    }
    assert(lo == leading_ws(v@));
    let ghost t = v@.skip(lo as int);
    proof {
        lemma_trim_end_take(t);
    }
    let mut hi: usize = v.len();
    while hi > lo && is_whitespace_char(v[hi - 1])
        invariant
            lo <= hi <= v.len(),
            t == v@.skip(lo as int),
            v.len() - hi <= trailing_ws(t),
            trailing_ws(t) <= t.len(),
            forall|j: int| t.len() - trailing_ws(t) <= j < t.len() ==> is_ws(#[trigger] t[j]),
            trailing_ws(t) < t.len() ==> !is_ws(t[t.len() - trailing_ws(t) - 1]),
        decreases hi,
    {
        assert(v@[hi - 1] == t[hi - 1 - lo]);
        hi = hi - 1;
    }
    assert(v.len() - hi == trailing_ws(t)) by {
        if v.len() - hi < trailing_ws(t) {
            assert(t[hi - 1 - lo] == v@[hi - 1]);
        }
    }
    let mut r: Vec<char> = Vec::new();
    let mut i: usize = lo;
    while i < hi
        invariant
            lo <= i <= hi,
            hi <= v.len(),
            r@ == v@.subrange(lo as int, i as int),
        decreases hi - i,
    {
        r.push(v[i]);
        assert(v@.subrange(lo as int, i + 1) == v@.subrange(lo as int, i as int).push(v@[i as int]));
        i = i + 1;
    }
    assert(r@ == t.take(t.len() - trailing_ws(t)));
    r
}

/// The white-space separated words of `s`, in order, as `str::split_whitespace` gives
/// them: each new non-white-space character after white space (or at the start) opens
/// a word, later ones extend it.
pub open spec fn words(s: Seq<char>) -> Seq<Seq<char>>
    decreases s.len(),
{
    if s.len() == 0 {
        seq![]
    } else {
        let prev = words(s.drop_last());
        let c = s.last();
        if is_ws(c) {
            prev
        } else if s.len() >= 2 && !is_ws(s[s.len() - 2]) && prev.len() > 0 {
            prev.update(prev.len() - 1, prev.last().push(c))
        } else {
            prev.push(seq![c])
        }
    }
}

/// The white-space separated words of `v`.
pub fn split_whitespace_chars(v: &[char]) -> (r: Vec<Vec<char>>)
    ensures
        r@.map_values(|w: Vec<char>| w@) == words(v@),
{
    let mut r: Vec<Vec<char>> = Vec::new();
    let mut i: usize = 0;
    while i < v.len()
        invariant
            i <= v.len(),
            r@.map_values(|w: Vec<char>| w@) == words(v@.take(i as int)),
            i > 0 && !is_ws(v@[i - 1]) ==> r.len() > 0,
        decreases v.len() - i,
    {
        let c = v[i];
        let ghost pre = v@.take(i as int);
        let ghost cur = v@.take(i + 1);
        assert(cur.drop_last() == pre);
        assert(cur.last() == c);
        if is_whitespace_char(c) {
        } else if i >= 1 && !is_whitespace_char(v[i - 1]) && r.len() > 0 {
            assert(cur[cur.len() - 2] == v@[i - 1]);
            let last = r.len() - 1;
            let ghost prev = r@.map_values(|w: Vec<char>| w@);
            let mut w = r[last].clone();
            assert(w@ == prev.last());
            w.push(c);
            r.set(last, w);
            assert(words(cur) == prev.update(prev.len() - 1, prev.last().push(c)));
            assert(r@.map_values(|w: Vec<char>| w@) =~= prev.update(
                prev.len() - 1,
                prev.last().push(c),
            ));
        } else {
            if i >= 1 {
                assert(cur[cur.len() - 2] == v@[i - 1]);
            }
            let ghost prev = r@.map_values(|w: Vec<char>| w@);
            assert(words(cur) == prev.push(seq![c]));
            let mut nw: Vec<char> = Vec::new();
            nw.push(c);
            assert(nw@ =~= seq![c]);
            r.push(nw);
            assert(r@.map_values(|w: Vec<char>| w@) =~= prev.push(seq![c]));
        }
        i = i + 1;
    }
    assert(v@.take(v.len() as int) == v@);
    r
}

/// The pieces of `ws` with `sep` between consecutive ones.
pub open spec fn join(ws: Seq<Seq<char>>, sep: Seq<char>) -> Seq<char>
    decreases ws.len(),
{
    if ws.len() == 0 {
        seq![]
    } else if ws.len() == 1 {
        ws[0]
    } else {
        join(ws.drop_last(), sep) + sep + ws.last()
    }
}

/// A word as `words` gives it: not empty, with no white space, and every
/// character satisfying `p`.
pub open spec fn word_of(w: Seq<char>, p: spec_fn(char) -> bool) -> bool {
    w.len() > 0 && forall|j: int| 0 <= j < w.len() ==> !is_ws(#[trigger] w[j]) && p(w[j])
}

/// The words of a text whose characters all satisfy `p` are words whose
/// characters satisfy `p`.
pub proof fn lemma_words_of(s: Seq<char>, p: spec_fn(char) -> bool)
    requires
        forall|i: int| 0 <= i < s.len() ==> p(#[trigger] s[i]),
    ensures
        forall|k: int| 0 <= k < words(s).len() ==> word_of(#[trigger] words(s)[k], p),
    decreases s.len(),
{
    if s.len() > 0 {
        let t = s.drop_last();
        assert forall|i: int| 0 <= i < t.len() implies p(#[trigger] t[i]) by {
            assert(t[i] == s[i]);
        }
        lemma_words_of(t, p);
        let prev = words(t);
        let c = s.last();
        assert(p(c));
        if is_ws(c) {
        } else if s.len() >= 2 && !is_ws(s[s.len() - 2]) && prev.len() > 0 {
            let w = prev.last().push(c);
            assert(word_of(prev[prev.len() - 1], p));
            assert forall|j: int| 0 <= j < w.len() implies !is_ws(#[trigger] w[j]) && p(w[j]) by {
                if j < w.len() - 1 {
                    assert(w[j] == prev.last()[j]);
                }
            }
            assert(word_of(w, p));
        } else {
            assert(word_of(seq![c], p));
        }
    }
}

/// Words after a text that is empty or ends in white space: the words of the
/// text, then `w`.
proof fn lemma_words_append_word(y: Seq<char>, w: Seq<char>)
    requires
        y.len() == 0 || is_ws(y.last()),
        w.len() > 0,
        forall|j: int| 0 <= j < w.len() ==> !is_ws(#[trigger] w[j]),
    ensures
        words(y + w) == words(y).push(w),
    decreases w.len(),
{
    let s = y + w;
    assert(s.drop_last() == y + w.drop_last());
    assert(s.last() == w.last());
    if w.len() == 1 {
        assert(s.drop_last() == y);
        if s.len() >= 2 {
            assert(s[s.len() - 2] == y.last());
        }
        assert(w == seq![w[0]]);
    } else {
        let v = w.drop_last();
        assert forall|j: int| 0 <= j < v.len() implies !is_ws(#[trigger] v[j]) by {
            assert(v[j] == w[j]);
        }
        lemma_words_append_word(y, v);
        assert(s[s.len() - 2] == w[w.len() - 2]);
        let prev = words(y + v);
        assert(prev.last() == v);
        assert(v.push(w.last()) == w);
        assert(prev.update(prev.len() - 1, prev.last().push(w.last())) == words(y).push(w));
    }
}

/// A character of a text that is not white space lies in one of its words.
pub proof fn lemma_char_in_words(s: Seq<char>, i: int)
    requires
        0 <= i < s.len(),
        !is_ws(s[i]),
    ensures
        exists|k: int| 0 <= k < words(s).len() && (#[trigger] words(s)[k]).contains(s[i]),
    decreases s.len(),
{
    let t = s.drop_last();
    let prev = words(t);
    let c = s.last();
    if i < s.len() - 1 {
        assert(t[i] == s[i]);
        lemma_char_in_words(t, i);
        let k = choose|k: int| 0 <= k < prev.len() && (#[trigger] prev[k]).contains(t[i]);
        let j = choose|j: int| 0 <= j < prev[k].len() && prev[k][j] == t[i];
        if is_ws(c) {
            assert(words(s)[k] == prev[k]);
        } else if s.len() >= 2 && !is_ws(s[s.len() - 2]) && prev.len() > 0 {
            let w = words(s);
            if k == prev.len() - 1 {
                assert(w[k] == prev.last().push(c));
                assert(w[k][j] == prev[k][j]);
                assert(w[k].contains(s[i]));
            } else {
                assert(w[k] == prev[k]);
            }
        } else {
            assert(words(s)[k] == prev[k]);
        }
    } else {
        let w = words(s);
        if s.len() >= 2 && !is_ws(s[s.len() - 2]) && prev.len() > 0 {
            let q = prev.len() - 1;
            assert(w[q] == prev.last().push(c));
            assert(w[q][w[q].len() - 1] == c);
            assert(w[q].contains(s[i]));
        } else {
            assert(w[prev.len() as int] == seq![c]);
            assert(w[prev.len() as int][0] == c);
            assert(w[prev.len() as int].contains(s[i]));
        }
    }
}

/// A character of one of the words lies in the words joined by single spaces.
pub proof fn lemma_join_contains(ws: Seq<Seq<char>>, k: int, c: char)
    requires
        0 <= k < ws.len(),
        ws[k].contains(c),
    ensures
        join(ws, seq![' ']).contains(c),
    decreases ws.len(),
{
    let j = choose|j: int| 0 <= j < ws[k].len() && ws[k][j] == c;
    if ws.len() == 1 {
        assert(join(ws, seq![' '])[j] == c);
    } else {
        let front = ws.drop_last();
        let jf = join(front, seq![' ']);
        let t = join(ws, seq![' ']);
        assert(t == jf + seq![' '] + ws.last());
        if k < ws.len() - 1 {
            assert(front[k] == ws[k]);
            lemma_join_contains(front, k, c);
            let q = choose|q: int| 0 <= q < jf.len() && jf[q] == c;
            assert(t[q] == jf[q]);
        } else {
            assert(t[jf.len() + 1 + j] == ws.last()[j]);
        }
    }
}

/// Joining words by single spaces and splitting the result at white space
/// gives the words back.
pub proof fn lemma_words_of_join(ws: Seq<Seq<char>>, p: spec_fn(char) -> bool)
    requires
        forall|k: int| 0 <= k < ws.len() ==> word_of(#[trigger] ws[k], p),
    ensures
        words(join(ws, seq![' '])) == ws,
    decreases ws.len(),
{
    if ws.len() == 0 {
    } else if ws.len() == 1 {
        let w = ws[0];
        assert(word_of(w, p));
        lemma_words_append_word(seq![], w);
        assert(Seq::<char>::empty() + w == w);
        assert(words(Seq::<char>::empty()) == Seq::<Seq<char>>::empty());
        assert(Seq::<Seq<char>>::empty().push(w) == ws);
    } else {
        let front = ws.drop_last();
        assert forall|k: int| 0 <= k < front.len() implies word_of(#[trigger] front[k], p) by {
            assert(front[k] == ws[k]);
        }
        lemma_words_of_join(front, p);
        let j = join(front, seq![' ']);
        let y = j + seq![' '];
        let w = ws.last();
        assert(word_of(ws[ws.len() - 1], p));
        assert(y.drop_last() == j);
        assert(is_ws(y.last()));
        assert(words(y) == words(j));
        lemma_words_append_word(y, w);
        assert(join(ws, seq![' ']) == y + w);
        assert(front.push(w) == ws);
    }
}

/// Every character of words joined by single spaces is a space or a
/// character of a word.
pub proof fn lemma_join_chars(ws: Seq<Seq<char>>, p: spec_fn(char) -> bool)
    requires
        forall|k: int| 0 <= k < ws.len() ==> word_of(#[trigger] ws[k], p),
        p(' '),
    ensures
        forall|i: int| 0 <= i < join(ws, seq![' ']).len() ==> p(#[trigger] join(ws, seq![' '])[i]),
    decreases ws.len(),
{
    if ws.len() == 1 {
        assert(word_of(ws[0], p));
    } else if ws.len() > 1 {
        let front = ws.drop_last();
        assert forall|k: int| 0 <= k < front.len() implies word_of(#[trigger] front[k], p) by {
            assert(front[k] == ws[k]);
        }
        lemma_join_chars(front, p);
        let j = join(front, seq![' ']);
        let w = ws.last();
        assert(word_of(ws[ws.len() - 1], p));
        let t = join(ws, seq![' ']);
        assert(t == j + seq![' '] + w);
        assert forall|i: int| 0 <= i < t.len() implies p(#[trigger] t[i]) by {
            if i < j.len() {
                assert(t[i] == j[i]);
            } else if i == j.len() {
                assert(t[i] == ' ');
            } else {
                assert(t[i] == w[i - j.len() - 1]);
            }
        }
    }
}

/// Filtering a sequence whose elements all pass leaves it unchanged.
pub proof fn lemma_filter_all<A>(s: Seq<A>, f: spec_fn(A) -> bool)
    requires
        forall|i: int| 0 <= i < s.len() ==> f(#[trigger] s[i]),
    ensures
        s.filter(f) == s,
    decreases s.len(),
{
    reveal_with_fuel(Seq::filter, 1);
    if s.len() > 0 {
        let t = s.drop_last();
        assert forall|i: int| 0 <= i < t.len() implies f(#[trigger] t[i]) by {
            assert(t[i] == s[i]);
        }
        lemma_filter_all(t, f);
        assert(f(s.last()));
        assert(t.push(s.last()) == s);
    }
}

/// The pieces of `ws` with `sep` between consecutive ones.
pub fn join_chars(ws: &Vec<Vec<char>>, sep: &[char]) -> (r: Vec<char>)
    ensures
        r@ == join(ws@.map_values(|w: Vec<char>| w@), sep@),
{
    let ghost m = ws@.map_values(|w: Vec<char>| w@);
    let mut r: Vec<char> = Vec::new();
    let mut i: usize = 0;
    while i < ws.len()
        invariant
            i <= ws.len(),
            m == ws@.map_values(|w: Vec<char>| w@),
            r@ == join(m.take(i as int), sep@),
        decreases ws.len() - i,
    {
        assert(m.take(i + 1).drop_last() == m.take(i as int));
        if i > 0 {
            let mut k: usize = 0;
            let ghost r0 = r@;
            while k < sep.len()
                invariant
                    k <= sep.len(),
                    r@ == r0 + sep@.take(k as int),
                decreases sep.len() - k,
            {
                r.push(sep[k]);
                assert(sep@.take(k + 1) == sep@.take(k as int).push(sep@[k as int]));
                k = k + 1;
            }
            assert(sep@.take(sep.len() as int) == sep@);
        }
        let w = &ws[i];
        let mut k: usize = 0;
        let ghost r1 = r@;
        while k < w.len()
            invariant
                k <= w.len(),
                r@ == r1 + w@.take(k as int),
            decreases w.len() - k,
        {
            r.push(w[k]);
            assert(w@.take(k + 1) == w@.take(k as int).push(w@[k as int]));
            k = k + 1;
        }
        assert(w@.take(w.len() as int) == w@);
        assert(m.take(i + 1).last() == w@);
        if i == 0 {
            assert(r@ == join(m.take(1), sep@));
        }
        i = i + 1;
    }
    assert(m.take(ws.len() as int) == m);
    r
}


/// Appends a string slice to a string (`String::push_str`).
#[verifier::external_body]
pub(crate) fn push_str(s: &mut String, t: &str)
    ensures
        final(s)@ == old(s)@ + t@,
{
    s.push_str(t);
}

/// The owned copy of a string slice.
pub fn to_owned_string(t: &str) -> (s: String)
    ensures
        s@ == t@,
{
    let mut s = String::new();
    push_str(&mut s, t);
    assert(s@ =~= t@);
    s
}

/// The decimal digit character for `d < 10`.
pub open spec fn digit_char(d: nat) -> char {
    ((d + 48) as u32) as char
}

/// The decimal representation of `n`, without leading zeros.
pub open spec fn decimal(n: nat) -> Seq<char>
    decreases n,
{
    if n < 10 {
        seq![digit_char(n)]
    } else {
        decimal(n / 10).push(digit_char(n % 10))
    }
}

/// The decimal representation of a `u64`, as `format!("{}", n)` writes it.
pub fn u64_to_decimal(n: u64) -> (s: String)
    ensures
        s@ == decimal(n as nat),
{
    let mut rev: Vec<char> = Vec::new();
    let mut m: u64 = n;
    let ghost mut done: Seq<char> = seq![];
    // `rev` holds the digits of n % 10^k in reverse; `m` is n / 10^k.
    loop
        invariant_except_break
            m <= n,
            rev@.len() > 0 ==> decimal(n as nat) == decimal(m as nat) + done && m > 0,
            rev@.len() == 0 ==> m == n && done == Seq::<char>::empty(),
        invariant
            done == rev@.reverse(),
        ensures
            decimal(n as nat) == done,
        decreases m,
    {
        let d: u64 = m % 10;
        let b: u8 = (d as u8) + 48;
        let c: char = b as char;
        proof {
            assert(decimal(m as nat) == if m < 10 { seq![digit_char(m as nat)] } else {
                decimal((m / 10) as nat).push(digit_char((m % 10) as nat))
            });
        }
        assert(c == digit_char(d as nat));
        let ghost old_done = done;
        rev.push(c);
        proof {
            done = seq![c] + old_done;
            assert(rev@.reverse() =~= seq![c] + old_done);
        }
        if m < 10 {
            assert(decimal(n as nat) == done) by {
                if old_done.len() > 0 {
                    assert(decimal(m as nat) == seq![c]);
                }
                assert(seq![c] + old_done =~= done);
            }
            break;
        }
        proof {
            assert(decimal(m as nat) == decimal((m / 10) as nat).push(c));
            assert(decimal((m / 10) as nat) + done =~= decimal((m / 10) as nat).push(c)
                + old_done);
        }
        m = m / 10;
    }
    let mut out: Vec<char> = Vec::new();
    let mut i: usize = rev.len();
    while i > 0
        invariant
            i <= rev.len(),
            out@ == rev@.subrange(i as int, rev@.len() as int).reverse(),
        decreases i,
    {
        i = i - 1;
        out.push(rev[i]);
        assert(rev@.subrange(i as int, rev@.len() as int).reverse() =~= rev@.subrange(
            i + 1,
            rev@.len() as int,
        ).reverse().push(rev@[i as int]));
    }
    assert(rev@.subrange(0, rev@.len() as int) == rev@);
    assert(out@ == done);
    string_from_chars(&out)
}


/// Whether two strings are equal, character by character.
pub fn str_eq(a: &str, b: &str) -> (r: bool)
    ensures
        r == (a@ == b@),
{
    let va = chars_of(a);
    let vb = chars_of(b);
    if va.len() != vb.len() {
        return false;
    }
    let mut i: usize = 0;
    while i < va.len()
        invariant
            va@ == a@,
            vb@ == b@,
            va.len() == vb.len(),
            i <= va.len(),
            va@.take(i as int) == vb@.take(i as int),
        decreases va.len() - i,
    {
        if va[i] != vb[i] {
            assert(va@[i as int] != vb@[i as int]);
            return false;
        }
        assert(va@.take(i + 1) == va@.take(i as int).push(va@[i as int]));
        assert(vb@.take(i + 1) == vb@.take(i as int).push(vb@[i as int]));
        i = i + 1;
    }
    assert(va@.take(va.len() as int) == va@);
    assert(vb@.take(vb.len() as int) == vb@);
    true
}


/// Whether `char::is_uppercase` holds of `c` (the Unicode `Uppercase` property).
pub uninterp spec fn unicode_is_uppercase(c: char) -> bool;

/// Whether `char::is_alphanumeric` holds of `c` (Unicode `Alphabetic` or a numeric category).
pub uninterp spec fn unicode_is_alphanumeric(c: char) -> bool;

/// Whether `c` is a Unicode word character, as the regular-expression class
/// `\w` takes it (`Alphabetic`, `Join_Control`, `Decimal_Number`, `Mark` or
/// `Connector_Punctuation`).
pub uninterp spec fn unicode_is_word(c: char) -> bool;

/// `regex_syntax::is_word_character`, with the crate's Unicode tables built in
/// (its default features), where it does not panic.
#[verifier::external_body]
pub(crate) fn char_is_word(c: char) -> (b: bool)
    ensures
        b == unicode_is_word(c),
{
    regex_syntax::is_word_character(c)
}

/// `char::is_uppercase`.
#[verifier::external_body]
pub(crate) fn char_is_uppercase(c: char) -> (b: bool)
    ensures
        b == unicode_is_uppercase(c),
{
    c.is_uppercase()
}

/// `char::is_alphanumeric`.
#[verifier::external_body]
pub(crate) fn char_is_alphanumeric(c: char) -> (b: bool)
    ensures
        b == unicode_is_alphanumeric(c),
{
    c.is_alphanumeric()
}

/// `s` without leading and trailing white space, as a new string.
pub fn trim_string(s: &str) -> (r: String)
    ensures
        r@ == trim(s@),
{
    let v = chars_of(s);
    let t = trim_chars(v.as_slice());
    string_from_chars(t.as_slice())
}

/// Whether `s` is empty or all white space.
pub fn is_blank(s: &str) -> (b: bool)
    ensures
        b == (trim(s@).len() == 0),
{
    let v = chars_of(s);
    let t = trim_chars(v.as_slice());
    t.len() == 0
}

/// Whether `s` begins with `prefix`.
pub fn starts_with_str(s: &str, prefix: &str) -> (b: bool)
    ensures
        b == prefix@.is_prefix_of(s@),
{
    let vs = chars_of(s);
    let vp = chars_of(prefix);
    if vp.len() > vs.len() {
        return false;
    }
    let mut i: usize = 0;
    while i < vp.len()
        invariant
            vs@ == s@,
            vp@ == prefix@,
            vp.len() <= vs.len(),
            i <= vp.len(),
            forall|k: int| 0 <= k < i ==> vs@[k] == vp@[k],
        decreases vp.len() - i,
    {
        if vs[i] != vp[i] {
            return false;
        }
        i = i + 1;
    }
    true
}

/// Whether `t` occurs in `s` as a contiguous run of characters.
pub open spec fn has_substring(s: Seq<char>, t: Seq<char>) -> bool {
    exists|i: int| 0 <= i && i + t.len() <= s.len() && #[trigger] s.subrange(i, i + t.len()) == t
}

/// Whether `t` occurs in `v` starting at position `i`.
pub(crate) fn occurs_at(v: &Vec<char>, t: &Vec<char>, i: usize) -> (b: bool)
    requires
        i + t.len() <= v.len(),
    ensures
        b == (v@.subrange(i as int, i + t.len()) == t@),
{
    let mut k: usize = 0;
    while k < t.len()
        invariant
            i + t.len() <= v.len(),
            k <= t.len(),
            forall|q: int| 0 <= q < k ==> v@[i + q] == t@[q],
        decreases t.len() - k,
    {
        if v[i + k] != t[k] {
            assert(v@.subrange(i as int, i + t.len())[k as int] != t@[k as int]);
            return false;
        }
        k = k + 1;
    }
    assert(v@.subrange(i as int, i + t.len()) =~= t@);
    true
}

/// Whether `t` occurs in `s` (`str::contains` with a string pattern).
pub fn contains_str(s: &str, t: &str) -> (b: bool)
    ensures
        b == has_substring(s@, t@),
{
    let v = chars_of(s);
    let w = chars_of(t);
    if w.len() > v.len() {
        proof {
            if has_substring(s@, t@) {
                let i = choose|i: int| 0 <= i && i + t@.len() <= s@.len() && #[trigger] s@.subrange(
                    i,
                    i + t@.len(),
                ) == t@;
            }
        }
        return false;
    }
    let lim: usize = v.len() - w.len();
    let mut i: usize = 0;
    loop
        invariant
            v@ == s@,
            w@ == t@,
            w.len() <= v.len(),
            lim == v.len() - w.len(),
            i <= lim,
            forall|q: int| 0 <= q < i ==> #[trigger] v@.subrange(q, q + w.len()) != w@,
        ensures
            forall|q: int| 0 <= q <= lim ==> #[trigger] v@.subrange(q, q + w.len()) != w@,
        decreases lim - i,
    {
        if occurs_at(&v, &w, i) {
            assert(v@.subrange(i as int, i + w.len()) == w@);
            return true;
        }
        if i == lim {
            break;
        }
        i = i + 1;
    }
    proof {
        if has_substring(s@, t@) {
            let q = choose|q: int| 0 <= q && q + t@.len() <= s@.len() && #[trigger] s@.subrange(
                q,
                q + t@.len(),
            ) == t@;
            assert(v@.subrange(q, q + w.len()) != w@);
        }
    }
    false
}

/// The position of the first `c` in `s`.
pub open spec fn first_index_of(s: Seq<char>, c: char, i: int) -> bool {
    0 <= i < s.len() && s[i] == c && forall|q: int| 0 <= q < i ==> s[q] != c
}

/// The position of the first `c` in `v`, if any.
pub fn find_char(v: &Vec<char>, c: char) -> (r: Option<usize>)
    ensures
        match r {
            Some(i) => first_index_of(v@, c, i as int),
            None => !v@.contains(c),
        },
{
    let mut i: usize = 0;
    while i < v.len()
        invariant
            i <= v.len(),
            forall|q: int| 0 <= q < i ==> v@[q] != c,
        decreases v.len() - i,
    {
        if v[i] == c {
            return Some(i);
        }
        i = i + 1;
    }
    proof {
        if v@.contains(c) {
            let q = choose|q: int| 0 <= q < v@.len() && v@[q] == c;
            assert(v@[q] != c);
        }
    }
    None
}

/// What `str::to_lowercase` gives for `s` (Unicode lower-case mapping,
/// independent of locale).
pub uninterp spec fn lowercase(s: Seq<char>) -> Seq<char>;

/// The ASCII lower-case letter of an ASCII upper-case letter; any other
/// character unchanged.
pub open spec fn ascii_lower(c: char) -> char {
    if 65 <= (c as u32) && (c as u32) <= 90 {
        ((c as u32) + 32) as char
    } else {
        c
    }
}

/// `str::to_lowercase`: the Unicode lower-case mapping, which on a text of
/// ASCII characters only lowers the letters `A` to `Z`. What it gives for
/// other characters is left to the name `lowercase`.
#[verifier::external_body]
pub(crate) fn to_lowercase(s: &str) -> (r: String)
    ensures
        r@ == lowercase(s@),
        (forall|i: int| 0 <= i < s@.len() ==> (#[trigger] s@[i] as u32) < 128) ==> r@ == s@.map_values(
            |c: char| ascii_lower(c),
        ),
{
    s.to_lowercase()
}

/// `s` with every occurrence of `from` replaced by `to`, scanning from the
/// left without overlaps (what `str::replace` does for a non-empty pattern).
pub open spec fn replace_all(s: Seq<char>, from: Seq<char>, to: Seq<char>) -> Seq<char>
    decreases s.len(),
{
    if from.len() == 0 || s.len() < from.len() {
        s
    } else if s.take(from.len() as int) == from {
        to + replace_all(s.skip(from.len() as int), from, to)
    } else {
        seq![s[0]] + replace_all(s.skip(1), from, to)
    }
}

/// `s` with every occurrence of `from` replaced by `to`.
pub fn replace_str(s: &str, from: &str, to: &str) -> (r: String)
    requires
        from@.len() > 0,
    ensures
        r@ == replace_all(s@, from@, to@),
{
    let v = chars_of(s);
    let f = chars_of(from);
    let mut r = String::new();
    let mut i: usize = 0;
    assert(v@.skip(0) =~= v@);
    assert(r@ =~= Seq::<char>::empty());
    while i < v.len()
        invariant
            v@ == s@,
            f@ == from@,
            f@.len() > 0,
            i <= v.len(),
            r@ + replace_all(v@.skip(i as int), f@, to@) == replace_all(v@, f@, to@),
        decreases v.len() - i,
    {
        let ghost rest = v@.skip(i as int);
        if v.len() - i >= f.len() {
            let mut k: usize = 0;
            let mut same = true;
            while k < f.len()
                invariant
                    k <= f.len(),
                    i + f.len() <= v.len(),
                    same == forall|q: int| 0 <= q < k ==> v@[i + q] == f@[q],
                decreases f.len() - k,
            {
                if v[i + k] != f[k] {
                    same = false;
                }
                k = k + 1;
            }
            if same {
                assert(rest.take(f@.len() as int) =~= f@);
                push_str(&mut r, to);
                assert(rest.skip(f@.len() as int) =~= v@.skip(i + f.len()));
                i = i + f.len();
                continue;
            } else {
                let ghost q = choose|q: int| 0 <= q < f.len() && v@[i + q] != f@[q];
                assert(rest.take(f@.len() as int)[q] != f@[q]);
            }
        }
        push_char(&mut r, v[i]);
        assert(rest.skip(1) =~= v@.skip(i + 1));
        assert(rest[0] == v@[i as int]);
        i = i + 1;
    }
    assert(v@.skip(i as int) =~= Seq::<char>::empty());
    r
}


/// Whether `char::is_alphabetic` holds of `c` (the Unicode `Alphabetic` property).
pub uninterp spec fn unicode_is_alphabetic(c: char) -> bool;

/// `char::is_alphabetic`.
#[verifier::external_body]
pub(crate) fn char_is_alphabetic(c: char) -> (b: bool)
    ensures
        b == unicode_is_alphabetic(c),
{
    c.is_alphabetic()
}

/// Whether two character vectors hold the same characters.
pub fn same_chars(a: &Vec<char>, b: &Vec<char>) -> (r: bool)
    ensures
        r == (a@ == b@),
{
    if a.len() != b.len() {
        return false;
    }
    let mut i: usize = 0;
    while i < a.len()
        invariant
            i <= a.len() == b.len(),
            forall|j: int| 0 <= j < i ==> a@[j] == b@[j],
        decreases a.len() - i,
    {
        if a[i] != b[i] {
            return false;
        }
        i = i + 1;
    }
    assert(a@ =~= b@);
    true
}

/// The number of different words among `ws`.
pub fn distinct_count(ws: &Vec<Vec<char>>) -> (n: usize)
    ensures
        n == ws@.map_values(|w: Vec<char>| w@).to_set().len(),
{
    let ghost m = ws@.map_values(|w: Vec<char>| w@);
    let mut n: usize = 0;
    let mut i: usize = 0;
    assert(m.take(0).to_set() =~= Set::<Seq<char>>::empty());
    while i < ws.len()
        invariant
            i <= ws.len(),
            m == ws@.map_values(|w: Vec<char>| w@),
            n == m.take(i as int).to_set().len(),
            n <= i,
        decreases ws.len() - i,
    {
        let mut found = false;
        let mut j: usize = 0;
        while j < i
            invariant
                j <= i < ws.len(),
                m == ws@.map_values(|w: Vec<char>| w@),
                found == exists|k: int| 0 <= k < j && m[k] == m[i as int],
            decreases i - j,
        {
            assert(m[j as int] == ws@[j as int]@);
            assert(m[i as int] == ws@[i as int]@);
            if same_chars(&ws[j], &ws[i]) {
                found = true;
            }
            j = j + 1;
        }
        proof {
            let pre = m.take(i as int);
            assert(m.take(i + 1) =~= pre.push(m[i as int]));
            pre.lemma_push_to_set_commute(m[i as int]);
            vstd::seq_lib::seq_to_set_is_finite(pre);
            vstd::set::axiom_set_insert_len(pre.to_set(), m[i as int]);
            if found {
                let k = choose|k: int| 0 <= k < i && m[k] == m[i as int];
                assert(pre[k] == m[i as int]);
                assert(pre.to_set().contains(m[i as int]));
            } else {
                assert(!pre.contains(m[i as int]));
            }
        }
        if !found {
            n = n + 1;
        }
        i = i + 1;
    }
    assert(m.take(ws.len() as int) =~= m);
    n
}

} // verus!

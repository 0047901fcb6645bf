//! Character-level string helpers with exact specifications.

use vstd::prelude::*;

verus! {

/// `needle` occurs in `s` starting at position `i`.
pub open spec fn occurs_at(s: Seq<char>, needle: Seq<char>, i: int) -> bool {
    &&& 0 <= i
    &&& i + needle.len() <= s.len()
    &&& s.subrange(i, i + needle.len()) == needle
}

/// `needle` occurs somewhere in `s` (the empty needle occurs everywhere).
pub open spec fn has_substring(s: Seq<char>, needle: Seq<char>) -> bool {
    exists|i: int| occurs_at(s, needle, i)
}

/// The characters of `s`, in order.
pub fn chars_of(s: &str) -> (v: Vec<char>)
    ensures
        v@ == s@,
{
    let mut v: Vec<char> = Vec::new();
    for c in it: s.chars()
        invariant
            v@ == it.seq().take(it.index() as int),
            it.seq() == s@,
    {
        v.push(c);
    }
    v
}

} // verus!

verus! {

/// `String::push`: appends one character.
#[verifier::external_body]
pub(crate) fn push_char(s: &mut String, c: char)
    ensures
        final(s)@ == old(s)@.push(c),
{
    s.push(c)
}

/// `String::push_str`: appends a string slice.
#[verifier::external_body]
pub(crate) fn push_str(s: &mut String, t: &str)
    ensures
        final(s)@ == old(s)@ + t@,
{
    s.push_str(t)
}

/// Builds a `String` holding exactly the given characters.
pub fn string_from(v: &[char]) -> (s: String)
    ensures
        s@ == v@,
{
    let mut s = String::new();
    let mut i: usize = 0;
    while i < v.len()
        invariant
            i <= v@.len(),
            s@ == v@.take(i as int),
        decreases v@.len() - i,
    {
        push_char(&mut s, v[i]);
        assert(v@.take(i + 1) == v@.take(i as int).push(v@[i as int]));
        i += 1;
    }
    assert(v@.take(v@.len() as int) == v@);
    s
}

/// Whether `needle` occurs in `s` at position `i`.
pub fn matches_at(s: &[char], needle: &[char], i: usize) -> (b: bool)
    ensures
        b == occurs_at(s@, needle@, i as int),
{
    if i > s.len() || needle.len() > s.len() - i {
        return false;
    }
    let n = s.len();
    let mut j: usize = 0;
    while j < needle.len()
        invariant
            n == s@.len(),
            i + needle@.len() <= s@.len(),
            j <= needle@.len(),
            forall|k: int| 0 <= k < j ==> s@[i + k] == needle@[k],
        decreases needle@.len() - j,
    {
        if s[i + j] != needle[j] {
            assert(s@.subrange(i as int, i + needle@.len())[j as int] != needle@[j as int]);
            return false;
        }
        j += 1;
    }
    assert(s@.subrange(i as int, i + needle@.len()) =~= needle@);
    true
}

/// Whether `needle` occurs anywhere in `s`.
pub fn contains_chars(s: &[char], needle: &[char]) -> (b: bool)
    ensures
        b == has_substring(s@, needle@),
{
    if needle.len() > s.len() {
        assert forall|i: int| !occurs_at(s@, needle@, i) by {}
        return false;
    }
    let last = s.len() - needle.len();
    let mut i: usize = 0;
    loop
        invariant
            needle@.len() <= s@.len(),
            last == s@.len() - needle@.len(),
            i <= last,
            forall|k: int| 0 <= k < i ==> !occurs_at(s@, needle@, k),
        decreases last - i,
    {
        if matches_at(s, needle, i) {
            return true;
        }
        if i == last {
            assert forall|k: int| !occurs_at(s@, needle@, k) by {
                if 0 <= k && k <= i {
                }
            }
            return false;
        }
        i += 1;
    }
}

/// Whether `needle` occurs anywhere in `s`.
pub fn str_contains(s: &str, needle: &str) -> (b: bool)
    ensures
        b == has_substring(s@, needle@),
{
    let sv = chars_of(s);
    let nv = chars_of(needle);
    contains_chars(sv.as_slice(), nv.as_slice())
}

/// Whether `s` begins with `prefix`.
pub fn starts_with_chars(s: &[char], prefix: &[char]) -> (b: bool)
    ensures
        b == (prefix@.len() <= s@.len() && s@.take(prefix@.len() as int) == prefix@),
{
    let b = matches_at(s, prefix, 0);
    proof {
        if prefix@.len() <= s@.len() {
            assert(s@.subrange(0, prefix@.len() as int) == s@.take(prefix@.len() as int));
        }
    }
    b
}

} // verus!

verus! {

/// The Unicode `White_Space` property, which is what `char::is_whitespace`,
/// `str::trim` and `str::split_whitespace` test.
pub open spec fn is_ws(c: char) -> bool {
    let u = c as u32;
    ||| 0x09 <= u <= 0x0d
    ||| u == 0x20
    ||| u == 0x85
    ||| u == 0xa0
    ||| u == 0x1680
    ||| 0x2000 <= u <= 0x200a
    ||| u == 0x2028
    ||| u == 0x2029
    ||| u == 0x202f
    ||| u == 0x205f
    ||| u == 0x3000
}

/// Whether `c` is white space in the Unicode sense.
pub fn is_whitespace(c: char) -> (b: bool)
    ensures
        b == is_ws(c),
{
    let u = c as u32;
    (0x09 <= u && u <= 0x0d) || u == 0x20 || u == 0x85 || u == 0xa0 || u == 0x1680 || (0x2000
        <= u && u <= 0x200a) || u == 0x2028 || u == 0x2029 || u == 0x202f || u == 0x205f || u
        == 0x3000
}

/// The maximal runs of non-white-space characters of `s`, in order: what
/// `str::split_whitespace` yields.
pub open spec fn words(s: Seq<char>) -> Seq<Seq<char>>
    decreases s.len(),
{
    if s.len() == 0 {
        seq![]
    } else {
        let w = words(s.drop_last());
        let c = s.last();
        if is_ws(c) {
            w
        } else if s.len() >= 2 && !is_ws(s[s.len() - 2]) {
            w.update(w.len() - 1, w.last().push(c))
        } else {
            w.push(seq![c])
        }
    }
}

/// The pieces of `ws` joined with `sep` between consecutive pieces.
pub open spec fn join(ws: Seq<Seq<char>>, sep: Seq<char>) -> Seq<char>
    decreases ws.len(),
{
    if ws.len() == 0 {
        seq![]
    } else if ws.len() == 1 {
        ws[0]
    } else {
        join(ws.drop_last(), sep) + sep + ws.last()
    }
}

/// White space collapsed: the words of `s` joined by single spaces.
pub open spec fn collapse_ws(s: Seq<char>) -> Seq<char> {
    join(words(s), seq![' '])
}

/// A word list is non-empty exactly when the text ends in a word or had one
/// before; and a text ending in a non-space character has a last word that
/// ends in that character.
pub proof fn lemma_words_last(s: Seq<char>)
    requires
        s.len() > 0,
        !is_ws(s.last()),
    ensures
        words(s).len() > 0,
        words(s).last().len() > 0,
        words(s).last().last() == s.last(),
    decreases s.len(),
{
    let p = s.drop_last();
    if s.len() >= 2 && !is_ws(s[s.len() - 2]) {
        lemma_words_last(p);
    }
}

/// Every word is non-empty and free of white space.
pub proof fn lemma_words_clean(s: Seq<char>)
    ensures
        forall|k: int|
            0 <= k < words(s).len() ==> #[trigger] words(s)[k].len() > 0 && (forall|j: int|
                0 <= j < words(s)[k].len() ==> !is_ws(words(s)[k][j])),
    decreases s.len(),
{
    if s.len() > 0 {
        let p = s.drop_last();
        lemma_words_clean(p);
        let c = s.last();
        if !is_ws(c) && s.len() >= 2 && !is_ws(s[s.len() - 2]) {
            lemma_words_last(p);
            let w = words(p);
            assert forall|k: int| 0 <= k < words(s).len() implies #[trigger] words(s)[k].len() > 0
                && (forall|j: int| 0 <= j < words(s)[k].len() ==> !is_ws(words(s)[k][j])) by {
                if k == w.len() - 1 {
                    assert(words(s)[k] == w[k].push(c));
                    assert forall|j: int| 0 <= j < words(s)[k].len() implies !is_ws(
                        words(s)[k][j],
                    ) by {
                        if j < w[k].len() {
                            assert(words(s)[k][j] == w[k][j]);
                        }
                    }
                }
            }
        }
    }
}

proof fn lemma_join_extend_last(w: Seq<Seq<char>>, sep: Seq<char>, c: char)
    requires
        w.len() > 0,
    ensures
        join(w.update(w.len() - 1, w.last().push(c)), sep) == join(w, sep).push(c),
{
    let w2 = w.update(w.len() - 1, w.last().push(c));
    if w.len() == 1 {
        assert(w2[0] == w[0].push(c));
    } else {
        assert(w2.drop_last() =~= w.drop_last());
        assert(w2.last() == w.last().push(c));
        assert(join(w2, sep) == join(w.drop_last(), sep) + sep + w.last().push(c));
        assert((join(w.drop_last(), sep) + sep + w.last()).push(c) =~= join(w.drop_last(), sep)
            + sep + w.last().push(c));
    }
}

proof fn lemma_join_push(w: Seq<Seq<char>>, sep: Seq<char>, x: Seq<char>)
    ensures
        join(w.push(x), sep) == if w.len() == 0 {
            x
        } else {
            join(w, sep) + sep + x
        },
{
    assert(w.push(x).drop_last() =~= w);
}

/// `s` with white space collapsed: leading and trailing white space removed
/// and every inner run of white space replaced by one space.
pub fn collapse_whitespace(s: &str) -> (r: String)
    ensures
        r@ == collapse_ws(s@),
{
    let mut out: Vec<char> = Vec::new();
    let mut in_word = false;
    let mut had_word = false;
    for c in it: s.chars()
        invariant
            it.seq() == s@,
            out@ == collapse_ws(it.seq().take(it.index() as int)),
            in_word == (it.index() > 0 && !is_ws(it.seq()[it.index() - 1])),
            had_word == (words(it.seq().take(it.index() as int)).len() > 0),
    {
        let ghost p = it.seq().take(it.index() as int);
        let ghost q = it.seq().take(it.index() + 1);
        assert(q.drop_last() =~= p);
        assert(q.last() == c);
        if is_whitespace(c) {
            in_word = false;
        } else {
            if in_word {
                proof {
                    assert(p.last() == it.seq()[it.index() - 1]);
                    assert(q[q.len() - 2] == p.last());
                    lemma_words_last(p);
                    lemma_join_extend_last(words(p), seq![' '], c);
                }
            } else {
                proof {
                    if q.len() >= 2 {
                        assert(q[q.len() - 2] == it.seq()[it.index() - 1]);
                    }
                    lemma_join_push(words(p), seq![' '], seq![c]);
                }
                if had_word {
                    out.push(' ');
                }
            }
            out.push(c);
            in_word = true;
            had_word = true;
            proof {
                assert(words(q).len() > 0);
                assert(out@ =~= collapse_ws(q));
            }
        }
    }
    assert(s@.take(s@.len() as int) =~= s@);
    string_from(out.as_slice())
}

} // verus!

verus! {

/// The only white space in `r` is single spaces, each between two
/// non-white-space characters (so none leads, trails or repeats).
pub open spec fn single_spaced(r: Seq<char>) -> bool {
    forall|i: int|
        0 <= i < r.len() && #[trigger] is_ws(r[i]) ==> {
            &&& r[i] == ' '
            &&& 0 < i < r.len() - 1
            &&& !is_ws(r[i - 1])
            &&& !is_ws(r[i + 1])
        }
}

proof fn lemma_join_single_spaced(w: Seq<Seq<char>>)
    requires
        forall|k: int|
            0 <= k < w.len() ==> #[trigger] w[k].len() > 0 && (forall|j: int|
                0 <= j < w[k].len() ==> !is_ws(w[k][j])),
    ensures
        single_spaced(join(w, seq![' '])),
        w.len() > 0 ==> join(w, seq![' ']).len() > 0 && !is_ws(join(w, seq![' '])[0]) && !is_ws(
            join(w, seq![' ']).last(),
        ),
    decreases w.len(),
{
    if w.len() == 1 {
        assert(w[0].len() > 0);
        assert(!is_ws(w[0][w[0].len() - 1]));
    } else if w.len() > 1 {
        let p = w.drop_last();
        assert forall|k: int| 0 <= k < p.len() implies #[trigger] p[k].len() > 0 && (forall|j: int|
            0 <= j < p[k].len() ==> !is_ws(p[k][j])) by {
            assert(p[k] == w[k]);
        }
        lemma_join_single_spaced(p);
        let a = join(p, seq![' ']);
        let x = w.last();
        assert(x == w[w.len() - 1]);
        let r = a + seq![' '] + x;
        assert(r == join(w, seq![' ']));
        assert forall|i: int| 0 <= i < r.len() && #[trigger] is_ws(r[i]) implies {
            &&& r[i] == ' '
            &&& 0 < i < r.len() - 1
            &&& !is_ws(r[i - 1])
            &&& !is_ws(r[i + 1])
        } by {
            if i < a.len() {
                assert(r[i] == a[i]);
                if i + 1 < a.len() {
                    assert(r[i + 1] == a[i + 1]);
                }
                assert(r[i - 1] == a[i - 1]);
            } else if i == a.len() {
                assert(r[i - 1] == a.last());
                assert(r[i + 1] == x[0]);
            } else {
                assert(r[i] == x[i - a.len() - 1]);
            }
        }
        assert(r[0] == a[0]);
        assert(r.last() == x.last());
        assert(!is_ws(x[x.len() - 1]));
    }
}

/// Collapsed text has no leading, trailing, repeated or non-space white space.
pub proof fn lemma_collapse_single_spaced(s: Seq<char>)
    ensures
        single_spaced(collapse_ws(s)),
{
    lemma_words_clean(s);
    lemma_join_single_spaced(words(s));
}

} // verus!

verus! {

/// What `str::to_lowercase` returns for a string with these characters
/// (Unicode lowercase mapping, including its context-dependent rules).
pub uninterp spec fn lowercase(s: Seq<char>) -> Seq<char>;

/// An ASCII character lowered: `A`..`Z` become `a`..`z`, the rest stay.
pub open spec fn ascii_lower(c: char) -> char {
    if 'A' <= c && c <= 'Z' {
        ((c as u32) + 32) as char
    } else {
        c
    }
}

/// `str::to_lowercase`. The result is named: the mapping is Unicode's
/// `Lowercase` property and its special cases. Of text that is all ASCII,
/// the documentation gives the result outright: each ASCII letter lowered,
/// everything else kept.
#[verifier::external_body]
pub(crate) fn to_lowercase(s: &str) -> (r: String)
    ensures
        r@ == lowercase(s@),
        (forall|i: int| 0 <= i < s@.len() ==> (#[trigger] s@[i] as u32) < 128) ==> r@
            == s@.map_values(|c: char| ascii_lower(c)),
{
    s.to_lowercase()
}

/// The ASCII digit for `d` (which is below 10).
pub open spec fn digit_char(d: nat) -> char {
    if d == 0 {
        '0'
    } else if d == 1 {
        '1'
    } else if d == 2 {
        '2'
    } else if d == 3 {
        '3'
    } else if d == 4 {
        '4'
    } else if d == 5 {
        '5'
    } else if d == 6 {
        '6'
    } else if d == 7 {
        '7'
    } else if d == 8 {
        '8'
    } else {
        '9'
    }
}

/// Decimal notation of `n`, without leading zeros (as `{}` formats it).
pub open spec fn decimal(n: nat) -> Seq<char>
    decreases n,
{
    if n < 10 {
        seq![digit_char(n)]
    } else {
        decimal(n / 10).push(digit_char(n % 10))
    }
}

pub(crate) fn digit(d: u64) -> (c: char)
    requires
        d < 10,
    ensures
        c == digit_char(d as nat),
{
    if d == 0 {
        '0'
    } else if d == 1 {
        '1'
    } else if d == 2 {
        '2'
    } else if d == 3 {
        '3'
    } else if d == 4 {
        '4'
    } else if d == 5 {
        '5'
    } else if d == 6 {
        '6'
    } else if d == 7 {
        '7'
    } else if d == 8 {
        '8'
    } else {
        '9'
    }
}

/// Appends the decimal notation of `n`.
pub fn push_decimal(s: &mut String, n: u64)
    ensures
        final(s)@ == old(s)@ + decimal(n as nat),
    decreases n,
{
    if n >= 10 {
        push_decimal(s, n / 10);
    }
    push_char(s, digit(n % 10));
    assert(final(s)@ =~= old(s)@ + decimal(n as nat));
}

/// Appends the decimal notation of `n`, with a leading `-` when negative.
pub fn push_signed_decimal(s: &mut String, n: i64)
    ensures
        final(s)@ == old(s)@ + signed_decimal(n as int),
{
    if n < 0 {
        push_char(s, '-');
        let m: u64 = if n == i64::MIN {
            9223372036854775808u64
        } else {
            (-n) as u64
        };
        push_decimal(s, m);
        assert(final(s)@ =~= old(s)@ + signed_decimal(n as int));
    } else {
        push_decimal(s, n as u64);
    }
}

/// Decimal notation of a signed integer, `-` first when negative.
pub open spec fn signed_decimal(n: int) -> Seq<char> {
    if n < 0 {
        seq!['-'] + decimal((-n) as nat)
    } else {
        decimal(n as nat)
    }
}

} // verus!

verus! {

/// The characters of the words, one vector per word.
pub open spec fn word_views(v: Seq<Vec<char>>) -> Seq<Seq<char>> {
    v.map_values(|w: Vec<char>| w@)
}

/// The words of `s` (what `str::split_whitespace` yields), in order.
pub fn split_words(s: &str) -> (v: Vec<Vec<char>>)
    ensures
        word_views(v@) == words(s@),
{
    let mut out: Vec<Vec<char>> = Vec::new();
    let mut cur: Vec<char> = Vec::new();
    let mut in_word = false;
    for c in it: s.chars()
        invariant
            it.seq() == s@,
            in_word == (it.index() > 0 && !is_ws(it.seq()[it.index() - 1])),
            in_word ==> words(it.seq().take(it.index() as int)) == word_views(out@).push(cur@),
            !in_word ==> words(it.seq().take(it.index() as int)) == word_views(out@),
    {
        let ghost p = it.seq().take(it.index() as int);
        let ghost q = it.seq().take(it.index() + 1);
        assert(q.drop_last() =~= p);
        assert(q.last() == c);
        if is_whitespace(c) {
            if in_word {
                let ghost before = out@;
                out.push(cur);
                cur = Vec::new();
                assert(word_views(out@) =~= word_views(before).push(word_views(out@).last()));
            }
            in_word = false;
        } else {
            if in_word {
                proof {
                    assert(q[q.len() - 2] == p.last());
                    assert(p.last() == it.seq()[it.index() - 1]);
                }
                cur.push(c);
                assert(words(q) =~= word_views(out@).push(cur@));
            } else {
                assert(q.len() >= 2 ==> q[q.len() - 2] == it.seq()[it.index() - 1]);
                cur = Vec::new();
                cur.push(c);
                assert(words(q) =~= word_views(out@).push(cur@));
            }
            in_word = true;
        }
    }
    assert(s@.take(s@.len() as int) =~= s@);
    if in_word {
        let ghost before = out@;
        out.push(cur);
        assert(word_views(out@) =~= word_views(before).push(word_views(out@).last()));
    }
    out
}

/// `s` without its leading white space.
pub open spec fn strip_ws_front(s: Seq<char>) -> Seq<char>
    decreases s.len(),
{
    if s.len() > 0 && is_ws(s[0]) {
        strip_ws_front(s.drop_first())
    } else {
        s
    }
}

/// `s` without its trailing white space.
pub open spec fn strip_ws_back(s: Seq<char>) -> Seq<char>
    decreases s.len(),
{
    if s.len() > 0 && is_ws(s.last()) {
        strip_ws_back(s.drop_last())
    } else {
        s
    }
}

/// What `str::trim` returns: `s` without leading and trailing white space.
pub open spec fn trim_ws(s: Seq<char>) -> Seq<char> {
    strip_ws_back(strip_ws_front(s))
}

/// `str::trim` on these characters.
pub fn trim_chars(s: &[char]) -> (r: Vec<char>)
    ensures
        r@ == trim_ws(s@),
{
    let n = s.len();
    let mut a: usize = 0;
    assert(s@.skip(0) =~= s@);
    while a < n && is_whitespace(s[a])
        invariant
            a <= n,
            n == s@.len(),
            strip_ws_front(s@) == strip_ws_front(s@.skip(a as int)),
        decreases n - a,
    {
        assert(s@.skip(a as int).drop_first() =~= s@.skip(a + 1));
        a += 1;
    }
    assert(strip_ws_front(s@.skip(a as int)) == s@.skip(a as int));
    let mut b: usize = n;
    while b > a && is_whitespace(s[b - 1])
        invariant
            a <= b <= n,
            n == s@.len(),
            strip_ws_back(s@.skip(a as int)) == strip_ws_back(s@.subrange(a as int, b as int)),
        decreases b,
    {
        assert(s@.subrange(a as int, b as int).drop_last() =~= s@.subrange(a as int, b - 1));
        b -= 1;
    }
    assert(s@.skip(a as int) =~= s@.subrange(a as int, n as int));
    let mut r: Vec<char> = Vec::new();
    let mut i = a;
    while i < b
        invariant
            a <= i <= b <= n,
            n == s@.len(),
            r@ == s@.subrange(a as int, i as int),
        decreases b - i,
    {
        r.push(s[i]);
        i += 1;
        assert(r@ =~= s@.subrange(a as int, i as int));
    }
    r
}

/// `str::trim`.
pub fn trim_str(s: &str) -> (r: String)
    ensures
        r@ == trim_ws(s@),
{
    let v = chars_of(s);
    let t = trim_chars(v.as_slice());
    string_from(t.as_slice())
}

} // verus!

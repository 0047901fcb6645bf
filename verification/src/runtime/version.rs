//! Agent CLI version parsing and the compatibility check: myth needs
//! 2.1.x or later within major version 2 (PostToolUseFailure support).

use vstd::prelude::*;

use crate::numeric::{all_digits, bounded_digits, digit_value, digits_value, is_digit, parse_u32, parse_u32_spec};
use crate::text::{
    decimal, digit_char, is_ws, push_decimal, push_str, split_words, trim_str, trim_ws,
    word_views, words,
};

verus! {

/// A `major.minor.patch` version triple.
#[derive(Debug, Clone, Copy, PartialEq, Eq, Structural)]
pub struct ClaudeVersion {
    pub major: u32,
    pub minor: u32,
    pub patch: u32,
}

/// A character that may stay at either end of a version token.
pub open spec fn version_char(c: char) -> bool {
    is_digit(c) || c == '.'
}

/// `s` without leading characters other than digits and dots.
pub open spec fn strip_front_non_version(s: Seq<char>) -> Seq<char>
    decreases s.len(),
{
    if s.len() > 0 && !version_char(s[0]) {
        strip_front_non_version(s.drop_first())
    } else {
        s
    }
}

/// `s` without trailing characters other than digits and dots.
pub open spec fn strip_back_non_version(s: Seq<char>) -> Seq<char>
    decreases s.len(),
{
    if s.len() > 0 && !version_char(s.last()) {
        strip_back_non_version(s.drop_last())
    } else {
        s
    }
}

/// A token with everything but digits and dots trimmed from both ends (what
/// `trim_matches` with that predicate returns).
pub open spec fn version_core(s: Seq<char>) -> Seq<char> {
    strip_back_non_version(strip_front_non_version(s))
}

/// The pieces of `s` between dots, as `str::split('.')` yields them (at
/// least one piece; empty pieces kept).
pub open spec fn split_dots(s: Seq<char>) -> Seq<Seq<char>>
    decreases s.len(),
{
    if s.len() == 0 {
        seq![Seq::empty()]
    } else {
        let p = split_dots(s.drop_last());
        if s.last() == '.' {
            p.push(Seq::empty())
        } else {
            p.update(p.len() - 1, p.last().push(s.last()))
        }
    }
}

/// The leading run of ASCII digits of `s`.
pub open spec fn digit_prefix(s: Seq<char>) -> Seq<char>
    decreases s.len(),
{
    if s.len() > 0 && is_digit(s[0]) {
        seq![s[0]] + digit_prefix(s.drop_first())
    } else {
        Seq::empty()
    }
}

/// The version a token denotes: its trimmed core must split into exactly
/// three dot-separated pieces; major and minor parse as `u32`, and so does
/// the leading digit run of the patch piece.
pub open spec fn triplet_of(token: Seq<char>) -> Option<ClaudeVersion> {
    let parts = split_dots(version_core(token));
    if parts.len() != 3 {
        None
    } else {
        match (
            parse_u32_spec(parts[0]),
            parse_u32_spec(parts[1]),
            parse_u32_spec(digit_prefix(parts[2])),
        ) {
            (Some(major), Some(minor), Some(patch)) => Some(
                ClaudeVersion { major, minor, patch },
            ),
            _ => None,
        }
    }
}

/// The version of the first token that denotes one.
pub open spec fn first_triplet(tokens: Seq<Seq<char>>) -> Option<ClaudeVersion>
    decreases tokens.len(),
{
    if tokens.len() == 0 {
        None
    } else {
        match triplet_of(tokens[0]) {
            Some(v) => Some(v),
            None => first_triplet(tokens.drop_first()),
        }
    }
}

/// Whether myth supports this version: major 2, minor at least 1.
pub open spec fn compatible(v: ClaudeVersion) -> bool {
    v.major == 2 && v.minor >= 1
}

/// The supported versions are exactly major 2 from minor 1 on, whatever
/// the patch: 2.1.x, 2.2.x, 2.10.x and so on; any other major, or 2.0.x, is
/// unsupported.
pub proof fn lemma_supported_versions(v: ClaudeVersion)
    ensures
        compatible(v) <==> (v.major == 2 && v.minor >= 1),
        forall|m: u32, p: u32| m >= 1 ==> #[trigger] compatible(ClaudeVersion { major: 2, minor: m, patch: p }),
        forall|p: u32| !#[trigger] compatible(ClaudeVersion { major: 2, minor: 0, patch: p }),
{
}

/// `M.m.p`.
pub open spec fn version_text(v: ClaudeVersion) -> Seq<char> {
    decimal(v.major as nat) + "."@ + decimal(v.minor as nat) + "."@ + decimal(v.patch as nat)
}

/// What `format!("{:?}", s)` gives for a string: the Rust-escaped, quoted
/// form.
pub uninterp spec fn debug_text(s: Seq<char>) -> Seq<char>;

/// `<str as Debug>::fmt`, through `format!`; the result is named.
#[verifier::external_body]
fn debug_quoted(s: &str) -> (r: String)
    ensures
        r@ == debug_text(s@),
{
    format!("{:?}", s)
}

/// Why a version could not be used.
#[derive(Debug, Clone, PartialEq, Eq)]
pub enum VersionError {
    /// No token of the output denotes a version; the trimmed output.
    Unparsable { output: String },
    /// The version is not supported.
    Unsupported(ClaudeVersion),
}

/// The message of a version error.
pub open spec fn version_error_text(e: VersionError) -> Seq<char> {
    match e {
        VersionError::Unparsable { output } => "could not parse CLI version from: "@
            + debug_text(output@),
        VersionError::Unsupported(v) => "CLI version "@ + version_text(v)
            + " not supported by myth v1. Expected 2.1.x or later (with PostToolUseFailure support)."@,
    }
}

impl VersionError {
    /// The error message.
    pub fn to_string(&self) -> (s: String)
        ensures
            s@ == version_error_text(*self),
    {
        let mut s = String::new();
        match self {
            VersionError::Unparsable { output } => {
                push_str(&mut s, "could not parse CLI version from: ");
                let q = debug_quoted(output.as_str());
                push_str(&mut s, q.as_str());
            },
            VersionError::Unsupported(v) => {
                push_str(&mut s, "CLI version ");
                let t = v.to_string();
                push_str(&mut s, t.as_str());
                push_str(
                    &mut s,
                    " not supported by myth v1. Expected 2.1.x or later (with PostToolUseFailure support).",
                );
            },
        }
        assert(s@ =~= version_error_text(*self));
        s
    }
}

fn is_version_char(c: char) -> (b: bool)
    ensures
        b == version_char(c),
{
    ('0' <= c && c <= '9') || c == '.'
}

/// `trim_matches` of everything but digits and dots.
fn version_core_chars(s: &[char]) -> (r: Vec<char>)
    ensures
        r@ == version_core(s@),
{
    let n = s.len();
    let mut a: usize = 0;
    assert(s@.skip(0) =~= s@);
    while a < n && !is_version_char(s[a])
        invariant
            a <= n,
            n == s@.len(),
            strip_front_non_version(s@) == strip_front_non_version(s@.skip(a as int)),
        decreases n - a,
    {
        assert(s@.skip(a as int).drop_first() =~= s@.skip(a + 1));
        a += 1;
    }
    assert(strip_front_non_version(s@.skip(a as int)) == s@.skip(a as int));
    let mut b: usize = n;
    while b > a && !is_version_char(s[b - 1])
        invariant
            a <= b <= n,
            n == s@.len(),
            strip_back_non_version(s@.skip(a as int)) == strip_back_non_version(
                s@.subrange(a as int, b as int),
            ),
        decreases b,
    {
        assert(s@.subrange(a as int, b as int).drop_last() =~= s@.subrange(a as int, b - 1));
        b -= 1;
    }
    assert(s@.skip(a as int) =~= s@.subrange(a as int, n as int));
    let mut r: Vec<char> = Vec::new();
    let mut i = a;
    while i < b
        invariant
            a <= i <= b <= n,
            n == s@.len(),
            r@ == s@.subrange(a as int, i as int),
        decreases b - i,
    {
        r.push(s[i]);
        i += 1;
        assert(r@ =~= s@.subrange(a as int, i as int));
    }
    r
}

/// `str::split('.')` on these characters.
fn split_dot_chars(s: &[char]) -> (v: Vec<Vec<char>>)
    ensures
        word_views(v@) == split_dots(s@),
{
    let mut out: Vec<Vec<char>> = Vec::new();
    let mut cur: Vec<char> = Vec::new();
    let mut i: usize = 0;
    assert(split_dots(s@.take(0)) =~= word_views(out@).push(cur@));
    while i < s.len()
        invariant
            i <= s@.len(),
            split_dots(s@.take(i as int)) == word_views(out@).push(cur@),
        decreases s@.len() - i,
    {
        let c = s[i];
        assert(s@.take(i + 1).drop_last() =~= s@.take(i as int));
        assert(s@.take(i + 1).last() == c);
        if c == '.' {
            let ghost before = out@;
            let ghost old_cur = cur@;
            out.push(cur);
            cur = Vec::new();
            assert(word_views(out@) =~= word_views(before).push(old_cur));
            assert(split_dots(s@.take(i + 1)) =~= word_views(out@).push(cur@));
        } else {
            cur.push(c);
            assert(split_dots(s@.take(i + 1)) =~= word_views(out@).push(cur@));
        }
        i += 1;
    }
    assert(s@.take(s@.len() as int) =~= s@);
    let ghost before = out@;
    let ghost last = cur@;
    out.push(cur);
    assert(word_views(out@) =~= word_views(before).push(last));
    out
}

/// The leading run of digits.
fn digit_prefix_chars(s: &[char]) -> (r: Vec<char>)
    ensures
        r@ == digit_prefix(s@),
{
    let mut r: Vec<char> = Vec::new();
    let mut i: usize = 0;
    assert(s@.skip(0) =~= s@);
    while i < s.len() && '0' <= s[i] && s[i] <= '9'
        invariant
            i <= s@.len(),
            digit_prefix(s@) == r@ + digit_prefix(s@.skip(i as int)),
        decreases s@.len() - i,
    {
        assert(s@.skip(i as int).drop_first() =~= s@.skip(i + 1));
        r.push(s[i]);
        i += 1;
        assert(digit_prefix(s@) =~= r@ + digit_prefix(s@.skip(i as int)));
    }
    assert(digit_prefix(s@.skip(i as int)) =~= Seq::<char>::empty());
    assert(digit_prefix(s@) =~= r@);
    r
}

fn triplet_from_chars(token: &[char]) -> (r: Option<ClaudeVersion>)
    ensures
        r == triplet_of(token@),
{
    let core = version_core_chars(token);
    let parts = split_dot_chars(core.as_slice());
    assert(word_views(parts@).len() == parts@.len());
    if parts.len() != 3 {
        return None;
    }
    assert(parts@[0]@ == split_dots(core@)[0]);
    assert(parts@[1]@ == split_dots(core@)[1]);
    assert(parts@[2]@ == split_dots(core@)[2]);
    let major = match parse_u32(parts[0].as_slice()) {
        Some(v) => v,
        None => return None,
    };
    let minor = match parse_u32(parts[1].as_slice()) {
        Some(v) => v,
        None => return None,
    };
    let pd = digit_prefix_chars(parts[2].as_slice());
    let patch = match parse_u32(pd.as_slice()) {
        Some(v) => v,
        None => return None,
    };
    Some(ClaudeVersion { major, minor, patch })
}

/// The version one token denotes, if any (see `triplet_of`).
pub fn try_parse_triplet(token: &str) -> (r: Option<ClaudeVersion>)
    ensures
        r == triplet_of(token@),
{
    let v = crate::text::chars_of(token);
    triplet_from_chars(v.as_slice())
}

impl ClaudeVersion {
    /// The version `major.minor.patch`.
    pub fn new(major: u32, minor: u32, patch: u32) -> (v: ClaudeVersion)
        ensures
            v == (ClaudeVersion { major, minor, patch }),
    {
        ClaudeVersion { major, minor, patch }
    }

    /// Reads the version from the CLI's `--version` output: the first
    /// white-space-separated token that denotes a version.
    pub fn parse(s: &str) -> (r: Result<ClaudeVersion, VersionError>)
        ensures
            match first_triplet(words(s@)) {
                Some(v) => r == Ok::<ClaudeVersion, VersionError>(v),
                None => r matches Err(VersionError::Unparsable { output }) && output@ == trim_ws(
                    s@,
                ),
            },
    {
        let tokens = split_words(s);
        let ghost ws = words(s@);
        let mut i: usize = 0;
        assert(ws.skip(0) =~= ws);
        while i < tokens.len()
            invariant
                word_views(tokens@) == ws,
                ws == words(s@),
                i <= tokens@.len(),
                first_triplet(ws) == first_triplet(ws.skip(i as int)),
            decreases tokens@.len() - i,
        {
            assert(tokens@[i as int]@ == ws[i as int]);
            assert(ws.skip(i as int)[0] == ws[i as int]);
            assert(ws.skip(i as int).drop_first() =~= ws.skip(i + 1));
            if let Some(v) = triplet_from_chars(tokens[i].as_slice()) {
                assert(ws.skip(i as int).len() > 0);
                assert(first_triplet(ws.skip(i as int)) == Some(v));
                return Ok(v);
            }
            i += 1;
        }
        assert(ws.skip(i as int).len() == 0);
        Err(VersionError::Unparsable { output: trim_str(s) })
    }

    /// `Ok` for a supported version (2.1.x or later within major 2).
    pub fn validate_compatible(&self) -> (r: Result<(), VersionError>)
        ensures
            compatible(*self) ==> r is Ok,
            !compatible(*self) ==> r == Err::<(), VersionError>(VersionError::Unsupported(*self)),
            r is Ok <==> (self.major == 2 && self.minor >= 1),
            r is Err ==> r == Err::<(), VersionError>(VersionError::Unsupported(*self)),
    {
        if self.major != 2 || self.minor < 1 {
            return Err(VersionError::Unsupported(*self));
        }
        Ok(())
    }

    /// `M.m.p`.
    pub fn to_string(&self) -> (s: String)
        ensures
            s@ == version_text(*self),
    {
        let mut s = String::new();
        push_decimal(&mut s, self.major as u64);
        push_str(&mut s, ".");
        push_decimal(&mut s, self.minor as u64);
        push_str(&mut s, ".");
        push_decimal(&mut s, self.patch as u64);
        proof {
            reveal_strlit(".");
        }
        assert(s@ =~= version_text(*self));
        s
    }
}


proof fn lemma_digit_char(d: nat)
    requires
        d < 10,
    ensures
        is_digit(digit_char(d)),
        digit_value(digit_char(d)) == d,
{
    if d == 0 {
        assert(digit_char(d) == '0');
    } else if d == 1 {
        assert(digit_char(d) == '1');
    } else if d == 2 {
        assert(digit_char(d) == '2');
    } else if d == 3 {
        assert(digit_char(d) == '3');
    } else if d == 4 {
        assert(digit_char(d) == '4');
    } else if d == 5 {
        assert(digit_char(d) == '5');
    } else if d == 6 {
        assert(digit_char(d) == '6');
    } else if d == 7 {
        assert(digit_char(d) == '7');
    } else if d == 8 {
        assert(digit_char(d) == '8');
    } else {
        assert(digit_char(d) == '9');
    }
}

proof fn lemma_decimal_digits(n: nat)
    ensures
        decimal(n).len() > 0,
        all_digits(decimal(n)),
        digits_value(decimal(n)) == n,
    decreases n,
{
    lemma_digit_char(n % 10);
    if n < 10 {
        lemma_digit_char(n);
    }
    if n >= 10 {
        lemma_decimal_digits(n / 10);
        let p = decimal(n / 10);
        let d = decimal(n);
        assert(d.drop_last() =~= p);
        assert(d.last() == digit_char(n % 10));
        assert(n == (n / 10) * 10 + n % 10) by (nonlinear_arith);
        assert(digits_value(d) == digits_value(p) * 10 + digit_value(d.last()));
        assert forall|i: int| 0 <= i < d.len() implies is_digit(#[trigger] d[i]) by {
            if i < p.len() {
                assert(d[i] == p[i]);
            }
        }
    } else {
        assert(decimal(n).drop_last() =~= Seq::<char>::empty());
        assert(digits_value(decimal(n)) == digits_value(Seq::<char>::empty()) * 10 + digit_value(
            digit_char(n),
        ));
    }
}

proof fn lemma_parse_decimal(n: u32)
    ensures
        parse_u32_spec(decimal(n as nat)) == Some(n),
{
    lemma_decimal_digits(n as nat);
    let d = decimal(n as nat);
    assert(is_digit(d[0]));
    assert(bounded_digits(d, u32::MAX as nat) == Some(n as nat));
}

proof fn lemma_split_dots_len(s: Seq<char>)
    ensures
        split_dots(s).len() >= 1,
    decreases s.len(),
{
    if s.len() > 0 {
        lemma_split_dots_len(s.drop_last());
    }
}

proof fn lemma_split_append(x: Seq<char>, y: Seq<char>)
    requires
        forall|i: int| 0 <= i < y.len() ==> y[i] != '.',
    ensures
        split_dots(x + y) == split_dots(x).update(
            split_dots(x).len() - 1,
            split_dots(x).last() + y,
        ),
    decreases y.len(),
{
    lemma_split_dots_len(x);
    if y.len() == 0 {
        assert(x + y =~= x);
        assert(split_dots(x).last() + y =~= split_dots(x).last());
        assert(split_dots(x).update(split_dots(x).len() - 1, split_dots(x).last())
            =~= split_dots(x));
    } else {
        let y0 = y.drop_last();
        assert forall|i: int| 0 <= i < y0.len() implies y0[i] != '.' by {
            assert(y0[i] == y[i]);
        }
        lemma_split_append(x, y0);
        assert((x + y).drop_last() =~= x + y0);
        assert((x + y).last() == y.last());
        assert(y[y.len() - 1] != '.');
        let sx = split_dots(x);
        let p = split_dots(x + y0);
        assert(p == sx.update(sx.len() - 1, sx.last() + y0));
        assert(p.len() == sx.len());
        assert(p.last() == sx.last() + y0);
        assert(split_dots(x + y) == p.update(p.len() - 1, p.last().push(y.last())));
        assert((sx.last() + y0).push(y.last()) =~= sx.last() + y);
        assert(split_dots(x).last() + y0 + seq![y.last()] =~= split_dots(x).last() + y);
        assert(split_dots(x + y) =~= split_dots(x).update(
            split_dots(x).len() - 1,
            split_dots(x).last() + y,
        ));
    }
}

proof fn lemma_digits_no_dot_no_ws(s: Seq<char>)
    requires
        all_digits(s),
    ensures
        forall|i: int| 0 <= i < s.len() ==> s[i] != '.' && !is_ws(#[trigger] s[i]),
{
    assert forall|i: int| 0 <= i < s.len() implies s[i] != '.' && !is_ws(#[trigger] s[i]) by {
        assert(is_digit(s[i]));
    }
}

proof fn lemma_digit_prefix_all(s: Seq<char>)
    requires
        all_digits(s),
    ensures
        digit_prefix(s) == s,
    decreases s.len(),
{
    if s.len() > 0 {
        assert(is_digit(s[0]));
        let t = s.drop_first();
        assert forall|i: int| 0 <= i < t.len() implies is_digit(#[trigger] t[i]) by {
            assert(t[i] == s[i + 1]);
        }
        lemma_digit_prefix_all(t);
        assert(seq![s[0]] + t =~= s);
    }
}

proof fn lemma_words_single(s: Seq<char>)
    requires
        s.len() > 0,
        forall|i: int| 0 <= i < s.len() ==> !is_ws(#[trigger] s[i]),
    ensures
        words(s) == seq![s],
    decreases s.len(),
{
    let p = s.drop_last();
    assert(!is_ws(s[s.len() - 1]));
    if s.len() == 1 {
        assert(p.len() == 0);
        assert(words(p) =~= Seq::<Seq<char>>::empty());
        assert(seq![s.last()] =~= s);
    } else {
        assert forall|i: int| 0 <= i < p.len() implies !is_ws(#[trigger] p[i]) by {
            assert(p[i] == s[i]);
        }
        lemma_words_single(p);
        assert(!is_ws(s[s.len() - 2]));
        assert(p.push(s.last()) =~= s);
        assert(words(s) =~= seq![s]);
    }
}

/// The text a version displays as parses back to that version.
pub proof fn lemma_version_text_parses(v: ClaudeVersion)
    ensures
        first_triplet(words(version_text(v))) == Some(v),
{
    let a = decimal(v.major as nat);
    let b = decimal(v.minor as nat);
    let c = decimal(v.patch as nat);
    lemma_decimal_digits(v.major as nat);
    lemma_decimal_digits(v.minor as nat);
    lemma_decimal_digits(v.patch as nat);
    lemma_digits_no_dot_no_ws(a);
    lemma_digits_no_dot_no_ws(b);
    lemma_digits_no_dot_no_ws(c);
    reveal_strlit(".");
    let t = version_text(v);
    assert(t =~= a + seq!['.'] + b + seq!['.'] + c);
    // the pieces between the dots
    lemma_split_append(Seq::empty(), a);
    assert(Seq::<char>::empty() + a =~= a);
    assert(split_dots(Seq::<char>::empty()) =~= seq![Seq::<char>::empty()]);
    assert(split_dots(a) =~= seq![a]);
    let a1 = a + seq!['.'];
    assert(a1.drop_last() =~= a);
    assert(split_dots(a1) =~= seq![a, Seq::<char>::empty()]);
    lemma_split_append(a1, b);
    assert(split_dots(a1 + b) =~= seq![a, b]);
    let b1 = a1 + b + seq!['.'];
    assert(b1.drop_last() =~= a1 + b);
    assert(split_dots(b1) =~= seq![a, b, Seq::<char>::empty()]);
    lemma_split_append(b1, c);
    assert(b1 + c =~= t);
    assert(split_dots(t) =~= seq![a, b, c]);
    // the token is its own core
    assert(is_digit(a[0]));
    assert(is_digit(c[c.len() - 1]));
    assert(t[0] == a[0]);
    assert(t.last() == c.last());
    assert(strip_front_non_version(t) == t);
    assert(strip_back_non_version(t) == t);
    assert(version_core(t) == t);
    lemma_digit_prefix_all(c);
    lemma_parse_decimal(v.major);
    lemma_parse_decimal(v.minor);
    lemma_parse_decimal(v.patch);
    assert(triplet_of(t) == Some(v));
    // the whole text is one word
    assert forall|i: int| 0 <= i < t.len() implies !is_ws(#[trigger] t[i]) by {
        if i < a.len() {
            assert(t[i] == a[i]);
        } else if i == a.len() {
        } else if i < a.len() + 1 + b.len() {
            assert(t[i] == b[i - a.len() - 1]);
        } else if i == a.len() + 1 + b.len() {
        } else {
            assert(t[i] == c[i - a.len() - 2 - b.len()]);
        }
    }
    lemma_words_single(t);
    assert(seq![t].drop_first() =~= Seq::<Seq<char>>::empty());
}

} // verus!

//! Cutting text to a byte budget without splitting a UTF-8 character:
//! a bounded prefix (with a marker appended when something was cut) and a
//! bounded suffix.

use vstd::prelude::*;
use vstd::string::StringSliceAdditionalSpecFns;
use vstd::utf8::{decode_utf8, encode_utf8, is_char_boundary, valid_utf8};

use crate::text::push_str;

verus! {

broadcast use {
    vstd::utf8::encode_utf8_valid_utf8,
    vstd::utf8::encode_utf8_decode_utf8,
    vstd::utf8::decode_utf8_encode_utf8,
    vstd::utf8::valid_utf8_split,
    vstd::utf8::decode_utf8_split,
    vstd::utf8::is_char_boundary_start_end_of_seq,
};

/// Length in bytes of the UTF-8 encoding of `s` (what `str::len` returns).
pub open spec fn utf8_len(s: Seq<char>) -> nat {
    encode_utf8(s).len()
}

/// `b` is the last character boundary of `bytes` at or below `limit`.
pub open spec fn is_floor_boundary(bytes: Seq<u8>, limit: int, b: int) -> bool {
    &&& 0 <= b <= limit
    &&& is_char_boundary(bytes, b)
    &&& forall|j: int| b < j <= limit ==> !is_char_boundary(bytes, j)
}

/// `b` is the first character boundary of `bytes` at or above `start`.
pub open spec fn is_ceil_boundary(bytes: Seq<u8>, start: int, b: int) -> bool {
    &&& start <= b <= bytes.len()
    &&& is_char_boundary(bytes, b)
    &&& forall|j: int| start <= j < b ==> !is_char_boundary(bytes, j)
}

/// The last character boundary at or below `limit`.
pub open spec fn floor_boundary(bytes: Seq<u8>, limit: int) -> int {
    choose|b: int| is_floor_boundary(bytes, limit, b)
}

/// The first character boundary at or above `start`.
pub open spec fn ceil_boundary(bytes: Seq<u8>, start: int) -> int {
    choose|b: int| is_ceil_boundary(bytes, start, b)
}

/// The longest prefix of `s` whose UTF-8 encoding fits in `max` bytes.
pub open spec fn prefix_within(s: Seq<char>, max: int) -> Seq<char> {
    let bytes = encode_utf8(s);
    decode_utf8(bytes.subrange(0, floor_boundary(bytes, max)))
}

/// `s` if its UTF-8 encoding fits in `max` bytes. Otherwise, when `suffix`
/// fits, the longest prefix of `s` within `max - |suffix|` bytes followed by
/// `suffix`; when even `suffix` is longer than `max`, the longest prefix of
/// `suffix` within `max` bytes. The result never exceeds `max` bytes.
pub open spec fn truncated_to(s: Seq<char>, max: int, suffix: Seq<char>) -> Seq<char> {
    let bytes = encode_utf8(s);
    if bytes.len() <= max {
        s
    } else if utf8_len(suffix) <= max {
        prefix_within(s, max - utf8_len(suffix)) + suffix
    } else {
        prefix_within(suffix, max)
    }
}

/// `s` if its UTF-8 encoding fits in `max` bytes; otherwise the shortest
/// suffix that starts on a character boundary within the last `max` bytes.
pub open spec fn tail_within(s: Seq<char>, max: int) -> Seq<char> {
    let bytes = encode_utf8(s);
    if bytes.len() <= max {
        s
    } else {
        decode_utf8(bytes.subrange(ceil_boundary(bytes, bytes.len() - max), bytes.len() as int))
    }
}

/// A character takes at most four bytes in UTF-8.
pub proof fn lemma_utf8_len_bound(s: Seq<char>)
    ensures
        utf8_len(s) <= 4 * s.len(),
    decreases s.len(),
{
    if s.len() > 0 {
        lemma_utf8_len_bound(s.drop_first());
    }
}

/// UTF-8 encoding distributes over concatenation.
pub proof fn lemma_encode_concat(a: Seq<char>, b: Seq<char>)
    ensures
        encode_utf8(a + b) == encode_utf8(a) + encode_utf8(b),
    decreases a.len(),
{
    if a.len() == 0 {
        assert(a + b =~= b);
    } else {
        assert((a + b).drop_first() =~= a.drop_first() + b);
        assert((a + b)[0] == a[0]);
        lemma_encode_concat(a.drop_first(), b);
        assert(encode_utf8(a + b) =~= encode_utf8(a) + encode_utf8(b));
    }
}

/// The last character boundary of `s` at or below `limit`.
fn floor_char_boundary(s: &str, limit: usize) -> (b: usize)
    requires
        limit <= encode_utf8(s@).len(),
    ensures
        b == floor_boundary(encode_utf8(s@), limit as int),
        is_floor_boundary(encode_utf8(s@), limit as int, b as int),
{
    let ghost bytes = encode_utf8(s@);
    let mut b = limit;
    while !s.is_char_boundary(b)
        invariant
            b <= limit,
            limit <= bytes.len(),
            bytes == encode_utf8(s@),
            forall|j: int| b < j <= limit ==> !is_char_boundary(bytes, j),
        decreases b,
    {
        assert(b != 0);
        b -= 1;
    }
    proof {
        assert(is_floor_boundary(bytes, limit as int, b as int));
        let c = floor_boundary(bytes, limit as int);
        assert(is_floor_boundary(bytes, limit as int, c));
        if c < b {
            assert(!is_char_boundary(bytes, b as int));
        }
        if b < c {
            assert(!is_char_boundary(bytes, c));
        }
    }
    b
}

/// The longest prefix of `s` within `limit` bytes, as a string.
fn prefix_string(s: &str, limit: usize) -> (r: String)
    requires
        limit <= encode_utf8(s@).len(),
    ensures
        r@ == prefix_within(s@, limit as int),
{
    let ghost bytes = encode_utf8(s@);
    let b = floor_char_boundary(s, limit);
    let (head, _) = s.split_at(b);
    proof {
        assert(encode_utf8(head@) == bytes.subrange(0, b as int));
        assert(head@ == decode_utf8(encode_utf8(head@)));
    }
    head.to_owned()
}

/// Cuts `s` to at most `max` bytes (see `truncated_to`).
pub fn truncate_utf8(s: &str, max: usize, suffix: &str) -> (r: String)
    ensures
        r@ == truncated_to(s@, max as int, suffix@),
        utf8_len(r@) <= max,
{
    proof {
        lemma_truncated_shape(s@, max as int, suffix@);
    }
    let n = s.as_bytes().len();
    if n <= max {
        return s.to_owned();
    }
    let slen = suffix.as_bytes().len();
    if slen <= max {
        let mut out = prefix_string(s, max - slen);
        push_str(&mut out, suffix);
        out
    } else {
        prefix_string(suffix, max)
    }
}

/// The last at most `max` bytes of `s`, cut forward to a character boundary
/// (see `tail_within`).
pub fn tail_utf8(s: &str, max: usize) -> (r: String)
    ensures
        r@ == tail_within(s@, max as int),
{
    let ghost bytes = encode_utf8(s@);
    let n = s.as_bytes().len();
    if n <= max {
        return s.to_owned();
    }
    let start = n - max;
    let mut idx = start;
    while idx < n && !s.is_char_boundary(idx)
        invariant
            start <= idx <= n,
            n == bytes.len(),
            bytes == encode_utf8(s@),
            forall|j: int| start <= j < idx ==> !is_char_boundary(bytes, j),
        decreases n - idx,
    {
        idx += 1;
    }
    proof {
        assert(is_ceil_boundary(bytes, start as int, idx as int));
        let c = ceil_boundary(bytes, start as int);
        assert(is_ceil_boundary(bytes, start as int, c));
        if c < idx {
            assert(!is_char_boundary(bytes, c));
        }
        if idx < c {
            assert(!is_char_boundary(bytes, idx as int));
        }
    }
    let (_, tail) = s.split_at(idx);
    proof {
        assert(encode_utf8(tail@) == bytes.subrange(idx as int, n as int));
        assert(tail@ == decode_utf8(encode_utf8(tail@)));
    }
    tail.to_owned()
}

} // verus!

verus! {

proof fn lemma_floor_exists(bytes: Seq<u8>, limit: int)
    requires
        valid_utf8(bytes),
        0 <= limit,
    ensures
        is_floor_boundary(bytes, limit, floor_boundary(bytes, limit)),
    decreases limit,
{
    if is_char_boundary(bytes, limit) {
        assert(is_floor_boundary(bytes, limit, limit));
    } else {
        assert(limit != 0);
        lemma_floor_exists(bytes, limit - 1);
        let b = floor_boundary(bytes, limit - 1);
        assert(is_floor_boundary(bytes, limit, b));
    }
}

proof fn lemma_ceil_exists(bytes: Seq<u8>, start: int)
    requires
        valid_utf8(bytes),
        0 <= start <= bytes.len(),
    ensures
        is_ceil_boundary(bytes, start, ceil_boundary(bytes, start)),
    decreases bytes.len() - start,
{
    if is_char_boundary(bytes, start) {
        assert(is_ceil_boundary(bytes, start, start));
    } else {
        assert(start != bytes.len());
        lemma_ceil_exists(bytes, start + 1);
        let b = ceil_boundary(bytes, start + 1);
        assert(is_ceil_boundary(bytes, start, b));
    }
}

/// The longest prefix within `max` bytes fits them and is a prefix.
pub proof fn lemma_prefix_within(s: Seq<char>, max: int)
    requires
        0 <= max,
    ensures
        utf8_len(prefix_within(s, max)) <= max,
        exists|k: int| 0 <= k <= s.len() && prefix_within(s, max) == s.take(k),
{
    let bytes = encode_utf8(s);
    let lim = if max <= bytes.len() {
        max
    } else {
        bytes.len() as int
    };
    lemma_floor_exists(bytes, lim);
    let b = floor_boundary(bytes, lim);
    if max > bytes.len() {
        assert(is_char_boundary(bytes, bytes.len() as int));
        assert(is_floor_boundary(bytes, lim, b));
        assert forall|j: int| b < j <= max implies !is_char_boundary(bytes, j) by {
            if j <= lim {
            } else {
                assert(!is_char_boundary(bytes, j));
            }
        }
        assert(is_floor_boundary(bytes, max, b));
        assert(floor_boundary(bytes, max) == b) by {
            let c = floor_boundary(bytes, max);
            assert(is_floor_boundary(bytes, max, c));
            if c < b {
                assert(!is_char_boundary(bytes, b));
            }
            if b < c {
                assert(!is_char_boundary(bytes, c));
            }
        }
    }
    let head = bytes.subrange(0, b);
    let a = decode_utf8(head);
    assert(valid_utf8(head));
    assert(encode_utf8(a) == head);
    assert(s == decode_utf8(bytes));
    assert(decode_utf8(bytes) =~= a + decode_utf8(bytes.subrange(b, bytes.len() as int)));
    assert(s.take(a.len() as int) =~= a);
}

/// A truncated text fits its byte budget, and is the whole text, a prefix
/// of it followed by the marker, or (when the marker alone is too long) a
/// prefix of the marker.
pub proof fn lemma_truncated_shape(s: Seq<char>, max: int, suffix: Seq<char>)
    requires
        0 <= max,
    ensures
        utf8_len(truncated_to(s, max, suffix)) <= max,
        utf8_len(suffix) <= max ==> (truncated_to(s, max, suffix) == s || exists|k: int|
            0 <= k <= s.len() && truncated_to(s, max, suffix) == s.take(k) + suffix),
        utf8_len(suffix) > max ==> (truncated_to(s, max, suffix) == s || exists|k: int|
            0 <= k <= suffix.len() && truncated_to(s, max, suffix) == suffix.take(k)),
{
    let bytes = encode_utf8(s);
    if bytes.len() > max {
        if utf8_len(suffix) <= max {
            let limit = max - utf8_len(suffix);
            lemma_prefix_within(s, limit);
            lemma_encode_concat(prefix_within(s, limit), suffix);
        } else {
            lemma_prefix_within(suffix, max);
        }
    }
}

/// A tail fits its byte budget and is a suffix of the text.
pub proof fn lemma_tail_shape(s: Seq<char>, max: int)
    requires
        0 <= max,
    ensures
        utf8_len(tail_within(s, max)) <= max,
        exists|k: int| 0 <= k <= s.len() && tail_within(s, max) == s.skip(k),
{
    let bytes = encode_utf8(s);
    if bytes.len() <= max {
        assert(s.skip(0) =~= s);
    } else {
        let start = bytes.len() - max;
        lemma_ceil_exists(bytes, start);
        let b = ceil_boundary(bytes, start);
        let tail = bytes.subrange(b, bytes.len() as int);
        let t = decode_utf8(tail);
        assert(valid_utf8(tail));
        assert(encode_utf8(t) == tail);
        assert(s == decode_utf8(bytes));
        assert(decode_utf8(bytes) =~= decode_utf8(bytes.subrange(0, b)) + t);
        let k = decode_utf8(bytes.subrange(0, b)).len() as int;
        assert(s.skip(k) =~= t);
    }
}

} // verus!

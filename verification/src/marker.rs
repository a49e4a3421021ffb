//! The delimiter line that opens and closes a front-matter block, and where it
//! occurs in a document's bytes.
use vstd::prelude::*;
use vstd::utf8::{
    is_char_boundary, is_char_boundary_iff_not_is_continuation_byte,
    is_char_boundary_start_end_of_seq, is_continuation_byte, valid_utf8, valid_utf8_split,
};

verus! {

/// The byte of a dash.
pub const DASH: u8 = 0x2d;

/// The byte of a line feed.
pub const LINE_FEED: u8 = 0x0a;

/// Length in bytes of the delimiter line: three dashes and a line feed.
pub const MARKER_LEN: usize = 4;

/// Whether a delimiter line starts at byte offset `i` of `bytes`.
pub open spec fn marker_at(bytes: Seq<u8>, i: int) -> bool {
    &&& 0 <= i
    &&& i + MARKER_LEN <= bytes.len()
    &&& bytes[i] == DASH
    &&& bytes[i + 1] == DASH
    &&& bytes[i + 2] == DASH
    &&& bytes[i + 3] == LINE_FEED
}

/// Whether `i` is the first offset at or after `from` where a delimiter line starts.
pub open spec fn is_first_marker(bytes: Seq<u8>, from: int, i: int) -> bool {
    &&& from <= i
    &&& marker_at(bytes, i)
    &&& forall|j: int| from <= j < i ==> !marker_at(bytes, j)
}

/// The first offset at or after `from` where a delimiter line starts, if there is one.
pub open spec fn first_marker(bytes: Seq<u8>, from: int) -> Option<int> {
    if exists|i: int| is_first_marker(bytes, from, i) {
        Some(choose|i: int| is_first_marker(bytes, from, i))
    } else {
        None
    }
}

/// There is at most one first delimiter: an offset that qualifies is the one
/// that `first_marker` names.
pub proof fn lemma_first_marker_is(bytes: Seq<u8>, from: int, i: int)
    requires
        is_first_marker(bytes, from, i),
    ensures
        first_marker(bytes, from) == Some(i),
{
    let k = choose|k: int| is_first_marker(bytes, from, k);
    assert(is_first_marker(bytes, from, k));
    if k < i {
        assert(!marker_at(bytes, k));
    } else if i < k {
        assert(!marker_at(bytes, i));
    }
}

/// What `first_marker` returns is a first delimiter, and `None` means that no
/// delimiter line starts at or after `from`.
pub proof fn lemma_first_marker_found(bytes: Seq<u8>, from: int)
    ensures
        match first_marker(bytes, from) {
            Some(i) => is_first_marker(bytes, from, i),
            None => forall|j: int| from <= j ==> !marker_at(bytes, j),
        },
{
    if first_marker(bytes, from) is None {
        assert forall|j: int| from <= j implies !marker_at(bytes, j) by {
            if marker_at(bytes, j) {
                lemma_marker_has_first(bytes, from, j);
            }
        }
    }
}

/// A delimiter line at or after `from` implies that there is a first one, no later than it.
pub proof fn lemma_marker_has_first(bytes: Seq<u8>, from: int, k: int)
    requires
        from <= k,
        marker_at(bytes, k),
    ensures
        first_marker(bytes, from) is Some,
        from <= first_marker(bytes, from)->0 <= k,
        is_first_marker(bytes, from, first_marker(bytes, from)->0),
    decreases k - from,
{
    if forall|j: int| from <= j < k ==> !marker_at(bytes, j) {
        assert(is_first_marker(bytes, from, k));
        lemma_first_marker_is(bytes, from, k);
    } else {
        let j = choose|j: int| from <= j < k && marker_at(bytes, j);
        lemma_marker_has_first(bytes, from, j);
    }
}

/// In valid UTF-8 the byte after a one-byte character starts a character or ends the text.
pub proof fn lemma_boundary_after_ascii(bytes: Seq<u8>, k: int)
    requires
        valid_utf8(bytes),
        0 <= k < bytes.len(),
        bytes[k] < 0x80,
    ensures
        is_char_boundary(bytes, k),
        is_char_boundary(bytes, k + 1),
{
    let n = bytes.len() as int;
    is_char_boundary_iff_not_is_continuation_byte(bytes, k);
    valid_utf8_split(bytes, k);
    let tail = bytes.subrange(k, n);
    assert(tail[0] == bytes[k]);
    let rest = bytes.subrange(k + 1, n);
    assert(tail.subrange(1, tail.len() as int) == rest);
    assert(valid_utf8(rest));
    if k + 1 == n {
        is_char_boundary_start_end_of_seq(bytes);
    } else {
        assert(rest[0] == bytes[k + 1]);
        assert(!is_continuation_byte(rest[0]));
        is_char_boundary_iff_not_is_continuation_byte(bytes, k + 1);
    }
}

/// A delimiter line begins and ends on character boundaries.
pub proof fn lemma_marker_on_boundaries(bytes: Seq<u8>, i: int)
    requires
        valid_utf8(bytes),
        marker_at(bytes, i),
    ensures
        is_char_boundary(bytes, i),
        is_char_boundary(bytes, i + MARKER_LEN),
{
    lemma_boundary_after_ascii(bytes, i);
    lemma_boundary_after_ascii(bytes, i + 3);
}

/// Finds the first delimiter line that starts at or after byte offset `from`.
pub fn find_marker(bytes: &[u8], from: usize) -> (r: Option<usize>)
    ensures
        match r {
            Some(i) => first_marker(bytes@, from as int) == Some(i as int),
            None => first_marker(bytes@, from as int) is None,
        },
{
    let n: usize = bytes.len();
    if from > n {
        proof {
            lemma_first_marker_found(bytes@, from as int);
            if first_marker(bytes@, from as int) is Some {
                assert(marker_at(bytes@, first_marker(bytes@, from as int)->0));
            }
        }
        return None;
    }
    let mut i: usize = from;
    while n - i >= MARKER_LEN
        invariant
            n == bytes@.len(),
            from <= i <= n,
            forall|j: int| from <= j < i ==> !marker_at(bytes@, j),
        decreases n - i,
    {
        if bytes[i] == DASH && bytes[i + 1] == DASH && bytes[i + 2] == DASH && bytes[i + 3]
            == LINE_FEED {
            proof {
                lemma_first_marker_is(bytes@, from as int, i as int);
            }
            return Some(i);
        }
        i += 1;
    }
    proof {
        lemma_first_marker_found(bytes@, from as int);
        if first_marker(bytes@, from as int) is Some {
            assert(marker_at(bytes@, first_marker(bytes@, from as int)->0));
        }
    }
    None
}

} // verus!

//! Text primitives shared by the parsers: the whitespace class, trimming,
//! and moving between `str` and sequences of characters.
use vstd::prelude::*;
use vstd::string::{StrSliceExecFns, StringSliceAdditionalSpecFns};
use vstd::utf8::{
    decode_utf8, encode_utf8_decode_utf8, encode_utf8_valid_utf8, is_char_boundary,
    is_char_boundary_iff_not_is_continuation_byte, is_char_boundary_start_end_of_seq, valid_utf8,
    valid_utf8_split,
};

verus! {

/// Whether `c` has the Unicode `White_Space` property.
pub open spec fn is_whitespace(c: char) -> bool {
    ||| '\u{9}' <= c <= '\u{d}'
    ||| c == ' '
    ||| c == '\u{85}'
    ||| c == '\u{a0}'
    ||| c == '\u{1680}'
    ||| '\u{2000}' <= c <= '\u{200a}'
    ||| c == '\u{2028}'
    ||| c == '\u{2029}'
    ||| c == '\u{202f}'
    ||| c == '\u{205f}'
    ||| c == '\u{3000}'
}

/// `s` without its leading whitespace.
pub open spec fn trim_start(s: Seq<char>) -> Seq<char>
    decreases s.len(),
{
    if s.len() > 0 && is_whitespace(s.first()) {
        trim_start(s.drop_first())
    } else {
        s
    }
}

/// `s` without its trailing whitespace.
pub open spec fn trim_end(s: Seq<char>) -> Seq<char>
    decreases s.len(),
{
    if s.len() > 0 && is_whitespace(s.last()) {
        trim_end(s.drop_last())
    } else {
        s
    }
}

/// `s` without its leading and trailing whitespace.
pub open spec fn trim(s: Seq<char>) -> Seq<char> {
    trim_end(trim_start(s))
}

/// Appending one character to a `String` extends its view by that character.
pub assume_specification[ String::push ](s: &mut String, c: char)
    ensures
        final(s)@ == old(s)@.push(c),
;

/// Decides the Unicode `White_Space` property.
pub fn is_whitespace_char(c: char) -> (r: bool)
    ensures
        r == is_whitespace(c),
{
    ('\u{9}' <= c && c <= '\u{d}') || c == ' ' || c == '\u{85}' || c == '\u{a0}' || c == '\u{1680}'
        || ('\u{2000}' <= c && c <= '\u{200a}') || c == '\u{2028}' || c == '\u{2029}' || c
        == '\u{202f}' || c == '\u{205f}' || c == '\u{3000}'
}

/// The characters of `text`, in order.
pub fn to_chars(text: &str) -> (chars: Vec<char>)
    ensures
        chars@ == text@,
{
    let mut chars: Vec<char> = Vec::new();
    let source = text.chars();
    for c in it: source
        invariant
            it.seq() == text@,
            chars@ == it.seq().take(it.index()),
    {
        chars.push(c);
    }
    chars
}

/// The first index in `[from, to)` that holds no whitespace, or `to` when there is none:
/// where the left-trimmed range begins.
pub fn trim_start_index(chars: &[char], from: usize, to: usize) -> (r: usize)
    requires
        from <= to <= chars@.len(),
    ensures
        from <= r <= to,
        trim_start(chars@.subrange(from as int, to as int)) == chars@.subrange(r as int, to as int),
{
    let mut i: usize = from;
    while i < to && is_whitespace_char(chars[i])
        invariant
            from <= i <= to <= chars@.len(),
            trim_start(chars@.subrange(from as int, to as int)) == trim_start(
                chars@.subrange(i as int, to as int),
            ),
        decreases to - i,
    {
        assert(chars@.subrange(i as int, to as int).drop_first() == chars@.subrange(
            i + 1,
            to as int,
        ));
        i += 1;
    }
    i
}

/// One past the last index in `[from, to)` that holds no whitespace, or `from` when there
/// is none: where the right-trimmed range ends.
pub fn trim_end_index(chars: &[char], from: usize, to: usize) -> (r: usize)
    requires
        from <= to <= chars@.len(),
    ensures
        from <= r <= to,
        trim_end(chars@.subrange(from as int, to as int)) == chars@.subrange(from as int, r as int),
{
    let mut i: usize = to;
    while i > from && is_whitespace_char(chars[i - 1])
        invariant
            from <= i <= to <= chars@.len(),
            trim_end(chars@.subrange(from as int, to as int)) == trim_end(
                chars@.subrange(from as int, i as int),
            ),
        decreases i,
    {
        assert(chars@.subrange(from as int, i as int).drop_last() == chars@.subrange(
            from as int,
            i - 1,
        ));
        i -= 1;
    }
    i
}

/// A text cut at two character boundaries: the piece up to the later one is
/// valid UTF-8, the earlier one is a boundary of it, and so the piece between
/// the two is valid UTF-8 as well.
pub proof fn lemma_cut_at_boundaries(bytes: Seq<u8>, start: int, end: int)
    requires
        valid_utf8(bytes),
        0 <= start <= end <= bytes.len(),
        is_char_boundary(bytes, start),
        is_char_boundary(bytes, end),
    ensures
        valid_utf8(bytes.subrange(0, end)),
        is_char_boundary(bytes.subrange(0, end), start),
        valid_utf8(bytes.subrange(start, end)),
        valid_utf8(bytes.subrange(end, bytes.len() as int)),
{
    let head = bytes.subrange(0, end);
    valid_utf8_split(bytes, end);
    if start == end {
        is_char_boundary_start_end_of_seq(head);
    } else {
        is_char_boundary_iff_not_is_continuation_byte(bytes, start);
        assert(head[start] == bytes[start]);
        is_char_boundary_iff_not_is_continuation_byte(head, start);
    }
    valid_utf8_split(head, start);
    assert(head.subrange(start, head.len() as int) == bytes.subrange(start, end));
}

/// Cuts `text` at the byte offsets `start` and `end`: the piece between them
/// and the text after `end`. There is a result exactly when the offsets are
/// in order, inside `text` and on character boundaries.
pub fn cut_out<'a>(text: &'a str, start: usize, end: usize) -> (r: Option<(&'a str, &'a str)>)
    ensures
        r is Some <==> {
            &&& start <= end <= text.spec_bytes().len()
            &&& is_char_boundary(text.spec_bytes(), start as int)
            &&& is_char_boundary(text.spec_bytes(), end as int)
        },
        match r {
            Some((piece, rest)) => {
                &&& piece.spec_bytes() == text.spec_bytes().subrange(start as int, end as int)
                &&& rest.spec_bytes() == text.spec_bytes().subrange(
                    end as int,
                    text.spec_bytes().len() as int,
                )
                &&& piece@ == decode_utf8(text.spec_bytes().subrange(start as int, end as int))
                &&& rest@ == decode_utf8(
                    text.spec_bytes().subrange(end as int, text.spec_bytes().len() as int),
                )
            },
            None => true,
        },
{
    let n: usize = text.as_bytes().len();
    if start <= end && end <= n && text.is_char_boundary(start) && text.is_char_boundary(end) {
        proof {
            encode_utf8_valid_utf8(text@);
            lemma_cut_at_boundaries(text.spec_bytes(), start as int, end as int);
        }
        let (head, rest) = text.split_at(end);
        let (_, piece) = head.split_at(start);
        proof {
            assert(piece.spec_bytes() == text.spec_bytes().subrange(start as int, end as int));
            encode_utf8_decode_utf8(piece@);
            encode_utf8_decode_utf8(rest@);
        }
        Some((piece, rest))
    } else {
        None
    }
}

/// `text` without its leading and trailing whitespace.
pub fn trimmed(text: &str) -> (r: &str)
    ensures
        r@ == trim(text@),
{
    let chars: Vec<char> = to_chars(text);
    let n: usize = chars.len();
    let from: usize = trim_start_index(chars.as_slice(), 0, n);
    let to: usize = trim_end_index(chars.as_slice(), from, n);
    proof {
        assert(chars@.subrange(0, n as int) == chars@);
    }
    text.substring_char(from, to)
}

} // verus!

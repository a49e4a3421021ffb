//! Reading the value of a key out of a front-matter block, line by line.
use crate::text::{to_chars, trim, trim_end_index, trim_start, trim_start_index};
use vstd::prelude::*;
use vstd::string::StrSliceExecFns;

verus! {

/// The key of the line that gives a document's title.
pub open spec fn title_key() -> Seq<char> {
    seq!['t', 'i', 't', 'l', 'e', ':']
}

/// The key of the line that gives a document's creation date.
pub open spec fn created_key() -> Seq<char> {
    seq!['c', 'r', 'e', 'a', 't', 'e', 'd', ':']
}

/// The key of the line that gives a document's update date.
pub open spec fn updated_key() -> Seq<char> {
    seq!['u', 'p', 'd', 'a', 't', 'e', 'd', ':']
}

/// Number of characters of `s` before its first line feed; `s.len()` when it has none.
pub open spec fn first_line_len(s: Seq<char>) -> nat
    decreases s.len(),
{
    if s.len() == 0 || s.first() == '\n' {
        0
    } else {
        1 + first_line_len(s.drop_first())
    }
}

/// The lines of `s`: the pieces that its line feeds separate. A text that ends
/// in a line feed has an empty last line.
pub open spec fn lines(s: Seq<char>) -> Seq<Seq<char>>
    decreases s.len(),
{
    let n = first_line_len(s) as int;
    if n < s.len() {
        seq![s.take(n)] + lines(s.skip(n + 1))
    } else {
        seq![s]
    }
}

/// Whether `line`, once trimmed, starts with `key`.
pub open spec fn has_key(line: Seq<char>, key: Seq<char>) -> bool {
    key.is_prefix_of(trim(line))
}

/// What follows `key` on the trimmed `line`, without leading whitespace.
pub open spec fn text_after_key(line: Seq<char>, key: Seq<char>) -> Seq<char> {
    trim_start(trim(line).skip(key.len() as int))
}

/// The value that one line gives for `key`: the text after the key, when the
/// line has the key and that text is not empty.
pub open spec fn line_value(line: Seq<char>, key: Seq<char>) -> Option<Seq<char>> {
    if has_key(line, key) && text_after_key(line, key).len() > 0 {
        Some(text_after_key(line, key))
    } else {
        None
    }
}

/// The value of the first of `lines` that gives one for `key`.
pub open spec fn first_value(lines: Seq<Seq<char>>, key: Seq<char>) -> Option<Seq<char>>
    decreases lines.len(),
{
    if lines.len() == 0 {
        None
    } else {
        match line_value(lines.first(), key) {
            Some(value) => Some(value),
            None => first_value(lines.drop_first(), key),
        }
    }
}

/// The value of `key` in `front_matter`: that of the first line that gives one.
pub open spec fn field_value(front_matter: Seq<char>, key: Seq<char>) -> Option<Seq<char>> {
    first_value(lines(front_matter), key)
}

/// `first_line_len` stops at the first line feed and not before.
pub proof fn lemma_first_line_len(s: Seq<char>)
    ensures
        first_line_len(s) <= s.len(),
        forall|j: int| 0 <= j < first_line_len(s) ==> s[j] != '\n',
        first_line_len(s) < s.len() ==> s[first_line_len(s) as int] == '\n',
    decreases s.len(),
{
    if s.len() == 0 || s.first() == '\n' {
    } else {
        let rest = s.drop_first();
        lemma_first_line_len(rest);
        assert forall|j: int| 0 <= j < first_line_len(s) implies s[j] != '\n' by {
            if j > 0 {
                assert(s[j] == rest[j - 1]);
            }
        }
        if first_line_len(s) < s.len() {
            assert(s[first_line_len(s) as int] == rest[first_line_len(rest) as int]);
        }
    }
}

/// A position with a line feed (or the end), before which there is none, is
/// where the first line ends.
pub proof fn lemma_first_line_len_is(s: Seq<char>, n: int)
    requires
        0 <= n <= s.len(),
        forall|j: int| 0 <= j < n ==> s[j] != '\n',
        n < s.len() ==> s[n] == '\n',
    ensures
        first_line_len(s) == n,
{
    lemma_first_line_len(s);
    let m = first_line_len(s) as int;
    if m < n {
        assert(s[m] != '\n');
    } else if n < m {
        assert(s[n] != '\n');
    }
}

/// First match wins: when line `i` gives a value for `key` and no earlier
/// line does, that value is the field's.
pub proof fn lemma_first_match_wins(front_matter: Seq<char>, key: Seq<char>, i: int)
    requires
        0 <= i < lines(front_matter).len(),
        line_value(lines(front_matter)[i], key) is Some,
        forall|j: int| 0 <= j < i ==> line_value(lines(front_matter)[j], key) is None,
    ensures
        field_value(front_matter, key) == line_value(lines(front_matter)[i], key),
{
    lemma_first_value_at(lines(front_matter), key, i);
}

/// `first_value` returns the value of the first line that has one.
pub proof fn lemma_first_value_at(lines: Seq<Seq<char>>, key: Seq<char>, i: int)
    requires
        0 <= i < lines.len(),
        line_value(lines[i], key) is Some,
        forall|j: int| 0 <= j < i ==> line_value(lines[j], key) is None,
    ensures
        first_value(lines, key) == line_value(lines[i], key),
    decreases i,
{
    if i > 0 {
        let rest = lines.drop_first();
        assert(line_value(lines[0], key) is None);
        assert(rest[i - 1] == lines[i]);
        assert forall|j: int| 0 <= j < i - 1 implies line_value(rest[j], key) is None by {
            assert(rest[j] == lines[j + 1]);
        }
        lemma_first_value_at(rest, key, i - 1);
    }
}

/// A field has no value exactly when no line gives one.
pub proof fn lemma_first_value_none(lines: Seq<Seq<char>>, key: Seq<char>)
    ensures
        first_value(lines, key) is None <==> forall|j: int|
            0 <= j < lines.len() ==> line_value(lines[j], key) is None,
    decreases lines.len(),
{
    if lines.len() > 0 {
        let rest = lines.drop_first();
        lemma_first_value_none(rest, key);
        if line_value(lines[0], key) is None {
            if first_value(rest, key) is None {
                assert forall|j: int| 0 <= j < lines.len() implies line_value(
                    lines[j],
                    key,
                ) is None by {
                    if j > 0 {
                        assert(lines[j] == rest[j - 1]);
                    }
                }
            } else {
                let j = choose|j: int| 0 <= j < rest.len() && line_value(rest[j], key) is Some;
                assert(lines[j + 1] == rest[j]);
            }
        }
    }
}

/// The value of a field is never empty.
pub proof fn lemma_field_value_not_empty(front_matter: Seq<char>, key: Seq<char>)
    ensures
        field_value(front_matter, key) is Some ==> field_value(front_matter, key)->0.len() > 0,
{
    lemma_first_value_not_empty(lines(front_matter), key);
}

/// The first value among lines is never empty.
pub proof fn lemma_first_value_not_empty(lines: Seq<Seq<char>>, key: Seq<char>)
    ensures
        first_value(lines, key) is Some ==> first_value(lines, key)->0.len() > 0,
    decreases lines.len(),
{
    if lines.len() > 0 {
        lemma_first_value_not_empty(lines.drop_first(), key);
    }
}

/// Only the values that the lines give matter: two sequences of lines that
/// give the same value line by line give the same field.
pub proof fn lemma_first_value_by_lines(a: Seq<Seq<char>>, b: Seq<Seq<char>>, key: Seq<char>)
    requires
        a.len() == b.len(),
        forall|i: int| 0 <= i < a.len() ==> line_value(a[i], key) == line_value(b[i], key),
    ensures
        first_value(a, key) == first_value(b, key),
    decreases a.len(),
{
    if a.len() > 0 {
        let a_rest = a.drop_first();
        let b_rest = b.drop_first();
        assert(line_value(a[0], key) == line_value(b[0], key));
        assert forall|i: int| 0 <= i < a_rest.len() implies line_value(a_rest[i], key)
            == line_value(b_rest[i], key) by {
            assert(a_rest[i] == a[i + 1]);
            assert(b_rest[i] == b[i + 1]);
        }
        lemma_first_value_by_lines(a_rest, b_rest, key);
    }
}

/// A key with a blank value counts as a key that is absent: two front matters
/// whose lines differ only where, in both, the line lacks the key or has it
/// with nothing but whitespace after it, give the same value for the key.
pub proof fn lemma_blank_value_is_absent(a: Seq<char>, b: Seq<char>, key: Seq<char>)
    requires
        lines(a).len() == lines(b).len(),
        forall|i: int|
            0 <= i < lines(a).len() ==> lines(a)[i] == lines(b)[i] || ((!has_key(lines(a)[i], key)
                || text_after_key(lines(a)[i], key).len() == 0) && (!has_key(lines(b)[i], key)
                || text_after_key(lines(b)[i], key).len() == 0)),
    ensures
        field_value(a, key) == field_value(b, key),
{
    lemma_first_value_by_lines(lines(a), lines(b), key);
}

/// Whether `key` stands in `chars` at position `at`, within the range that ends at `to`.
fn key_at(chars: &[char], at: usize, to: usize, key: &[char]) -> (r: bool)
    requires
        at <= to <= chars@.len(),
    ensures
        r == key@.is_prefix_of(chars@.subrange(at as int, to as int)),
{
    let k: usize = key.len();
    if to - at < k {
        return false;
    }
    let ghost piece = chars@.subrange(at as int, to as int);
    let mut i: usize = 0;
    while i < k
        invariant
            i <= k,
            k == key@.len(),
            at + k <= to <= chars@.len(),
            piece == chars@.subrange(at as int, to as int),
            forall|j: int| 0 <= j < i ==> key@[j] == piece[j],
        decreases k - i,
    {
        if chars[at + i] != key[i] {
            proof {
                assert(piece[i as int] == chars@[at + i]);
                if key@.is_prefix_of(piece) {
                    assert(piece.subrange(0, k as int)[i as int] == piece[i as int]);
                }
            }
            return false;
        }
        i += 1;
    }
    proof {
        assert(key@ =~= piece.subrange(0, k as int));
    }
    true
}

/// Where the first line of `chars` at or after position `from` ends: the
/// position of its line feed, or the end of `chars`.
fn line_end(chars: &[char], from: usize) -> (r: usize)
    requires
        from <= chars@.len(),
    ensures
        from <= r <= chars@.len(),
        r - from == first_line_len(chars@.skip(from as int)),
{
    let n: usize = chars.len();
    let mut i: usize = from;
    while i < n && chars[i] != '\n'
        invariant
            from <= i <= n,
            n == chars@.len(),
            forall|j: int| from <= j < i ==> chars@[j] != '\n',
        decreases n - i,
    {
        i += 1;
    }
    proof {
        lemma_first_line_len_is(chars@.skip(from as int), i - from);
    }
    i
}

/// The positions of the value that the line `chars[from..to]` gives for `key`.
fn line_value_range(chars: &[char], from: usize, to: usize, key: &[char]) -> (r: Option<
    (usize, usize),
>)
    requires
        from <= to <= chars@.len(),
    ensures
        match r {
            Some((start, end)) => {
                &&& from <= start < end <= to
                &&& line_value(chars@.subrange(from as int, to as int), key@) == Some(
                    chars@.subrange(start as int, end as int),
                )
            },
            None => line_value(chars@.subrange(from as int, to as int), key@) is None,
        },
{
    let start: usize = trim_start_index(chars, from, to);
    let end: usize = trim_end_index(chars, start, to);
    if !key_at(chars, start, end, key) {
        return None;
    }
    let k: usize = key.len();
    let value_start: usize = trim_start_index(chars, start + k, end);
    proof {
        assert(chars@.subrange(start as int, end as int).skip(k as int) == chars@.subrange(
            start + k,
            end as int,
        ));
    }
    if value_start < end {
        Some((value_start, end))
    } else {
        None
    }
}

/// The positions in `chars` of the value of `key`: those of the text after
/// the key on the first line that has the key with a value that is not blank.
pub fn find_value_range(chars: &[char], key: &[char]) -> (r: Option<(usize, usize)>)
    ensures
        match r {
            Some((start, end)) => {
                &&& start < end <= chars@.len()
                &&& field_value(chars@, key@) == Some(chars@.subrange(start as int, end as int))
            },
            None => field_value(chars@, key@) is None,
        },
{
    let n: usize = chars.len();
    let mut from: usize = 0;
    assert(chars@.skip(0) == chars@);
    loop
        invariant
            from <= n,
            n == chars@.len(),
            field_value(chars@, key@) == first_value(lines(chars@.skip(from as int)), key@),
        decreases n - from,
    {
        let to: usize = line_end(chars, from);
        let ghost rest = chars@.skip(from as int);
        let ghost line = chars@.subrange(from as int, to as int);
        proof {
            assert(rest.take(to - from) == line);
            if to < n {
                assert(rest.skip(to - from + 1) == chars@.skip(to + 1));
                assert(lines(rest) == seq![line] + lines(chars@.skip(to + 1)));
                assert(lines(rest).drop_first() == lines(chars@.skip(to + 1)));
            } else {
                assert(rest == line);
                assert(lines(rest) == seq![line]);
                assert(lines(rest).drop_first() == Seq::<Seq<char>>::empty());
                assert(first_value(Seq::<Seq<char>>::empty(), key@) is None);
            }
            assert(lines(rest).first() == line);
        }
        match line_value_range(chars, from, to, key) {
            Some(range) => {
                return Some(range);
            },
            None => {},
        }
        if to >= n {
            return None;
        }
        from = to + 1;
    }
}

/// The value of `key` in `front_matter`: the text after the key on the first
/// line that has the key with a value that is not blank.
pub fn find_value<'a>(front_matter: &'a str, key: &str) -> (r: Option<&'a str>)
    ensures
        match r {
            Some(value) => field_value(front_matter@, key@) == Some(value@),
            None => field_value(front_matter@, key@) is None,
        },
{
    let chars: Vec<char> = to_chars(front_matter);
    let key_chars: Vec<char> = to_chars(key);
    match find_value_range(chars.as_slice(), key_chars.as_slice()) {
        Some((start, end)) => Some(front_matter.substring_char(start, end)),
        None => None,
    }
}

/// The text of the title key.
pub fn title_key_text() -> (key: &'static str)
    ensures
        key@ == title_key(),
{
    proof {
        reveal_strlit("title:");
        assert("title:"@ =~= title_key());
    }
    "title:"
}

/// The text of the creation date key.
pub fn created_key_text() -> (key: &'static str)
    ensures
        key@ == created_key(),
{
    proof {
        reveal_strlit("created:");
        assert("created:"@ =~= created_key());
    }
    "created:"
}

/// The text of the update date key.
pub fn updated_key_text() -> (key: &'static str)
    ensures
        key@ == updated_key(),
{
    proof {
        reveal_strlit("updated:");
        assert("updated:"@ =~= updated_key());
    }
    "updated:"
}

} // verus!

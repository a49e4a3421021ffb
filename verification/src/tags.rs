//! The tag of a document: a label made of the segments of its path.
use crate::text::to_chars;
use vstd::prelude::*;

verus! {

/// `segment` with a hyphen in place of each space.
pub open spec fn hyphenated(segment: Seq<char>) -> Seq<char> {
    segment.map_values(|c: char| if c == ' ' { '-' } else { c })
}

/// The suffix that marks a note's file.
pub open spec fn md_suffix() -> Seq<char> {
    seq!['.', 'm', 'd']
}

/// `name` without the suffix `.md`, when it ends in it; `name` itself otherwise.
pub open spec fn without_md_suffix(name: Seq<char>) -> Seq<char> {
    if md_suffix().is_suffix_of(name) {
        name.take(name.len() - md_suffix().len())
    } else {
        name
    }
}

/// The part of a tag that the directories above the file make: each
/// directory's name with hyphens for spaces, and a slash after it.
pub open spec fn directory_tags(directories: Seq<Seq<char>>) -> Seq<char>
    decreases directories.len(),
{
    if directories.len() == 0 {
        Seq::empty()
    } else {
        directory_tags(directories.drop_last()) + hyphenated(directories.last()) + seq!['/']
    }
}

/// The tag for a path given by its segments, the file's name last: none for
/// a path without segments; else a hash sign, the directories' part, and the
/// file's name with hyphens for spaces and without the suffix `.md`.
pub open spec fn tag_of(segments: Seq<Seq<char>>) -> Option<Seq<char>> {
    if segments.len() == 0 {
        None
    } else {
        Some(
            seq!['#'] + directory_tags(segments.drop_last()) + without_md_suffix(
                hyphenated(segments.last()),
            ),
        )
    }
}

/// Only a path without segments has no tag, and every tag starts with a hash sign.
pub proof fn lemma_tag_presence(segments: Seq<Seq<char>>)
    ensures
        tag_of(segments) is None <==> segments.len() == 0,
        tag_of(segments) is Some ==> tag_of(segments)->0.len() > 0 && tag_of(segments)->0[0]
            == '#',
{
}

/// Appends to `out` the first `count` of `chars`, each space as a hyphen.
fn push_hyphenated(out: &mut String, chars: &[char], count: usize)
    requires
        count <= chars@.len(),
    ensures
        final(out)@ == old(out)@ + hyphenated(chars@).take(count as int),
{
    let mut i: usize = 0;
    while i < count
        invariant
            i <= count <= chars@.len(),
            out@ == old(out)@ + hyphenated(chars@).take(i as int),
        decreases count - i,
    {
        let c: char = chars[i];
        proof {
            assert(hyphenated(chars@).take(i + 1) == hyphenated(chars@).take(i as int).push(
                hyphenated(chars@)[i as int],
            ));
        }
        if c == ' ' {
            out.push('-');
        } else {
            out.push(c);
        }
        i += 1;
    }
}

/// How many of `chars` are left once a closing `.md` is taken off.
fn len_without_md_suffix(chars: &[char]) -> (r: usize)
    ensures
        r <= chars@.len(),
        without_md_suffix(hyphenated(chars@)) == hyphenated(chars@).take(r as int),
{
    let n: usize = chars.len();
    let ghost name = hyphenated(chars@);
    if n >= 3 && chars[n - 3] == '.' && chars[n - 2] == 'm' && chars[n - 1] == 'd' {
        proof {
            assert(md_suffix() =~= name.subrange(n - 3, n as int));
        }
        n - 3
    } else {
        proof {
            if md_suffix().is_suffix_of(name) {
                let tail = name.subrange(n - 3, n as int);
                assert(tail[0] == '.' && tail[1] == 'm' && tail[2] == 'd');
            }
            assert(name.take(n as int) == name);
        }
        n
    }
}

/// Derives the tag of the document at `relative_path`, given by its segments.
pub fn tag_for(relative_path: &Vec<String>) -> (r: Option<String>)
    ensures
        match r {
            Some(tag) => tag_of(relative_path.deep_view()) == Some(tag@),
            None => tag_of(relative_path.deep_view()) is None,
        },
{
    let count: usize = relative_path.len();
    if count == 0 {
        return None;
    }
    let ghost segments = relative_path.deep_view();
    let mut tag = String::new();
    tag.push('#');
    let mut i: usize = 0;
    while i < count - 1
        invariant
            i <= count - 1,
            count == relative_path@.len(),
            segments == relative_path.deep_view(),
            tag@ == seq!['#'] + directory_tags(segments.take(i as int)),
        decreases count - i,
    {
        let chars: Vec<char> = to_chars(relative_path[i].as_str());
        proof {
            assert(segments.take(i + 1).drop_last() == segments.take(i as int));
            assert(segments.take(i + 1).last() == chars@);
            assert(hyphenated(chars@).take(chars@.len() as int) == hyphenated(chars@));
        }
        push_hyphenated(&mut tag, chars.as_slice(), chars.len());
        tag.push('/');
        i += 1;
    }
    let name: Vec<char> = to_chars(relative_path[count - 1].as_str());
    let kept: usize = len_without_md_suffix(name.as_slice());
    proof {
        assert(segments.take(count - 1) == segments.drop_last());
        assert(segments.last() == name@);
    }
    push_hyphenated(&mut tag, name.as_slice(), kept);
    Some(tag)
}

} // verus!

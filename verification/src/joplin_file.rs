//! A note as Joplin exports it: front matter between two delimiter lines, and
//! the body after it.
use crate::date::{date_instant, date_outcome, date_result, parse_date, DateField, Timestamp};
use crate::error::BuildError;
use crate::field::{
    created_key, created_key_text, field_value, find_value, lemma_field_value_not_empty,
    title_key, title_key_text, updated_key, updated_key_text,
};
use crate::marker::{
    find_marker, first_marker, is_first_marker, lemma_first_marker_found,
    lemma_marker_has_first, lemma_marker_on_boundaries, marker_at, MARKER_LEN,
};
use crate::tags::{tag_for, tag_of};
use crate::text::{cut_out, lemma_cut_at_boundaries, trim, trimmed};
use vstd::prelude::*;
use vstd::string::{StringExecFns, StringSliceAdditionalSpecFns};
use vstd::utf8::{
    decode_utf8, decode_utf8_encode_utf8, encode_utf8, encode_utf8_valid_utf8, is_char_boundary,
    valid_utf8,
};

verus! {

/// A note read from its exported text.
#[derive(Debug)]
pub struct JoplinFile {
    /// The title, never empty.
    pub title: String,
    /// When the note was created.
    pub created: Timestamp,
    /// When the note was last updated.
    pub updated: Timestamp,
    /// The front-matter block, both delimiter lines included.
    pub front_matter: String,
    /// Byte offset in the text at which the front matter starts.
    pub front_matter_start_pos: usize,
    /// Byte offset in the text just after the front matter.
    pub front_matter_end_pos: usize,
    /// The text after the front matter, trimmed.
    pub body: String,
    /// The tag that the note's place in the tree gives it.
    pub tags: Option<String>,
    /// The segments of the note's path below the root of the export.
    pub relative_path: Vec<String>,
}

/// What a note is, as plain mathematical values.
pub struct Document {
    pub title: Seq<char>,
    pub created: Timestamp,
    pub updated: Timestamp,
    pub front_matter: Seq<char>,
    pub front_matter_start_pos: int,
    pub front_matter_end_pos: int,
    pub body: Seq<char>,
    pub tags: Option<Seq<char>>,
    pub relative_path: Seq<Seq<char>>,
}

impl View for JoplinFile {
    type V = Document;

    open spec fn view(&self) -> Document {
        Document {
            title: self.title@,
            created: self.created,
            updated: self.updated,
            front_matter: self.front_matter@,
            front_matter_start_pos: self.front_matter_start_pos as int,
            front_matter_end_pos: self.front_matter_end_pos as int,
            body: self.body@,
            tags: match self.tags {
                Some(tag) => Some(tag@),
                None => None,
            },
            relative_path: self.relative_path.deep_view(),
        }
    }
}

impl Document {
    /// What holds of every document built from `text`: the title is not
    /// empty, the offsets are in order and inside the text, the front matter
    /// is the text between them, and only a path without segments has no tag.
    pub open spec fn holds_in(self, text: Seq<char>) -> bool {
        let bytes = encode_utf8(text);
        &&& self.title.len() > 0
        &&& 0 <= self.front_matter_start_pos < self.front_matter_end_pos <= bytes.len()
        &&& encode_utf8(self.front_matter) == bytes.subrange(
            self.front_matter_start_pos,
            self.front_matter_end_pos,
        )
        &&& self.tags is None <==> self.relative_path.len() == 0
    }
}

impl DateField {
    /// The key of the line that gives this date.
    pub open spec fn key(self) -> Seq<char> {
        match self {
            DateField::Created => created_key(),
            DateField::Updated => updated_key(),
        }
    }
}

/// Where the front matter lies in `bytes`: from the first delimiter line to
/// the end of the next one that starts after it.
pub open spec fn front_matter_span(bytes: Seq<u8>) -> Result<(int, int), BuildError> {
    match first_marker(bytes, 0) {
        None => Err(BuildError::MissingStartMarker),
        Some(start) => match first_marker(bytes, start + MARKER_LEN) {
            None => Err(BuildError::MissingEndMarker),
            Some(last) => Ok((start, last + MARKER_LEN)),
        },
    }
}

/// Where the front matter that starts at `start` ends: after the first
/// delimiter line that starts behind the four bytes at `start`, if these lie
/// in `bytes` and end on a character boundary.
pub open spec fn front_matter_end(bytes: Seq<u8>, start: int) -> Option<int> {
    if start + MARKER_LEN <= bytes.len() && is_char_boundary(bytes, start + MARKER_LEN) {
        match first_marker(bytes, start + MARKER_LEN) {
            Some(last) => Some(last + MARKER_LEN),
            None => None,
        }
    } else {
        None
    }
}

/// The title that `front_matter` gives, or the error for its absence.
pub open spec fn title_field(front_matter: Seq<char>) -> Result<Seq<char>, BuildError> {
    match field_value(front_matter, title_key()) {
        Some(title) => Ok(title),
        None => Err(BuildError::MissingTitle),
    }
}

/// The date that `front_matter` gives for `field`, or the error for its
/// absence or for a text that denotes no instant.
pub open spec fn date_field(front_matter: Seq<char>, field: DateField) -> Result<
    Timestamp,
    BuildError,
> {
    match field_value(front_matter, field.key()) {
        Some(text) => date_result(field, date_instant(text)),
        None => Err(field.missing()),
    }
}

/// The document that the text `text` at the path `relative_path` holds, or
/// the first error on the way: locating the front matter, then its title,
/// its creation date and its update date.
pub open spec fn parse_document(relative_path: Seq<Seq<char>>, text: Seq<char>) -> Result<
    Document,
    BuildError,
> {
    let bytes = encode_utf8(text);
    match front_matter_span(bytes) {
        Err(e) => Err(e),
        Ok((start, end)) => {
            let front_matter = decode_utf8(bytes.subrange(start, end));
            let body = trim(decode_utf8(bytes.subrange(end, bytes.len() as int)));
            match title_field(front_matter) {
                Err(e) => Err(e),
                Ok(title) => match date_field(front_matter, DateField::Created) {
                    Err(e) => Err(e),
                    Ok(created) => match date_field(front_matter, DateField::Updated) {
                        Err(e) => Err(e),
                        Ok(updated) => Ok(
                            Document {
                                title,
                                created,
                                updated,
                                front_matter,
                                front_matter_start_pos: start,
                                front_matter_end_pos: end,
                                body,
                                tags: tag_of(relative_path),
                                relative_path,
                            },
                        ),
                    },
                },
            }
        },
    }
}

/// The outcome of a build as plain mathematical values.
pub open spec fn document_result(r: Result<JoplinFile, BuildError>) -> Result<
    Document,
    BuildError,
> {
    match r {
        Ok(file) => Ok(file@),
        Err(e) => Err(e),
    }
}

/// Behind a first delimiter line the search for the end goes on as
/// `front_matter_span` says: the four bytes lie in the text and end on a
/// character boundary.
pub proof fn lemma_start_is_followed(bytes: Seq<u8>, start: int)
    requires
        valid_utf8(bytes),
        first_marker(bytes, 0) == Some(start),
    ensures
        front_matter_end(bytes, start) == match first_marker(bytes, start + MARKER_LEN) {
            Some(last) => Some(last + MARKER_LEN),
            None => None,
        },
{
    lemma_first_marker_found(bytes, 0);
    lemma_marker_on_boundaries(bytes, start);
}

/// The span of a front matter starts and ends on character boundaries.
pub proof fn lemma_span_on_boundaries(bytes: Seq<u8>)
    requires
        valid_utf8(bytes),
    ensures
        match front_matter_span(bytes) {
            Ok((start, end)) => {
                &&& 0 <= start
                &&& start + 2 * MARKER_LEN <= end <= bytes.len()
                &&& is_char_boundary(bytes, start)
                &&& is_char_boundary(bytes, end)
            },
            Err(_) => true,
        },
{
    lemma_first_marker_found(bytes, 0);
    if let Some(start) = first_marker(bytes, 0) {
        lemma_marker_on_boundaries(bytes, start);
        lemma_first_marker_found(bytes, start + MARKER_LEN);
        if let Some(last) = first_marker(bytes, start + MARKER_LEN) {
            lemma_marker_on_boundaries(bytes, last);
        }
    }
}

/// Every document that a text holds keeps the invariant of documents in it.
pub proof fn lemma_document_holds_in(relative_path: Seq<Seq<char>>, text: Seq<char>)
    ensures
        match parse_document(relative_path, text) {
            Ok(document) => document.holds_in(text) && document.relative_path == relative_path,
            Err(_) => true,
        },
{
    let bytes = encode_utf8(text);
    encode_utf8_valid_utf8(text);
    lemma_span_on_boundaries(bytes);
    if let Ok(document) = parse_document(relative_path, text) {
        let (start, end) = front_matter_span(bytes)->Ok_0;
        lemma_cut_at_boundaries(bytes, start, end);
        decode_utf8_encode_utf8(bytes.subrange(start, end));
        lemma_field_value_not_empty(document.front_matter, title_key());
    }
}

/// A text with two delimiter lines that do not overlap has a front matter:
/// it starts at the first delimiter line and ends just after the line feed of
/// the next one that starts behind it. Building then fails on no account of
/// the delimiters, and a document that is built holds as its front matter the
/// text between these two offsets.
pub proof fn lemma_two_markers_give_front_matter(
    relative_path: Seq<Seq<char>>,
    text: Seq<char>,
    first: int,
    second: int,
)
    requires
        marker_at(encode_utf8(text), first),
        marker_at(encode_utf8(text), second),
        first + MARKER_LEN <= second,
    ensures
        front_matter_span(encode_utf8(text)) is Ok,
        ({
            let bytes = encode_utf8(text);
            let (start, end) = front_matter_span(bytes)->Ok_0;
            &&& is_first_marker(bytes, 0, start)
            &&& is_first_marker(bytes, start + MARKER_LEN, end - MARKER_LEN)
            &&& match parse_document(relative_path, text) {
                Ok(document) => {
                    &&& document.front_matter_start_pos == start
                    &&& document.front_matter_end_pos == end
                    &&& encode_utf8(document.front_matter) == bytes.subrange(start, end)
                },
                Err(e) => {
                    &&& e != BuildError::MissingStartMarker
                    &&& e != BuildError::MissingEndMarker
                    &&& e != BuildError::MissingFrontMatterSlice
                },
            }
        }),
{
    let bytes = encode_utf8(text);
    lemma_marker_has_first(bytes, 0, first);
    let start = first_marker(bytes, 0)->0;
    lemma_marker_has_first(bytes, start + MARKER_LEN, second);
    lemma_document_holds_in(relative_path, text);
}

/// A text without a delimiter line has no start of a front matter.
pub proof fn lemma_no_marker(relative_path: Seq<Seq<char>>, text: Seq<char>)
    requires
        forall|i: int| !marker_at(encode_utf8(text), i),
    ensures
        parse_document(relative_path, text) == Err::<Document, BuildError>(
            BuildError::MissingStartMarker,
        ),
{
    lemma_first_marker_found(encode_utf8(text), 0);
}

/// A text with exactly one delimiter line has no end of a front matter.
pub proof fn lemma_single_marker(relative_path: Seq<Seq<char>>, text: Seq<char>, only: int)
    requires
        marker_at(encode_utf8(text), only),
        forall|i: int| i != only ==> !marker_at(encode_utf8(text), i),
    ensures
        parse_document(relative_path, text) == Err::<Document, BuildError>(
            BuildError::MissingEndMarker,
        ),
{
    let bytes = encode_utf8(text);
    lemma_marker_has_first(bytes, 0, only);
    lemma_first_marker_found(bytes, only + MARKER_LEN);
}

/// Building is a function of the path and the text: two builds from the same
/// inputs end alike, and two notes that they give agree field for field.
pub proof fn lemma_build_is_repeatable(
    relative_path: Seq<Seq<char>>,
    text: Seq<char>,
    first: Result<JoplinFile, BuildError>,
    second: Result<JoplinFile, BuildError>,
)
    requires
        document_result(first) == parse_document(relative_path, text),
        document_result(second) == parse_document(relative_path, text),
    ensures
        document_result(first) == document_result(second),
        first is Ok <==> second is Ok,
        first is Err ==> first->Err_0 == second->Err_0,
        first is Ok ==> {
            let a = first->Ok_0;
            let b = second->Ok_0;
            &&& a.title@ == b.title@
            &&& a.created == b.created
            &&& a.updated == b.updated
            &&& a.front_matter@ == b.front_matter@
            &&& a.front_matter_start_pos == b.front_matter_start_pos
            &&& a.front_matter_end_pos == b.front_matter_end_pos
            &&& a.body@ == b.body@
            &&& a@.tags == b@.tags
            &&& a.relative_path.deep_view() == b.relative_path.deep_view()
        },
{
}

/// Reads the date that `front_matter` gives for `field`.
fn find_date(front_matter: &str, field: DateField) -> (r: Result<Timestamp, BuildError>)
    ensures
        r == date_field(front_matter@, field),
{
    let (key, missing) = match field {
        DateField::Created => (created_key_text(), BuildError::MissingCreated),
        DateField::Updated => (updated_key_text(), BuildError::MissingUpdated),
    };
    match find_value(front_matter, key) {
        Some(text) => date_outcome(field, parse_date(text)),
        None => Err(missing),
    }
}

impl JoplinFile {
    /// Builds the note at `relative_path`, given by its segments, from the
    /// text `content` of its file.
    pub fn build(relative_path: Vec<String>, content: &str) -> (r: Result<JoplinFile, BuildError>)
        ensures
            document_result(r) == parse_document(relative_path.deep_view(), content@),
            r is Ok ==> r->Ok_0@.holds_in(content@),
    {
        proof {
            lemma_document_holds_in(relative_path.deep_view(), content@);
        }
        proof {
            encode_utf8_valid_utf8(content@);
        }
        let front_matter_start_pos: usize = match Self::find_front_matter_start(content) {
            Ok(start) => start,
            Err(e) => {
                return Err(e);
            },
        };
        let front_matter_end_pos: usize = match Self::find_front_matter_end(
            front_matter_start_pos,
            content,
        ) {
            Ok(end) => end,
            Err(e) => {
                proof {
                    lemma_start_is_followed(
                        content.spec_bytes(),
                        front_matter_start_pos as int,
                    );
                }
                return Err(e);
            },
        };
        proof {
            lemma_start_is_followed(content.spec_bytes(), front_matter_start_pos as int);
            lemma_span_on_boundaries(content.spec_bytes());
        }
        let (front_matter, rest) = match cut_out(
            content,
            front_matter_start_pos,
            front_matter_end_pos,
        ) {
            Some(pieces) => pieces,
            None => {
                return Err(BuildError::MissingFrontMatterSlice);
            },
        };
        let body = String::from_str(trimmed(rest));
        let title = match Self::find_title(front_matter) {
            Ok(title) => title,
            Err(e) => {
                return Err(e);
            },
        };
        let created = match Self::find_created(front_matter) {
            Ok(created) => created,
            Err(e) => {
                return Err(e);
            },
        };
        let updated = match Self::find_updated(front_matter) {
            Ok(updated) => updated,
            Err(e) => {
                return Err(e);
            },
        };
        let tags = Self::build_tags(&relative_path);
        Ok(
            JoplinFile {
                title: String::from_str(title),
                created,
                updated,
                front_matter: String::from_str(front_matter),
                front_matter_start_pos,
                front_matter_end_pos,
                body,
                relative_path,
                tags,
            },
        )
    }

    /// Finds the byte offset at which the front matter starts: that of the
    /// first delimiter line in `content`.
    pub fn find_front_matter_start(content: &str) -> (r: Result<usize, BuildError>)
        ensures
            match r {
                Ok(start) => first_marker(content.spec_bytes(), 0) == Some(start as int),
                Err(e) => e == BuildError::MissingStartMarker && first_marker(
                    content.spec_bytes(),
                    0,
                ) is None,
            },
    {
        match find_marker(content.as_bytes(), 0) {
            Some(start) => Ok(start),
            None => Err(BuildError::MissingStartMarker),
        }
    }

    /// Finds the byte offset just after the front matter that starts at
    /// `fm_start_pos`: the end of the first delimiter line behind the one
    /// that starts there.
    pub fn find_front_matter_end(fm_start_pos: usize, content: &str) -> (r: Result<
        usize,
        BuildError,
    >)
        ensures
            match r {
                Ok(end) => front_matter_end(content.spec_bytes(), fm_start_pos as int) == Some(
                    end as int,
                ),
                Err(e) => e == BuildError::MissingEndMarker && front_matter_end(
                    content.spec_bytes(),
                    fm_start_pos as int,
                ) is None,
            },
    {
        let bytes = content.as_bytes();
        let n: usize = bytes.len();
        if fm_start_pos > n || n - fm_start_pos < MARKER_LEN {
            return Err(BuildError::MissingEndMarker);
        }
        let after_start_pos: usize = fm_start_pos + MARKER_LEN;
        if !content.is_char_boundary(after_start_pos) {
            return Err(BuildError::MissingEndMarker);
        }
        match find_marker(bytes, after_start_pos) {
            Some(last) => {
                proof {
                    lemma_first_marker_found(bytes@, after_start_pos as int);
                }
                Ok(last + MARKER_LEN)
            },
            None => Err(BuildError::MissingEndMarker),
        }
    }

    /// Reads the title out of `front_matter`.
    pub fn find_title(front_matter: &str) -> (r: Result<&str, BuildError>)
        ensures
            match r {
                Ok(title) => title_field(front_matter@) == Ok::<Seq<char>, BuildError>(title@),
                Err(e) => title_field(front_matter@) == Err::<Seq<char>, BuildError>(e),
            },
    {
        match Self::find_front_matter_value(front_matter, title_key_text()) {
            Some(title) => Ok(title),
            None => Err(BuildError::MissingTitle),
        }
    }

    /// Reads the creation date out of `front_matter`.
    pub fn find_created(front_matter: &str) -> (r: Result<Timestamp, BuildError>)
        ensures
            r == date_field(front_matter@, DateField::Created),
    {
        find_date(front_matter, DateField::Created)
    }

    /// Reads the update date out of `front_matter`.
    pub fn find_updated(front_matter: &str) -> (r: Result<Timestamp, BuildError>)
        ensures
            r == date_field(front_matter@, DateField::Updated),
    {
        find_date(front_matter, DateField::Updated)
    }

    /// Reads the value of `key` out of `front_matter`: the text after the
    /// key on the first line that has the key with a value that is not blank.
    pub fn find_front_matter_value<'a>(front_matter: &'a str, key: &'a str) -> (r: Option<
        &'a str,
    >)
        ensures
            match r {
                Some(value) => field_value(front_matter@, key@) == Some(value@),
                None => field_value(front_matter@, key@) is None,
            },
    {
        find_value(front_matter, key)
    }

    /// Derives the tag of the note at `relative_path`, given by its segments.
    pub fn build_tags(relative_path: &Vec<String>) -> (r: Option<String>)
        ensures
            match r {
                Some(tag) => tag_of(relative_path.deep_view()) == Some(tag@),
                None => tag_of(relative_path.deep_view()) is None,
            },
    {
        tag_for(relative_path)
    }
}

} // verus!

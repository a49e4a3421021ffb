//! What is written for a note, and where the notes of an export are found.
use crate::joplin_file::{Document, JoplinFile};
use vstd::prelude::*;
use vstd::string::StringExecFns;

verus! {

/// The text written for a document: its body and a line feed and, where it
/// has a tag, an empty line, the tag and a line feed.
pub open spec fn exported_text(document: Document) -> Seq<char> {
    document.body + seq!['\n'] + match document.tags {
        Some(tag) => seq!['\n'] + tag + seq!['\n'],
        None => Seq::empty(),
    }
}

/// What follows a directory in the pattern for its notes: any depth below
/// it, and any file name that ends in `.md`.
pub open spec fn notes_glob() -> Seq<char> {
    seq!['/', '*', '*', '/', '*', '.', 'm', 'd']
}

/// The name of the directory, in the export and in what is written, that
/// holds what the notes refer to.
pub open spec fn resources_dir() -> Seq<char> {
    seq!['_', 'r', 'e', 's', 'o', 'u', 'r', 'c', 'e', 's']
}

impl JoplinFile {
    /// The text to write for this note.
    pub fn export_text(&self) -> (text: String)
        ensures
            text@ == exported_text(self@),
    {
        let mut text = String::new();
        text.append(self.body.as_str());
        text.push('\n');
        match &self.tags {
            Some(tag) => {
                text.push('\n');
                text.append(tag.as_str());
                text.push('\n');
            },
            None => {},
        }
        proof {
            assert(text@ =~= exported_text(self@));
        }
        text
    }
}

/// The glob pattern for the notes below the directory `dir`.
pub fn notes_pattern(dir: &str) -> (pattern: String)
    ensures
        pattern@ == dir@ + notes_glob(),
{
    proof {
        reveal_strlit("/**/*.md");
        assert("/**/*.md"@ =~= notes_glob());
    }
    let mut pattern = String::from_str(dir);
    pattern.append("/**/*.md");
    pattern
}

/// The name of the resources directory.
pub fn resources_dir_name() -> (name: &'static str)
    ensures
        name@ == resources_dir(),
{
    proof {
        reveal_strlit("_resources");
        assert("_resources"@ =~= resources_dir());
    }
    "_resources"
}

} // verus!

//! Reads the notes of a Joplin export: the front matter of each note, its
//! body, and the tag that its place in the tree gives it.
use vstd::prelude::*;

pub mod date;
pub mod error;
pub mod export;
pub mod field;
pub mod joplin_file;
pub mod marker;
pub mod tags;
pub mod text;

pub use date::Timestamp;
pub use error::BuildError;
pub use joplin_file::JoplinFile;

verus! {

/// Settings for one run: where the notes are read and where they are written.
pub struct Config {
    pub import_path: String,
    pub export_path: String,
}

impl Config {
    /// Reads the settings from command-line arguments. No form of arguments
    /// is accepted: the result is always the same error.
    pub fn build(_args: &[String]) -> (r: Result<Config, &'static str>)
        ensures
            r is Err,
            r->Err_0@ == "Not implemented"@,
    {
        Err("Not implemented")
    }
}

} // verus!

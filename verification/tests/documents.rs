use jb::date::{date_outcome, ends_with_utc_offset, instant_from_parts, parse_date, DateField};
use jb::date::Timestamp;
use jb::error::BuildError;
use jb::export::{notes_pattern, resources_dir_name};
use jb::joplin_file::JoplinFile;
use jb::text::{cut_out, is_whitespace_char, to_chars, trimmed};

const FRONT_MATTER: &str =
    "---\ntitle: Test\ncreated: 2024-03-07T23:22:26Z\nupdated: 2024-04-07T08:34:52Z\n---\n";

fn path(segments: &[&str]) -> Vec<String> {
    segments.iter().map(|s| s.to_string()).collect()
}

#[test]
fn build_gives_exact_instants_and_offsets() {
    let file = JoplinFile::build(path(&["foo.md"]), FRONT_MATTER).unwrap();
    assert_eq!(file.created, Timestamp { secs: 1709853746, nanos: 0 });
    assert_eq!(file.updated, Timestamp { secs: 1712478892, nanos: 0 });
    assert_eq!(file.front_matter_start_pos, 0);
    assert_eq!(file.front_matter_end_pos, FRONT_MATTER.len());
    assert_eq!(file.body, "");
    assert_eq!(file.tags, Some("#foo".to_string()));
}

#[test]
fn front_matter_is_the_slice_between_the_offsets() {
    let text = format!("caf\u{e9} first\n{}\n  The body \u{a0}\n", FRONT_MATTER);
    let file = JoplinFile::build(path(&["a", "b.md"]), &text).unwrap();
    assert_eq!(file.front_matter_start_pos, 12);
    assert_eq!(file.front_matter_end_pos, 12 + FRONT_MATTER.len());
    assert_eq!(
        &text[file.front_matter_start_pos..file.front_matter_end_pos],
        file.front_matter
    );
    assert_eq!(file.front_matter, FRONT_MATTER);
    assert_eq!(file.body, "The body");
    assert_eq!(file.tags, Some("#a/b".to_string()));
}

#[test]
fn text_without_delimiter_has_no_start() {
    for text in ["", "---", "title: Test\n", "--\n-\n"] {
        let result = JoplinFile::build(path(&["foo.md"]), text);
        assert_eq!(result.err(), Some(BuildError::MissingStartMarker));
    }
}

#[test]
fn text_with_one_delimiter_has_no_end() {
    for text in ["---\n", "---\ntitle: Test\n---", "x\n---\ntitle: Test\n"] {
        let result = JoplinFile::build(path(&["foo.md"]), text);
        assert_eq!(result.err(), Some(BuildError::MissingEndMarker));
    }
}

#[test]
fn each_missing_field_has_its_error() {
    let cases: Vec<(&str, BuildError)> = vec![
        ("---\ncreated: 2024-03-07T23:22:26Z\n---\n", BuildError::MissingTitle),
        ("---\ntitle: Test\n---\n", BuildError::MissingCreated),
        (
            "---\ntitle: Test\ncreated: 2024-03-07T23:22:26\n---\n",
            BuildError::InvalidCreatedFormat,
        ),
        (
            "---\ntitle: Test\ncreated: 2024-03-07T23:22:26Z\n---\n",
            BuildError::MissingUpdated,
        ),
        (
            "---\ntitle: Test\ncreated: 2024-03-07T23:22:26Z\nupdated: yesterday\n---\n",
            BuildError::InvalidUpdatedFormat,
        ),
    ];
    for (text, expected) in cases {
        assert_eq!(JoplinFile::build(path(&["foo.md"]), text).err(), Some(expected));
    }
}

#[test]
fn errors_come_in_the_order_of_the_steps() {
    let text = "---\ncreated: never\nupdated: never\n---\n";
    assert_eq!(
        JoplinFile::build(path(&["foo.md"]), text).err(),
        Some(BuildError::MissingTitle)
    );
    let text = "---\ntitle: T\ncreated: never\n---\n";
    assert_eq!(
        JoplinFile::build(path(&["foo.md"]), text).err(),
        Some(BuildError::InvalidCreatedFormat)
    );
}

#[test]
fn every_error_has_its_message() {
    let cases: Vec<(BuildError, &str)> = vec![
        (BuildError::MissingStartMarker, "Could not find front matter start marker"),
        (BuildError::MissingEndMarker, "Could not find end of front matter"),
        (BuildError::MissingFrontMatterSlice, "Could not find front matter"),
        (BuildError::MissingTitle, "Could not find title"),
        (BuildError::MissingCreated, "Could not find created"),
        (BuildError::InvalidCreatedFormat, "Could not parse created date"),
        (BuildError::MissingUpdated, "Could not find updated"),
        (BuildError::InvalidUpdatedFormat, "Could not parse updated date"),
    ];
    for (error, message) in cases {
        assert_eq!(error.message(), message);
    }
}

#[test]
fn first_line_with_a_value_wins() {
    let text = "---\ntitle: First\ntitle: Second\n---\n";
    assert_eq!(JoplinFile::find_title(text), Ok("First"));
    assert_eq!(
        JoplinFile::find_front_matter_value("a: 1\n  a: 2\n", "a:"),
        Some("1")
    );
}

#[test]
fn blank_value_counts_as_absent_key() {
    let blank = "---\ntitle:   \ntitle: Later\n---\n";
    let absent = "---\nother\ntitle: Later\n---\n";
    assert_eq!(JoplinFile::find_title(blank), Ok("Later"));
    assert_eq!(JoplinFile::find_title(blank), JoplinFile::find_title(absent));
    assert_eq!(
        JoplinFile::find_title("---\ntitle:\u{a0}\t\n---\n"),
        Err(BuildError::MissingTitle)
    );
    assert_eq!(
        JoplinFile::find_title("---\n---\n"),
        Err(BuildError::MissingTitle)
    );
}

#[test]
fn key_must_open_the_trimmed_line() {
    assert_eq!(JoplinFile::find_front_matter_value("x title: T\n", "title:"), None);
    assert_eq!(
        JoplinFile::find_front_matter_value(" \t title:T \r\n", "title:"),
        Some("T")
    );
    assert_eq!(
        JoplinFile::find_front_matter_value("title: a b  c", "title:"),
        Some("a b  c")
    );
    assert_eq!(JoplinFile::find_front_matter_value("", "title:"), None);
    assert_eq!(JoplinFile::find_front_matter_value("titl", "title:"), None);
}

#[test]
fn date_needs_an_explicit_offset() {
    assert_eq!(parse_date("2024-03-07T23:22:26"), None);
    assert_eq!(parse_date("2024-03-07T23:22:26.500"), None);
    assert_eq!(parse_date("2024-03-07"), None);
    assert_eq!(parse_date(""), None);
    assert_eq!(
        parse_date("2024-03-07T23:22:26Z"),
        Some(Timestamp { secs: 1709853746, nanos: 0 })
    );
    assert_eq!(
        parse_date("2024-03-07t23:22:26z"),
        Some(Timestamp { secs: 1709853746, nanos: 0 })
    );
    assert_eq!(
        parse_date("2024-03-07T23:22:26+11:00"),
        Some(Timestamp { secs: 1709814146, nanos: 0 })
    );
    assert_eq!(
        parse_date("2024-03-07T23:22:26-08:00"),
        Some(Timestamp { secs: 1709882546, nanos: 0 })
    );
    assert_eq!(
        parse_date("2024-03-07T23:22:26\u{2212}08:00"),
        Some(Timestamp { secs: 1709882546, nanos: 0 })
    );
    assert_eq!(
        parse_date("2024-03-07T23:22:26.25Z"),
        Some(Timestamp { secs: 1709853746, nanos: 250_000_000 })
    );
    assert_eq!(parse_date("2024-13-07T23:22:26Z"), None);
    assert_eq!(parse_date("Z"), None);
}

#[test]
fn offsets_are_recognised_at_the_end_only() {
    assert!(ends_with_utc_offset("Z"));
    assert!(ends_with_utc_offset("xz"));
    assert!(ends_with_utc_offset("+01:30"));
    assert!(ends_with_utc_offset("x-00:00"));
    assert!(ends_with_utc_offset("\u{2212}23:59"));
    assert!(!ends_with_utc_offset(""));
    assert!(!ends_with_utc_offset("+0130"));
    assert!(!ends_with_utc_offset("+01:3"));
    assert!(!ends_with_utc_offset("Z "));
    assert!(!ends_with_utc_offset("2024-03-07"));
    assert!(!ends_with_utc_offset("23:22:26"));
}

#[test]
fn date_outcome_names_the_field() {
    let t = Timestamp { secs: 5, nanos: 7 };
    assert_eq!(instant_from_parts(Some((5, 7))), Some(t));
    assert_eq!(instant_from_parts(None), None);
    assert_eq!(date_outcome(DateField::Created, Some(t)), Ok(t));
    assert_eq!(date_outcome(DateField::Updated, Some(t)), Ok(t));
    assert_eq!(
        date_outcome(DateField::Created, None),
        Err(BuildError::InvalidCreatedFormat)
    );
    assert_eq!(
        date_outcome(DateField::Updated, None),
        Err(BuildError::InvalidUpdatedFormat)
    );
}

#[test]
fn tags_follow_the_segments() {
    assert_eq!(JoplinFile::build_tags(&path(&[])), None);
    assert_eq!(JoplinFile::build_tags(&path(&["foo.md"])), Some("#foo".to_string()));
    assert_eq!(
        JoplinFile::build_tags(&path(&["blah bah", "foo.md"])),
        Some("#blah-bah/foo".to_string())
    );
    assert_eq!(JoplinFile::build_tags(&path(&["notes"])), Some("#notes".to_string()));
    assert_eq!(
        JoplinFile::build_tags(&path(&["a.md", "b c.txt"])),
        Some("#a.md/b-c.txt".to_string())
    );
    assert_eq!(
        JoplinFile::build_tags(&path(&["my note .md"])),
        Some("#my-note-".to_string())
    );
    assert_eq!(JoplinFile::build_tags(&path(&[".md"])), Some("#".to_string()));
    assert_eq!(JoplinFile::build_tags(&path(&["a.MD"])), Some("#a.MD".to_string()));
    assert_eq!(JoplinFile::build_tags(&path(&["a.md.md"])), Some("#a.md".to_string()));
    assert_eq!(JoplinFile::build_tags(&path(&[""])), Some("#".to_string()));
}

#[test]
fn building_twice_gives_equal_documents() {
    let text = format!("{}\nBody\n", FRONT_MATTER);
    let a = JoplinFile::build(path(&["d", "n.md"]), &text).unwrap();
    let b = JoplinFile::build(path(&["d", "n.md"]), &text).unwrap();
    assert_eq!(a.title, b.title);
    assert_eq!(a.created, b.created);
    assert_eq!(a.updated, b.updated);
    assert_eq!(a.front_matter, b.front_matter);
    assert_eq!(a.front_matter_start_pos, b.front_matter_start_pos);
    assert_eq!(a.front_matter_end_pos, b.front_matter_end_pos);
    assert_eq!(a.body, b.body);
    assert_eq!(a.tags, b.tags);
    assert_eq!(a.relative_path, b.relative_path);
}

#[test]
fn export_text_ends_with_the_tag() {
    let text = format!("{}\n\nThe content\n", FRONT_MATTER);
    let tagged = JoplinFile::build(path(&["blah bah", "foo.md"]), &text).unwrap();
    assert_eq!(tagged.export_text(), "The content\n\n#blah-bah/foo\n");
    let untagged = JoplinFile::build(path(&[]), &text).unwrap();
    assert_eq!(untagged.tags, None);
    assert_eq!(untagged.export_text(), "The content\n");
}

#[test]
fn pattern_and_resources_name() {
    assert_eq!(notes_pattern("/tmp/export"), "/tmp/export/**/*.md");
    assert_eq!(notes_pattern(""), "/**/*.md");
    assert_eq!(resources_dir_name(), "_resources");
}

#[test]
fn whitespace_is_the_unicode_class() {
    for c in [' ', '\t', '\n', '\u{b}', '\u{c}', '\r', '\u{85}', '\u{a0}', '\u{1680}',
        '\u{2000}', '\u{200a}', '\u{2028}', '\u{2029}', '\u{202f}', '\u{205f}', '\u{3000}']
    {
        assert!(is_whitespace_char(c));
    }
    for c in ['a', '-', '\u{8}', '\u{e}', '\u{200b}', '\u{180e}', '\u{feff}', '\u{2060}'] {
        assert!(!is_whitespace_char(c));
    }
    let mut code: u32 = 0;
    while code <= 0x3100 {
        if let Some(c) = char::from_u32(code) {
            assert_eq!(is_whitespace_char(c), c.is_whitespace());
        }
        code += 1;
    }
}

#[test]
fn trimmed_and_chars_agree_with_the_text() {
    assert_eq!(trimmed(" \u{3000}a b\u{a0}\n"), "a b");
    assert_eq!(trimmed(" \n\t"), "");
    assert_eq!(trimmed(""), "");
    assert_eq!(trimmed("\u{e9}t\u{e9}"), "\u{e9}t\u{e9}");
    assert_eq!(to_chars("a\u{e9}\n"), vec!['a', '\u{e9}', '\n']);
}

#[test]
fn cut_out_needs_character_boundaries() {
    assert_eq!(cut_out("a\u{e9}bc", 1, 3), Some(("\u{e9}", "bc")));
    assert_eq!(cut_out("a\u{e9}bc", 0, 5), Some(("a\u{e9}bc", "")));
    assert_eq!(cut_out("a\u{e9}bc", 2, 3), None);
    assert_eq!(cut_out("a\u{e9}bc", 1, 2), None);
    assert_eq!(cut_out("abc", 2, 1), None);
    assert_eq!(cut_out("abc", 1, 4), None);
    assert_eq!(cut_out("", 0, 0), Some(("", "")));
}

//! What a scan leaves out: hidden entries, directories by name and files by
//! pattern.
//!
//! A pattern is one of five forms. `*` takes every name. A pattern without
//! a star takes the one name that equals it, up to the case of ASCII
//! letters. `*middle*` takes the names that hold `middle`, `*suffix` those
//! that end with `suffix` and `prefix*` those that begin with `prefix`, all
//! three compared in lower case. A star anywhere else takes nothing.

use crate::config::{ExcludeConfig, ExcludeView};
use crate::media_types::{is_media_ext, is_media_extension};
use crate::text::{
    chars_between, chars_contain, chars_end_with, chars_eq_ignore_ascii_case, chars_start_with,
    contains_text, eq_ignoring_ascii_case, from_chars, lowercase_of, to_chars, to_lowercase,
};
use vstd::prelude::*;

verus! {

/// An entry of a directory, as a scan comes upon it.
#[derive(Debug, Clone)]
pub struct Entry {
    /// The entry's own name, without the directories above it.
    pub file_name: String,
    /// Whether the entry is a directory.
    pub is_dir: bool,
}

/// An `Entry` as plain text.
pub struct EntryView {
    pub file_name: Seq<char>,
    pub is_dir: bool,
}

impl View for Entry {
    type V = EntryView;

    open spec fn view(&self) -> EntryView {
        EntryView { file_name: self.file_name@, is_dir: self.is_dir }
    }
}

/// Whether `name` begins with a dot.
pub open spec fn is_hidden(name: Seq<char>) -> bool {
    name.len() > 0 && name[0] == '.'
}

/// Whether `pattern` takes the name `text`.
pub open spec fn wildcard_matches(pattern: Seq<char>, text: Seq<char>) -> bool {
    if pattern == seq!['*'] {
        true
    } else if !pattern.contains('*') {
        eq_ignoring_ascii_case(pattern, text)
    } else if pattern.first() == '*' && pattern.last() == '*' && pattern.len() > 2 {
        contains_text(lowercase_of(text), lowercase_of(pattern.subrange(1, pattern.len() - 1)))
    } else if pattern.first() == '*' {
        lowercase_of(pattern.skip(1)).is_suffix_of(lowercase_of(text))
    } else if pattern.last() == '*' {
        lowercase_of(pattern.take(pattern.len() - 1)).is_prefix_of(lowercase_of(text))
    } else {
        false
    }
}

/// Whether one of `patterns` takes `name`.
pub open spec fn some_pattern_matches(patterns: Seq<Seq<char>>, name: Seq<char>) -> bool {
    exists|i: int| 0 <= i < patterns.len() && wildcard_matches(#[trigger] patterns[i], name)
}

/// Whether `name` is one of `names`, up to the case of ASCII letters.
pub open spec fn is_named(names: Seq<Seq<char>>, name: Seq<char>) -> bool {
    exists|i: int| 0 <= i < names.len() && eq_ignoring_ascii_case(#[trigger] names[i], name)
}

/// Whether a directory of this name is left out: it is hidden and hidden
/// entries are left out, or its name is one of the configured ones.
pub open spec fn excludes_dir(config: ExcludeView, name: Seq<char>) -> bool {
    (config.hidden_files && is_hidden(name)) || is_named(config.directories, name)
}

/// Whether a file of this name is left out: it is hidden and hidden entries
/// are left out, or a configured pattern takes its name.
pub open spec fn excludes_file(config: ExcludeView, name: Seq<char>) -> bool {
    (config.hidden_files && is_hidden(name)) || some_pattern_matches(config.patterns, name)
}

/// Whether an entry is left out, as a directory or as a file.
pub open spec fn excludes_entry(config: ExcludeView, entry: EntryView) -> bool {
    if entry.is_dir {
        excludes_dir(config, entry.file_name)
    } else {
        excludes_file(config, entry.file_name)
    }
}

/// Whether `text` holds the character `c`.
fn chars_hold(text: &Vec<char>, c: char) -> (r: bool)
    ensures
        r == text@.contains(c),
{
    let mut i: usize = 0;
    while i < text.len()
        invariant
            i <= text.len(),
            forall|k: int| 0 <= k < i ==> text@[k] != c,
        decreases text.len() - i,
    {
        if text[i] == c {
            return true;
        }
        i += 1;
    }
    false
}

/// The lower-case form of the characters of `text` between `from` and `to`.
fn lowercase_between(text: &Vec<char>, from: usize, to: usize) -> (lower: Vec<char>)
    requires
        from <= to <= text.len(),
    ensures
        lower@ == lowercase_of(text@.subrange(from as int, to as int)),
{
    let part = from_chars(&chars_between(text, from, to));
    to_chars(to_lowercase(part.as_str()).as_str())
}

/// Decides which entries a scan leaves out.
pub struct FileFilter<'a> {
    config: &'a ExcludeConfig,
}

impl<'a> FileFilter<'a> {
    /// The configuration that the filter decides by.
    pub closed spec fn config(&self) -> ExcludeConfig {
        *self.config
    }

    /// A filter that decides by `config`.
    pub fn new(config: &'a ExcludeConfig) -> (filter: FileFilter<'a>)
        ensures
            filter.config() == *config,
    {
        FileFilter { config }
    }

    /// Whether the entry is a directory that the scan does not go into.
    pub fn should_exclude_dir(&self, entry: &Entry) -> (r: bool)
        ensures
            r == (entry.is_dir && excludes_dir(self.config()@, entry.file_name@)),
    {
        if !entry.is_dir {
            return false;
        }
        let name = to_chars(entry.file_name.as_str());
        if self.config.hidden_files && name.len() > 0 && name[0] == '.' {
            return true;
        }
        let mut i: usize = 0;
        while i < self.config.directories.len()
            invariant
                i <= self.config.directories.len(),
                entry.is_dir,
                name@ == entry.file_name@,
                forall|k: int|
                    0 <= k < i ==> !eq_ignoring_ascii_case(
                        #[trigger] self.config@.directories[k],
                        name@,
                    ),
            decreases self.config.directories.len() - i,
        {
            let excluded = to_chars(self.config.directories[i].as_str());
            assert(self.config@.directories[i as int] == excluded@);
            if chars_eq_ignore_ascii_case(&excluded, &name) {
                return true;
            }
            i += 1;
        }
        false
    }

    /// Whether the file named `file_name` is left out. The name is the last
    /// component of the file's path.
    pub fn should_exclude_file(&self, file_name: &str) -> (r: bool)
        ensures
            r == excludes_file(self.config()@, file_name@),
    {
        let name = to_chars(file_name);
        if self.config.hidden_files && name.len() > 0 && name[0] == '.' {
            return true;
        }
        self.matches_exclude_pattern(file_name)
    }

    /// Whether one of the configured patterns takes `file_name`.
    pub fn matches_exclude_pattern(&self, file_name: &str) -> (r: bool)
        ensures
            r == some_pattern_matches(self.config()@.patterns, file_name@),
    {
        let mut i: usize = 0;
        while i < self.config.patterns.len()
            invariant
                i <= self.config.patterns.len(),
                forall|k: int|
                    0 <= k < i ==> !wildcard_matches(
                        #[trigger] self.config@.patterns[k],
                        file_name@,
                    ),
            decreases self.config.patterns.len() - i,
        {
            assert(self.config@.patterns[i as int] == self.config.patterns[i as int]@);
            if self.match_wildcard(self.config.patterns[i].as_str(), file_name) {
                return true;
            }
            i += 1;
        }
        false
    }

    /// Whether `pattern` takes the name `text`.
    pub fn match_wildcard(&self, pattern: &str, text: &str) -> (r: bool)
        ensures
            r == wildcard_matches(pattern@, text@),
    {
        let pat = to_chars(pattern);
        let name = to_chars(text);
        if pat.len() == 1 && pat[0] == '*' {
            assert(pat@ == seq!['*']);
            return true;
        }
        if !chars_hold(&pat, '*') {
            return chars_eq_ignore_ascii_case(&pat, &name);
        }
        let len = pat.len();
        assert(len > 0);
        let lower = to_chars(to_lowercase(text).as_str());
        if pat[0] == '*' && pat[len - 1] == '*' && len > 2 {
            let middle = lowercase_between(&pat, 1, len - 1);
            return chars_contain(&lower, &middle);
        }
        if pat[0] == '*' {
            let suffix = lowercase_between(&pat, 1, len);
            return chars_end_with(&lower, &suffix);
        }
        if pat[len - 1] == '*' {
            let prefix = lowercase_between(&pat, 0, len - 1);
            return chars_start_with(&lower, &prefix);
        }
        false
    }

    /// Whether the scan leaves the entry out: a directory by
    /// `should_exclude_dir`, anything else by `should_exclude_file`.
    pub fn should_exclude_entry(&self, entry: &Entry) -> (r: bool)
        ensures
            r == excludes_entry(self.config()@, entry@),
    {
        if entry.is_dir {
            self.should_exclude_dir(entry)
        } else {
            self.should_exclude_file(entry.file_name.as_str())
        }
    }
}

/// Whether the entry is a directory named like a media extension, such as
/// `JPG` or `mp4`: the directories that classification itself makes.
pub fn is_media_name_dir(entry: &Entry) -> (r: bool)
    ensures
        r == (entry.is_dir && is_media_ext(lowercase_of(entry.file_name@))),
{
    if !entry.is_dir {
        return false;
    }
    let low_name = to_lowercase(entry.file_name.as_str());
    is_media_extension(low_name.as_str())
}

} // verus!

//! Paths as the library sees them: the names that classification reads from
//! a source file's path, and a destination in three parts. The caller takes
//! paths apart and puts them together by the rules of its platform.

use crate::text::{char_in_class, is_ascii_digit, is_ascii_upper, to_chars, CharClass};
use vstd::prelude::*;

verus! {

/// A file to classify: its path as text, and the names of the last three
/// components of that path.
#[derive(Debug, Clone)]
pub struct SourcePath {
    /// The whole path, as it is reported in results.
    pub path: String,
    /// The file's own name; `None` where the path ends in no name.
    pub file_name: Option<String>,
    /// The name of the directory that holds the file.
    pub parent_name: Option<String>,
    /// The name of the directory that holds that directory.
    pub grandparent_name: Option<String>,
}

/// A `SourcePath` as plain text.
pub struct SourceView {
    pub path: Seq<char>,
    pub file_name: Option<Seq<char>>,
    pub parent_name: Option<Seq<char>>,
    pub grandparent_name: Option<Seq<char>>,
}

impl View for SourcePath {
    type V = SourceView;

    open spec fn view(&self) -> SourceView {
        SourceView {
            path: self.path@,
            file_name: self.file_name.deep_view(),
            parent_name: self.parent_name.deep_view(),
            grandparent_name: self.grandparent_name.deep_view(),
        }
    }
}

/// Where a file goes: a file name in a directory below a base directory.
#[derive(Debug, Clone)]
pub struct TargetPath {
    /// The directory that all classified files go below.
    pub base_dir: String,
    /// The directory of the file, relative to `base_dir`.
    pub directory: String,
    pub file_name: String,
}

/// A `TargetPath` as plain text.
pub struct TargetView {
    pub base_dir: Seq<char>,
    pub directory: Seq<char>,
    pub file_name: Seq<char>,
}

impl View for TargetPath {
    type V = TargetView;

    open spec fn view(&self) -> TargetView {
        TargetView {
            base_dir: self.base_dir@,
            directory: self.directory@,
            file_name: self.file_name@,
        }
    }
}

impl TargetPath {
    /// A copy of the path.
    pub fn duplicate(&self) -> (copy: TargetPath)
        ensures
            copy == *self,
    {
        TargetPath {
            base_dir: self.base_dir.clone(),
            directory: self.directory.clone(),
            file_name: self.file_name.clone(),
        }
    }
}

/// Whether `name` is a date in eight digits, as in `20251118`.
pub open spec fn is_date_dir(name: Seq<char>) -> bool {
    name.len() == 8 && forall|i: int| 0 <= i < name.len() ==> is_ascii_digit(#[trigger] name[i])
}

/// Whether `name` is made of ASCII capital letters and digits alone, as an
/// extension in upper case is.
pub open spec fn is_extension_dir(name: Seq<char>) -> bool {
    forall|i: int|
        0 <= i < name.len() ==> is_ascii_upper(#[trigger] name[i]) || is_ascii_digit(name[i])
}

/// Whether a file lies where classification puts files: in a directory
/// named by a date of eight digits, inside one named like an extension.
pub open spec fn is_classified(source: SourceView) -> bool {
    &&& source.parent_name matches Some(parent)
    &&& is_date_dir(parent)
    &&& source.grandparent_name matches Some(grandparent)
    &&& is_extension_dir(grandparent)
}

/// Decides `is_date_dir`.
fn name_is_date(name: &str) -> (r: bool)
    ensures
        r == is_date_dir(name@),
{
    let chars = to_chars(name);
    if chars.len() != 8 {
        return false;
    }
    let mut i: usize = 0;
    while i < chars.len()
        invariant
            i <= chars.len(),
            chars@ == name@,
            chars.len() == 8,
            forall|k: int| 0 <= k < i ==> is_ascii_digit(#[trigger] chars@[k]),
        decreases chars.len() - i,
    {
        if !char_in_class(chars[i], CharClass::Digit) {
            return false;
        }
        i += 1;
    }
    true
}

/// Decides `is_extension_dir`.
fn name_is_extension(name: &str) -> (r: bool)
    ensures
        r == is_extension_dir(name@),
{
    let chars = to_chars(name);
    let mut i: usize = 0;
    while i < chars.len()
        invariant
            i <= chars.len(),
            chars@ == name@,
            forall|k: int|
                0 <= k < i ==> is_ascii_upper(#[trigger] chars@[k]) || is_ascii_digit(chars@[k]),
        decreases chars.len() - i,
    {
        let c = chars[i];
        if !((c >= 'A' && c <= 'Z') || (c >= '0' && c <= '9')) {
            return false;
        }
        i += 1;
    }
    true
}

/// Whether the file was classified before: it lies in a directory named by
/// a date of eight digits, inside one named like an extension in upper
/// case.
pub fn is_classified_file(source: &SourcePath) -> (r: bool)
    ensures
        r == is_classified(source@),
{
    match &source.parent_name {
        Some(parent) => {
            if !name_is_date(parent.as_str()) {
                return false;
            }
            match &source.grandparent_name {
                Some(grandparent) => name_is_extension(grandparent.as_str()),
                None => false,
            }
        },
        None => false,
    }
}

} // verus!

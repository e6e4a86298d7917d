//! Where input came from, and the input itself.

use crate::error::{DecodeckError, Failure};
use crate::output::{size_in_words, size_words, GB, KB, MB};
use crate::text::{
    chars_of, take_chars, text_of, trim, trimmed, uppercase_of, uppercased,
};
use std::path::PathBuf;
use vstd::prelude::*;

verus! {

/// `std::path::PathBuf`, which the library carries and never looks into.
#[verifier::external_type_specification]
#[verifier::external_body]
pub struct ExPathBuf(PathBuf);

/// `Clone` for `PathBuf`, of which nothing is claimed.
pub assume_specification[ <PathBuf as Clone>::clone ](path: &PathBuf) -> PathBuf;

/// Where input came from.
#[derive(Debug, Clone, Copy, PartialEq, Eq, Structural)]
pub enum SourceType {
    /// Given on the command line.
    Arg,
    /// Read from a file.
    File,
    /// Read from standard input.
    Stdin,
}

/// Input together with where it came from.
#[derive(Debug, Clone)]
pub struct InputSource {
    /// Where the data came from.
    pub source_type: SourceType,
    /// The data as it came.
    pub raw_data: Vec<u8>,
    /// The file it was read from, if it was.
    pub path: Option<PathBuf>,
    /// Number of bytes of the data.
    pub size_bytes: usize,
}

impl InputSource {
    /// The size on record is the size of the data.
    pub open spec fn is_consistent(&self) -> bool {
        self.size_bytes == self.raw_data@.len()
    }

    /// Input that came from `source_type`.
    pub fn new(source_type: SourceType, data: Vec<u8>, path: Option<PathBuf>) -> (source: Self)
        ensures
            source.source_type == source_type,
            source.raw_data@ == data@,
            source.path == path,
            source.size_bytes == data@.len(),
            source.is_consistent(),
    {
        let size_bytes: usize = data.len();
        Self { source_type, raw_data: data, path, size_bytes }
    }

    /// Holds the size of the input against a limit of `limit_bytes`, which
    /// the caller named as `limit`. Input over the limit is refused, with its
    /// size in short words and the limit as it was named.
    pub fn check_size(&self, limit_bytes: usize, limit: &str) -> (r: Result<(), DecodeckError>)
        ensures
            match r {
                Ok(_) => self.size_bytes <= limit_bytes,
                Err(e) => self.size_bytes > limit_bytes && e@ == (Failure::SizeExceeded {
                    actual: size_in_words(self.size_bytes as nat, ""@, "B"@),
                    limit: limit@,
                }),
            },
    {
        if self.size_bytes > limit_bytes {
            return Err(
                DecodeckError::SizeExceeded {
                    actual: format_size_short(self.size_bytes),
                    limit: String::from_str(limit),
                },
            );
        }
        Ok(())
    }

    /// Input given on the command line. Always succeeds.
    pub fn from_arg(data: &str) -> (r: Result<Self, DecodeckError>)
        ensures
            r matches Ok(source) && source.source_type == SourceType::Arg && source.raw_data@
                == vstd::utf8::encode_utf8(data@) && source.path is None && source.is_consistent(),
    {
        Ok(Self::new(SourceType::Arg, data.as_bytes_vec(), None))
    }
}

/// Whether `s` ends in `first` followed by `B`.
pub open spec fn ends_in_unit(s: Seq<char>, first: char) -> bool {
    s.len() >= 2 && s[s.len() - 2] == first && s[s.len() - 1] == 'B'
}

/// A size as it is read: without surrounding whitespace, in uppercase.
pub open spec fn size_text(text: Seq<char>) -> Seq<char> {
    uppercased(trimmed(text))
}

/// Number of characters that the unit takes at the end of a size in
/// uppercase: two for `GB`, `MB` and `KB`, one for a lone `B`, none where
/// no unit is named.
pub open spec fn unit_length(s: Seq<char>) -> nat {
    if ends_in_unit(s, 'G') || ends_in_unit(s, 'M') || ends_in_unit(s, 'K') {
        2
    } else if s.len() >= 1 && s.last() == 'B' {
        1
    } else {
        0
    }
}

/// The number of a size such as `1.5 mb`: what stands before the unit,
/// without surrounding whitespace.
pub open spec fn size_number(text: Seq<char>) -> Seq<char> {
    let s = size_text(text);
    trimmed(s.take(s.len() - unit_length(s)))
}

/// The bytes that one unit of a size stands for: 1073741824 for
/// `GB`, 1048576 for `MB`, 1024 for `KB`, and 1 for `B` or no unit, in
/// either case of the letters.
pub open spec fn size_multiplier(text: Seq<char>) -> nat {
    let s = size_text(text);
    if ends_in_unit(s, 'G') {
        GB as nat
    } else if ends_in_unit(s, 'M') {
        MB as nat
    } else if ends_in_unit(s, 'K') {
        KB as nat
    } else {
        1
    }
}

/// Tells whether `s` ends in `first` followed by `B`.
pub fn has_unit(s: &Vec<char>, first: char) -> (b: bool)
    ensures
        b == ends_in_unit(s@, first),
{
    let n: usize = s.len();
    n >= 2 && s[n - 2] == first && s[n - 1] == 'B'
}

/// Splits a size such as `100MB` into its number and the bytes that one
/// unit of it stands for. The number is handed back as text: it may have a
/// fraction, and reading it is left to the caller.
pub fn split_size(text: &str) -> (parts: (String, usize))
    ensures
        parts.0@ == size_number(text@),
        parts.1 == size_multiplier(text@),
{
    let s = uppercase_of(&trim(&chars_of(text)));
    let n: usize = s.len();
    let (unit, multiplier): (usize, usize) = if has_unit(&s, 'G') {
        (2, GB)
    } else if has_unit(&s, 'M') {
        (2, MB)
    } else if has_unit(&s, 'K') {
        (2, KB)
    } else if n >= 1 && s[n - 1] == 'B' {
        (1, 1)
    } else {
        (0, 1)
    };
    let number = trim(&take_chars(&s, n - unit));
    (text_of(&number), multiplier)
}

/// A size in short words, such as `1.5MB` or `512B`.
pub fn format_size_short(bytes: usize) -> (words: String)
    ensures
        words@ == size_in_words(bytes as nat, ""@, "B"@),
{
    size_words(bytes, "", "B")
}

} // verus!

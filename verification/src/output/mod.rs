//! What a decode operation reports.

pub mod json;
pub mod text;

use crate::decoder::EncodedData;
use crate::encoding::EncodingInfo;
use crate::metadata::ContentMetadata;
use crate::error::{DecodeckError, Failure};
use crate::text::{
    chars_of, contains_part, decimal, decimal_digit, holds, push_decimal, push_str, text_of,
};
use std::path::{Path, PathBuf};
use std::time::SystemTime;
use vstd::prelude::*;

verus! {

/// `std::time::SystemTime`, which the library carries and never looks into.
#[verifier::external_type_specification]
#[verifier::external_body]
pub struct ExSystemTime(SystemTime);

/// `std::path::Path`, which the library reads through the three functions below.
#[verifier::external_type_specification]
#[verifier::external_body]
pub struct ExPath(Path);

/// Whether a path is the empty one: what `OsStr::is_empty` answers for it.
pub uninterp spec fn is_empty_path(path: &Path) -> bool;

/// The text of a path, with what is no Unicode in it replaced: what
/// `Path::to_string_lossy` gives.
pub uninterp spec fn lossy_text(path: &Path) -> Seq<char>;

/// Whether one of the components of a path, as `Path::components` hands
/// them out, is the parent directory `..`.
pub uninterp spec fn has_parent_component(path: &Path) -> bool;

/// `Path::as_os_str` and `OsStr::is_empty`: whether the path is the empty
/// one. The answer depends on the path alone.
#[verifier::external_body]
pub(crate) fn path_is_empty(path: &Path) -> (empty: bool)
    ensures
        empty == is_empty_path(path),
{
    path.as_os_str().is_empty()
}

/// `Path::to_string_lossy`: the path as text, with what is no Unicode
/// replaced. The text depends on the path alone.
#[verifier::external_body]
pub(crate) fn path_text(path: &Path) -> (text: String)
    ensures
        text@ == lossy_text(path),
{
    path.to_string_lossy().to_string()
}

/// `Path::components`: whether a component of the path is the parent
/// directory `..`. The components depend on the path alone; no file
/// system is asked.
#[verifier::external_body]
pub(crate) fn path_climbs(path: &Path) -> (climbs: bool)
    ensures
        climbs == has_parent_component(path),
{
    path.components().any(|component| component == std::path::Component::ParentDir)
}

/// The file that decoded content was written to.
#[derive(Debug, Clone)]
pub struct OutputFile {
    /// Where the file is.
    pub path: PathBuf,
    /// Whether the file is a temporary one.
    pub is_temporary: bool,
    /// Size of the file in bytes.
    pub size_bytes: usize,
    /// The size in words, such as `1.2 MB`.
    pub size_formatted: String,
    /// When the file was written.
    pub created_at: Option<SystemTime>,
}

/// Everything that one decode operation reports.
#[derive(Debug, Clone)]
pub struct DecodeResult {
    /// Whether the operation succeeded.
    pub success: bool,
    /// The file that was written.
    pub output: OutputFile,
    /// What is known of the content.
    pub metadata: ContentMetadata,
    /// The normalized Base64 text, where the input was Base64.
    pub encoding: Option<EncodedData>,
    /// The encoding that was taken off.
    pub encoding_info: EncodingInfo,
    /// How long the operation took, in milliseconds.
    pub duration_ms: u64,
    /// Warnings raised on the way.
    pub warnings: Vec<String>,
}

/// The decision on an output path, given whether it is empty, its text,
/// and whether one of its components is the parent directory. The empty
/// path is refused. A path whose text holds `..` and which has the parent
/// directory among its components is refused as climbing out. Every other
/// path is accepted.
pub open spec fn path_decision(is_empty: bool, text: Seq<char>, climbs: bool) -> Result<(), Failure> {
    if is_empty {
        Err(Failure::InvalidOutputPath { path: Seq::empty(), reason: "Path cannot be empty"@ })
    } else if holds(text, ".."@) && climbs {
        Err(Failure::InvalidOutputPath { path: text, reason: "Path traversal not allowed"@ })
    } else {
        Ok(())
    }
}

/// The mathematical value of a decision.
pub open spec fn decision(r: Result<(), DecodeckError>) -> Result<(), Failure> {
    match r {
        Ok(_) => Ok(()),
        Err(e) => Err(e@),
    }
}

/// Decides on an output path of which the caller knows whether
/// it is empty, its text, and whether it climbs to a parent directory.
pub fn check_output_path(is_empty: bool, text: &str, climbs: bool) -> (r: Result<(), DecodeckError>)
    ensures
        decision(r) == path_decision(is_empty, text@, climbs),
{
    if is_empty {
        return Err(
            DecodeckError::InvalidOutputPath {
                path: String::new(),
                reason: String::from_str("Path cannot be empty"),
            },
        );
    }
    if contains_part(&chars_of(text), &chars_of("..")) && climbs {
        return Err(
            DecodeckError::InvalidOutputPath {
                path: String::from_str(text),
                reason: String::from_str("Path traversal not allowed"),
            },
        );
    }
    Ok(())
}

/// What validating an output path gives: the decision of [`path_decision`]
/// on whether the path is empty, on its text, and on whether the parent
/// directory is among its components.
pub open spec fn path_validation(path: &Path) -> Result<(), Failure> {
    path_decision(is_empty_path(path), lossy_text(path), has_parent_component(path))
}

/// Refuses output paths that are empty or climb out of their directory.
/// The empty path is refused as empty. A path whose text holds `..` and
/// which has the parent directory among its components is refused as
/// climbing out, with its text in the error. Every other path is accepted.
pub fn validate_output_path(path: &Path) -> (r: Result<(), DecodeckError>)
    ensures
        decision(r) == path_validation(path),
        r is Ok <==> !is_empty_path(path) && !(holds(lossy_text(path), ".."@)
            && has_parent_component(path)),
{
    let text = path_text(path);
    check_output_path(path_is_empty(path), text.as_str(), path_climbs(path))
}

/// Bytes in a kilobyte, a megabyte and a gigabyte.
pub const KB: usize = 1024;

pub const MB: usize = 1048576;

pub const GB: usize = 1073741824;

/// `n` divided by `unit` and rounded to a whole number, a half going to
/// the even neighbour.
pub open spec fn rounded_half_even(n: nat, unit: nat) -> nat {
    let q = n / unit;
    let r = n % unit;
    if 2 * r > unit || (2 * r == unit && q % 2 == 1) {
        q + 1
    } else {
        q
    }
}

/// The power of two by which a size below 2^64 must be divided to fit in
/// 53 bits.
pub open spec fn excess_scale(n: nat) -> nat {
    if n < 0x20_0000_0000_0000 {
        1
    } else if n < 0x40_0000_0000_0000 {
        2
    } else if n < 0x80_0000_0000_0000 {
        4
    } else if n < 0x100_0000_0000_0000 {
        8
    } else if n < 0x200_0000_0000_0000 {
        16
    } else if n < 0x400_0000_0000_0000 {
        32
    } else if n < 0x800_0000_0000_0000 {
        64
    } else if n < 0x1000_0000_0000_0000 {
        128
    } else if n < 0x2000_0000_0000_0000 {
        256
    } else if n < 0x4000_0000_0000_0000 {
        512
    } else if n < 0x8000_0000_0000_0000 {
        1024
    } else {
        2048
    }
}

/// The number of 53 significant bits that is nearest to `n`, a tie going to
/// the even neighbour: the value that a size takes on as a double.
pub open spec fn nearest_double(n: nat) -> nat {
    rounded_half_even(n, excess_scale(n)) * excess_scale(n)
}

/// `bytes` in units of `unit`, as tenths: the double nearest to `bytes`,
/// divided by `unit` and rounded to one decimal place, a half going to the
/// even neighbour.
pub open spec fn tenths_of(bytes: nat, unit: nat) -> nat {
    rounded_half_even(10 * nearest_double(bytes), unit)
}

/// A number of tenths written with one decimal place.
pub open spec fn one_decimal(tenths: nat) -> Seq<char> {
    decimal(tenths / 10) + seq!['.'] + seq![decimal_digit(tenths % 10)]
}

/// A size in words. From a gigabyte on it is given in gigabytes, from a
/// megabyte on in megabytes, from a kilobyte on in kilobytes, each with one
/// decimal place; below that in bytes. `gap` stands between the number and
/// its unit, and `bytes_unit` names the bytes.
pub open spec fn size_in_words(bytes: nat, gap: Seq<char>, bytes_unit: Seq<char>) -> Seq<char> {
    if bytes >= GB {
        one_decimal(tenths_of(bytes, GB as nat)) + gap + "GB"@
    } else if bytes >= MB {
        one_decimal(tenths_of(bytes, MB as nat)) + gap + "MB"@
    } else if bytes >= KB {
        one_decimal(tenths_of(bytes, KB as nat)) + gap + "KB"@
    } else {
        decimal(bytes) + gap + bytes_unit
    }
}

/// The double nearest to `n`, as a whole number.
pub fn to_nearest_double(n: usize) -> (d: u128)
    ensures
        d == nearest_double(n as nat),
        d <= n + 2048,
{
    let wide: u128 = n as u128;
    let scale: u128 = if wide < 0x20_0000_0000_0000 {
        1
    } else if wide < 0x40_0000_0000_0000 {
        2
    } else if wide < 0x80_0000_0000_0000 {
        4
    } else if wide < 0x100_0000_0000_0000 {
        8
    } else if wide < 0x200_0000_0000_0000 {
        16
    } else if wide < 0x400_0000_0000_0000 {
        32
    } else if wide < 0x800_0000_0000_0000 {
        64
    } else if wide < 0x1000_0000_0000_0000 {
        128
    } else if wide < 0x2000_0000_0000_0000 {
        256
    } else if wide < 0x4000_0000_0000_0000 {
        512
    } else if wide < 0x8000_0000_0000_0000 {
        1024
    } else {
        2048
    };
    let q: u128 = wide / scale;
    let r: u128 = wide % scale;
    let rounded: u128 = if 2 * r > scale || (2 * r == scale && q % 2 == 1) {
        q + 1
    } else {
        q
    };
    assert(wide == q * scale + r) by (nonlinear_arith)
        requires
            q == wide / scale,
            r == wide % scale,
            scale > 0,
    ;
    assert(rounded * scale <= wide + scale) by (nonlinear_arith)
        requires
            rounded <= q + 1,
            wide == q * scale + r,
            scale > 0,
            r >= 0,
    ;
    rounded * scale
}

/// Appends `bytes` in units of `unit` with one decimal place.
#[verifier::rlimit(30)]
pub fn push_one_decimal(text: &mut Vec<char>, bytes: usize, unit: usize)
    requires
        unit == KB || unit == MB || unit == GB,
    ensures
        final(text)@ == old(text)@ + one_decimal(tenths_of(bytes as nat, unit as nat)),
{
    let scaled: u128 = 10 * to_nearest_double(bytes);
    let q: u128 = scaled / (unit as u128);
    let r: u128 = scaled % (unit as u128);
    let tenths: u128 = if 2 * r > unit as u128 || (2 * r == unit as u128 && q % 2 == 1) {
        q + 1
    } else {
        q
    };
    assert(q <= scaled / 1024) by {
        vstd::arithmetic::div_mod::lemma_div_is_ordered_by_denominator(
            scaled as int,
            1024,
            unit as int,
        );
    }
    assert(tenths / 10 <= bytes / 1024 + 4);
    let whole: usize = (tenths / 10) as usize;
    push_decimal(text, whole);
    text.push('.');
    let last: u8 = (tenths % 10) as u8;
    text.push((48u8 + last) as char);
    proof {
        assert(decimal_digit((tenths % 10) as nat) == (48u8 + last) as char);
        assert(text@ =~= old(text)@ + one_decimal(tenths as nat));
    }
}

/// A size in words, with `gap` between the number and its unit and
/// `bytes_unit` for the bytes.
pub fn size_words(bytes: usize, gap: &str, bytes_unit: &str) -> (words: String)
    ensures
        words@ == size_in_words(bytes as nat, gap@, bytes_unit@),
{
    let mut text: Vec<char> = Vec::new();
    if bytes >= GB {
        push_one_decimal(&mut text, bytes, GB);
        push_str(&mut text, gap);
        push_str(&mut text, "GB");
    } else if bytes >= MB {
        push_one_decimal(&mut text, bytes, MB);
        push_str(&mut text, gap);
        push_str(&mut text, "MB");
    } else if bytes >= KB {
        push_one_decimal(&mut text, bytes, KB);
        push_str(&mut text, gap);
        push_str(&mut text, "KB");
    } else {
        push_decimal(&mut text, bytes);
        push_str(&mut text, gap);
        push_str(&mut text, bytes_unit);
    }
    assert(text@ =~= size_in_words(bytes as nat, gap@, bytes_unit@));
    text_of(&text)
}

/// A size for people to read, such as `1.5 MB` or `512 bytes`.
pub fn format_size(bytes: usize) -> (words: String)
    ensures
        words@ == size_in_words(bytes as nat, " "@, "bytes"@),
{
    size_words(bytes, " ", "bytes")
}

} // verus!

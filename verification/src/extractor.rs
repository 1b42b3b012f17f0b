//! The decisions of unpacking an archive: which format a file name
//! announces, and whether the destination was unpacked to the end before.

use crate::error::{BuildError, ErrorView};
use crate::paths::{file_name_of, join_path, path_file_name, spec_join_path};
use crate::text::{ends_with, to_chars};
use vstd::prelude::*;

verus! {

/// The archive formats that can be unpacked.
#[derive(Debug, Clone, Copy, PartialEq, Eq, Structural)]
pub enum ArchiveFormat {
    TarGz,
    TarXz,
    Zip,
}

/// The format that the suffix of a file name announces.
pub open spec fn spec_format_of(filename: Seq<char>) -> Option<ArchiveFormat> {
    if ".tar.gz"@.is_suffix_of(filename) || ".tgz"@.is_suffix_of(filename) {
        Some(ArchiveFormat::TarGz)
    } else if ".tar.xz"@.is_suffix_of(filename) {
        Some(ArchiveFormat::TarXz)
    } else if ".zip"@.is_suffix_of(filename) {
        Some(ArchiveFormat::Zip)
    } else {
        None
    }
}

/// The file name of an archive path; empty when the path has none.
pub open spec fn spec_archive_name(path: Seq<char>) -> Seq<char> {
    match path_file_name(path) {
        Some(n) => n,
        None => Seq::empty(),
    }
}

/// Tells the format from a file name.
pub fn format_of_name(filename: &str) -> (r: Result<ArchiveFormat, BuildError>)
    ensures
        match r {
            Ok(f) => spec_format_of(filename@) == Some(f),
            Err(e) => spec_format_of(filename@) is None && e@ == (ErrorView::UnsupportedFormat {
                filename: filename@,
            }),
        },
{
    let v = to_chars(filename);
    if ends_with(&v, &to_chars(".tar.gz")) || ends_with(&v, &to_chars(".tgz")) {
        Ok(ArchiveFormat::TarGz)
    } else if ends_with(&v, &to_chars(".tar.xz")) {
        Ok(ArchiveFormat::TarXz)
    } else if ends_with(&v, &to_chars(".zip")) {
        Ok(ArchiveFormat::Zip)
    } else {
        Err(BuildError::UnsupportedFormat { filename: String::from_str(filename) })
    }
}

/// Tells the format of an archive from the last component of its path.
pub fn detect_format(archive: &str) -> (r: Result<ArchiveFormat, BuildError>)
    ensures
        match r {
            Ok(f) => spec_format_of(spec_archive_name(archive@)) == Some(f),
            Err(e) => spec_format_of(spec_archive_name(archive@)) is None && e@
                == (ErrorView::UnsupportedFormat { filename: spec_archive_name(archive@) }),
        },
{
    let name = match file_name_of(archive) {
        Some(n) => n,
        None => String::new(),
    };
    format_of_name(name.as_str())
}

/// The name of the file that marks a destination as unpacked to the end.
pub open spec fn spec_marker_name() -> Seq<char> {
    ".pi-extracted"@
}

/// The path of the completion marker of a destination.
pub fn marker_path(dest: &str) -> (r: String)
    ensures
        r@ == spec_join_path(dest@, spec_marker_name()),
{
    join_path(dest, ".pi-extracted")
}

/// What an extraction has to do.
#[derive(Debug, Clone, Copy, PartialEq, Eq, Structural)]
pub enum ExtractDecision {
    /// The marker is there: nothing to do.
    Skip,
    /// Unpack in this format, then write the marker.
    Unpack(ArchiveFormat),
}

/// Decides what an extraction has to do. With the marker present the call
/// is a no-op whatever the archive is called; else the format decides, and
/// an unknown suffix is an error.
pub fn extract_decision(archive: &str, marker_present: bool) -> (r: Result<
    ExtractDecision,
    BuildError,
>)
    ensures
        marker_present ==> r == Ok::<ExtractDecision, BuildError>(ExtractDecision::Skip),
        !marker_present ==> match r {
            Ok(d) => match spec_format_of(spec_archive_name(archive@)) {
                Some(f) => d == ExtractDecision::Unpack(f),
                None => false,
            },
            Err(e) => spec_format_of(spec_archive_name(archive@)) is None && e@
                == (ErrorView::UnsupportedFormat { filename: spec_archive_name(archive@) }),
        },
{
    if marker_present {
        return Ok(ExtractDecision::Skip);
    }
    match detect_format(archive) {
        Ok(f) => Ok(ExtractDecision::Unpack(f)),
        Err(e) => Err(e),
    }
}

} // verus!

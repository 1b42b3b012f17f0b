//! The decisions of a download: whether the network is needed at all, where
//! the bytes go meanwhile, and whether what arrived is what was declared.

use crate::digest::{calculate_file_checksum, spec_checksum};
use crate::error::{BuildError, ErrorView};
use crate::text::{append_str, from_chars, str_eq};
use vstd::prelude::*;

verus! {

/// What to do about a file that should be at its destination.
#[derive(Debug, Clone, Copy, PartialEq, Eq, Structural)]
pub enum FetchDecision {
    /// The file is there and has the declared digest.
    Skip,
    /// The file must be downloaded.
    Download,
}

/// A file is kept exactly when it exists, a digest is declared, and the
/// file's checksum in the form of that digest equals it.
pub open spec fn spec_fetch_decision(
    existing: Option<Seq<u8>>,
    expected: Option<Seq<char>>,
) -> FetchDecision {
    match (existing, expected) {
        (Some(data), Some(want)) => if spec_checksum(data, want.len() as int) == Some(want) {
            FetchDecision::Skip
        } else {
            FetchDecision::Download
        },
        _ => FetchDecision::Download,
    }
}

/// The bytes of an optional file.
pub open spec fn opt_bytes(v: Option<&Vec<u8>>) -> Option<Seq<u8>> {
    match v {
        Some(x) => Some(x@),
        None => None,
    }
}

/// The characters of an optional text.
pub open spec fn opt_str(v: Option<&str>) -> Option<Seq<char>> {
    match v {
        Some(x) => Some(x@),
        None => None,
    }
}

/// Decides whether a download is needed. `existing` holds the bytes of the
/// destination file when there is one.
pub fn fetch_decision(existing: Option<&Vec<u8>>, expected: Option<&str>) -> (r: FetchDecision)
    ensures
        r == spec_fetch_decision(opt_bytes(existing), opt_str(expected)),
{
    match (existing, expected) {
        (Some(data), Some(want)) => {
            let n = want.unicode_len();
            match calculate_file_checksum(data.as_slice(), n) {
                Ok(actual) => {
                    if str_eq(actual.as_str(), want) {
                        FetchDecision::Skip
                    } else {
                        FetchDecision::Download
                    }
                },
                Err(_) => FetchDecision::Download,
            }
        },
        _ => FetchDecision::Download,
    }
}

/// What checking downloaded bytes against a declared digest gives.
pub open spec fn spec_verify(url: Seq<char>, data: Seq<u8>, expected: Option<Seq<char>>) -> Result<
    (),
    ErrorView,
> {
    match expected {
        None => Ok(()),
        Some(want) => match spec_checksum(data, want.len() as int) {
            None => Err(ErrorView::UnsupportedDigest { length: want.len() as usize }),
            Some(got) => if got == want {
                Ok(())
            } else {
                Err(ErrorView::DigestMismatch { url, got, want })
            },
        },
    }
}

/// The content of a verification result.
pub open spec fn verdict_view(r: Result<(), BuildError>) -> Result<(), ErrorView> {
    match r {
        Ok(()) => Ok(()),
        Err(e) => Err(e@),
    }
}

/// Checks downloaded bytes against the declared digest.
pub fn verify_download(url: &str, data: &Vec<u8>, expected: Option<&str>) -> (r: Result<
    (),
    BuildError,
>)
    ensures
        verdict_view(r) == spec_verify(url@, data@, opt_str(expected)),
{
    match expected {
        None => Ok(()),
        Some(want) => {
            let n = want.unicode_len();
            match calculate_file_checksum(data.as_slice(), n) {
                Err(e) => Err(e),
                Ok(got) => {
                    if str_eq(got.as_str(), want) {
                        Ok(())
                    } else {
                        Err(
                            BuildError::DigestMismatch {
                                url: String::from_str(url),
                                got,
                                want: String::from_str(want),
                            },
                        )
                    }
                },
            }
        },
    }
}

/// Where the bytes go while a download runs: beside the destination, under
/// its name with `.part` added.
pub open spec fn spec_temp_path(dest: Seq<char>) -> Seq<char> {
    dest + ".part"@
}

/// The temporary file of a download.
pub fn temp_path(dest: &str) -> (r: String)
    ensures
        r@ == spec_temp_path(dest@),
{
    let mut out: Vec<char> = Vec::new();
    append_str(&mut out, dest);
    append_str(&mut out, ".part");
    from_chars(&out)
}

/// Seconds between two progress reports.
pub const REPORT_INTERVAL_SECS: u64 = 5;

/// `true` when five seconds or more have passed since the last report.
pub fn report_due(now_secs: u64, last_report_secs: u64) -> (r: bool)
    ensures
        r == (now_secs - last_report_secs >= 5),
{
    now_secs >= last_report_secs && now_secs - last_report_secs >= REPORT_INTERVAL_SECS
}

/// What to do with the files of a download once it has ended.
#[derive(Debug, Clone, Copy, PartialEq, Eq, Structural)]
pub enum FetchCleanup {
    /// The destination holds the verified file.
    Keep,
    /// Nothing of the download may stay: remove temporary file and
    /// destination.
    Discard,
}

/// A download leaves its file only when it ended without an error.
pub fn cleanup_after(outcome: &Result<(), BuildError>) -> (r: FetchCleanup)
    ensures
        r == if outcome is Ok {
            FetchCleanup::Keep
        } else {
            FetchCleanup::Discard
        },
{
    match outcome {
        Ok(_) => FetchCleanup::Keep,
        Err(_) => FetchCleanup::Discard,
    }
}

/// Bytes that passed the check against a declared digest are kept when
/// they are found at the destination again: a verified file is never
/// downloaded twice.
pub proof fn lemma_verified_file_is_kept(url: Seq<char>, data: Seq<u8>, want: Seq<char>)
    requires
        spec_verify(url, data, Some(want)) is Ok,
    ensures
        spec_fetch_decision(Some(data), Some(want)) == FetchDecision::Skip,
{
}

/// A file is kept only if it has the declared digest: what is skipped
/// would pass the check.
pub proof fn lemma_kept_file_is_verified(url: Seq<char>, data: Seq<u8>, want: Seq<char>)
    requires
        spec_fetch_decision(Some(data), Some(want)) == FetchDecision::Skip,
    ensures
        spec_verify(url, data, Some(want)) is Ok,
{
}

} // verus!

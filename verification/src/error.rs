//! The errors a build can end with.

use crate::text::{
    append_chars, append_str, chars_view, from_chars, join_chars, spec_join, strings_view, to_chars,
};
use vstd::prelude::*;

verus! {

/// Why a build step, a resolution or a workspace operation failed.
#[derive(Debug, Clone)]
pub enum BuildError {
    /// A recipe could not be evaluated.
    RecipeEvalFailed { file: String, msg: String },
    /// A selector text has no package name.
    InvalidSelector { selector: String },
    /// No repository offers a version for the selector.
    PackageNotFound { selector: String },
    /// The build dependencies form a cycle; `nodes` walks it once.
    CircularDependency { nodes: Vec<String> },
    /// The network did not deliver the file.
    FetchFailed { url: String, msg: String },
    /// The downloaded bytes do not have the declared digest.
    DigestMismatch { url: String, got: String, want: String },
    /// The declared digest has a length that no supported algorithm gives.
    UnsupportedDigest { length: usize },
    /// The archive name has none of the supported suffixes.
    UnsupportedFormat { filename: String },
    /// An extract step has nothing to extract.
    MissingInput { step: usize },
    /// A command run in the sandbox exited with a failure.
    SandboxFailed { command: String, exit: i32 },
    /// The named variant is not defined in the workspace.
    VariantNotFound { name: String },
    /// A repository with this name is already registered.
    DuplicateRepositoryName { name: String },
    /// A repository at this path is already registered.
    DuplicateRepositoryPath { path: String },
    /// The source of a link has no file name to link under.
    InvalidExportSource { path: String },
    /// A recipe gave a release type that is neither a channel nor shaped
    /// like a version.
    InvalidReleaseType { literal: String },
    /// A recipe gave a regular expression that does not compile.
    InvalidPattern { pattern: String },
    /// A cache file cannot be read; it is treated as absent.
    CacheCorrupt { file: String },
}

/// The mathematical content of an error.
pub enum ErrorView {
    RecipeEvalFailed { file: Seq<char>, msg: Seq<char> },
    InvalidSelector { selector: Seq<char> },
    PackageNotFound { selector: Seq<char> },
    CircularDependency { nodes: Seq<Seq<char>> },
    FetchFailed { url: Seq<char>, msg: Seq<char> },
    DigestMismatch { url: Seq<char>, got: Seq<char>, want: Seq<char> },
    UnsupportedDigest { length: usize },
    UnsupportedFormat { filename: Seq<char> },
    MissingInput { step: usize },
    SandboxFailed { command: Seq<char>, exit: i32 },
    VariantNotFound { name: Seq<char> },
    DuplicateRepositoryName { name: Seq<char> },
    DuplicateRepositoryPath { path: Seq<char> },
    InvalidExportSource { path: Seq<char> },
    InvalidReleaseType { literal: Seq<char> },
    InvalidPattern { pattern: Seq<char> },
    CacheCorrupt { file: Seq<char> },
}

impl View for BuildError {
    type V = ErrorView;

    open spec fn view(&self) -> ErrorView {
        match self {
            BuildError::RecipeEvalFailed { file, msg } => ErrorView::RecipeEvalFailed {
                file: file@,
                msg: msg@,
            },
            BuildError::InvalidSelector { selector } => ErrorView::InvalidSelector {
                selector: selector@,
            },
            BuildError::PackageNotFound { selector } => ErrorView::PackageNotFound {
                selector: selector@,
            },
            BuildError::CircularDependency { nodes } => ErrorView::CircularDependency {
                nodes: strings_view(nodes@),
            },
            BuildError::FetchFailed { url, msg } => ErrorView::FetchFailed {
                url: url@,
                msg: msg@,
            },
            BuildError::DigestMismatch { url, got, want } => ErrorView::DigestMismatch {
                url: url@,
                got: got@,
                want: want@,
            },
            BuildError::UnsupportedDigest { length } => ErrorView::UnsupportedDigest {
                length: *length,
            },
            BuildError::UnsupportedFormat { filename } => ErrorView::UnsupportedFormat {
                filename: filename@,
            },
            BuildError::MissingInput { step } => ErrorView::MissingInput { step: *step },
            BuildError::SandboxFailed { command, exit } => ErrorView::SandboxFailed {
                command: command@,
                exit: *exit,
            },
            BuildError::VariantNotFound { name } => ErrorView::VariantNotFound { name: name@ },
            BuildError::DuplicateRepositoryName { name } => ErrorView::DuplicateRepositoryName {
                name: name@,
            },
            BuildError::DuplicateRepositoryPath { path } => ErrorView::DuplicateRepositoryPath {
                path: path@,
            },
            BuildError::InvalidExportSource { path } => ErrorView::InvalidExportSource {
                path: path@,
            },
            BuildError::InvalidReleaseType { literal } => ErrorView::InvalidReleaseType {
                literal: literal@,
            },
            BuildError::InvalidPattern { pattern } => ErrorView::InvalidPattern {
                pattern: pattern@,
            },
            BuildError::CacheCorrupt { file } => ErrorView::CacheCorrupt { file: file@ },
        }
    }
}

/// An error line carries the package context in square brackets in front.
pub open spec fn spec_error_line(pkg_ctx: Seq<char>, message: Seq<char>) -> Seq<char> {
    seq!['['] + pkg_ctx + seq![']', ' '] + message
}

/// Puts the package context in front of an error message.
pub fn error_line(pkg_ctx: &str, message: &str) -> (r: String)
    ensures
        r@ == spec_error_line(pkg_ctx@, message@),
{
    let mut out: Vec<char> = Vec::new();
    out.push('[');
    append_str(&mut out, pkg_ctx);
    out.push(']');
    out.push(' ');
    append_str(&mut out, message);
    assert(out@ =~= spec_error_line(pkg_ctx@, message@));
    from_chars(&out)
}

/// The character of a decimal digit.
pub open spec fn spec_decimal_digit(d: int) -> char {
    (48u8 + d) as char
}

/// A natural number in decimal notation.
pub open spec fn spec_decimal(n: nat) -> Seq<char>
    decreases n,
{
    if n < 10 {
        seq![spec_decimal_digit(n as int)]
    } else {
        spec_decimal(n / 10).push(spec_decimal_digit((n % 10) as int))
    }
}

/// An integer in decimal notation, with a minus sign where it is negative.
pub open spec fn spec_signed(i: int) -> Seq<char> {
    if i < 0 {
        seq!['-'] + spec_decimal((-i) as nat)
    } else {
        spec_decimal(i as nat)
    }
}

fn decimal_into(n: u64, out: &mut Vec<char>)
    ensures
        final(out)@ == old(out)@ + spec_decimal(n as nat),
    decreases n,
{
    if n >= 10 {
        decimal_into(n / 10, out);
    }
    let d: u8 = (n % 10) as u8;
    out.push((48u8 + d) as char);
    assert(out@ =~= old(out)@ + spec_decimal(n as nat));
}

fn signed_into(i: i64, out: &mut Vec<char>)
    ensures
        final(out)@ == old(out)@ + spec_signed(i as int),
{
    if i < 0 {
        out.push('-');
        let m: u64 = if i == i64::MIN {
            9223372036854775808u64
        } else {
            (-i) as u64
        };
        decimal_into(m, out);
        assert(out@ =~= old(out)@ + spec_signed(i as int));
    } else {
        decimal_into(i as u64, out);
    }
}

/// The message of an error, as the user reads it.
pub open spec fn spec_message(e: ErrorView) -> Seq<char> {
    match e {
        ErrorView::RecipeEvalFailed { file, msg } => "eval failed "@ + file + ": "@ + msg,
        ErrorView::InvalidSelector { selector } => "Invalid selector: "@ + selector,
        ErrorView::PackageNotFound { selector } => "Package not found: "@ + selector,
        ErrorView::CircularDependency { nodes } => "Circular dependency involving: "@ + spec_join(
            nodes,
            " -> "@,
        ),
        ErrorView::FetchFailed { url, msg } => "["@ + url + "] download failed: "@ + msg,
        ErrorView::DigestMismatch { url, got, want } => "["@ + url + "] checksum mismatch: got "@
            + got + ", want "@ + want,
        ErrorView::UnsupportedDigest { length } => "Unsupported checksum length: "@ + spec_decimal(
            length as nat,
        ) + ". Expected 40 (SHA-1), 64 (SHA-256), or 128 (SHA-512)."@,
        ErrorView::UnsupportedFormat { filename } => "Unsupported archive format: "@ + filename,
        ErrorView::MissingInput { step } => "step "@ + spec_decimal(step as nat)
            + ": Extract requires a Fetch step"@,
        ErrorView::SandboxFailed { command, exit } => "Bubblewrap process failed with status: "@
            + spec_signed(exit as int) + " ("@ + command + ")"@,
        ErrorView::VariantNotFound { name } => "Variant '"@ + name + "' not found in cave"@,
        ErrorView::DuplicateRepositoryName { name } => "repository with name '"@ + name
            + "' already exists"@,
        ErrorView::DuplicateRepositoryPath { path } => "repository already exists at path: "@
            + path,
        ErrorView::InvalidExportSource { path } => "Invalid source filename: "@ + path,
        ErrorView::InvalidReleaseType { literal } => "invalid release type: "@ + literal,
        ErrorView::InvalidPattern { pattern } => "Regex error: "@ + pattern,
        ErrorView::CacheCorrupt { file } => "cache file unreadable, ignored: "@ + file,
    }
}

impl BuildError {
    /// The message of the error.
    pub fn message(&self) -> (r: String)
        ensures
            r@ == spec_message(self@),
    {
        let mut out: Vec<char> = Vec::new();
        match self {
            BuildError::RecipeEvalFailed { file, msg } => {
                append_str(&mut out, "eval failed ");
                append_str(&mut out, file.as_str());
                append_str(&mut out, ": ");
                append_str(&mut out, msg.as_str());
            },
            BuildError::InvalidSelector { selector } => {
                append_str(&mut out, "Invalid selector: ");
                append_str(&mut out, selector.as_str());
            },
            BuildError::PackageNotFound { selector } => {
                append_str(&mut out, "Package not found: ");
                append_str(&mut out, selector.as_str());
            },
            BuildError::CircularDependency { nodes } => {
                append_str(&mut out, "Circular dependency involving: ");
                let mut parts: Vec<Vec<char>> = Vec::new();
                let mut i: usize = 0;
                while i < nodes.len()
                    invariant
                        i <= nodes.len(),
                        parts.len() == i,
                        forall|j: int| 0 <= j < i ==> (#[trigger] parts@[j])@ == nodes@[j]@,
                    decreases nodes.len() - i,
                {
                    parts.push(to_chars(nodes[i].as_str()));
                    i += 1;
                }
                assert(chars_view(parts@) =~= strings_view(nodes@));
                let joined = join_chars(&parts, &to_chars(" -> "));
                append_chars(&mut out, &joined);
            },
            BuildError::FetchFailed { url, msg } => {
                append_str(&mut out, "[");
                append_str(&mut out, url.as_str());
                append_str(&mut out, "] download failed: ");
                append_str(&mut out, msg.as_str());
            },
            BuildError::DigestMismatch { url, got, want } => {
                append_str(&mut out, "[");
                append_str(&mut out, url.as_str());
                append_str(&mut out, "] checksum mismatch: got ");
                append_str(&mut out, got.as_str());
                append_str(&mut out, ", want ");
                append_str(&mut out, want.as_str());
            },
            BuildError::UnsupportedDigest { length } => {
                append_str(&mut out, "Unsupported checksum length: ");
                decimal_into(*length as u64, &mut out);
                append_str(&mut out, ". Expected 40 (SHA-1), 64 (SHA-256), or 128 (SHA-512).");
            },
            BuildError::UnsupportedFormat { filename } => {
                append_str(&mut out, "Unsupported archive format: ");
                append_str(&mut out, filename.as_str());
            },
            BuildError::MissingInput { step } => {
                append_str(&mut out, "step ");
                decimal_into(*step as u64, &mut out);
                append_str(&mut out, ": Extract requires a Fetch step");
            },
            BuildError::SandboxFailed { command, exit } => {
                append_str(&mut out, "Bubblewrap process failed with status: ");
                signed_into(*exit as i64, &mut out);
                append_str(&mut out, " (");
                append_str(&mut out, command.as_str());
                append_str(&mut out, ")");
            },
            BuildError::VariantNotFound { name } => {
                append_str(&mut out, "Variant '");
                append_str(&mut out, name.as_str());
                append_str(&mut out, "' not found in cave");
            },
            BuildError::DuplicateRepositoryName { name } => {
                append_str(&mut out, "repository with name '");
                append_str(&mut out, name.as_str());
                append_str(&mut out, "' already exists");
            },
            BuildError::DuplicateRepositoryPath { path } => {
                append_str(&mut out, "repository already exists at path: ");
                append_str(&mut out, path.as_str());
            },
            BuildError::InvalidExportSource { path } => {
                append_str(&mut out, "Invalid source filename: ");
                append_str(&mut out, path.as_str());
            },
            BuildError::InvalidReleaseType { literal } => {
                append_str(&mut out, "invalid release type: ");
                append_str(&mut out, literal.as_str());
            },
            BuildError::InvalidPattern { pattern } => {
                append_str(&mut out, "Regex error: ");
                append_str(&mut out, pattern.as_str());
            },
            BuildError::CacheCorrupt { file } => {
                append_str(&mut out, "cache file unreadable, ignored: ");
                append_str(&mut out, file.as_str());
            },
        }
        assert(out@ =~= spec_message(self@));
        from_chars(&out)
    }
}

} // verus!

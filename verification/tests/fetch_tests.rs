use pi_build::digest::{calculate_file_checksum, DigestAlgorithm};
use pi_build::error::BuildError;
use pi_build::extractor::{
    detect_format, extract_decision, format_of_name, marker_path, ArchiveFormat, ExtractDecision,
};
use pi_build::fetcher::{
    cleanup_after, fetch_decision, report_due, temp_path, verify_download, FetchCleanup,
    FetchDecision,
};

const SHA1_ABC: &str = "a9993e364706816aba3e25717850c26c9cd0d89d";
const SHA256_ABC: &str = "ba7816bf8f01cfea414140de5dae2223b00361a396177a9cb410ff61f20015ad";
const SHA512_ABC: &str = "ddaf35a193617abacc417349ae20413112e6fa4e89a97ea20a9eeee64b55d39a2192992a274fc1a836ba3c23a3feebbd454d4423643ce80e2a9ac94fa54ca49f";

#[test]
fn digest_length_tells_the_algorithm() {
    assert_eq!(DigestAlgorithm::for_length(40), Some(DigestAlgorithm::Sha1));
    assert_eq!(DigestAlgorithm::for_length(64), Some(DigestAlgorithm::Sha256));
    assert_eq!(DigestAlgorithm::for_length(128), Some(DigestAlgorithm::Sha512));
    assert_eq!(DigestAlgorithm::for_length(0), None);
    assert_eq!(DigestAlgorithm::for_length(32), None);
    assert_eq!(DigestAlgorithm::for_length(41), None);
}

#[test]
fn checksums_of_known_data() {
    assert_eq!(calculate_file_checksum(b"abc", 40).unwrap(), SHA1_ABC);
    assert_eq!(calculate_file_checksum(b"abc", 64).unwrap(), SHA256_ABC);
    assert_eq!(calculate_file_checksum(b"abc", 128).unwrap(), SHA512_ABC);
    assert_eq!(
        calculate_file_checksum(b"", 64).unwrap(),
        "e3b0c44298fc1c149afbf4c8996fb92427ae41e4649b934ca495991b7852b855"
    );
    assert_eq!(DigestAlgorithm::Sha1.hash(b"abc").len(), 20);
    assert_eq!(DigestAlgorithm::Sha256.hash(b"abc")[0], 0xba);
}

#[test]
fn other_digest_lengths_are_refused() {
    assert!(matches!(
        calculate_file_checksum(b"abc", 32),
        Err(BuildError::UnsupportedDigest { length: 32 })
    ));
}

#[test]
fn an_existing_file_with_the_digest_is_kept() {
    let data = b"abc".to_vec();
    assert_eq!(fetch_decision(Some(&data), Some(SHA256_ABC)), FetchDecision::Skip);
    assert_eq!(fetch_decision(Some(&data), Some(SHA1_ABC)), FetchDecision::Skip);
    assert_eq!(fetch_decision(Some(&data), Some(&SHA256_ABC.replace('b', "c"))), FetchDecision::Download);
    assert_eq!(fetch_decision(Some(&data), Some("abcd")), FetchDecision::Download);
    assert_eq!(fetch_decision(Some(&data), None), FetchDecision::Download);
    assert_eq!(fetch_decision(None, Some(SHA256_ABC)), FetchDecision::Download);
    assert_eq!(fetch_decision(None, None), FetchDecision::Download);
}

#[test]
fn a_wrong_digest_is_a_mismatch() {
    let data = b"different bytes".to_vec();
    match verify_download("https://mirror/x.tgz", &data, Some(SHA256_ABC)) {
        Err(BuildError::DigestMismatch { url, got, want }) => {
            assert_eq!(url, "https://mirror/x.tgz");
            assert_eq!(want, SHA256_ABC);
            assert_eq!(got, calculate_file_checksum(&data, 64).unwrap());
            assert_ne!(got, want);
        }
        other => panic!("expected a mismatch, got {:?}", other),
    }
    let failed: Result<(), BuildError> =
        verify_download("https://mirror/x.tgz", &data, Some(SHA256_ABC));
    assert_eq!(cleanup_after(&failed), FetchCleanup::Discard);
}

#[test]
fn a_right_or_absent_digest_passes() {
    let data = b"abc".to_vec();
    assert!(verify_download("u", &data, Some(SHA512_ABC)).is_ok());
    assert!(verify_download("u", &data, None).is_ok());
    assert_eq!(cleanup_after(&Ok(())), FetchCleanup::Keep);
    assert!(matches!(
        verify_download("u", &data, Some("123")),
        Err(BuildError::UnsupportedDigest { length: 3 })
    ));
}

#[test]
fn temporary_file_and_progress() {
    assert_eq!(temp_path("/c/downloads/a.tar.gz"), "/c/downloads/a.tar.gz.part");
    assert!(!report_due(104, 100));
    assert!(report_due(105, 100));
    assert!(report_due(1000, 100));
    assert!(!report_due(100, 105));
}

#[test]
fn formats_by_suffix() {
    assert_eq!(format_of_name("a.tar.gz").unwrap(), ArchiveFormat::TarGz);
    assert_eq!(format_of_name("a.tgz").unwrap(), ArchiveFormat::TarGz);
    assert_eq!(format_of_name("a.tar.xz").unwrap(), ArchiveFormat::TarXz);
    assert_eq!(format_of_name("a.zip").unwrap(), ArchiveFormat::Zip);
    assert_eq!(format_of_name(".zip").unwrap(), ArchiveFormat::Zip);
    match format_of_name("a.tar.bz2") {
        Err(BuildError::UnsupportedFormat { filename }) => assert_eq!(filename, "a.tar.bz2"),
        _ => panic!("the suffix is not supported"),
    }
    assert!(format_of_name("a.gz").is_err());
    assert!(format_of_name("zip").is_err());
    assert!(format_of_name("").is_err());
    assert!(format_of_name("a.ZIP").is_err());
}

#[test]
fn format_of_a_path_looks_at_the_last_component() {
    assert_eq!(detect_format("/d/x.tar.gz/rust-1.70.0.zip").unwrap(), ArchiveFormat::Zip);
    assert_eq!(detect_format("/d/rust.tar.xz").unwrap(), ArchiveFormat::TarXz);
    match detect_format("/d/x.zip/readme") {
        Err(BuildError::UnsupportedFormat { filename }) => assert_eq!(filename, "readme"),
        _ => panic!("the suffix is not supported"),
    }
    match detect_format("/") {
        Err(BuildError::UnsupportedFormat { filename }) => assert_eq!(filename, ""),
        _ => panic!("there is no file name"),
    }
}

#[test]
fn a_marked_destination_is_not_unpacked_again() {
    assert_eq!(extract_decision("/d/a.tar.gz", true).unwrap(), ExtractDecision::Skip);
    assert_eq!(extract_decision("/d/a.unknown", true).unwrap(), ExtractDecision::Skip);
    assert_eq!(
        extract_decision("/d/a.tar.gz", false).unwrap(),
        ExtractDecision::Unpack(ArchiveFormat::TarGz)
    );
    assert!(extract_decision("/d/a.unknown", false).is_err());
    assert_eq!(marker_path("/p/rust-extracted"), "/p/rust-extracted/.pi-extracted");
}

#[test]
fn a_failed_transfer_leaves_no_file() {
    let failed: Result<(), pi_build::error::BuildError> = Err(pi_build::error::BuildError::FetchFailed {
        url: "https://mirror/tool.tar.gz".to_string(),
        msg: "connection reset".to_string(),
    });
    assert_eq!(cleanup_after(&failed), FetchCleanup::Discard);
}

#[test]
fn every_error_has_its_message() {
    let s = |t: &str| t.to_string();
    let cases: Vec<(pi_build::error::BuildError, &str)> = vec![
        (
            pi_build::error::BuildError::RecipeEvalFailed { file: s("a.star"), msg: s("bad") },
            "eval failed a.star: bad",
        ),
        (
            pi_build::error::BuildError::InvalidSelector { selector: s("=1") },
            "Invalid selector: =1",
        ),
        (
            pi_build::error::BuildError::PackageNotFound { selector: s("rust=9") },
            "Package not found: rust=9",
        ),
        (
            pi_build::error::BuildError::CircularDependency { nodes: vec![s("a"), s("b"), s("a")] },
            "Circular dependency involving: a -> b -> a",
        ),
        (
            pi_build::error::BuildError::CircularDependency { nodes: vec![] },
            "Circular dependency involving: ",
        ),
        (
            pi_build::error::BuildError::FetchFailed { url: s("http://m/x"), msg: s("reset") },
            "[http://m/x] download failed: reset",
        ),
        (
            pi_build::error::BuildError::DigestMismatch {
                url: s("http://m/x"),
                got: s("aa"),
                want: s("bb"),
            },
            "[http://m/x] checksum mismatch: got aa, want bb",
        ),
        (
            pi_build::error::BuildError::UnsupportedDigest { length: 41 },
            "Unsupported checksum length: 41. Expected 40 (SHA-1), 64 (SHA-256), or 128 (SHA-512).",
        ),
        (
            pi_build::error::BuildError::UnsupportedDigest { length: 0 },
            "Unsupported checksum length: 0. Expected 40 (SHA-1), 64 (SHA-256), or 128 (SHA-512).",
        ),
        (
            pi_build::error::BuildError::UnsupportedFormat { filename: s("x.rar") },
            "Unsupported archive format: x.rar",
        ),
        (
            pi_build::error::BuildError::MissingInput { step: 1207 },
            "step 1207: Extract requires a Fetch step",
        ),
        (
            pi_build::error::BuildError::SandboxFailed { command: s("make"), exit: 2 },
            "Bubblewrap process failed with status: 2 (make)",
        ),
        (
            pi_build::error::BuildError::SandboxFailed { command: s("make"), exit: -1 },
            "Bubblewrap process failed with status: -1 (make)",
        ),
        (
            pi_build::error::BuildError::SandboxFailed { command: s(""), exit: i32::MIN },
            "Bubblewrap process failed with status: -2147483648 ()",
        ),
        (
            pi_build::error::BuildError::VariantNotFound { name: s("gpu") },
            "Variant 'gpu' not found in cave",
        ),
        (
            pi_build::error::BuildError::DuplicateRepositoryName { name: s("main") },
            "repository with name 'main' already exists",
        ),
        (
            pi_build::error::BuildError::DuplicateRepositoryPath { path: s("/r") },
            "repository already exists at path: /r",
        ),
        (
            pi_build::error::BuildError::InvalidExportSource { path: s("/") },
            "Invalid source filename: /",
        ),
        (
            pi_build::error::BuildError::InvalidReleaseType { literal: s("wild") },
            "invalid release type: wild",
        ),
        (pi_build::error::BuildError::InvalidPattern { pattern: s("(") }, "Regex error: ("),
        (
            pi_build::error::BuildError::CacheCorrupt { file: s("/c/x.json") },
            "cache file unreadable, ignored: /c/x.json",
        ),
    ];
    for (error, message) in cases {
        assert_eq!(error.message(), message);
    }
}

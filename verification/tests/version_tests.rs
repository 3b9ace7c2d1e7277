use hdiff_apply::version::{BinaryVersion, VersionParsePolicy, verify_version};
use hdiff_apply::errors::AppError;

fn v(major: u32, minor: u32, patch: u32) -> BinaryVersion {
    BinaryVersion { major_version: major, minor_version: minor, patch_version: patch }
}

#[test]
fn successor_accepts_next_patch() {
    assert!(verify_version(&v(1, 0, 4), &v(1, 0, 5)));
    assert!(verify_version(&v(7, 3, 0), &v(7, 3, 1)));
    assert!(verify_version(&v(0, 0, 0), &v(0, 0, 1)));
}

#[test]
fn successor_rejects_everything_else() {
    // Patch delta other than one.
    assert!(!verify_version(&v(1, 0, 4), &v(1, 0, 6)));
    assert!(!verify_version(&v(1, 0, 4), &v(1, 0, 4)));
    assert!(!verify_version(&v(1, 0, 4), &v(1, 0, 3)));
    // Major or minor change.
    assert!(!verify_version(&v(1, 0, 4), &v(2, 0, 5)));
    assert!(!verify_version(&v(1, 0, 4), &v(1, 1, 5)));
    assert!(!verify_version(&v(1, 1, 4), &v(1, 0, 5)));
    // Patch overflow never panics and never matches.
    assert!(!verify_version(&v(1, 0, u32::MAX), &v(1, 0, 0)));
}

#[test]
fn parse_finds_leftmost_version() {
    let got = BinaryVersion::parse("OSPRODWin1.3.52-archive", VersionParsePolicy::Strict).unwrap();
    assert_eq!(got, v(1, 3, 52));
}

#[test]
fn parse_takes_at_most_two_patch_digits() {
    let got = BinaryVersion::parse("v2.10.123", VersionParsePolicy::Strict).unwrap();
    assert_eq!(got, v(2, 10, 12));
}

#[test]
fn parse_skips_incomplete_patterns() {
    let got = BinaryVersion::parse("7.1 build 3.4.5 then 9.9.9", VersionParsePolicy::Strict)
        .unwrap();
    assert_eq!(got, v(3, 4, 5));
}

#[test]
fn parse_component_too_large_reads_as_zero() {
    let got = BinaryVersion::parse("4294967296.1.1", VersionParsePolicy::Strict).unwrap();
    assert_eq!(got, v(0, 1, 1));
}

#[test]
fn parse_no_match_zero_fallback() {
    let got = BinaryVersion::parse("no version here", VersionParsePolicy::ZeroFallback).unwrap();
    assert_eq!(got, v(0, 0, 0));
}

#[test]
fn parse_no_match_strict_fails() {
    let got = BinaryVersion::parse("no version here", VersionParsePolicy::Strict);
    assert_eq!(got, Err(AppError::VersionParse));
}

#[test]
fn version_string_renders_triple() {
    assert_eq!(v(1, 3, 52).to_version_string(), "1.3.52");
    assert_eq!(v(0, 0, 0).to_version_string(), "0.0.0");
    assert_eq!(v(10, 200, 7).to_version_string(), "10.200.7");
}

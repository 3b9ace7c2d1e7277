use hdiff_apply::diff::DiffEntry;
use hdiff_apply::errors::{IOError, VerifyError};
use hdiff_apply::integrity::{Verifier, bytes_to_hex};

fn entry_with(source: &str, md5: &str, size: u64) -> DiffEntry {
    DiffEntry {
        source_file_name: source.to_string(),
        source_file_md5: md5.to_string(),
        source_file_size: size,
        target_file_name: source.to_string(),
        target_file_md5: String::new(),
        target_file_size: 0,
        patch_file_name: format!("{}.hdiff", source),
    }
}

fn verifier_for(entries: Vec<DiffEntry>) -> Verifier {
    Verifier::new(String::from("/game"), entries)
}

const ABC_MD5: &str = "900150983cd24fb0d6963f7d28e17f72";

#[test]
fn hex_rendering_is_lowercase_two_digits_per_byte() {
    assert_eq!(bytes_to_hex(&[]), "");
    assert_eq!(bytes_to_hex(&[0x00, 0x0f, 0xa5, 0xff]), "000fa5ff");
}

#[test]
fn matching_content_passes() {
    let v = verifier_for(vec![]);
    let e = entry_with("data/a.bin", ABC_MD5, 3);
    assert_eq!(v.verify_entry_content(&e, b"abc"), Ok(()));
}

#[test]
fn size_mismatch_detected_before_hashing() {
    // Declared 100 bytes, 99 on disk: a size error, even though the
    // declared hash would never match either.
    let v = verifier_for(vec![]);
    let e = entry_with("data/a.bin", "0000", 100);
    let content = vec![0u8; 99];
    match v.verify_entry_content(&e, &content) {
        Err(VerifyError::FileSizeMismatchError { expected, got, file_name }) => {
            assert_eq!(expected, 100);
            assert_eq!(got, 99);
            assert_eq!(file_name, "/game/data/a.bin");
        }
        other => panic!("unexpected result: {:?}", other),
    }
}

#[test]
fn hash_mismatch_reports_computed_hash() {
    let v = verifier_for(vec![]);
    let e = entry_with("data/a.bin", "00112233445566778899aabbccddeeff", 3);
    match v.verify_entry_content(&e, b"abc") {
        Err(VerifyError::Md5MismatchError { expected, got, file_name }) => {
            assert_eq!(expected, "00112233445566778899aabbccddeeff");
            // The computed hash is the real MD5 of the content, which shows
            // the digest truly ran.
            assert_eq!(got, ABC_MD5);
            assert_eq!(file_name, "/game/data/a.bin");
        }
        other => panic!("unexpected result: {:?}", other),
    }
}

#[test]
fn empty_hash_skips_verification() {
    let v = verifier_for(vec![]);
    let e = entry_with("whatever", "", 12345);
    // Declared size does not even match, yet the entry is skipped.
    assert_eq!(v.verify_entry_content(&e, b""), Ok(()));
    assert!(!v.needs_verification(&e));
    assert!(v.needs_verification(&entry_with("x", "aa", 0)));
}

#[test]
fn verify_all_passes_good_batch() {
    let v = verifier_for(vec![
        entry_with("a.bin", ABC_MD5, 3),
        entry_with("new.bin", "", 0),
    ]);
    let files = vec![(String::from("a.bin"), b"abc".to_vec())];
    assert_eq!(v.verify_all(&files), Ok(()));
}

#[test]
fn verify_all_stops_at_first_failure() {
    let v = verifier_for(vec![
        entry_with("a.bin", ABC_MD5, 3),
        entry_with("b.bin", ABC_MD5, 3),
        entry_with("c.bin", ABC_MD5, 3),
    ]);
    let files = vec![
        (String::from("a.bin"), b"abc".to_vec()),
        (String::from("b.bin"), b"abcd".to_vec()),
        (String::from("c.bin"), b"abcd".to_vec()),
    ];
    match v.verify_all(&files) {
        Err(VerifyError::FileSizeMismatchError { file_name, expected, got }) => {
            assert_eq!(file_name, "/game/b.bin");
            assert_eq!(expected, 3);
            assert_eq!(got, 4);
        }
        other => panic!("unexpected result: {:?}", other),
    }
}

#[test]
fn verify_all_missing_file_is_an_open_error() {
    let v = verifier_for(vec![entry_with("gone.bin", ABC_MD5, 3)]);
    match v.verify_all(&Vec::new()) {
        Err(VerifyError::Io(IOError::Open { path, .. })) => {
            assert_eq!(path, "/game/gone.bin");
        }
        other => panic!("unexpected result: {:?}", other),
    }
}

#[test]
fn messages_carry_full_context() {
    let e = VerifyError::FileSizeMismatchError {
        expected: 100,
        got: 99,
        file_name: String::from("/game/data/a.bin"),
    };
    assert_eq!(
        e.message(),
        "File size mismatch expected `100` bytes got `99` bytes in `/game/data/a.bin`. Client might be corrupted or used incompatible hdiff"
    );
    let io = IOError::Open {
        path: String::from("/game/gone.bin"),
        detail: String::from("No such file"),
    };
    assert_eq!(io.message(), "Failed to open file '/game/gone.bin': No such file");
}

use hdiff_apply::diff::{DiffEntry, HDiffMap};
use hdiff_apply::errors::PatchError;
use hdiff_apply::json::{decode_diff_map, encode_diff_map};

fn entry(
    source: &str,
    source_md5: &str,
    source_size: u64,
    target: &str,
    target_md5: &str,
    target_size: u64,
    patch: &str,
) -> DiffEntry {
    DiffEntry {
        source_file_name: source.to_string(),
        source_file_md5: source_md5.to_string(),
        source_file_size: source_size,
        target_file_name: target.to_string(),
        target_file_md5: target_md5.to_string(),
        target_file_size: target_size,
        patch_file_name: patch.to_string(),
    }
}

fn assert_entries_equal(a: &DiffEntry, b: &DiffEntry) {
    assert_eq!(a.source_file_name, b.source_file_name);
    assert_eq!(a.source_file_md5, b.source_file_md5);
    assert_eq!(a.source_file_size, b.source_file_size);
    assert_eq!(a.target_file_name, b.target_file_name);
    assert_eq!(a.target_file_md5, b.target_file_md5);
    assert_eq!(a.target_file_size, b.target_file_size);
    assert_eq!(a.patch_file_name, b.patch_file_name);
}

#[test]
fn decode_one_entry() {
    let text = "{\"diff_map\":[{\"source_file_name\":\"data/a.bin\",\"source_file_md5\":\"aabb\",\"source_file_size\":100,\"target_file_name\":\"data/a.bin\",\"target_file_md5\":\"ccdd\",\"target_file_size\":120,\"patch_file_name\":\"data/a.bin.hdiff\"}]}";
    let m = decode_diff_map(text).unwrap();
    assert_eq!(m.diff_map.len(), 1);
    assert_entries_equal(
        &m.diff_map[0],
        &entry("data/a.bin", "aabb", 100, "data/a.bin", "ccdd", 120, "data/a.bin.hdiff"),
    );
}

#[test]
fn decode_empty_map() {
    let m = decode_diff_map("{\"diff_map\":[]}").unwrap();
    assert_eq!(m.diff_map.len(), 0);
}

#[test]
fn roundtrip_preserves_every_field() {
    let entries = vec![
        entry("a", "11", 1, "b", "22", 2, "p1"),
        entry("", "", 0, "new/file.dat", "33", 9, "new/file.dat.hdiff"),
        entry("dir/we ird\"name", "44", 7, "x\\y", "55", 8, "p3"),
    ];
    let m = HDiffMap { diff_map: entries };
    let text = encode_diff_map(&m);
    let back = decode_diff_map(&text).unwrap();
    assert_eq!(back.diff_map.len(), m.diff_map.len());
    for (a, b) in back.diff_map.iter().zip(m.diff_map.iter()) {
        assert_entries_equal(a, b);
    }
    // Re-encoding reproduces the text byte for byte.
    assert_eq!(encode_diff_map(&back), text);
}

#[test]
fn encode_escapes_quotes_and_backslashes() {
    let m = HDiffMap { diff_map: vec![entry("a\"b", "", 0, "c\\d", "", 0, "p")] };
    let text = encode_diff_map(&m);
    assert!(text.contains("\"a\\\"b\""));
    assert!(text.contains("\"c\\\\d\""));
    let back = decode_diff_map(&text).unwrap();
    assert_eq!(back.diff_map[0].source_file_name, "a\"b");
    assert_eq!(back.diff_map[0].target_file_name, "c\\d");
}

#[test]
fn decode_rejects_wrong_structure() {
    assert!(matches!(decode_diff_map(""), Err(PatchError::Json)));
    assert!(decode_diff_map("{\"diff_map\":").is_err());
    assert!(decode_diff_map("{\"wrong_key\":[]}").is_err());
    assert!(decode_diff_map("{\"diff_map\":[]} ").is_err());
    // An entry with fields out of order is not the canonical structure.
    let text = "{\"diff_map\":[{\"source_file_md5\":\"aabb\",\"source_file_name\":\"data/a.bin\",\"source_file_size\":100,\"target_file_name\":\"t\",\"target_file_md5\":\"cc\",\"target_file_size\":120,\"patch_file_name\":\"p\"}]}";
    assert!(decode_diff_map(text).is_err());
}

#[test]
fn decode_rejects_bad_numbers() {
    let with_size = |size: &str| {
        format!("{{\"diff_map\":[{{\"source_file_name\":\"a\",\"source_file_md5\":\"h\",\"source_file_size\":{},\"target_file_name\":\"b\",\"target_file_md5\":\"h\",\"target_file_size\":1,\"patch_file_name\":\"p\"}}]}}", size)
    };
    // In range.
    assert!(decode_diff_map(&with_size("18446744073709551615")).is_ok());
    // One past the largest u64.
    assert!(decode_diff_map(&with_size("18446744073709551616")).is_err());
    // Redundant leading zero.
    assert!(decode_diff_map(&with_size("007")).is_err());
    // Not a number at all.
    assert!(decode_diff_map(&with_size("\"7\"")).is_err());
}

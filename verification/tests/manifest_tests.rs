use hdiff_apply::errors::IOError;
use hdiff_apply::manifest::{
    LDiff, Manifest, ManifestAsset, ManifestChunk, extract_chunk_region,
};

fn chunk(
    chunk_file: &str,
    offset: u64,
    size: u64,
    original: &str,
    original_md5: &str,
    original_size: u64,
) -> ManifestChunk {
    ManifestChunk {
        chunk_file_name: chunk_file.to_string(),
        hdiff_file_in_chunk_offset: offset,
        hdiff_file_size: size,
        original_file_path: original.to_string(),
        original_file_md5: original_md5.to_string(),
        original_file_size: original_size,
    }
}

fn asset(name: &str, md5: &str, size: u64, chunks: Vec<ManifestChunk>) -> ManifestAsset {
    ManifestAsset {
        asset_name: name.to_string(),
        asset_hash_md5: md5.to_string(),
        asset_size: size,
        chunks,
    }
}

fn ldiff_with(assets: Vec<ManifestAsset>) -> LDiff {
    LDiff::new(
        String::from("/game"),
        String::from("/game/ldiff"),
        Manifest { assets },
    )
}

#[test]
fn diff_entries_cover_every_chunk() {
    let l = ldiff_with(vec![
        asset(
            "data/big.bin",
            "aa",
            500,
            vec![
                chunk("chunk_0", 0, 10, "data/big.bin", "bb", 480),
                chunk("chunk_1", 10, 20, "data/big.old", "cc", 30),
            ],
        ),
        asset("untouched.bin", "dd", 1, vec![]),
        asset("fresh.bin", "ee", 7, vec![chunk("chunk_0", 30, 5, "", "", 0)]),
    ]);
    let entries = l.create_diff_entries();
    assert_eq!(entries.len(), 3);

    assert_eq!(entries[0].source_file_name, "data/big.bin");
    assert_eq!(entries[0].source_file_md5, "bb");
    assert_eq!(entries[0].source_file_size, 480);
    assert_eq!(entries[0].target_file_name, "data/big.bin");
    assert_eq!(entries[0].target_file_md5, "aa");
    assert_eq!(entries[0].target_file_size, 500);
    assert_eq!(entries[0].patch_file_name, "data/big.bin.hdiff");

    assert_eq!(entries[1].source_file_name, "data/big.old");
    assert_eq!(entries[1].patch_file_name, "data/big.old.hdiff");

    // A brand-new file: empty source, blob named after the asset.
    assert_eq!(entries[2].source_file_name, "");
    assert_eq!(entries[2].patch_file_name, "fresh.bin.hdiff");
}

#[test]
fn chunk_region_exact_cut() {
    let data: Vec<u8> = (0u8..32).collect();
    let name = String::from("chunk_0");
    let blob = extract_chunk_region(&name, &data, 5, 4).unwrap();
    assert_eq!(blob, vec![5u8, 6, 7, 8]);
    // The whole file and the empty tail both work.
    assert_eq!(extract_chunk_region(&name, &data, 0, 32).unwrap().len(), 32);
    assert_eq!(extract_chunk_region(&name, &data, 32, 0).unwrap().len(), 0);
}

#[test]
fn chunk_region_short_read_fails() {
    // N bytes, a request of 10 starting 3 before the end: no short read.
    let data = vec![0u8; 64];
    let name = String::from("chunk_7");
    match extract_chunk_region(&name, &data, 61, 10) {
        Err(IOError::ReadBuffer { path, .. }) => assert_eq!(path, "chunk_7"),
        other => panic!("unexpected result: {:?}", other),
    }
    // Offset overflow is a failure too, never a wrap-around.
    assert!(extract_chunk_region(&name, &data, u64::MAX, 2).is_err());
}

#[test]
fn missing_chunk_files_are_named() {
    let l = ldiff_with(vec![asset(
        "a.bin",
        "aa",
        1,
        vec![chunk("chunk_0", 0, 1, "a.bin", "bb", 1), chunk("chunk_9", 0, 1, "a.bin", "bb", 1)],
    )]);
    let present = vec![String::from("chunk_0")];
    assert_eq!(l.first_missing_chunk(&present), Some(String::from("chunk_9")));
    let all = vec![String::from("chunk_0"), String::from("chunk_9")];
    assert_eq!(l.first_missing_chunk(&all), None);
}

#[test]
fn untracked_files_are_exactly_the_unlisted_ones() {
    let l = ldiff_with(vec![
        asset("StarRail_Data/a.bin", "aa", 1, vec![]),
        asset("StarRail_Data/b.bin", "bb", 1, vec![]),
    ]);
    let on_disk = vec![
        String::from("StarRail_Data/a.bin"),
        String::from("StarRail_Data/stale.bin"),
        String::from("StarRail_Data/b.bin"),
        String::from("StarRail_Data/leftover.tmp"),
    ];
    assert_eq!(
        l.untracked_files(&on_disk),
        vec![
            String::from("StarRail_Data/stale.bin"),
            String::from("StarRail_Data/leftover.tmp"),
        ]
    );
}

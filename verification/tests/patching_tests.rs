use hdiff_apply::deletefiles::DeleteFiles;
use hdiff_apply::diff::{CustomDiffMap, DiffEntry};
use hdiff_apply::errors::PatchError;
use hdiff_apply::customdiff::{encode_custom_line, parse_custom_file};
use hdiff_apply::hdiff::{HDiff, cleanup_paths};

fn hdiff() -> HDiff {
    HDiff::new(String::from("/game"), String::from("/game/hdiffmap.json"))
}

fn plain_entry(source: &str, target: &str, patch: &str) -> DiffEntry {
    DiffEntry {
        source_file_name: source.to_string(),
        source_file_md5: String::new(),
        source_file_size: 0,
        target_file_name: target.to_string(),
        target_file_md5: String::new(),
        target_file_size: 0,
        patch_file_name: patch.to_string(),
    }
}

#[test]
fn patch_task_resolves_absolute_paths() {
    let h = hdiff();
    let t = h.patch_task(&plain_entry("a.bin", "a.bin", "a.bin.hdiff"));
    assert_eq!(t.source_path, "/game/a.bin");
    assert_eq!(t.patch_path, "/game/a.bin.hdiff");
    assert_eq!(t.target_path, "/game/a.bin");
}

#[test]
fn patch_task_new_file_has_empty_source() {
    let h = hdiff();
    let t = h.patch_task(&plain_entry("", "fresh.bin", "fresh.bin.hdiff"));
    assert_eq!(t.source_path, "");
    assert_eq!(t.target_path, "/game/fresh.bin");
}

#[test]
fn custom_patch_task_patches_in_place() {
    let h = hdiff();
    let t = h.custom_patch_task(&CustomDiffMap { remote_name: String::from("data/x.bin") });
    assert_eq!(t.source_path, "/game/data/x.bin");
    assert_eq!(t.patch_path, "/game/data/x.bin.hdiff");
    assert_eq!(t.target_path, "/game/data/x.bin");
}

#[test]
fn cleanup_after_success_and_failure() {
    let h = hdiff();
    // Renamed file: both the blob and the old pre-image go.
    let moved = h.patch_task(&plain_entry("old.bin", "new.bin", "old.bin.hdiff"));
    assert_eq!(
        cleanup_paths(&moved, true),
        vec![String::from("/game/old.bin.hdiff"), String::from("/game/old.bin")]
    );
    // Patched in place: only the blob goes.
    let in_place = h.patch_task(&plain_entry("a.bin", "a.bin", "a.bin.hdiff"));
    assert_eq!(cleanup_paths(&in_place, true), vec![String::from("/game/a.bin.hdiff")]);
    // A brand-new file has no pre-image to remove.
    let fresh = h.patch_task(&plain_entry("", "fresh.bin", "fresh.bin.hdiff"));
    assert_eq!(cleanup_paths(&fresh, true), vec![String::from("/game/fresh.bin.hdiff")]);
    // A reported failure leaves everything in place for the next attempt.
    assert_eq!(cleanup_paths(&moved, false), Vec::<String>::new());
}

#[test]
fn load_diff_entries_decodes_the_map() {
    let h = hdiff();
    let text = "{\"diff_map\":[{\"source_file_name\":\"a\",\"source_file_md5\":\"h\",\"source_file_size\":1,\"target_file_name\":\"b\",\"target_file_md5\":\"h2\",\"target_file_size\":2,\"patch_file_name\":\"p\"}]}";
    let entries = h.load_diff_entries(text).unwrap();
    assert_eq!(entries.len(), 1);
    assert_eq!(entries[0].target_file_name, "b");
    assert!(matches!(h.load_diff_entries("nonsense"), Err(PatchError::Json)));
}

#[test]
fn custom_file_parses_line_by_line() {
    let text = "{\"remoteName\":\"data/a.bin\"}\r\n\n  \n{\"remoteName\":\"data/b.bin\"}\n";
    let records = parse_custom_file(text).unwrap();
    assert_eq!(records.len(), 2);
    assert_eq!(records[0].remote_name, "data/a.bin");
    assert_eq!(records[1].remote_name, "data/b.bin");
}

#[test]
fn custom_file_bad_line_fails_the_load() {
    let text = "{\"remoteName\":\"ok.bin\"}\nnot json\n";
    assert!(matches!(parse_custom_file(text), Err(PatchError::Json)));
}

#[test]
fn custom_line_roundtrip() {
    let rec = CustomDiffMap { remote_name: String::from("odd \"name\"\\path") };
    let line = encode_custom_line(&rec);
    let back = parse_custom_file(&line).unwrap();
    assert_eq!(back.len(), 1);
    assert_eq!(back[0].remote_name, rec.remote_name);
}

#[test]
fn delete_list_skips_blank_lines_and_trims() {
    let d = DeleteFiles::new(String::from("/game"), String::from("/game/deletefiles.txt"));
    let content = "  old.bin \n\nStarRail_Data/gone.dat\r\n   \n";
    let paths = d.removal_paths(content);
    assert_eq!(
        paths,
        vec![String::from("/game/old.bin"), String::from("/game/StarRail_Data/gone.dat")]
    );
}

#[test]
fn delete_list_empty_content_plans_nothing() {
    let d = DeleteFiles::new(String::from("/game"), String::from("/game/deletefiles.txt"));
    assert_eq!(d.removal_paths("\n\n  \n"), Vec::<String>::new());
}

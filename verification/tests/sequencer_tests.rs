use hdiff_apply::errors::AppError;
use hdiff_apply::manager::{
    PatchMethod, UpdateInfo, UpdateMgr, UpdateMode, UpdateStep, detect_archive_patch_method,
    get_update_archives, sort_candidates,
};
use hdiff_apply::version::BinaryVersion;

fn v(major: u32, minor: u32, patch: u32) -> BinaryVersion {
    BinaryVersion { major_version: major, minor_version: minor, patch_version: patch }
}

fn info(version: BinaryVersion) -> UpdateInfo {
    UpdateInfo {
        update_version: version,
        temp_path: String::from("/tmp/stage"),
        archive_path: String::from("/game/update.7z"),
        patch_method: PatchMethod::Hdiff,
    }
}

fn mgr(client: BinaryVersion) -> UpdateMgr {
    UpdateMgr::new(
        Vec::new(),
        String::from("/tmp"),
        client,
        String::from("/game"),
    )
}

fn chain_versions(m: &UpdateMgr) -> Vec<(u32, u32, u32)> {
    m.update_info
        .iter()
        .map(|u| {
            (
                u.update_version.major_version,
                u.update_version.minor_version,
                u.update_version.patch_version,
            )
        })
        .collect()
}

#[test]
fn sorts_then_walks_greedily() {
    // Unsorted arrival order; sorting makes the whole list one valid chain.
    let mut m = mgr(v(1, 0, 4));
    let infos = vec![info(v(1, 0, 5)), info(v(1, 0, 6)), info(v(1, 0, 8)), info(v(1, 0, 7))];
    m.prepare_updates(infos).unwrap();
    assert_eq!(chain_versions(&m), vec![(1, 0, 5), (1, 0, 6), (1, 0, 7), (1, 0, 8)]);
}

#[test]
fn gap_halts_the_chain() {
    let mut m = mgr(v(1, 0, 4));
    let infos = vec![info(v(1, 0, 5)), info(v(1, 0, 7)), info(v(1, 0, 8))];
    m.prepare_updates(infos).unwrap();
    assert_eq!(chain_versions(&m), vec![(1, 0, 5)]);
}

#[test]
fn minor_change_halts_the_chain() {
    let mut m = mgr(v(1, 0, 4));
    let infos = vec![info(v(1, 0, 5)), info(v(1, 1, 6))];
    m.prepare_updates(infos).unwrap();
    assert_eq!(chain_versions(&m), vec![(1, 0, 5)]);
}

#[test]
fn incompatible_candidates_fail() {
    let mut m = mgr(v(2, 0, 0));
    let infos = vec![info(v(1, 0, 5)), info(v(1, 2, 3))];
    let err = m.prepare_updates(infos).unwrap_err();
    match err {
        AppError::InvalidHdiffVersion(from, to) => {
            assert_eq!(from, "2.0.0");
            assert_eq!(to, "1.2.3");
        }
        other => panic!("unexpected error: {:?}", other),
    }
}

#[test]
fn no_candidates_fail_as_unknown() {
    let mut m = mgr(v(2, 0, 0));
    let err = m.prepare_updates(Vec::new()).unwrap_err();
    match err {
        AppError::InvalidHdiffVersion(from, to) => {
            assert_eq!(from, "2.0.0");
            assert_eq!(to, "unknown");
        }
        other => panic!("unexpected error: {:?}", other),
    }
}

#[test]
fn sort_orders_by_version_triple() {
    let sorted = sort_candidates(&vec![
        info(v(2, 0, 0)),
        info(v(1, 10, 0)),
        info(v(1, 2, 30)),
        info(v(1, 2, 4)),
    ]);
    let got: Vec<(u32, u32, u32)> = sorted
        .iter()
        .map(|u| {
            (
                u.update_version.major_version,
                u.update_version.minor_version,
                u.update_version.patch_version,
            )
        })
        .collect();
    assert_eq!(got, vec![(1, 2, 4), (1, 2, 30), (1, 10, 0), (2, 0, 0)]);
}

#[test]
fn detect_mode_prefers_archives() {
    let mut m = UpdateMgr::new(
        vec![String::from("/game/u.7z")],
        String::from("/tmp"),
        v(1, 0, 0),
        String::from("/game"),
    );
    assert_eq!(m.detect_update_mode(true, true, true, true), Ok(UpdateMode::Archives));
    assert_eq!(m.update_mode, Some(UpdateMode::Archives));
}

#[test]
fn detect_mode_legacy_variants() {
    let mut m = mgr(v(1, 0, 0));
    assert_eq!(
        m.detect_update_mode(false, true, false, false),
        Ok(UpdateMode::Legacy(PatchMethod::Ldiff))
    );
    assert_eq!(
        m.detect_update_mode(true, false, false, false),
        Ok(UpdateMode::Legacy(PatchMethod::Hdiff))
    );
    assert_eq!(
        m.detect_update_mode(false, false, true, true),
        Ok(UpdateMode::Legacy(PatchMethod::CustomMade))
    );
}

#[test]
fn detect_mode_ambiguous_is_fatal() {
    let mut m = mgr(v(1, 0, 0));
    assert_eq!(m.detect_update_mode(true, true, false, false), Err(AppError::AmbiguousUpdateSource));
}

#[test]
fn detect_mode_nothing_found_is_fatal() {
    let mut m = mgr(v(1, 0, 0));
    assert_eq!(m.detect_update_mode(false, false, false, false), Err(AppError::ArchiveNotFound));
    // A deletion list alone is not a custom-diff source.
    assert_eq!(m.detect_update_mode(false, false, true, false), Err(AppError::ArchiveNotFound));
}

#[test]
fn archive_method_follows_markers() {
    assert_eq!(detect_archive_patch_method(true, false), PatchMethod::Hdiff);
    assert_eq!(detect_archive_patch_method(true, true), PatchMethod::Hdiff);
    assert_eq!(detect_archive_patch_method(false, true), PatchMethod::CustomMade);
    assert_eq!(detect_archive_patch_method(false, false), PatchMethod::Ldiff);
}

#[test]
fn update_sequence_joins_patches_with_arrows() {
    let mut m = mgr(v(1, 0, 4));
    m.detect_update_mode(false, false, false, false).ok();
    let mut with_archives = UpdateMgr::new(
        vec![String::from("a.7z")],
        String::from("/tmp"),
        v(1, 0, 4),
        String::from("/game"),
    );
    with_archives.detect_update_mode(false, false, false, false).unwrap();
    with_archives
        .prepare_updates(vec![info(v(1, 0, 5)), info(v(1, 0, 6))])
        .unwrap();
    assert_eq!(with_archives.update_sequence(), "1.0.4 -> 5 -> 6");
}

#[test]
fn update_sequence_legacy_text() {
    let mut m = mgr(v(1, 0, 4));
    m.detect_update_mode(true, false, false, false).unwrap();
    assert_eq!(m.update_sequence(), "update to next version");
}

#[test]
fn staging_path_has_prefix_and_suffix() {
    let m = mgr(v(1, 0, 0));
    let p = m.make_staging_path(PatchMethod::Hdiff);
    assert!(p.starts_with("/tmp/hdiff_"));
    assert_eq!(p.chars().count(), "/tmp/hdiff_".chars().count() + 5);
    let q = m.make_staging_path(PatchMethod::Ldiff);
    assert!(q.starts_with("/tmp/ldiff_"));
    let c = m.make_staging_path(PatchMethod::CustomMade);
    assert!(c.starts_with("/tmp/chdiff_"));
}

#[test]
fn archive_filter_keeps_known_extensions() {
    let names = vec![
        String::from("update-1.0.5.7z"),
        String::from("notes.txt"),
        String::from("pack.ZIP"),
        String::from("old.rar"),
        String::from("bundle.tar"),
        String::from("archive.tar.gz"),
        String::from(".7z"),
    ];
    let got = get_update_archives(&names);
    assert_eq!(
        got,
        vec![
            String::from("update-1.0.5.7z"),
            String::from("pack.ZIP"),
            String::from("old.rar"),
            String::from("bundle.tar"),
        ]
    );
}

#[test]
fn update_plan_keeps_phases_in_order() {
    let mut m = mgr(v(1, 0, 4));
    m.prepare_updates(vec![info(v(1, 0, 5)), info(v(1, 0, 6))]).unwrap();
    let plan = m.update(true);
    assert_eq!(
        plan,
        vec![
            UpdateStep::Extract(0),
            UpdateStep::Verify(0),
            UpdateStep::Patch(0),
            UpdateStep::Delete(0),
            UpdateStep::Extract(1),
            UpdateStep::Verify(1),
            UpdateStep::Patch(1),
            UpdateStep::Delete(1),
        ]
    );
    let no_check = m.update(false);
    assert_eq!(
        no_check,
        vec![
            UpdateStep::Extract(0),
            UpdateStep::Patch(0),
            UpdateStep::Delete(0),
            UpdateStep::Extract(1),
            UpdateStep::Patch(1),
            UpdateStep::Delete(1),
        ]
    );
}

#[test]
fn incompatible_version_message_names_both_versions() {
    let e = AppError::InvalidHdiffVersion(String::from("2.0.0"), String::from("1.2.3"));
    assert_eq!(
        e.message(),
        "Incompatible hdiff version: cannot update client from 2.0.0 to 1.2.3"
    );
}

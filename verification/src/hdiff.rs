//! The archive-embedded and custom diff applicators' planning half: which
//! absolute paths one entry's patch touches, and which files are cleaned up
//! after the external patcher reports its per-file outcome.
//!
//! Patching tolerates per-file failure: a failed entry leaves its files
//! untouched and is only logged, while the batch continues. The caller runs
//! the external patcher; the decisions below are exact.

use vstd::prelude::*;
use crate::diff::{CustomDiffMap, DiffEntry, HDiffMap};
use crate::errors::PatchError;
use crate::json::{decode_diff_map, sp_diff_map};
use crate::text::{spec_join_path, join_path};

verus! {

/// Absolute paths of one patch invocation: pre-image (empty for a new
/// file), patch blob, and output.
pub struct PatchTask {
    pub source_path: String,
    pub patch_path: String,
    pub target_path: String,
}

/// The diff-map applicator: where the install root and the diff map sit.
pub struct HDiff {
    pub game_path: String,
    pub hdiffmap_path: String,
}

impl HDiff {
    pub fn new(game_path: String, hdiffmap_path: String) -> (r: Self)
        ensures
            r == (HDiff { game_path, hdiffmap_path }),
    {
        HDiff { game_path, hdiffmap_path }
    }

    /// Decodes the diff-map text the caller read from `hdiffmap_path`.
    pub fn load_diff_entries(&self, content: &str) -> (r: Result<Vec<DiffEntry>, PatchError>)
        ensures
            match r {
                Ok(v) => sp_diff_map(content@) == Some(v@.map_values(|e: DiffEntry| e@)),
                Err(e) => sp_diff_map(content@) is None && e == PatchError::Json,
            },
    {
        match decode_diff_map(content) {
            Ok(m) => Ok(m.diff_map),
            Err(e) => Err(e),
        }
    }

    /// Decodes the custom diff text the caller read from `hdiffmap_path`.
    pub fn load_custom_map(&self, content: &str) -> (r: Result<Vec<CustomDiffMap>, PatchError>)
        ensures
            match r {
                Ok(v) => crate::customdiff::sp_custom_file(content@) == Some(
                    v@.map_values(|c: CustomDiffMap| c.remote_name@),
                ),
                Err(e) => crate::customdiff::sp_custom_file(content@) is None && e
                    == PatchError::Json,
            },
    {
        crate::customdiff::parse_custom_file(content)
    }

    /// The paths one diff entry's patch invocation touches. A brand-new file
    /// (empty source name) patches from an empty source path.
    pub fn patch_task(&self, entry: &DiffEntry) -> (r: PatchTask)
        ensures
            entry.source_file_name@.len() == 0 ==> r.source_path@ == Seq::<char>::empty(),
            entry.source_file_name@.len() > 0 ==> r.source_path@ == spec_join_path(
                self.game_path@,
                entry.source_file_name@,
            ),
            r.patch_path@ == spec_join_path(self.game_path@, entry.patch_file_name@),
            r.target_path@ == spec_join_path(self.game_path@, entry.target_file_name@),
    {
        let source_path = if entry.source_file_name.as_str().is_empty() {
            String::new()
        } else {
            join_path(self.game_path.as_str(), entry.source_file_name.as_str())
        };
        PatchTask {
            source_path,
            patch_path: join_path(self.game_path.as_str(), entry.patch_file_name.as_str()),
            target_path: join_path(self.game_path.as_str(), entry.target_file_name.as_str()),
        }
    }

    /// The paths one custom record's patch invocation touches: the file is
    /// patched in place from a blob named after it.
    pub fn custom_patch_task(&self, entry: &CustomDiffMap) -> (r: PatchTask)
        ensures
            r.source_path@ == spec_join_path(self.game_path@, entry.remote_name@),
            r.target_path@ == spec_join_path(self.game_path@, entry.remote_name@),
            r.patch_path@ == spec_join_path(self.game_path@, entry.remote_name@ + ".hdiff"@),
    {
        let mut blob = entry.remote_name.clone();
        blob.append(".hdiff");
        PatchTask {
            source_path: join_path(self.game_path.as_str(), entry.remote_name.as_str()),
            patch_path: join_path(self.game_path.as_str(), blob.as_str()),
            target_path: join_path(self.game_path.as_str(), entry.remote_name.as_str()),
        }
    }
}

/// Files to remove after one patch attempt. On success the consumed patch
/// blob goes, and the pre-image too when it is a different file than the
/// target; a reported failure leaves everything in place.
pub fn cleanup_paths(task: &PatchTask, success: bool) -> (r: Vec<String>)
    ensures
        !success ==> r@.len() == 0,
        (success && (task.source_path@ == task.target_path@ || task.source_path@.len() == 0))
            ==> r@.map_values(|s: String| s@) == seq![task.patch_path@],
        (success && task.source_path@ != task.target_path@ && task.source_path@.len() > 0)
            ==> r@.map_values(|s: String| s@) == seq![task.patch_path@, task.source_path@],
{
    let mut r: Vec<String> = Vec::new();
    if success {
        r.push(task.patch_path.clone());
        if !task.source_path.as_str().is_empty() && !(task.source_path == task.target_path) {
            r.push(task.source_path.clone());
            proof {
                assert(r@.map_values(|s: String| s@) =~= seq![
                    task.patch_path@,
                    task.source_path@,
                ]);
            }
        } else {
            proof {
                assert(r@.map_values(|s: String| s@) =~= seq![task.patch_path@]);
            }
        }
    }
    r
}

} // verus!

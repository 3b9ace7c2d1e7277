//! The normalized diff record: one file's pre-image, post-image and patch
//! blob identity, as produced by all three decoders.

use vstd::prelude::*;

verus! {

/// One file's before/after/patch identity. An empty `source_file_name` marks
/// a brand-new file: no pre-image exists and the patch has no base.
#[derive(Debug)]
pub struct DiffEntry {
    pub source_file_name: String,
    pub source_file_md5: String,
    pub source_file_size: u64,
    pub target_file_name: String,
    pub target_file_md5: String,
    pub target_file_size: u64,
    pub patch_file_name: String,
}

/// Mathematical image of a [`DiffEntry`]: each name and hash as its
/// character sequence.
#[verifier::ext_equal]
pub ghost struct DiffEntryModel {
    pub source_file_name: Seq<char>,
    pub source_file_md5: Seq<char>,
    pub source_file_size: u64,
    pub target_file_name: Seq<char>,
    pub target_file_md5: Seq<char>,
    pub target_file_size: u64,
    pub patch_file_name: Seq<char>,
}

impl View for DiffEntry {
    type V = DiffEntryModel;

    open spec fn view(&self) -> DiffEntryModel {
        DiffEntryModel {
            source_file_name: self.source_file_name@,
            source_file_md5: self.source_file_md5@,
            source_file_size: self.source_file_size,
            target_file_name: self.target_file_name@,
            target_file_md5: self.target_file_md5@,
            target_file_size: self.target_file_size,
            patch_file_name: self.patch_file_name@,
        }
    }
}

/// The archive-embedded diff map: the list of diff entries under the
/// `diff_map` key of `hdiffmap.json`.
#[derive(Debug)]
pub struct HDiffMap {
    pub diff_map: Vec<DiffEntry>,
}

impl View for HDiffMap {
    type V = Seq<DiffEntryModel>;

    open spec fn view(&self) -> Seq<DiffEntryModel> {
        self.diff_map@.map_values(|e: DiffEntry| e@)
    }
}

/// One record of the line-delimited custom diff file: the relative path of a
/// file that has a patch blob named `<path>.hdiff` beside it.
#[derive(Debug)]
pub struct CustomDiffMap {
    pub remote_name: String,
}

} // verus!

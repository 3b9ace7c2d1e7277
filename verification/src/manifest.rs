//! The chunk-manifest decoder's verified half. The manifest container on
//! disk is a block-compressed serialized asset list; the caller decompresses
//! and decodes it into the plain [`Manifest`] model below. Everything the
//! format means — which diff entries it yields, how patch blobs are cut out
//! of chunk files, and which install files it leaves untracked — is decided
//! here with exact contracts.

use vstd::prelude::*;
use crate::diff::{DiffEntry, DiffEntryModel};
use crate::errors::IOError;

verus! {

/// One patch blob's placement: which chunk file holds it, where, how large,
/// and the pre-image identity of the file it patches. An empty
/// `original_file_path` marks a brand-new file.
pub struct ManifestChunk {
    pub chunk_file_name: String,
    pub hdiff_file_in_chunk_offset: u64,
    pub hdiff_file_size: u64,
    pub original_file_path: String,
    pub original_file_md5: String,
    pub original_file_size: u64,
}

/// One asset of the manifest: its post-image identity and the chunk
/// placements of its patch data, empty when the asset carries none.
pub struct ManifestAsset {
    pub asset_name: String,
    pub asset_hash_md5: String,
    pub asset_size: u64,
    pub chunks: Vec<ManifestChunk>,
}

/// The decoded manifest: the authoritative asset list of one update package.
pub struct Manifest {
    pub assets: Vec<ManifestAsset>,
}

/// The synthesized patch blob name for one chunk: the original path, or the
/// asset name for a brand-new file, with `.hdiff` appended.
pub open spec fn spec_patch_name(asset: &ManifestAsset, chunk: ManifestChunk) -> Seq<char> {
    if chunk.original_file_path@.len() == 0 {
        asset.asset_name@ + ".hdiff"@
    } else {
        chunk.original_file_path@ + ".hdiff"@
    }
}

/// The diff entry one chunk yields: pre-image identity from the chunk's
/// original fields, post-image identity from the asset itself.
pub open spec fn spec_chunk_entry(asset: &ManifestAsset, chunk: ManifestChunk) -> DiffEntryModel {
    DiffEntryModel {
        source_file_name: chunk.original_file_path@,
        source_file_md5: chunk.original_file_md5@,
        source_file_size: chunk.original_file_size,
        target_file_name: asset.asset_name@,
        target_file_md5: asset.asset_hash_md5@,
        target_file_size: asset.asset_size,
        patch_file_name: spec_patch_name(asset, chunk),
    }
}

/// All diff entries of one asset, in chunk order.
pub open spec fn spec_asset_entries(asset: &ManifestAsset) -> Seq<DiffEntryModel> {
    asset.chunks@.map_values(|c: ManifestChunk| spec_chunk_entry(asset, c))
}

/// All diff entries of the manifest, asset by asset.
pub open spec fn spec_manifest_entries(assets: Seq<ManifestAsset>) -> Seq<DiffEntryModel>
    decreases assets.len(),
{
    if assets.len() == 0 {
        Seq::empty()
    } else {
        spec_manifest_entries(assets.drop_last()) + spec_asset_entries(&assets.last())
    }
}

/// Some asset of the manifest is named `name`.
pub open spec fn spec_has_asset(assets: Seq<ManifestAsset>, name: Seq<char>) -> bool {
    exists|i: int| 0 <= i < assets.len() && #[trigger] assets[i].asset_name@ == name
}

/// The chunk-manifest decoder: the install root, the chunk-storage
/// directory, and the decoded manifest.
pub struct LDiff {
    pub game_path: String,
    pub ldiff_path: String,
    pub manifest: Manifest,
}

fn append_hdiff_suffix(base: &String) -> (r: String)
    ensures
        r@ == base@ + ".hdiff"@,
{
    let mut s = base.clone();
    s.append(".hdiff");
    s
}

/// The synthesized relative name under which one chunk's patch blob is
/// materialized in the install root.
pub fn chunk_patch_name(asset: &ManifestAsset, chunk: &ManifestChunk) -> (r: String)
    ensures
        r@ == spec_patch_name(asset, *chunk),
{
    if chunk.original_file_path.as_str().is_empty() {
        append_hdiff_suffix(&asset.asset_name)
    } else {
        append_hdiff_suffix(&chunk.original_file_path)
    }
}

impl LDiff {
    pub fn new(game_path: String, ldiff_path: String, manifest: Manifest) -> (r: Self)
        ensures
            r.game_path == game_path,
            r.ldiff_path == ldiff_path,
            r.manifest == manifest,
    {
        LDiff { game_path, ldiff_path, manifest }
    }

    /// One normalized diff entry per chunk of every asset that carries patch
    /// data, in manifest order. A pure mapping: no two entries share state.
    pub fn create_diff_entries(&self) -> (r: Vec<DiffEntry>)
        ensures
            r@.map_values(|e: DiffEntry| e@) == spec_manifest_entries(self.manifest.assets@),
    {
        let assets = &self.manifest.assets;
        let n = assets.len();
        let mut out: Vec<DiffEntry> = Vec::new();
        let mut i: usize = 0;
        proof {
            assert(assets@.take(0int) =~= Seq::<ManifestAsset>::empty());
            assert(out@.map_values(|e: DiffEntry| e@) =~= spec_manifest_entries(
                assets@.take(0int),
            ));
        }
        while i < n
            invariant
                i <= n == assets@.len(),
                assets == self.manifest.assets,
                out@.map_values(|e: DiffEntry| e@) == spec_manifest_entries(
                    assets@.take(i as int),
                ),
            decreases n - i,
        {
            let asset = &assets[i];
            let m = asset.chunks.len();
            let mut j: usize = 0;
            while j < m
                invariant
                    j <= m == asset.chunks@.len(),
                    asset == &assets@[i as int],
                    i < n == assets@.len(),
                    assets == self.manifest.assets,
                    out@.map_values(|e: DiffEntry| e@) == spec_manifest_entries(
                        assets@.take(i as int),
                    ) + asset.chunks@.take(j as int).map_values(
                        |c: ManifestChunk| spec_chunk_entry(asset, c),
                    ),
                decreases m - j,
            {
                let chunk = &asset.chunks[j];
                let patch_file_name = chunk_patch_name(asset, chunk);
                let entry = DiffEntry {
                    source_file_name: chunk.original_file_path.clone(),
                    source_file_md5: chunk.original_file_md5.clone(),
                    source_file_size: chunk.original_file_size,
                    target_file_name: asset.asset_name.clone(),
                    target_file_md5: asset.asset_hash_md5.clone(),
                    target_file_size: asset.asset_size,
                    patch_file_name,
                };
                proof {
                    assert(entry@ =~= spec_chunk_entry(asset, asset.chunks@[j as int]));
                }
                let ghost outv = out@;
                out.push(entry);
                proof {
                    let f = |e: DiffEntry| e@;
                    let g = |c: ManifestChunk| spec_chunk_entry(asset, c);
                    assert(asset.chunks@.take(j + 1) =~= asset.chunks@.take(j as int).push(
                        asset.chunks@[j as int],
                    ));
                    assert(out@.map_values(f) =~= outv.map_values(f).push(entry@));
                    assert(asset.chunks@.take(j + 1).map_values(g) =~= asset.chunks@.take(
                        j as int,
                    ).map_values(g).push(g(asset.chunks@[j as int])));
                    assert(out@.map_values(f) =~= spec_manifest_entries(assets@.take(i as int))
                        + asset.chunks@.take(j + 1).map_values(g));
                }
                j = j + 1;
            }
            proof {
                assert(asset.chunks@.take(m as int) =~= asset.chunks@);
                let pre = assets@.take(i + 1);
                assert(pre.drop_last() =~= assets@.take(i as int));
                assert(pre.last() == assets@[i as int]);
                assert(spec_manifest_entries(pre) == spec_manifest_entries(assets@.take(i as int))
                    + spec_asset_entries(&assets@[i as int]));
            }
            i = i + 1;
        }
        proof {
            assert(assets@.take(n as int) =~= assets@);
        }
        out
    }

    /// The first chunk file the manifest references that is not among the
    /// names present in the chunk-storage directory, if any. Every
    /// referenced chunk file must exist before extraction begins.
    pub fn first_missing_chunk(&self, present: &Vec<String>) -> (r: Option<String>)
        ensures
            match r {
                None => forall|i: int, j: int|
                    0 <= i < self.manifest.assets@.len() && 0 <= j
                        < self.manifest.assets@[i].chunks@.len() ==> spec_name_present(
                        present@,
                        #[trigger] self.manifest.assets@[i].chunks@[j].chunk_file_name@,
                    ),
                Some(name) => exists|i: int, j: int|
                    0 <= i < self.manifest.assets@.len() && 0 <= j
                        < self.manifest.assets@[i].chunks@.len() && #[trigger] self.manifest.assets@[i].chunks@[j].chunk_file_name@
                        == name@ && !spec_name_present(present@, name@),
            },
    {
        let assets = &self.manifest.assets;
        let n = assets.len();
        let mut i: usize = 0;
        while i < n
            invariant
                i <= n == assets@.len(),
                assets == self.manifest.assets,
                forall|a: int, b: int|
                    0 <= a < i && 0 <= b < assets@[a].chunks@.len() ==> spec_name_present(
                        present@,
                        #[trigger] assets@[a].chunks@[b].chunk_file_name@,
                    ),
            decreases n - i,
        {
            let chunks = &assets[i].chunks;
            let m = chunks.len();
            let mut j: usize = 0;
            while j < m
                invariant
                    j <= m == chunks@.len(),
                    chunks == &assets@[i as int].chunks,
                    i < n == assets@.len(),
                    assets == self.manifest.assets,
                    forall|b: int|
                        0 <= b < j ==> spec_name_present(
                            present@,
                            #[trigger] chunks@[b].chunk_file_name@,
                        ),
                decreases m - j,
            {
                if !name_present(present, &chunks[j].chunk_file_name) {
                    let name = chunks[j].chunk_file_name.clone();
                    proof {
                        let wi = i as int;
                        let wj = j as int;
                        assert(self.manifest.assets@[wi].chunks@[wj].chunk_file_name@ == name@
                            && !spec_name_present(present@, name@));
                    }
                    return Some(name);
                }
                j = j + 1;
            }
            i = i + 1;
        }
        None
    }

    /// The files of the install tree that the manifest does not track, in
    /// input order: exactly those whose relative path is not an asset name.
    /// Reconciliation removes them all.
    pub fn untracked_files(&self, all_files: &Vec<String>) -> (r: Vec<String>)
        ensures
            r@.map_values(|s: String| s@) == all_files@.map_values(|s: String| s@).filter(
                |f: Seq<char>| !spec_has_asset(self.manifest.assets@, f),
            ),
    {
        let n = all_files.len();
        let mut out: Vec<String> = Vec::new();
        let mut i: usize = 0;
        let ghost pred = |f: Seq<char>| !spec_has_asset(self.manifest.assets@, f);
        proof {
            reveal(Seq::filter);
            assert(all_files@.map_values(|s: String| s@).take(0int) =~= Seq::<Seq<char>>::empty());
            assert(out@.map_values(|s: String| s@) =~= all_files@.map_values(
                |s: String| s@,
            ).take(0int).filter(pred));
        }
        while i < n
            invariant
                i <= n == all_files@.len(),
                out@.map_values(|s: String| s@) == all_files@.map_values(|s: String| s@).take(
                    i as int,
                ).filter(pred),
                pred == (|f: Seq<char>| !spec_has_asset(self.manifest.assets@, f)),
            decreases n - i,
        {
            let ghost views = all_files@.map_values(|s: String| s@);
            proof {
                reveal(Seq::filter);
                assert(views.take(i + 1).drop_last() =~= views.take(i as int));
                assert(views.take(i + 1).last() == views[i as int]);
                assert(views[i as int] == all_files@[i as int]@);
            }
            let is_asset = asset_named(&self.manifest.assets, &all_files[i]);
            if !is_asset {
                let ghost outv = out@;
                out.push(all_files[i].clone());
                proof {
                    let f = |s: String| s@;
                    assert(out@.map_values(f) =~= outv.map_values(f).push(all_files@[i as int]@));
                }
            }
            i = i + 1;
        }
        proof {
            assert(all_files@.map_values(|s: String| s@).take(n as int) =~= all_files@.map_values(
                |s: String| s@,
            ));
        }
        out
    }
}

/// `name` occurs in the list.
pub open spec fn spec_name_present(names: Seq<String>, name: Seq<char>) -> bool {
    exists|i: int| 0 <= i < names.len() && #[trigger] names[i]@ == name
}

fn name_present(names: &Vec<String>, name: &String) -> (r: bool)
    ensures
        r == spec_name_present(names@, name@),
{
    let n = names.len();
    let mut i: usize = 0;
    while i < n
        invariant
            i <= n == names@.len(),
            forall|j: int| 0 <= j < i ==> #[trigger] names@[j]@ != name@,
        decreases n - i,
    {
        if names[i].eq(name) {
            return true;
        }
        i = i + 1;
    }
    false
}

fn asset_named(assets: &Vec<ManifestAsset>, name: &String) -> (r: bool)
    ensures
        r == spec_has_asset(assets@, name@),
{
    let n = assets.len();
    let mut i: usize = 0;
    while i < n
        invariant
            i <= n == assets@.len(),
            forall|j: int| 0 <= j < i ==> #[trigger] assets@[j].asset_name@ != name@,
        decreases n - i,
    {
        if assets[i].asset_name.eq(name) {
            return true;
        }
        i = i + 1;
    }
    false
}

/// Cuts one patch blob out of a chunk file's bytes: exactly `size` bytes
/// from `offset`. When fewer bytes are available than declared, the cut
/// fails loudly instead of returning a short read.
pub fn extract_chunk_region(chunk_name: &String, data: &[u8], offset: u64, size: u64) -> (r: Result<
    Vec<u8>,
    IOError,
>)
    ensures
        offset + size <= data@.len() ==> (r matches Ok(blob) && blob@ == data@.subrange(
            offset as int,
            offset + size,
        )),
        offset + size > data@.len() ==> (r matches Err(IOError::ReadBuffer { path, detail: _ })
            && path@ == chunk_name@),
{
    let n = data.len();
    let failed = match offset.checked_add(size) {
        None => true,
        Some(end) => end > n as u64,
    };
    if failed {
        let detail = String::new();
        return Err(IOError::ReadBuffer { path: chunk_name.clone(), detail });
    }
    let a = offset as usize;
    let b = (offset + size) as usize;
    Ok(vstd::slice::slice_to_vec(&data[a..b]))
}

} // verus!

//! The update manager's decision core: which update source mode a probe of
//! the install root selects, which decoder an archive's markers select, how
//! candidate packages are ordered and filtered into the longest valid
//! update chain, and the strict phase order in which one run applies its
//! packages. The surrounding I/O — listing directories, probing and
//! extracting archives, running the external tools — happens outside and
//! feeds plain values in.

use vstd::prelude::*;
use vstd::multiset::Multiset;
use crate::errors::AppError;
use crate::text::spec_join_path;
use crate::version::{BinaryVersion, spec_is_successor, spec_version_string, verify_version};

verus! {

/// Which decoder one update package uses.
#[derive(Clone, Copy, Debug, PartialEq, Eq, Structural)]
pub enum PatchMethod {
    /// Archive-embedded JSON diff map.
    Hdiff,
    /// Compressed chunk manifest.
    Ldiff,
    /// Line-delimited custom diff.
    CustomMade,
}

/// Where the update data comes from: packaged archives, or files already
/// extracted into the install root.
#[derive(Clone, Copy, Debug, PartialEq, Eq, Structural)]
pub enum UpdateMode {
    Archives,
    Legacy(PatchMethod),
}

/// One candidate update package: its target version, its staging directory,
/// the archive it came from, and its decoder.
#[derive(Debug)]
pub struct UpdateInfo {
    pub update_version: BinaryVersion,
    pub temp_path: String,
    pub archive_path: String,
    pub patch_method: PatchMethod,
}

/// Total order on versions by (major, minor, patch).
pub open spec fn version_le(a: BinaryVersion, b: BinaryVersion) -> bool {
    if a.major_version != b.major_version {
        a.major_version < b.major_version
    } else if a.minor_version != b.minor_version {
        a.minor_version < b.minor_version
    } else {
        a.patch_version <= b.patch_version
    }
}

/// The packages are in ascending version order.
pub open spec fn sorted_by_version(s: Seq<UpdateInfo>) -> bool {
    forall|i: int, j: int|
        0 <= i < j < s.len() ==> version_le(
            #[trigger] s[i].update_version,
            #[trigger] s[j].update_version,
        )
}

/// A valid update chain from the client version: each package is the direct
/// successor of what precedes it.
pub open spec fn chain_ok(client: BinaryVersion, s: Seq<UpdateInfo>) -> bool {
    &&& (s.len() > 0 ==> spec_is_successor(client, s[0].update_version))
    &&& forall|i: int|
        0 <= i < s.len() - 1 ==> spec_is_successor(
            #[trigger] s[i].update_version,
            s[i + 1].update_version,
        )
}

fn version_le_exec(a: &BinaryVersion, b: &BinaryVersion) -> (r: bool)
    ensures
        r == version_le(*a, *b),
{
    if a.major_version != b.major_version {
        a.major_version < b.major_version
    } else if a.minor_version != b.minor_version {
        a.minor_version < b.minor_version
    } else {
        a.patch_version <= b.patch_version
    }
}

/// Inserts one candidate into an already sorted list, keeping it sorted.
fn sorted_insert(out: &mut Vec<UpdateInfo>, x: UpdateInfo)
    requires
        sorted_by_version(old(out)@),
    ensures
        sorted_by_version(final(out)@),
        final(out)@.to_multiset() == old(out)@.to_multiset().insert(x),
{
    let n = out.len();
    let mut k: usize = 0;
    let mut stop = false;
    while !stop && k < n
        invariant
            k <= n == out@.len(),
            out@ == old(out)@,
            forall|j: int| 0 <= j < k ==> version_le(
                (#[trigger] out@[j]).update_version,
                x.update_version,
            ),
            stop ==> k < n && !version_le(out@[k as int].update_version, x.update_version),
        decreases n - k, if stop { 0int } else { 1int },
    {
        if version_le_exec(&out[k].update_version, &x.update_version) {
            k = k + 1;
        } else {
            stop = true;
        }
    }
    let ghost pre = out@;
    out.insert(k, x);
    proof {
        let s = pre.insert(k as int, x);
        assert(out@ == s);
        assert forall|i: int, j: int| 0 <= i < j < s.len() implies version_le(
            (#[trigger] s[i]).update_version,
            (#[trigger] s[j]).update_version,
        ) by {
            // Total order: when `a <= b` fails, `b <= a` holds.
            assert(forall|a: BinaryVersion, b: BinaryVersion|
                !version_le(a, b) ==> version_le(b, a));
        }
        assert(s =~= pre.take(k as int) + (seq![x] + pre.skip(k as int)));
        lemma_concat_multiset(pre.take(k as int), seq![x] + pre.skip(k as int));
        lemma_concat_multiset(seq![x], pre.skip(k as int));
        assert(seq![x] =~= Seq::<UpdateInfo>::empty().push(x));
        Seq::<UpdateInfo>::empty().to_multiset_ensures();
        assert(seq![x].to_multiset() =~= Multiset::<UpdateInfo>::empty().insert(x));
        lemma_concat_multiset(pre.take(k as int), pre.skip(k as int));
        assert(pre.take(k as int) + pre.skip(k as int) =~= pre);
        assert(s.to_multiset() =~= pre.to_multiset().insert(x));
    }
}

/// Concatenation adds multisets.
proof fn lemma_concat_multiset(a: Seq<UpdateInfo>, b: Seq<UpdateInfo>)
    ensures
        (a + b).to_multiset() == a.to_multiset().add(b.to_multiset()),
{
    vstd::seq_lib::lemma_multiset_commutative(a, b);
}

/// Sorts the candidate packages by target version, ascending. The input
/// order carries no meaning: packages may be discovered concurrently.
pub fn sort_candidates(v: &Vec<UpdateInfo>) -> (r: Vec<UpdateInfo>)
    ensures
        sorted_by_version(r@),
        r@.to_multiset() == v@.to_multiset(),
{
    let ghost orig = v@;
    let mut out: Vec<UpdateInfo> = Vec::new();
    proof {
        orig.to_multiset_ensures();
        assert(out@.to_multiset() =~= orig.take(0int).to_multiset()) by {
            assert(out@ =~= orig.take(0int));
        }
    }
    let mut i: usize = 0;
    let n = v.len();
    // Consume the input front to back, inserting each into place.
    while i < n
        invariant
            i <= n == v@.len(),
            v@ == orig,
            sorted_by_version(out@),
            out@.to_multiset() == orig.take(i as int).to_multiset(),
        decreases n - i,
    {
        let x = clone_info(&v[i]);
        proof {
            assert(orig.take(i + 1) =~= orig.take(i as int).push(orig[i as int]));
            orig.take(i as int).to_multiset_ensures();
        }
        sorted_insert(&mut out, x);
        i = i + 1;
    }
    proof {
        assert(orig.take(n as int) =~= orig);
    }
    out
}

fn clone_string(s: &String) -> (r: String)
    ensures
        r == *s,
{
    s.clone()
}

fn clone_info(x: &UpdateInfo) -> (r: UpdateInfo)
    ensures
        r == *x,
{
    let r = UpdateInfo {
        update_version: x.update_version,
        temp_path: clone_string(&x.temp_path),
        archive_path: clone_string(&x.archive_path),
        patch_method: x.patch_method,
    };
    proof {
        assert(r == *x);
    }
    r
}

/// Length of the longest valid chain that is a prefix of the sorted
/// candidates: the walk stops at the first package that is not the direct
/// successor, and never skips forward.
#[verifier::rlimit(100)]
pub fn longest_chain_len(client: &BinaryVersion, sorted: &Vec<UpdateInfo>) -> (k: usize)
    ensures
        k <= sorted@.len(),
        chain_ok(*client, sorted@.take(k as int)),
        k < sorted@.len() ==> !chain_ok(*client, sorted@.take(k + 1)),
{
    let n = sorted.len();
    let mut k: usize = 0;
    let mut cur = *client;
    while k < n
        invariant
            k <= n == sorted@.len(),
            chain_ok(*client, sorted@.take(k as int)),
            cur == if k == 0 {
                *client
            } else {
                sorted@[k - 1].update_version
            },
        decreases n - k,
    {
        if !verify_version(&cur, &sorted[k].update_version) {
            proof {
                let pre = sorted@.take(k + 1);
                if k == 0 {
                    assert(pre[0] == sorted@[0]);
                    assert(!chain_ok(*client, pre));
                } else {
                    assert(pre[k - 1].update_version == cur);
                    assert(!spec_is_successor(pre[k - 1].update_version, pre[k as int].update_version));
                    assert(!chain_ok(*client, pre));
                }
            }
            return k;
        }
        proof {
            let pre = sorted@.take(k + 1);
            assert(pre.take(k as int) =~= sorted@.take(k as int));
            assert forall|i: int| 0 <= i < pre.len() - 1 implies spec_is_successor(
                (#[trigger] pre[i]).update_version,
                pre[i + 1].update_version,
            ) by {
                assert(pre[i] == sorted@[i]);
                assert(pre[i + 1] == sorted@[i + 1]);
                if i < k - 1 {
                    assert(spec_is_successor(
                        sorted@.take(k as int)[i].update_version,
                        sorted@.take(k as int)[i + 1].update_version,
                    ));
                }
            }
        }
        cur = sorted[k].update_version;
        k = k + 1;
    }
    k
}

/// What a probe of the install root selects. Archives present win; else a
/// manifest means the chunk-manifest mode, a diff map the archive-embedded
/// map mode, a deletion list with a custom diff file the custom mode; a
/// manifest and a diff map together are an ambiguous, fatal configuration;
/// nothing at all means there is no update source.
pub open spec fn spec_detect_mode(
    has_archives: bool,
    has_hdiffmap: bool,
    has_manifest: bool,
    has_deletefiles: bool,
    has_hdifffiles: bool,
) -> Result<UpdateMode, AppError> {
    if has_archives {
        Ok(UpdateMode::Archives)
    } else if has_hdiffmap && has_manifest {
        Err(AppError::AmbiguousUpdateSource)
    } else if has_manifest {
        Ok(UpdateMode::Legacy(PatchMethod::Ldiff))
    } else if has_hdiffmap {
        Ok(UpdateMode::Legacy(PatchMethod::Hdiff))
    } else if has_deletefiles && has_hdifffiles {
        Ok(UpdateMode::Legacy(PatchMethod::CustomMade))
    } else {
        Err(AppError::ArchiveNotFound)
    }
}

/// Which decoder an archive's marker files select: a diff map wins, then a
/// custom diff file, else the chunk manifest is assumed.
pub open spec fn spec_archive_patch_method(has_hdiffmap: bool, has_hdifffiles: bool) -> PatchMethod {
    if has_hdiffmap {
        PatchMethod::Hdiff
    } else if has_hdifffiles {
        PatchMethod::CustomMade
    } else {
        PatchMethod::Ldiff
    }
}

/// Decides an archive's decoder from its probed marker files.
pub fn detect_archive_patch_method(has_hdiffmap: bool, has_hdifffiles: bool) -> (r: PatchMethod)
    ensures
        r == spec_archive_patch_method(has_hdiffmap, has_hdifffiles),
{
    if has_hdiffmap {
        PatchMethod::Hdiff
    } else if has_hdifffiles {
        PatchMethod::CustomMade
    } else {
        PatchMethod::Ldiff
    }
}

/// The staging directory prefix of one decoder.
pub open spec fn spec_staging_prefix(m: PatchMethod) -> Seq<char> {
    match m {
        PatchMethod::Hdiff => "hdiff_"@,
        PatchMethod::Ldiff => "ldiff_"@,
        PatchMethod::CustomMade => "chdiff_"@,
    }
}

/// Relies on rand's `Alphanumeric` distribution and `Rng::sample_iter`:
/// sampling yields one alphanumeric ASCII character per draw, so taking
/// `len` of them gives a string of exactly `len` characters.
#[verifier::external_body]
fn random_alphanumeric(len: usize) -> (r: String)
    ensures
        r@.len() == len,
{
    rand::Rng::sample_iter(rand::rng(), &rand::distr::Alphanumeric).take(len).map(
        char::from,
    ).collect()
}

/// One phase of applying one package; the phases of a package run strictly
/// in this order, and packages strictly in chain order.
#[derive(Clone, Copy, Debug, PartialEq, Eq, Structural)]
pub enum UpdateStep {
    /// Extract package `0`'s payload into the install root.
    Extract(usize),
    /// Hold every pre-image of package `0` against the disk.
    Verify(usize),
    /// Apply package `0`'s diff entries.
    Patch(usize),
    /// Remove the files package `0` deletes.
    Delete(usize),
}

/// The strictly ordered steps of applying packages `0..n`: each package's
/// phases in order, each package complete before the next begins.
pub open spec fn spec_update_plan(n: int, do_integrity_check: bool) -> Seq<UpdateStep>
    decreases n,
{
    if n <= 0 {
        Seq::empty()
    } else {
        let i = (n - 1) as usize;
        spec_update_plan(n - 1, do_integrity_check) + (if do_integrity_check {
            seq![
                UpdateStep::Extract(i),
                UpdateStep::Verify(i),
                UpdateStep::Patch(i),
                UpdateStep::Delete(i),
            ]
        } else {
            seq![UpdateStep::Extract(i), UpdateStep::Patch(i), UpdateStep::Delete(i)]
        })
    }
}

/// The update manager: the discovered archives, the resolved package chain,
/// and the paths and client version of one run. The chain is built once and
/// only truncated; packages are applied strictly in order.
pub struct UpdateMgr {
    pub update_archives_paths: Vec<String>,
    pub update_info: Vec<UpdateInfo>,
    pub temp_dir_path: String,
    pub client_version: BinaryVersion,
    pub game_path: String,
    pub update_mode: Option<UpdateMode>,
}

impl UpdateMgr {
    pub fn new(
        update_archives_paths: Vec<String>,
        temp_dir_path: String,
        client_version: BinaryVersion,
        game_path: String,
    ) -> (r: Self)
        ensures
            r.update_archives_paths == update_archives_paths,
            r.update_info@.len() == 0,
            r.temp_dir_path == temp_dir_path,
            r.client_version == client_version,
            r.game_path == game_path,
            r.update_mode is None,
    {
        UpdateMgr {
            update_archives_paths,
            update_info: Vec::new(),
            temp_dir_path,
            client_version,
            game_path,
            update_mode: None,
        }
    }

    /// Selects the update mode from what the caller found on disk and
    /// remembers it. The probe results are passed in as plain facts.
    pub fn detect_update_mode(
        &mut self,
        has_hdiffmap: bool,
        has_manifest: bool,
        has_deletefiles: bool,
        has_hdifffiles: bool,
    ) -> (r: Result<UpdateMode, AppError>)
        ensures
            r == spec_detect_mode(
                old(self).update_archives_paths@.len() > 0,
                has_hdiffmap,
                has_manifest,
                has_deletefiles,
                has_hdifffiles,
            ),
            final(self).update_archives_paths == old(self).update_archives_paths,
            final(self).update_info == old(self).update_info,
            final(self).temp_dir_path == old(self).temp_dir_path,
            final(self).client_version == old(self).client_version,
            final(self).game_path == old(self).game_path,
            match r {
                Ok(m) => final(self).update_mode == Some(m),
                Err(_) => final(self).update_mode == old(self).update_mode,
            },
    {
        if self.update_archives_paths.len() > 0 {
            self.update_mode = Some(UpdateMode::Archives);
            return Ok(UpdateMode::Archives);
        }
        if has_hdiffmap && has_manifest {
            return Err(AppError::AmbiguousUpdateSource);
        }
        if has_manifest {
            self.update_mode = Some(UpdateMode::Legacy(PatchMethod::Ldiff));
            return Ok(UpdateMode::Legacy(PatchMethod::Ldiff));
        }
        if has_hdiffmap {
            self.update_mode = Some(UpdateMode::Legacy(PatchMethod::Hdiff));
            return Ok(UpdateMode::Legacy(PatchMethod::Hdiff));
        }
        if has_deletefiles && has_hdifffiles {
            self.update_mode = Some(UpdateMode::Legacy(PatchMethod::CustomMade));
            return Ok(UpdateMode::Legacy(PatchMethod::CustomMade));
        }
        Err(AppError::ArchiveNotFound)
    }

    /// A fresh staging directory path under the temp directory: the
    /// decoder's prefix and a five-character random suffix.
    pub fn make_staging_path(&self, method: PatchMethod) -> (r: String)
        ensures
            exists|sfx: Seq<char>|
                sfx.len() == 5 && r@ == spec_join_path(
                    self.temp_dir_path@,
                    spec_staging_prefix(method) + sfx,
                ),
    {
        let sfx = random_alphanumeric(5);
        let mut name = match method {
            PatchMethod::Hdiff => {
                let mut s = String::new();
                s.append("hdiff_");
                s
            },
            PatchMethod::Ldiff => {
                let mut s = String::new();
                s.append("ldiff_");
                s
            },
            PatchMethod::CustomMade => {
                let mut s = String::new();
                s.append("chdiff_");
                s
            },
        };
        name.append(sfx.as_str());
        proof {
            assert(name@ =~= spec_staging_prefix(method) + sfx@);
        }
        let r = crate::text::join_path(self.temp_dir_path.as_str(), name.as_str());
        proof {
            let ghost w = sfx@;
            assert(w.len() == 5 && r@ == spec_join_path(
                self.temp_dir_path@,
                spec_staging_prefix(method) + w,
            ));
        }
        r
    }

    /// Orders the candidate packages by version and keeps exactly the
    /// longest valid chain starting at the client version; trailing
    /// incompatible packages are silently discarded. With no compatible
    /// candidate at all the run fails, naming the client version and the
    /// highest candidate version.
    pub fn fix_update_sequence(&mut self) -> (r: Result<(), AppError>)
        ensures
            final(self).update_archives_paths == old(self).update_archives_paths,
            final(self).temp_dir_path == old(self).temp_dir_path,
            final(self).client_version == old(self).client_version,
            final(self).game_path == old(self).game_path,
            final(self).update_mode == old(self).update_mode,
            match r {
                Ok(()) => exists|s: Seq<UpdateInfo>, k: int|
                    {
                        &&& #[trigger] s.take(k) == final(self).update_info@
                        &&& s.to_multiset() == old(self).update_info@.to_multiset()
                        &&& sorted_by_version(s)
                        &&& 1 <= k <= s.len()
                        &&& chain_ok(old(self).client_version, s.take(k))
                        &&& (k == s.len() || !chain_ok(old(self).client_version, s.take(k + 1)))
                    },
                Err(e) => exists|s: Seq<UpdateInfo>|
                    {
                        &&& #[trigger] s.to_multiset() == old(self).update_info@.to_multiset()
                        &&& sorted_by_version(s)
                        &&& (s.len() == 0 || !spec_is_successor(
                            old(self).client_version,
                            s[0].update_version,
                        ))
                        &&& final(self).update_info@ == s
                        &&& match e {
                            AppError::InvalidHdiffVersion(from, to) => {
                                &&& from@ == spec_version_string(old(self).client_version)
                                &&& if s.len() == 0 {
                                    to@ == "unknown"@
                                } else {
                                    to@ == spec_version_string(s.last().update_version)
                                }
                            },
                            _ => false,
                        }
                    },
            },
    {
        let mut sorted = sort_candidates(&self.update_info);
        let k = longest_chain_len(&self.client_version, &sorted);
        if k == 0 {
            let from = self.client_version.to_version_string();
            let to = if sorted.len() == 0 {
                let mut s = String::new();
                s.append("unknown");
                proof {
                    assert(s@ =~= "unknown"@);
                }
                s
            } else {
                sorted[sorted.len() - 1].update_version.to_version_string()
            };
            let ghost sv = sorted@;
            self.update_info = sorted;
            proof {
                if sv.len() > 0 {
                    assert(sv.take(1)[0] == sv[0]);
                    assert(!chain_ok(old(self).client_version, sv.take(1int)));
                    assert(!spec_is_successor(old(self).client_version, sv[0].update_version));
                }
            }
            return Err(AppError::InvalidHdiffVersion(from, to));
        }
        let ghost sv = sorted@;
        sorted.truncate(k);
        self.update_info = sorted;
        proof {
            let ghost wk = k as int;
            assert(sv.take(wk) == final(self).update_info@ && sv.to_multiset() == old(
                self,
            ).update_info@.to_multiset() && sorted_by_version(sv) && 1 <= wk <= sv.len()
                && chain_ok(old(self).client_version, sv.take(wk)) && (wk == sv.len()
                || !chain_ok(old(self).client_version, sv.take(wk + 1))));
        }
        Ok(())
    }

    /// Stores the discovered candidate packages and resolves the chain.
    pub fn prepare_updates(&mut self, infos: Vec<UpdateInfo>) -> (r: Result<(), AppError>)
        ensures
            final(self).update_archives_paths == old(self).update_archives_paths,
            final(self).temp_dir_path == old(self).temp_dir_path,
            final(self).client_version == old(self).client_version,
            final(self).game_path == old(self).game_path,
            final(self).update_mode == old(self).update_mode,
            match r {
                Ok(()) => exists|s: Seq<UpdateInfo>, k: int|
                    {
                        &&& #[trigger] s.take(k) == final(self).update_info@
                        &&& s.to_multiset() == infos@.to_multiset()
                        &&& sorted_by_version(s)
                        &&& 1 <= k <= s.len()
                        &&& chain_ok(old(self).client_version, s.take(k))
                        &&& (k == s.len() || !chain_ok(old(self).client_version, s.take(k + 1)))
                    },
                Err(e) => exists|s: Seq<UpdateInfo>|
                    {
                        &&& #[trigger] s.to_multiset() == infos@.to_multiset()
                        &&& sorted_by_version(s)
                        &&& (s.len() == 0 || !spec_is_successor(
                            old(self).client_version,
                            s[0].update_version,
                        ))
                        &&& final(self).update_info@ == s
                        &&& match e {
                            AppError::InvalidHdiffVersion(from, to) => {
                                &&& from@ == spec_version_string(old(self).client_version)
                                &&& if s.len() == 0 {
                                    to@ == "unknown"@
                                } else {
                                    to@ == spec_version_string(s.last().update_version)
                                }
                            },
                            _ => false,
                        }
                    },
            },
    {
        self.update_info = infos;
        self.fix_update_sequence()
    }

    /// The human-readable update sequence: the client version, then each
    /// package's patch number, arrow-joined; legacy modes have no resolved
    /// chain to show.
    pub fn update_sequence(&self) -> (r: String)
        ensures
            r@ == spec_update_sequence(self.update_mode, self.client_version, self.update_info@),
    {
        match self.update_mode {
            None => {
                let s = String::new();
                proof {
                    assert(s@ =~= spec_update_sequence(
                        self.update_mode,
                        self.client_version,
                        self.update_info@,
                    ));
                }
                s
            },
            Some(UpdateMode::Legacy(_)) => {
                let mut s = String::new();
                s.append("update to next version");
                proof {
                    assert(s@ =~= spec_update_sequence(
                        self.update_mode,
                        self.client_version,
                        self.update_info@,
                    ));
                }
                s
            },
            Some(UpdateMode::Archives) => {
                let mut s = self.client_version.to_version_string();
                let n = self.update_info.len();
                let mut i: usize = 0;
                while i < n
                    invariant
                        i <= n == self.update_info@.len(),
                        s@ == spec_version_string(self.client_version) + spec_arrow_tail(
                            self.update_info@.take(i as int),
                        ),
                    decreases n - i,
                {
                    s.append(" -> ");
                    let num = crate::decimal::u64_to_string(
                        self.update_info[i].update_version.patch_version as u64,
                    );
                    s.append(num.as_str());
                    proof {
                        let pre = self.update_info@.take(i + 1);
                        assert(pre.drop_last() =~= self.update_info@.take(i as int));
                        assert(pre.last() == self.update_info@[i as int]);
                        assert(s@ =~= spec_version_string(self.client_version) + spec_arrow_tail(
                            pre,
                        ));
                    }
                    i = i + 1;
                }
                proof {
                    assert(self.update_info@.take(n as int) =~= self.update_info@);
                }
                s
            },
        }
    }

    /// The ordered steps of this run: one package at a time, extract, then
    /// (when asked) verify, then patch, then delete; package `n + 1` never
    /// starts before package `n`'s delete phase is done.
    pub fn update(&self, do_integrity_check: bool) -> (r: Vec<UpdateStep>)
        ensures
            r@ == spec_update_plan(self.update_info@.len() as int, do_integrity_check),
    {
        let n = self.update_info.len();
        let mut plan: Vec<UpdateStep> = Vec::new();
        let mut i: usize = 0;
        proof {
            assert(plan@ =~= spec_update_plan(0, do_integrity_check));
        }
        while i < n
            invariant
                i <= n,
                plan@ == spec_update_plan(i as int, do_integrity_check),
            decreases n - i,
        {
            plan.push(UpdateStep::Extract(i));
            if do_integrity_check {
                plan.push(UpdateStep::Verify(i));
            }
            plan.push(UpdateStep::Patch(i));
            plan.push(UpdateStep::Delete(i));
            proof {
                assert(plan@ =~= spec_update_plan(i + 1, do_integrity_check));
            }
            i = i + 1;
        }
        plan
    }
}

/// ASCII lowercase of one character.
pub open spec fn ascii_lower(c: char) -> char {
    if 65 <= c as u32 <= 90 {
        (((c as u32) + 32) as u8) as char
    } else {
        c
    }
}

/// `s` ends in `suf`, compared ASCII-case-insensitively, with at least one
/// character before it.
pub open spec fn suffix_ci(s: Seq<char>, suf: Seq<char>) -> bool {
    s.len() > suf.len() && forall|i: int|
        0 <= i < suf.len() ==> ascii_lower(s[s.len() - suf.len() + i]) == #[trigger] suf[i]
}

/// The file name carries one of the archive extensions.
pub open spec fn is_archive_name(s: Seq<char>) -> bool {
    ||| suffix_ci(s, ".7z"@)
    ||| suffix_ci(s, ".zip"@)
    ||| suffix_ci(s, ".rar"@)
    ||| suffix_ci(s, ".tar"@)
}

fn ascii_lower_exec(c: char) -> (r: char)
    ensures
        r == ascii_lower(c),
{
    let u = c as u32;
    if 65 <= u && u <= 90 {
        ((u + 32) as u8) as char
    } else {
        c
    }
}

fn has_suffix_ci(s: &[char], suf: &[char]) -> (r: bool)
    ensures
        r == suffix_ci(s@, suf@),
{
    let n = s.len();
    let m = suf.len();
    if n <= m {
        return false;
    }
    let mut i: usize = 0;
    while i < m
        invariant
            i <= m == suf@.len(),
            m < n == s@.len(),
            forall|j: int| 0 <= j < i ==> ascii_lower(s@[n - m + j]) == #[trigger] suf@[j],
        decreases m - i,
    {
        if ascii_lower_exec(s[n - m + i]) != suf[i] {
            return false;
        }
        i = i + 1;
    }
    true
}

fn is_archive_name_exec(name: &String) -> (r: bool)
    ensures
        r == is_archive_name(name@),
{
    let chars = crate::text::str_to_chars(name.as_str());
    let s = chars.as_slice();
    let z7 = crate::text::str_to_chars(".7z");
    let zip = crate::text::str_to_chars(".zip");
    let rar = crate::text::str_to_chars(".rar");
    let tar = crate::text::str_to_chars(".tar");
    has_suffix_ci(s, z7.as_slice()) || has_suffix_ci(s, zip.as_slice()) || has_suffix_ci(
        s,
        rar.as_slice(),
    ) || has_suffix_ci(s, tar.as_slice())
}

/// The update archives among the install root's entries: exactly the names
/// carrying an archive extension, in directory order.
pub fn get_update_archives(names: &Vec<String>) -> (r: Vec<String>)
    ensures
        r@.map_values(|s: String| s@) == names@.map_values(|s: String| s@).filter(
            |n: Seq<char>| is_archive_name(n),
        ),
{
    let n = names.len();
    let mut out: Vec<String> = Vec::new();
    let mut i: usize = 0;
    let ghost pred = |n0: Seq<char>| is_archive_name(n0);
    proof {
        reveal(Seq::filter);
        assert(names@.map_values(|s: String| s@).take(0int) =~= Seq::<Seq<char>>::empty());
        assert(out@.map_values(|s: String| s@) =~= names@.map_values(|s: String| s@).take(
            0int,
        ).filter(pred));
    }
    while i < n
        invariant
            i <= n == names@.len(),
            out@.map_values(|s: String| s@) == names@.map_values(|s: String| s@).take(
                i as int,
            ).filter(pred),
            pred == (|n0: Seq<char>| is_archive_name(n0)),
        decreases n - i,
    {
        let ghost views = names@.map_values(|s: String| s@);
        proof {
            reveal(Seq::filter);
            assert(views.take(i + 1).drop_last() =~= views.take(i as int));
            assert(views.take(i + 1).last() == views[i as int]);
            assert(views[i as int] == names@[i as int]@);
        }
        if is_archive_name_exec(&names[i]) {
            let ghost outv = out@;
            out.push(clone_string(&names[i]));
            proof {
                let f = |s: String| s@;
                assert(out@.map_values(f) =~= outv.map_values(f).push(names@[i as int]@));
            }
        }
        i = i + 1;
    }
    proof {
        assert(names@.map_values(|s: String| s@).take(n as int) =~= names@.map_values(
            |s: String| s@,
        ));
    }
    out
}

/// The arrow-joined patch numbers of the resolved chain.
pub open spec fn spec_arrow_tail(infos: Seq<UpdateInfo>) -> Seq<char>
    decreases infos.len(),
{
    if infos.len() == 0 {
        Seq::empty()
    } else {
        spec_arrow_tail(infos.drop_last()) + " -> "@ + crate::decimal::spec_dec(
            infos.last().update_version.patch_version as nat,
        )
    }
}

/// What `update_sequence` prints for each mode.
pub open spec fn spec_update_sequence(
    mode: Option<UpdateMode>,
    client: BinaryVersion,
    infos: Seq<UpdateInfo>,
) -> Seq<char> {
    match mode {
        None => Seq::empty(),
        Some(UpdateMode::Legacy(_)) => "update to next version"@,
        Some(UpdateMode::Archives) => spec_version_string(client) + spec_arrow_tail(infos),
    }
}

} // verus!

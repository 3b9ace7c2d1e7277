//! Pre-patch integrity checking: each diff entry's declared pre-image size
//! and MD5 hash are held against the file on disk. Length first (cheap), the
//! hash only when the length matches; the first failing entry aborts the
//! whole batch before any patch is applied.

use vstd::prelude::*;
use crate::diff::{DiffEntry, DiffEntryModel};
use crate::errors::{IOError, VerifyError};
use crate::text::{spec_join_path, join_path, chars_to_string};

verus! {

/// The MD5 digest of a byte string: sixteen bytes, a function of the input
/// alone.
pub uninterp spec fn md5_of(data: Seq<u8>) -> Seq<u8>;

/// Relies on md-5's `Digest::digest`: the MD5 digest of the input, which
/// depends on the input bytes alone; its output size is sixteen bytes.
#[verifier::external_body]
fn md5_digest(data: &[u8]) -> (r: Vec<u8>)
    ensures
        r@ == md5_of(data@),
        r@.len() == 16,
{
    <md5::Md5 as md5::Digest>::digest(data).to_vec()
}

/// Lowercase hex character for a value in `0..16`.
pub open spec fn hex_digit(d: int) -> char {
    if d < 10 {
        ((48 + d) as u8) as char
    } else {
        ((87 + d) as u8) as char
    }
}

/// Lowercase hex rendering of a byte string, two digits per byte.
pub open spec fn hex_of(bytes: Seq<u8>) -> Seq<char>
    decreases bytes.len(),
{
    if bytes.len() == 0 {
        Seq::empty()
    } else {
        seq![hex_digit(bytes[0] as int / 16), hex_digit(bytes[0] as int % 16)] + hex_of(bytes.skip(1))
    }
}

proof fn lemma_hex_of_snoc(s: Seq<u8>, b: u8)
    ensures
        hex_of(s.push(b)) == hex_of(s) + seq![hex_digit(b as int / 16), hex_digit(b as int % 16)],
    decreases s.len(),
{
    let p = s.push(b);
    if s.len() == 0 {
        assert(p.len() == 1);
        assert(p[0] == b);
        assert(p.skip(1) =~= Seq::<u8>::empty());
        assert(hex_of(p.skip(1)) == Seq::<char>::empty());
        assert(hex_of(p) =~= hex_of(s) + seq![hex_digit(b as int / 16), hex_digit(b as int % 16)]);
    } else {
        lemma_hex_of_snoc(s.skip(1), b);
        assert(p.skip(1) =~= s.skip(1).push(b));
        assert(p[0] == s[0]);
        let pair0 = seq![hex_digit(s[0] as int / 16), hex_digit(s[0] as int % 16)];
        let pairb = seq![hex_digit(b as int / 16), hex_digit(b as int % 16)];
        assert(hex_of(p) == pair0 + hex_of(p.skip(1)));
        assert(hex_of(p.skip(1)) == hex_of(s.skip(1)) + pairb);
        assert(pair0 + (hex_of(s.skip(1)) + pairb) =~= (pair0 + hex_of(s.skip(1))) + pairb);
        assert(hex_of(s) == pair0 + hex_of(s.skip(1)));
    }
}

/// Lowercase hex rendering of a byte slice.
pub fn bytes_to_hex(bytes: &[u8]) -> (r: String)
    ensures
        r@ == hex_of(bytes@),
{
    let n = bytes.len();
    let mut v: Vec<char> = Vec::new();
    let mut i: usize = 0;
    while i < n
        invariant
            i <= n == bytes@.len(),
            v@ == hex_of(bytes@.take(i as int)),
        decreases n - i,
    {
        let b = bytes[i];
        let hi = b / 16;
        let lo = b % 16;
        let hc = if hi < 10 {
            (48 + hi) as char
        } else {
            (87 + hi) as char
        };
        let lc = if lo < 10 {
            (48 + lo) as char
        } else {
            (87 + lo) as char
        };
        proof {
            assert(hc == hex_digit(bytes@[i as int] as int / 16));
            assert(lc == hex_digit(bytes@[i as int] as int % 16));
            assert(bytes@.take(i + 1) =~= bytes@.take(i as int).push(bytes@[i as int]));
            lemma_hex_of_snoc(bytes@.take(i as int), bytes@[i as int]);
        }
        v.push(hc);
        v.push(lc);
        proof {
            assert(v@ =~= hex_of(bytes@.take(i + 1)));
        }
        i = i + 1;
    }
    proof {
        assert(bytes@.take(n as int) =~= bytes@);
    }
    chars_to_string(v.as_slice())
}

/// The hex MD5 of a byte string, as the verifier compares it.
pub open spec fn md5_hex_of(data: Seq<u8>) -> Seq<char> {
    hex_of(md5_of(data))
}

/// An entry with an empty declared hash is a pure-new-file entry and needs
/// no verification.
pub open spec fn spec_needs_verification(e: DiffEntryModel) -> bool {
    e.source_file_md5.len() > 0
}

/// An entry passes against a pre-image of these bytes.
pub open spec fn entry_passes(e: DiffEntryModel, content: Seq<u8>) -> bool {
    ||| !spec_needs_verification(e)
    ||| (content.len() == e.source_file_size && md5_hex_of(content) == e.source_file_md5)
}

/// First file of that name, front to back.
pub open spec fn lookup_content(files: Seq<(String, Vec<u8>)>, name: Seq<char>) -> Option<Seq<u8>>
    decreases files.len(),
{
    if files.len() == 0 {
        None
    } else if files[0].0@ == name {
        Some(files[0].1@)
    } else {
        lookup_content(files.skip(1), name)
    }
}

/// The verifier: the install root and the diff entries whose pre-images it
/// holds against the files on disk.
pub struct Verifier {
    pub game_path: String,
    pub diff_entries: Vec<DiffEntry>,
}

impl Verifier {
    pub fn new(game_path: String, diff_entries: Vec<DiffEntry>) -> (r: Self)
        ensures
            r.game_path == game_path,
            r.diff_entries == diff_entries,
    {
        Verifier { game_path, diff_entries }
    }

    /// Whether this entry's pre-image must be checked at all.
    pub fn needs_verification(&self, entry: &DiffEntry) -> (r: bool)
        ensures
            r == spec_needs_verification(entry@),
    {
        !entry.source_file_md5.as_str().is_empty()
    }

    /// Holds one entry against the bytes of its pre-image file: the length
    /// first, the hash only when the length matches. An entry with an empty
    /// declared hash passes without looking at the bytes.
    pub fn verify_entry_content(&self, entry: &DiffEntry, content: &[u8]) -> (r: Result<
        (),
        VerifyError,
    >)
        ensures
            match r {
                Ok(()) => entry_passes(entry@, content@),
                Err(VerifyError::FileSizeMismatchError { expected, got, file_name }) => {
                    &&& spec_needs_verification(entry@)
                    &&& content@.len() != entry.source_file_size
                    &&& expected == entry.source_file_size
                    &&& got == content@.len()
                    &&& file_name@ == spec_join_path(self.game_path@, entry.source_file_name@)
                },
                Err(VerifyError::Md5MismatchError { expected, got, file_name }) => {
                    &&& spec_needs_verification(entry@)
                    &&& content@.len() == entry.source_file_size
                    &&& md5_hex_of(content@) != entry.source_file_md5@
                    &&& expected@ == entry.source_file_md5@
                    &&& got@ == md5_hex_of(content@)
                    &&& file_name@ == spec_join_path(self.game_path@, entry.source_file_name@)
                },
                Err(_) => false,
            },
    {
        if entry.source_file_md5.as_str().is_empty() {
            return Ok(());
        }
        let file_name = join_path(self.game_path.as_str(), entry.source_file_name.as_str());
        if content.len() as u64 != entry.source_file_size {
            return Err(
                VerifyError::FileSizeMismatchError {
                    expected: entry.source_file_size,
                    got: content.len() as u64,
                    file_name,
                },
            );
        }
        let digest = md5_digest(content);
        let got = bytes_to_hex(digest.as_slice());
        if got == entry.source_file_md5 {
            Ok(())
        } else {
            Err(
                VerifyError::Md5MismatchError {
                    expected: entry.source_file_md5.clone(),
                    got,
                    file_name,
                },
            )
        }
    }

    /// Holds every entry against the given files, in entry order, stopping
    /// at the first failure: a partially verified batch is never patched. A
    /// missing pre-image file is an open error on its path.
    pub fn verify_all(&self, files: &Vec<(String, Vec<u8>)>) -> (r: Result<(), VerifyError>)
        ensures
            match r {
                Ok(()) => forall|i: int|
                    0 <= i < self.diff_entries@.len() ==> {
                        let e = #[trigger] self.diff_entries@[i]@;
                        !spec_needs_verification(e) || {
                            let c = lookup_content(files@, e.source_file_name);
                            c is Some && entry_passes(e, c->Some_0)
                        }
                    },
                Err(err) => exists|i: int|
                    {
                        &&& 0 <= i < self.diff_entries@.len()
                        &&& {
                            let e = #[trigger] self.diff_entries@[i]@;
                            &&& spec_needs_verification(e)
                            &&& match lookup_content(files@, e.source_file_name) {
                                None => err matches VerifyError::Io(IOError::Open {
                                    path,
                                    detail: _,
                                }) && path@ == spec_join_path(self.game_path@, e.source_file_name),
                                Some(c) => !entry_passes(e, c) && (match err {
                                    VerifyError::FileSizeMismatchError {
                                        expected,
                                        got,
                                        file_name,
                                    } => c.len() != e.source_file_size && expected
                                        == e.source_file_size && got == c.len() && file_name@
                                        == spec_join_path(self.game_path@, e.source_file_name),
                                    VerifyError::Md5MismatchError {
                                        expected,
                                        got,
                                        file_name,
                                    } => c.len() == e.source_file_size && md5_hex_of(c)
                                        != e.source_file_md5 && expected@ == e.source_file_md5
                                        && got@ == md5_hex_of(c) && file_name@ == spec_join_path(
                                        self.game_path@,
                                        e.source_file_name,
                                    ),
                                    _ => false,
                                }),
                            }
                        }
                    },
            },
    {
        let n = self.diff_entries.len();
        let mut i: usize = 0;
        while i < n
            invariant
                i <= n == self.diff_entries@.len(),
                forall|j: int|
                    0 <= j < i ==> {
                        let e = #[trigger] self.diff_entries@[j]@;
                        !spec_needs_verification(e) || {
                            let c = lookup_content(files@, e.source_file_name);
                            c is Some && entry_passes(e, c->Some_0)
                        }
                    },
            decreases n - i,
        {
            let entry = &self.diff_entries[i];
            if self.needs_verification(entry) {
                match lookup_file(files, &entry.source_file_name) {
                    None => {
                        let path = join_path(
                            self.game_path.as_str(),
                            entry.source_file_name.as_str(),
                        );
                        let detail = String::new();
                        proof {
                            let ghost w = i as int;
                            assert(self.diff_entries@[w]@ == entry@);
                        }
                        return Err(VerifyError::Io(IOError::Open { path, detail }));
                    },
                    Some(content) => match self.verify_entry_content(entry, content.as_slice()) {
                        Ok(()) => {},
                        Err(e) => {
                            proof {
                                let ghost w = i as int;
                                assert(self.diff_entries@[w]@ == entry@);
                            }
                            return Err(e);
                        },
                    },
                }
            }
            i = i + 1;
        }
        Ok(())
    }
}

fn lookup_file<'a>(files: &'a Vec<(String, Vec<u8>)>, name: &String) -> (r: Option<&'a Vec<u8>>)
    ensures
        match r {
            Some(c) => lookup_content(files@, name@) == Some(c@),
            None => lookup_content(files@, name@) is None,
        },
{
    let n = files.len();
    let mut i: usize = 0;
    proof {
        assert(files@.skip(0) =~= files@);
    }
    while i < n
        invariant
            i <= n == files@.len(),
            lookup_content(files@, name@) == lookup_content(files@.skip(i as int), name@),
        decreases n - i,
    {
        proof {
            assert(files@.skip(i as int)[0] == files@[i as int]);
            assert(files@.skip(i as int).skip(1) =~= files@.skip(i + 1));
        }
        if files[i].0.eq(name) {
            return Some(&files[i].1);
        }
        i = i + 1;
    }
    None
}

} // verus!

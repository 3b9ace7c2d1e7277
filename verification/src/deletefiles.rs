//! The deletion list: a newline-delimited file of relative paths to remove
//! from the install root. Parsing and path planning are verified here; the
//! caller attempts each removal and logs failures without aborting, so a
//! missing file never stops the remaining deletions.

use vstd::prelude::*;
use crate::text::{str_to_chars, split_lines, split_lines_exec, spec_trim, trim_chars,
    chars_to_string, spec_join_path, join_path};

verus! {

/// The non-blank lines of the deletion list, each trimmed.
pub open spec fn spec_delete_list(ls: Seq<Seq<char>>) -> Seq<Seq<char>>
    decreases ls.len(),
{
    if ls.len() == 0 {
        Seq::empty()
    } else {
        let t = spec_trim(ls[0]);
        if t.len() == 0 {
            spec_delete_list(ls.skip(1))
        } else {
            seq![t] + spec_delete_list(ls.skip(1))
        }
    }
}

/// Parses the deletion-list text: one relative path per non-blank line,
/// trimmed, in file order.
pub fn parse_delete_list(content: &str) -> (r: Vec<String>)
    ensures
        r@.map_values(|s: String| s@) == spec_delete_list(split_lines(content@)),
{
    let chars = str_to_chars(content);
    let lines = split_lines_exec(chars.as_slice());
    let ghost ls = lines@.map_values(|v: Vec<char>| v@);
    let n = lines.len();
    let mut out: Vec<String> = Vec::new();
    let mut i: usize = 0;
    proof {
        assert(ls.skip(0) =~= ls);
        assert(out@.map_values(|s: String| s@) + spec_delete_list(ls) =~= spec_delete_list(ls));
    }
    while i < n
        invariant
            i <= n == ls.len(),
            ls == lines@.map_values(|v: Vec<char>| v@),
            n == lines@.len(),
            spec_delete_list(ls) == out@.map_values(|s: String| s@) + spec_delete_list(
                ls.skip(i as int),
            ),
        decreases n - i,
    {
        let ghost pre = ls.skip(i as int);
        proof {
            assert(pre.len() > 0);
            assert(pre[0] == ls[i as int]);
            assert(pre.skip(1) =~= ls.skip(i + 1));
            assert(lines@[i as int]@ == ls[i as int]);
        }
        let trimmed = trim_chars(lines[i].as_slice());
        if trimmed.len() > 0 {
            let ghost outv = out@;
            out.push(chars_to_string(trimmed.as_slice()));
            proof {
                let f = |s: String| s@;
                assert(out@.map_values(f) =~= outv.map_values(f).push(spec_trim(pre[0])));
                assert(outv.map_values(f) + (seq![spec_trim(pre[0])] + spec_delete_list(
                    ls.skip(i + 1),
                )) =~= out@.map_values(f) + spec_delete_list(ls.skip(i + 1)));
            }
        }
        i = i + 1;
    }
    proof {
        assert(ls.skip(n as int) =~= Seq::<Seq<char>>::empty());
        assert(out@.map_values(|s: String| s@) + spec_delete_list(ls.skip(n as int))
            =~= out@.map_values(|s: String| s@));
    }
    out
}

/// The deletion executor's plan: where the install root and the deletion
/// list sit. Reading the list and removing the files is the caller's I/O;
/// the planning below decides exactly which absolute paths are touched.
pub struct DeleteFiles {
    pub game_path: String,
    pub deletefiles_path: String,
}

impl DeleteFiles {
    pub fn new(game_path: String, deletefiles_path: String) -> (r: Self)
        ensures
            r == (DeleteFiles { game_path, deletefiles_path }),
    {
        DeleteFiles { game_path, deletefiles_path }
    }

    /// The absolute paths to remove, given the deletion-list text: each
    /// non-blank trimmed line joined onto the install root. Failing to
    /// remove one of them must not stop the rest.
    pub fn removal_paths(&self, content: &str) -> (r: Vec<String>)
        ensures
            r@.map_values(|s: String| s@) == spec_delete_list(split_lines(content@)).map_values(
                |l: Seq<char>| spec_join_path(self.game_path@, l),
            ),
    {
        let rel = parse_delete_list(content);
        let n = rel.len();
        let ghost rels = rel@.map_values(|s: String| s@);
        let mut out: Vec<String> = Vec::new();
        let mut i: usize = 0;
        while i < n
            invariant
                i <= n == rel@.len(),
                rels == rel@.map_values(|s: String| s@),
                out@.map_values(|s: String| s@) == rels.take(i as int).map_values(
                    |l: Seq<char>| spec_join_path(self.game_path@, l),
                ),
            decreases n - i,
        {
            out.push(join_path(self.game_path.as_str(), rel[i].as_str()));
            proof {
                let f = |l: Seq<char>| spec_join_path(self.game_path@, l);
                assert(rels.take(i + 1) =~= rels.take(i as int).push(rels[i as int]));
                assert(rel@[i as int]@ == rels[i as int]);
                assert(rels.take(i + 1).map_values(f) =~= rels.take(i as int).map_values(f).push(
                    f(rels[i as int]),
                ));
                assert(out@.map_values(|s: String| s@) =~= rels.take(i + 1).map_values(f));
            }
            i = i + 1;
        }
        proof {
            assert(rels.take(n as int) =~= rels);
        }
        out
    }
}

} // verus!

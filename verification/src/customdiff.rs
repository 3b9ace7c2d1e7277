//! Decoder for the line-delimited custom diff file (`hdifffiles.txt`): one
//! JSON object per line naming a file whose patch blob sits beside it as
//! `<name>.hdiff`. Blank lines are skipped; any unparsable line fails the
//! whole load.

use vstd::prelude::*;
use crate::diff::CustomDiffMap;
use crate::errors::PatchError;
use crate::json::{
    sp_str_field, enc_str_close, parse_str_field, append_str_close, lemma_str_field_roundtrip,
};
use crate::text::{str_to_chars, split_lines, split_lines_exec, spec_trim, trim_chars};

verus! {

pub open spec fn l_remote() -> Seq<char> {
    "{\"remoteName\":\""@
}

/// Canonical printing of one custom diff record.
pub open spec fn enc_custom_line(name: Seq<char>) -> Seq<char> {
    l_remote() + enc_str_close(name) + seq!['}']
}

/// What one trimmed line must parse to: exactly one `remoteName` object.
pub open spec fn sp_custom_line(s: Seq<char>) -> Option<Seq<char>> {
    match sp_str_field(s, l_remote()) {
        None => None,
        Some((name, r)) => if r == seq!['}'] {
            Some(name)
        } else {
            None
        },
    }
}

/// What the whole file yields from its lines: blank lines dropped, each
/// remaining line one record, any bad line failing the load.
pub open spec fn sp_custom_lines(ls: Seq<Seq<char>>) -> Option<Seq<Seq<char>>>
    decreases ls.len(),
{
    if ls.len() == 0 {
        Some(Seq::empty())
    } else {
        let t = spec_trim(ls[0]);
        if t.len() == 0 {
            sp_custom_lines(ls.skip(1))
        } else {
            match sp_custom_line(t) {
                None => None,
                Some(name) => match sp_custom_lines(ls.skip(1)) {
                    None => None,
                    Some(rest) => Some(seq![name] + rest),
                },
            }
        }
    }
}

/// What decoding the custom diff file text yields.
pub open spec fn sp_custom_file(s: Seq<char>) -> Option<Seq<Seq<char>>> {
    sp_custom_lines(split_lines(s))
}

/// A printed custom record parses back to its name.
pub proof fn lemma_custom_line_roundtrip(name: Seq<char>)
    ensures
        sp_custom_line(enc_custom_line(name)) == Some(name),
{
    let s = enc_custom_line(name);
    assert(s =~= l_remote() + enc_str_close(name) + seq!['}']);
    lemma_str_field_roundtrip(l_remote(), name, seq!['}']);
}

fn parse_custom_line(s: &[char]) -> (r: Option<CustomDiffMap>)
    ensures
        match r {
            Some(c) => sp_custom_line(s@) == Some(c.remote_name@),
            None => sp_custom_line(s@) is None,
        },
{
    let lit = str_to_chars("{\"remoteName\":\"");
    match parse_str_field(s, lit.as_slice()) {
        None => None,
        Some(p) => {
            let (name, rest) = p;
            if rest.len() == 1 && rest[0] == '}' {
                proof {
                    assert(rest@ =~= seq!['}']);
                }
                Some(CustomDiffMap { remote_name: name })
            } else {
                proof {
                    assert(rest@ != seq!['}']);
                }
                None
            }
        },
    }
}

/// Prints one custom record in the canonical form.
pub fn encode_custom_line(c: &CustomDiffMap) -> (r: String)
    ensures
        r@ == enc_custom_line(c.remote_name@),
{
    let mut dst = String::new();
    dst.append("{\"remoteName\":\"");
    append_str_close(&mut dst, c.remote_name.as_str());
    crate::text::push_char(&mut dst, '}');
    proof {
        assert(seq!['}'] =~= Seq::<char>::empty().push('}'));
        assert(dst@ =~= enc_custom_line(c.remote_name@));
    }
    dst
}

/// Decodes the whole custom diff file: one record per non-blank line, or a
/// structure error when any line is not a canonical record.
pub fn parse_custom_file(content: &str) -> (r: Result<Vec<CustomDiffMap>, PatchError>)
    ensures
        match r {
            Ok(v) => sp_custom_file(content@) == Some(
                v@.map_values(|c: CustomDiffMap| c.remote_name@),
            ),
            Err(e) => sp_custom_file(content@) is None && e == PatchError::Json,
        },
{
    let chars = str_to_chars(content);
    let lines = split_lines_exec(chars.as_slice());
    let ghost ls = lines@.map_values(|v: Vec<char>| v@);
    let n = lines.len();
    let mut out: Vec<CustomDiffMap> = Vec::new();
    let mut i: usize = 0;
    proof {
        assert(ls.skip(0) =~= ls);
        if sp_custom_lines(ls) is Some {
            assert(out@.map_values(|c: CustomDiffMap| c.remote_name@) + sp_custom_lines(
                ls,
            )->Some_0 =~= sp_custom_lines(ls)->Some_0);
        }
    }
    while i < n
        invariant
            i <= n == ls.len(),
            ls == lines@.map_values(|v: Vec<char>| v@),
            ls == split_lines(content@),
            n == lines@.len(),
            match sp_custom_lines(ls.skip(i as int)) {
                Some(rest) => sp_custom_lines(ls) == Some(
                    out@.map_values(|c: CustomDiffMap| c.remote_name@) + rest,
                ),
                None => sp_custom_lines(ls) is None,
            },
        decreases n - i,
    {
        let ghost pre = ls.skip(i as int);
        proof {
            assert(pre.len() > 0);
            assert(pre[0] == ls[i as int]);
            assert(pre.skip(1) =~= ls.skip(i + 1));
        }
        let trimmed = trim_chars(lines[i].as_slice());
        proof {
            assert(lines@[i as int]@ == ls[i as int]);
            assert(trimmed@ == spec_trim(pre[0]));
        }
        if trimmed.len() > 0 {
            match parse_custom_line(trimmed.as_slice()) {
                Some(c) => {
                    let ghost outv = out@;
                    out.push(c);
                    proof {
                        let f = |c: CustomDiffMap| c.remote_name@;
                        assert(out@.map_values(f) =~= outv.map_values(f).push(c.remote_name@));
                        if sp_custom_lines(ls.skip(i + 1)) is Some {
                            let rest = sp_custom_lines(ls.skip(i + 1))->Some_0;
                            assert(sp_custom_lines(pre) == Some(seq![c.remote_name@] + rest));
                            assert(outv.map_values(f) + (seq![c.remote_name@] + rest) =~= out@.map_values(
                                f,
                            ) + rest);
                        }
                    }
                },
                None => {
                    proof {
                        assert(sp_custom_lines(pre) is None);
                    }
                    return Err(PatchError::Json);
                },
            }
        }
        i = i + 1;
    }
    proof {
        assert(ls.skip(n as int) =~= Seq::<Seq<char>>::empty());
        assert(sp_custom_lines(ls.skip(n as int)) == Some(Seq::<Seq<char>>::empty()));
        assert(out@.map_values(|c: CustomDiffMap| c.remote_name@) + Seq::<Seq<char>>::empty()
            =~= out@.map_values(|c: CustomDiffMap| c.remote_name@));
    }
    Ok(out)
}

} // verus!

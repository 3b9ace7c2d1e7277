//! Small text utilities shared by the decoders: moving between `String`,
//! `&str` and `Vec<char>`, and path joining on plain strings.

use vstd::prelude::*;
use vstd::string::StrSliceExecFns;

verus! {

/// The characters of `s` as a vector, in order.
pub fn str_to_chars(s: &str) -> (r: Vec<char>)
    ensures
        r@ == s@,
{
    let n = s.unicode_len();
    let mut r: Vec<char> = Vec::new();
    let mut i: usize = 0;
    while i < n
        invariant
            n == s@.len(),
            i <= n,
            r@ == s@.take(i as int),
        decreases n - i,
    {
        r.push(s.get_char(i));
        i = i + 1;
        proof {
            assert(s@.take(i as int) =~= s@.take(i - 1).push(s@[i - 1]));
        }
    }
    proof {
        assert(s@.take(n as int) =~= s@);
    }
    r
}

/// Relies on `String::push`: appends the given character to the end of the string.
#[verifier::external_body]
pub(crate) fn push_char(s: &mut String, c: char)
    ensures
        final(s)@ == old(s)@.push(c),
{
    s.push(c)
}

/// A `String` whose characters are exactly `v`, in order.
pub fn chars_to_string(v: &[char]) -> (r: String)
    ensures
        r@ == v@,
{
    let n = v.len();
    let mut r = String::new();
    let mut i: usize = 0;
    while i < n
        invariant
            n == v@.len(),
            i <= n,
            r@ == v@.take(i as int),
        decreases n - i,
    {
        push_char(&mut r, v[i]);
        i = i + 1;
        proof {
            assert(v@.take(i as int) =~= v@.take(i - 1).push(v@[i - 1]));
        }
    }
    proof {
        assert(v@.take(n as int) =~= v@);
    }
    r
}

/// `c` is one of the whitespace characters the update artifacts may carry
/// around their lines.
pub open spec fn is_space_char(c: char) -> bool {
    c == ' ' || c == '\t' || c == '\r' || c == '\n'
}

/// Number of leading whitespace characters.
pub open spec fn ws_prefix_len(s: Seq<char>) -> nat
    decreases s.len(),
{
    if s.len() == 0 || !is_space_char(s[0]) {
        0
    } else {
        (1 + ws_prefix_len(s.skip(1))) as nat
    }
}

/// Number of trailing whitespace characters.
pub open spec fn ws_suffix_len(s: Seq<char>) -> nat
    decreases s.len(),
{
    if s.len() == 0 || !is_space_char(s.last()) {
        0
    } else {
        (1 + ws_suffix_len(s.drop_last())) as nat
    }
}

/// `s` without leading and trailing whitespace.
pub open spec fn spec_trim(s: Seq<char>) -> Seq<char> {
    if ws_prefix_len(s) == s.len() {
        Seq::empty()
    } else {
        s.subrange(ws_prefix_len(s) as int, s.len() - ws_suffix_len(s) as int)
    }
}

pub proof fn lemma_ws_prefix(s: Seq<char>)
    ensures
        ws_prefix_len(s) <= s.len(),
        forall|k: int| 0 <= k < ws_prefix_len(s) ==> is_space_char(#[trigger] s[k]),
        ws_prefix_len(s) == s.len() || !is_space_char(s[ws_prefix_len(s) as int]),
    decreases s.len(),
{
    if s.len() > 0 && is_space_char(s[0]) {
        lemma_ws_prefix(s.skip(1));
        assert forall|k: int| 0 <= k < ws_prefix_len(s) implies is_space_char(
            #[trigger] s[k],
        ) by {
            if k > 0 {
                assert(s[k] == s.skip(1)[k - 1]);
            }
        }
    }
}

pub proof fn lemma_ws_suffix(s: Seq<char>)
    ensures
        ws_suffix_len(s) <= s.len(),
        forall|k: int| s.len() - ws_suffix_len(s) <= k < s.len() ==> is_space_char(
            #[trigger] s[k],
        ),
        ws_suffix_len(s) == s.len() || !is_space_char(s[s.len() - ws_suffix_len(s) - 1]),
    decreases s.len(),
{
    if s.len() > 0 && is_space_char(s.last()) {
        lemma_ws_suffix(s.drop_last());
        assert forall|k: int| s.len() - ws_suffix_len(s) <= k < s.len() implies is_space_char(
            #[trigger] s[k],
        ) by {
            if k < s.len() - 1 {
                assert(s[k] == s.drop_last()[k]);
            }
        }
    }
}

/// When some character is not whitespace, the untrimmed runs do not overlap.
pub proof fn lemma_ws_runs_disjoint(s: Seq<char>)
    requires
        ws_prefix_len(s) < s.len(),
    ensures
        ws_prefix_len(s) + ws_suffix_len(s) < s.len(),
{
    lemma_ws_prefix(s);
    lemma_ws_suffix(s);
    let p = ws_prefix_len(s) as int;
    if ws_suffix_len(s) + p >= s.len() {
        assert(s.len() - ws_suffix_len(s) <= p < s.len());
        assert(is_space_char(s[p]));
        assert(false);
    }
}

fn is_space(c: char) -> (r: bool)
    ensures
        r == is_space_char(c),
{
    c == ' ' || c == '\t' || c == '\r' || c == '\n'
}

/// The characters of `s` without leading and trailing whitespace.
pub fn trim_chars(s: &[char]) -> (r: Vec<char>)
    ensures
        r@ == spec_trim(s@),
{
    proof {
        lemma_ws_prefix(s@);
        lemma_ws_suffix(s@);
    }
    let n = s.len();
    let mut p: usize = 0;
    let mut stop = false;
    while !stop && p < n
        invariant
            p <= n == s@.len(),
            forall|j: int| 0 <= j < p ==> is_space_char(#[trigger] s@[j]),
            stop ==> p < n && !is_space_char(s@[p as int]),
        decreases n - p, if stop { 0int } else { 1int },
    {
        if is_space(s[p]) {
            p = p + 1;
        } else {
            stop = true;
        }
    }
    proof {
        assert(p == ws_prefix_len(s@));
    }
    if p == n {
        let v: Vec<char> = Vec::new();
        proof {
            assert(v@ =~= spec_trim(s@));
        }
        return v;
    }
    proof {
        lemma_ws_runs_disjoint(s@);
    }
    let mut q: usize = 0;
    let mut stop2 = false;
    while !stop2 && q < n
        invariant
            q <= n == s@.len(),
            forall|j: int| n - q <= j < n ==> is_space_char(#[trigger] s@[j]),
            stop2 ==> q < n && !is_space_char(s@[n - q - 1]),
        decreases n - q, if stop2 { 0int } else { 1int },
    {
        if is_space(s[n - 1 - q]) {
            q = q + 1;
        } else {
            stop2 = true;
        }
    }
    proof {
        assert(q == ws_suffix_len(s@));
    }
    vstd::slice::slice_to_vec(&s[p..n - q])
}

/// Number of characters before the first line break.
pub open spec fn line_len(s: Seq<char>) -> nat
    decreases s.len(),
{
    if s.len() == 0 || s[0] == '\n' {
        0
    } else {
        (1 + line_len(s.skip(1))) as nat
    }
}

pub proof fn lemma_line_len(s: Seq<char>)
    ensures
        line_len(s) <= s.len(),
        forall|k: int| 0 <= k < line_len(s) ==> #[trigger] s[k] != '\n',
        line_len(s) == s.len() || s[line_len(s) as int] == '\n',
    decreases s.len(),
{
    if s.len() > 0 && s[0] != '\n' {
        lemma_line_len(s.skip(1));
        assert forall|k: int| 0 <= k < line_len(s) implies #[trigger] s[k] != '\n' by {
            if k > 0 {
                assert(s[k] == s.skip(1)[k - 1]);
            }
        }
    }
}

/// `s` cut at each line break. A trailing break yields a final empty line.
pub open spec fn split_lines(s: Seq<char>) -> Seq<Seq<char>>
    decreases s.len(),
    via split_lines_decreases
{
    let k = line_len(s) as int;
    if k == s.len() {
        seq![s]
    } else {
        seq![s.take(k)] + split_lines(s.skip(k + 1))
    }
}

#[via_fn]
proof fn split_lines_decreases(s: Seq<char>) {
    lemma_line_len(s);
}

/// The lines of `s`, each as its own character vector.
pub fn split_lines_exec(s: &[char]) -> (r: Vec<Vec<char>>)
    ensures
        r@.map_values(|v: Vec<char>| v@) == split_lines(s@),
    decreases s@.len(),
{
    proof {
        lemma_line_len(s@);
    }
    let n = s.len();
    let mut k: usize = 0;
    let mut stop = false;
    while !stop && k < n
        invariant
            k <= n == s@.len(),
            forall|j: int| 0 <= j < k ==> #[trigger] s@[j] != '\n',
            stop ==> k < n && s@[k as int] == '\n',
        decreases n - k, if stop { 0int } else { 1int },
    {
        if s[k] == '\n' {
            stop = true;
        } else {
            k = k + 1;
        }
    }
    proof {
        assert(k == line_len(s@));
    }
    if k == n {
        let mut r: Vec<Vec<char>> = Vec::new();
        r.push(vstd::slice::slice_to_vec(s));
        proof {
            assert(r@.map_values(|v: Vec<char>| v@) =~= split_lines(s@));
        }
        r
    } else {
        let first = vstd::slice::slice_to_vec(&s[0..k]);
        proof {
            assert(s@.subrange(k + 1, n as int) =~= s@.skip(k + 1));
        }
        let mut r = split_lines_exec(&s[k + 1..n]);
        let ghost rv = r@;
        r.insert(0, first);
        proof {
            assert(s@.subrange(0, k as int) =~= s@.take(k as int));
            assert(r@.map_values(|v: Vec<char>| v@) =~= seq![s@.take(k as int)]
                + rv.map_values(|v: Vec<char>| v@));
        }
        r
    }
}

/// `base`, a single `/` separator, then `rel`.
pub open spec fn spec_join_path(base: Seq<char>, rel: Seq<char>) -> Seq<char> {
    base + seq!['/'] + rel
}

/// Joins a relative path onto a base directory with a `/` separator.
pub fn join_path(base: &str, rel: &str) -> (r: String)
    ensures
        r@ == spec_join_path(base@, rel@),
{
    let mut s = base.to_owned();
    push_char(&mut s, '/');
    s.append(rel);
    proof {
        assert(s@ =~= spec_join_path(base@, rel@));
    }
    s
}

} // verus!

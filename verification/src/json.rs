//! Codec for the `hdiffmap.json` diff map and the line-delimited custom diff
//! records. The grammar is the canonical form the game tooling emits: one
//! object with a `diff_map` array, each entry carrying the seven identity
//! fields in fixed order, strings escaping only `"` and `\`, sizes as plain
//! decimal numbers.
//!
//! The decoder's contract is a spec-level parser (`sp_diff_map`), and the
//! encoder's a spec-level printer (`enc_diff_map`); decoding a printed map
//! gives back exactly the entries that were printed
//! ([`lemma_diff_map_roundtrip`]).

use vstd::prelude::*;
use crate::decimal::{is_digit_char, digit_val, dec_val, spec_dec, digit_run_len};
use crate::diff::{DiffEntry, DiffEntryModel, HDiffMap};
use crate::errors::PatchError;
use crate::text::{str_to_chars, chars_to_string};

verus! {

// --- Literal chunks of the canonical grammar -------------------------------

pub open spec fn l_header() -> Seq<char> {
    "{\"diff_map\":["@
}

pub open spec fn l_source_name() -> Seq<char> {
    "{\"source_file_name\":\""@
}

pub open spec fn l_source_md5() -> Seq<char> {
    ",\"source_file_md5\":\""@
}

pub open spec fn l_source_size() -> Seq<char> {
    ",\"source_file_size\":"@
}

pub open spec fn l_target_name() -> Seq<char> {
    ",\"target_file_name\":\""@
}

pub open spec fn l_target_md5() -> Seq<char> {
    ",\"target_file_md5\":\""@
}

pub open spec fn l_target_size() -> Seq<char> {
    ",\"target_file_size\":"@
}

pub open spec fn l_patch_name() -> Seq<char> {
    ",\"patch_file_name\":\""@
}

// --- Spec-level printer ----------------------------------------------------

/// Escape of one character inside a JSON string.
pub open spec fn esc_char(c: char) -> Seq<char> {
    if c == '"' || c == '\\' {
        seq!['\\', c]
    } else {
        seq![c]
    }
}

/// Escape of a whole string body.
pub open spec fn esc(s: Seq<char>) -> Seq<char>
    decreases s.len(),
{
    if s.len() == 0 {
        Seq::empty()
    } else {
        esc_char(s[0]) + esc(s.skip(1))
    }
}

/// A string value with closing quote; the opening quote belongs to the
/// preceding literal chunk.
pub open spec fn enc_str_close(s: Seq<char>) -> Seq<char> {
    esc(s) + seq!['"']
}

/// Canonical printing of one diff entry.
pub open spec fn enc_entry(e: DiffEntryModel) -> Seq<char> {
    l_source_name() + enc_str_close(e.source_file_name) + l_source_md5() + enc_str_close(
        e.source_file_md5,
    ) + l_source_size() + spec_dec(e.source_file_size as nat) + l_target_name() + enc_str_close(
        e.target_file_name,
    ) + l_target_md5() + enc_str_close(e.target_file_md5) + l_target_size() + spec_dec(
        e.target_file_size as nat,
    ) + l_patch_name() + enc_str_close(e.patch_file_name) + seq!['}']
}

/// Canonical printing of the entry list, comma-separated.
pub open spec fn enc_entries(es: Seq<DiffEntryModel>) -> Seq<char>
    decreases es.len(),
{
    if es.len() == 0 {
        Seq::empty()
    } else if es.len() == 1 {
        enc_entry(es[0])
    } else {
        enc_entry(es[0]) + seq![','] + enc_entries(es.skip(1))
    }
}

/// Canonical printing of the whole diff map.
pub open spec fn enc_diff_map(es: Seq<DiffEntryModel>) -> Seq<char> {
    l_header() + enc_entries(es) + seq![']'] + seq!['}']
}

// --- Spec-level parser -----------------------------------------------------

/// Consume an exact literal prefix.
pub open spec fn sp_lit(s: Seq<char>, lit: Seq<char>) -> Option<Seq<char>> {
    if lit.len() <= s.len() && s.take(lit.len() as int) == lit {
        Some(s.skip(lit.len() as int))
    } else {
        None
    }
}

/// Consume a string body up to and including its closing quote, undoing the
/// two escapes.
pub open spec fn sp_string_body(s: Seq<char>) -> Option<(Seq<char>, Seq<char>)>
    decreases s.len(),
{
    if s.len() == 0 {
        None
    } else if s[0] == '"' {
        Some((Seq::empty(), s.skip(1)))
    } else if s[0] == '\\' {
        if s.len() >= 2 && (s[1] == '"' || s[1] == '\\') {
            match sp_string_body(s.skip(2)) {
                Some((t, r)) => Some((seq![s[1]] + t, r)),
                None => None,
            }
        } else {
            None
        }
    } else {
        match sp_string_body(s.skip(1)) {
            Some((t, r)) => Some((seq![s[0]] + t, r)),
            None => None,
        }
    }
}

/// Consume a canonical decimal number: at least one digit, no redundant
/// leading zero, value within `u64`.
pub open spec fn sp_number(s: Seq<char>) -> Option<(u64, Seq<char>)> {
    let k = digit_run_len(s) as int;
    if k == 0 {
        None
    } else if s[0] == '0' && k > 1 {
        None
    } else if dec_val(s.take(k)) > u64::MAX {
        None
    } else {
        Some((dec_val(s.take(k)) as u64, s.skip(k)))
    }
}

/// A literal chunk followed by a string value: the backbone of each string
/// field of an entry.
pub open spec fn sp_str_field(s: Seq<char>, lit: Seq<char>) -> Option<(Seq<char>, Seq<char>)> {
    match sp_lit(s, lit) {
        None => None,
        Some(r) => sp_string_body(r),
    }
}

/// A literal chunk followed by a number: the backbone of each size field.
pub open spec fn sp_num_field(s: Seq<char>, lit: Seq<char>) -> Option<(u64, Seq<char>)> {
    match sp_lit(s, lit) {
        None => None,
        Some(r) => sp_number(r),
    }
}

/// Consume one diff entry object.
pub open spec fn sp_entry(s: Seq<char>) -> Option<(DiffEntryModel, Seq<char>)> {
    match sp_str_field(s, l_source_name()) {
        None => None,
        Some((source_file_name, s)) => match sp_str_field(s, l_source_md5()) {
            None => None,
            Some((source_file_md5, s)) => match sp_num_field(s, l_source_size()) {
                None => None,
                Some((source_file_size, s)) => match sp_str_field(s, l_target_name()) {
                    None => None,
                    Some((target_file_name, s)) => match sp_str_field(s, l_target_md5()) {
                        None => None,
                        Some((target_file_md5, s)) => match sp_num_field(s, l_target_size()) {
                            None => None,
                            Some((target_file_size, s)) => match sp_str_field(s, l_patch_name()) {
                                None => None,
                                Some((patch_file_name, s)) => if s.len() >= 1 && s[0] == '}' {
                                    Some(
                                        (
                                            DiffEntryModel {
                                                source_file_name,
                                                source_file_md5,
                                                source_file_size,
                                                target_file_name,
                                                target_file_md5,
                                                target_file_size,
                                                patch_file_name,
                                            },
                                            s.skip(1),
                                        ),
                                    )
                                } else {
                                    None
                                },
                            },
                        },
                    },
                },
            },
        },
    }
}

/// A string body always consumes at least its closing quote.
pub proof fn lemma_sp_string_body_consumes(s: Seq<char>)
    ensures
        match sp_string_body(s) {
            Some((t, r)) => r.len() < s.len(),
            None => true,
        },
    decreases s.len(),
{
    if s.len() == 0 {
    } else if s[0] == '"' {
    } else if s[0] == '\\' {
        if s.len() >= 2 && (s[1] == '"' || s[1] == '\\') {
            lemma_sp_string_body_consumes(s.skip(2));
        }
    } else {
        lemma_sp_string_body_consumes(s.skip(1));
    }
}

/// A string field always leaves a strictly shorter rest.
pub proof fn lemma_sp_str_field_consumes(s: Seq<char>, lit: Seq<char>)
    ensures
        match sp_str_field(s, lit) {
            Some((t, r)) => r.len() < s.len(),
            None => true,
        },
{
    match sp_lit(s, lit) {
        None => {},
        Some(r) => {
            lemma_sp_string_body_consumes(r);
        },
    }
}

/// A number field always leaves a strictly shorter rest.
pub proof fn lemma_sp_num_field_consumes(s: Seq<char>, lit: Seq<char>)
    ensures
        match sp_num_field(s, lit) {
            Some((n, r)) => r.len() < s.len(),
            None => true,
        },
{
    match sp_lit(s, lit) {
        None => {},
        Some(r) => {
            crate::decimal::lemma_digit_run_len(r);
        },
    }
}

/// An entry always consumes at least one character.
pub proof fn lemma_sp_entry_consumes(s: Seq<char>)
    ensures
        match sp_entry(s) {
            Some((e, r)) => r.len() < s.len(),
            None => true,
        },
{
    lemma_sp_str_field_consumes(s, l_source_name());
    match sp_str_field(s, l_source_name()) {
        None => {},
        Some((_v, s1)) => {
            lemma_sp_str_field_consumes(s1, l_source_md5());
            match sp_str_field(s1, l_source_md5()) {
                None => {},
                Some((_v, s2)) => {
                    lemma_sp_num_field_consumes(s2, l_source_size());
                    match sp_num_field(s2, l_source_size()) {
                        None => {},
                        Some((_n, s3)) => {
                            lemma_sp_str_field_consumes(s3, l_target_name());
                            match sp_str_field(s3, l_target_name()) {
                                None => {},
                                Some((_v, s4)) => {
                                    lemma_sp_str_field_consumes(s4, l_target_md5());
                                    match sp_str_field(s4, l_target_md5()) {
                                        None => {},
                                        Some((_v, s5)) => {
                                            lemma_sp_num_field_consumes(s5, l_target_size());
                                            match sp_num_field(s5, l_target_size()) {
                                                None => {},
                                                Some((_n, s6)) => {
                                                    lemma_sp_str_field_consumes(s6, l_patch_name());
                                                },
                                            }
                                        },
                                    }
                                },
                            }
                        },
                    }
                },
            }
        },
    }
}

/// Consume one or more comma-separated entries and the closing bracket.
pub open spec fn sp_entries1(s: Seq<char>) -> Option<(Seq<DiffEntryModel>, Seq<char>)>
    decreases s.len(),
    via sp_entries1_decreases
{
    match sp_entry(s) {
        None => None,
        Some((e, r)) => if r.len() >= 1 && r[0] == ',' {
            match sp_entries1(r.skip(1)) {
                Some((es, r2)) => Some((seq![e] + es, r2)),
                None => None,
            }
        } else if r.len() >= 1 && r[0] == ']' {
            Some((seq![e], r.skip(1)))
        } else {
            None
        },
    }
}

#[via_fn]
proof fn sp_entries1_decreases(s: Seq<char>) {
    lemma_sp_entry_consumes(s);
}

/// Consume the entry array after its opening bracket: either an immediate
/// closing bracket, or one or more entries.
pub open spec fn sp_entries(s: Seq<char>) -> Option<(Seq<DiffEntryModel>, Seq<char>)> {
    if s.len() >= 1 && s[0] == ']' {
        Some((Seq::empty(), s.skip(1)))
    } else {
        sp_entries1(s)
    }
}

/// What decoding the whole diff map text yields: the entries, provided the
/// text is exactly one canonical diff map.
pub open spec fn sp_diff_map(s: Seq<char>) -> Option<Seq<DiffEntryModel>> {
    match sp_lit(s, l_header()) {
        None => None,
        Some(r) => match sp_entries(r) {
            None => None,
            Some((es, r2)) => if r2 == seq!['}'] {
                Some(es)
            } else {
                None
            },
        },
    }
}

// --- Executable printer ----------------------------------------------------

/// Escaping distributes over appending one character at the end.
pub proof fn lemma_esc_snoc(t: Seq<char>, c: char)
    ensures
        esc(t.push(c)) == esc(t) + esc_char(c),
    decreases t.len(),
{
    if t.len() == 0 {
        let p = t.push(c);
        assert(p.len() == 1);
        assert(p[0] == c);
        assert(p.skip(1) =~= Seq::<char>::empty());
        assert(esc(p.skip(1)) == Seq::<char>::empty());
        assert(esc(p) == esc_char(c) + esc(p.skip(1)));
        assert(esc_char(c) + Seq::<char>::empty() =~= esc_char(c));
        assert(esc(t) == Seq::<char>::empty());
        assert(esc(t) + esc_char(c) =~= esc_char(c));
    } else {
        lemma_esc_snoc(t.skip(1), c);
        assert(t.push(c).skip(1) =~= t.skip(1).push(c));
        assert(esc(t.push(c)) == esc_char(t[0]) + (esc(t.skip(1)) + esc_char(c)));
        assert(esc_char(t[0]) + (esc(t.skip(1)) + esc_char(c)) =~= (esc_char(t[0]) + esc(
            t.skip(1),
        )) + esc_char(c));
    }
}

/// Appends the escaped form of `src` to `dst`.
fn append_escaped(dst: &mut String, src: &str)
    ensures
        final(dst)@ == old(dst)@ + esc(src@),
{
    let chars = str_to_chars(src);
    let n = chars.len();
    let mut i: usize = 0;
    while i < n
        invariant
            n == chars@.len(),
            chars@ == src@,
            i <= n,
            dst@ == old(dst)@ + esc(src@.take(i as int)),
        decreases n - i,
    {
        let c = chars[i];
        proof {
            assert(src@.take(i + 1) =~= src@.take(i as int).push(src@[i as int]));
            lemma_esc_snoc(src@.take(i as int), src@[i as int]);
        }
        if c == '"' || c == '\\' {
            crate::text::push_char(dst, '\\');
            crate::text::push_char(dst, c);
        } else {
            crate::text::push_char(dst, c);
        }
        proof {
            assert(dst@ =~= old(dst)@ + esc(src@.take(i + 1)));
        }
        i = i + 1;
    }
    proof {
        assert(src@.take(n as int) =~= src@);
    }
}

/// Appends a string value and its closing quote.
pub(crate) fn append_str_close(dst: &mut String, src: &str)
    ensures
        final(dst)@ == old(dst)@ + enc_str_close(src@),
{
    append_escaped(dst, src);
    crate::text::push_char(dst, '"');
    proof {
        assert(dst@ =~= old(dst)@ + enc_str_close(src@));
    }
}

/// Appends the canonical decimal rendering of `n`.
fn append_dec(dst: &mut String, n: u64)
    ensures
        final(dst)@ == old(dst)@ + spec_dec(n as nat),
{
    let s = crate::decimal::u64_to_string(n);
    dst.append(s.as_str());
}

/// Appends the canonical printing of one entry.
fn append_entry(dst: &mut String, e: &DiffEntry)
    ensures
        final(dst)@ == old(dst)@ + enc_entry(e@),
{
    dst.append("{\"source_file_name\":\"");
    append_str_close(dst, e.source_file_name.as_str());
    dst.append(",\"source_file_md5\":\"");
    append_str_close(dst, e.source_file_md5.as_str());
    dst.append(",\"source_file_size\":");
    append_dec(dst, e.source_file_size);
    dst.append(",\"target_file_name\":\"");
    append_str_close(dst, e.target_file_name.as_str());
    dst.append(",\"target_file_md5\":\"");
    append_str_close(dst, e.target_file_md5.as_str());
    dst.append(",\"target_file_size\":");
    append_dec(dst, e.target_file_size);
    dst.append(",\"patch_file_name\":\"");
    append_str_close(dst, e.patch_file_name.as_str());
    crate::text::push_char(dst, '}');
    proof {
        assert(seq!['}'] =~= Seq::<char>::empty().push('}'));
        assert(dst@ =~= old(dst)@ + enc_entry(e@));
    }
}

/// Appending one more entry extends the printed list by a comma (when the
/// list was non-empty) and that entry's printing.
pub proof fn lemma_enc_entries_snoc(es: Seq<DiffEntryModel>, e: DiffEntryModel)
    ensures
        es.len() == 0 ==> enc_entries(es.push(e)) == enc_entry(e),
        es.len() > 0 ==> enc_entries(es.push(e)) == enc_entries(es) + seq![','] + enc_entry(e),
    decreases es.len(),
{
    let p = es.push(e);
    if es.len() == 0 {
        assert(p.len() == 1);
        assert(p[0] == e);
        assert(enc_entries(p) == enc_entry(e));
    } else if es.len() == 1 {
        assert(p.len() == 2);
        assert(p.skip(1) =~= seq![e]);
        assert(enc_entries(p.skip(1)) == enc_entry(e));
        assert(enc_entries(p) == enc_entry(p[0]) + seq![','] + enc_entry(e));
        assert(enc_entry(p[0]) + seq![','] + enc_entry(e) =~= enc_entries(es) + seq![',']
            + enc_entry(e));
    } else {
        lemma_enc_entries_snoc(es.skip(1), e);
        assert(p.skip(1) =~= es.skip(1).push(e));
        assert(enc_entries(p) == enc_entry(es[0]) + seq![','] + (enc_entries(es.skip(1))
            + seq![','] + enc_entry(e)));
        assert(enc_entry(es[0]) + seq![','] + (enc_entries(es.skip(1)) + seq![','] + enc_entry(e))
            =~= (enc_entry(es[0]) + seq![','] + enc_entries(es.skip(1))) + seq![','] + enc_entry(
            e,
        ));
    }
}

/// Prints a diff map in the canonical form.
pub fn encode_diff_map(m: &HDiffMap) -> (r: String)
    ensures
        r@ == enc_diff_map(m@),
{
    let mut dst = String::new();
    dst.append("{\"diff_map\":[");
    let n = m.diff_map.len();
    let mut i: usize = 0;
    while i < n
        invariant
            n == m.diff_map@.len(),
            i <= n,
            dst@ == l_header() + enc_entries(m@.take(i as int)),
        decreases n - i,
    {
        proof {
            assert(m@.len() == n);
            assert(m@.take(i + 1) =~= m@.take(i as int).push(m@[i as int]));
            lemma_enc_entries_snoc(m@.take(i as int), m@[i as int]);
            assert(m@[i as int] == m.diff_map@[i as int]@);
        }
        if i > 0 {
            crate::text::push_char(&mut dst, ',');
        } else {
            proof {
                assert(m@.take(0int).len() == 0);
            }
        }
        append_entry(&mut dst, &m.diff_map[i]);
        proof {
            assert(dst@ =~= l_header() + enc_entries(m@.take(i + 1)));
        }
        i = i + 1;
    }
    crate::text::push_char(&mut dst, ']');
    crate::text::push_char(&mut dst, '}');
    proof {
        assert(m@.take(n as int) =~= m@);
        assert(dst@ =~= enc_diff_map(m@));
    }
    dst
}

// --- Round trip: parsing a canonical printing gives back the entries -------

/// The character facts about the literal chunks that the round-trip proof
/// leans on: each chunk is non-empty, an entry opens with `{`, and the chunks
/// that follow a number open with `,`.
proof fn lemma_literal_shapes()
    ensures
        l_source_name().len() >= 1,
        l_source_name()[0] == '{',
        l_target_name().len() >= 1,
        !is_digit_char(l_target_name()[0]),
        l_patch_name().len() >= 1,
        !is_digit_char(l_patch_name()[0]),
{
    reveal_strlit("{\"source_file_name\":\"");
    reveal_strlit(",\"target_file_name\":\"");
    reveal_strlit(",\"patch_file_name\":\"");
}

/// A literal consumes exactly itself.
proof fn lemma_sp_lit_roundtrip(lit: Seq<char>, rest: Seq<char>)
    ensures
        sp_lit(lit + rest, lit) == Some(rest),
{
    let s = lit + rest;
    assert(s.take(lit.len() as int) =~= lit);
    assert(s.skip(lit.len() as int) =~= rest);
}

/// Parsing an escaped string body undoes the escaping exactly.
proof fn lemma_string_body_roundtrip(content: Seq<char>, rest: Seq<char>)
    ensures
        sp_string_body(enc_str_close(content) + rest) == Some((content, rest)),
    decreases content.len(),
{
    let s = enc_str_close(content) + rest;
    if content.len() == 0 {
        assert(esc(content) == Seq::<char>::empty());
        assert(s =~= seq!['"'] + rest);
        assert(s[0] == '"');
        assert(s.skip(1) =~= rest);
    } else {
        let c = content[0];
        let tail = content.skip(1);
        assert(esc(content) == esc_char(c) + esc(tail));
        lemma_string_body_roundtrip(tail, rest);
        if c == '"' || c == '\\' {
            assert(s[0] == '\\');
            assert(s[1] == c);
            assert(s.len() >= 2);
            assert(s.skip(2) =~= enc_str_close(tail) + rest);
            assert(seq![s[1]] + tail =~= content);
        } else {
            assert(s[0] == c);
            assert(s.skip(1) =~= enc_str_close(tail) + rest);
            assert(seq![s[0]] + tail =~= content);
        }
    }
}

/// Parsing a canonical number rendering reads back the number.
proof fn lemma_number_roundtrip(n: u64, rest: Seq<char>)
    requires
        rest.len() >= 1,
        !is_digit_char(rest[0]),
    ensures
        sp_number(spec_dec(n as nat) + rest) == Some((n, rest)),
{
    let d = spec_dec(n as nat);
    let s = d + rest;
    crate::decimal::lemma_spec_dec_shape(n as nat);
    crate::decimal::lemma_digit_run_len_concat(d, rest);
    crate::decimal::lemma_dec_val_of_spec_dec(n as nat);
    let k = digit_run_len(s) as int;
    assert(k == d.len());
    assert(s[0] == d[0]);
    assert(s.take(k) =~= d);
    assert(s.skip(k) =~= rest);
    if s[0] == '0' {
        assert(n == 0);
        assert(k == 1);
    }
}

/// A string field of an entry round-trips.
pub proof fn lemma_str_field_roundtrip(lit: Seq<char>, content: Seq<char>, rest: Seq<char>)
    ensures
        sp_str_field(lit + enc_str_close(content) + rest, lit) == Some((content, rest)),
{
    let s = lit + enc_str_close(content) + rest;
    assert(s =~= lit + (enc_str_close(content) + rest));
    lemma_sp_lit_roundtrip(lit, enc_str_close(content) + rest);
    lemma_string_body_roundtrip(content, rest);
}

/// A number field of an entry round-trips.
proof fn lemma_num_field_roundtrip(lit: Seq<char>, n: u64, rest: Seq<char>)
    requires
        rest.len() >= 1,
        !is_digit_char(rest[0]),
    ensures
        sp_num_field(lit + spec_dec(n as nat) + rest, lit) == Some((n, rest)),
{
    let s = lit + spec_dec(n as nat) + rest;
    assert(s =~= lit + (spec_dec(n as nat) + rest));
    lemma_sp_lit_roundtrip(lit, spec_dec(n as nat) + rest);
    lemma_number_roundtrip(n, rest);
}

/// One printed entry parses back to itself.
#[verifier::rlimit(100)]
proof fn lemma_entry_roundtrip(e: DiffEntryModel, rest: Seq<char>)
    ensures
        sp_entry(enc_entry(e) + rest) == Some((e, rest)),
{
    lemma_literal_shapes();
    let r7 = seq!['}'] + rest;
    let r6 = l_patch_name() + enc_str_close(e.patch_file_name) + r7;
    let r5 = l_target_size() + spec_dec(e.target_file_size as nat) + r6;
    let r4 = l_target_md5() + enc_str_close(e.target_file_md5) + r5;
    let r3 = l_target_name() + enc_str_close(e.target_file_name) + r4;
    let r2 = l_source_size() + spec_dec(e.source_file_size as nat) + r3;
    let r1 = l_source_md5() + enc_str_close(e.source_file_md5) + r2;
    let s = enc_entry(e) + rest;
    assert(s =~= l_source_name() + enc_str_close(e.source_file_name) + r1);
    lemma_str_field_roundtrip(l_source_name(), e.source_file_name, r1);
    assert(r1 =~= l_source_md5() + enc_str_close(e.source_file_md5) + r2);
    lemma_str_field_roundtrip(l_source_md5(), e.source_file_md5, r2);
    assert(r3.len() >= 1 && !is_digit_char(r3[0]));
    lemma_num_field_roundtrip(l_source_size(), e.source_file_size, r3);
    lemma_str_field_roundtrip(l_target_name(), e.target_file_name, r4);
    lemma_str_field_roundtrip(l_target_md5(), e.target_file_md5, r5);
    assert(r6.len() >= 1 && !is_digit_char(r6[0]));
    lemma_num_field_roundtrip(l_target_size(), e.target_file_size, r6);
    lemma_str_field_roundtrip(l_patch_name(), e.patch_file_name, r7);
    assert(r7[0] == '}');
    assert(r7.skip(1) =~= rest);
    match sp_entry(s) {
        Some((m, r)) => {
            assert(m =~= e);
        },
        None => {
            assert(false);
        },
    }
}

/// One or more printed entries, then the closing bracket, parse back to the
/// same entries.
#[verifier::rlimit(100)]
proof fn lemma_entries1_roundtrip(es: Seq<DiffEntryModel>, rest: Seq<char>)
    requires
        es.len() >= 1,
    ensures
        sp_entries1(enc_entries(es) + seq![']'] + rest) == Some((es, rest)),
    decreases es.len(),
{
    let s = enc_entries(es) + seq![']'] + rest;
    if es.len() == 1 {
        let r = seq![']'] + rest;
        assert(s =~= enc_entry(es[0]) + r);
        lemma_entry_roundtrip(es[0], r);
        assert(r[0] == ']');
        assert(r.skip(1) =~= rest);
        assert(seq![es[0]] =~= es);
    } else {
        let tail = es.skip(1);
        let r = seq![','] + (enc_entries(tail) + seq![']'] + rest);
        assert(s =~= enc_entry(es[0]) + r);
        lemma_entry_roundtrip(es[0], r);
        assert(r[0] == ',');
        assert(r.skip(1) =~= enc_entries(tail) + seq![']'] + rest);
        lemma_entries1_roundtrip(tail, rest);
        assert(seq![es[0]] + tail =~= es);
    }
}

/// The printed entry array parses back to the same entries.
proof fn lemma_entries_roundtrip(es: Seq<DiffEntryModel>, rest: Seq<char>)
    ensures
        sp_entries(enc_entries(es) + seq![']'] + rest) == Some((es, rest)),
{
    let s = enc_entries(es) + seq![']'] + rest;
    if es.len() == 0 {
        assert(s =~= seq![']'] + rest);
        assert(s[0] == ']');
        assert(s.skip(1) =~= rest);
        assert(Seq::<DiffEntryModel>::empty() =~= es);
    } else {
        lemma_literal_shapes();
        assert(s[0] == enc_entry(es[0])[0]);
        assert(enc_entry(es[0])[0] == l_source_name()[0]);
        assert(s[0] != ']');
        lemma_entries1_roundtrip(es, rest);
    }
}

/// Round trip: decoding the canonical printing of any entry list yields
/// exactly that list, every field preserved.
pub proof fn lemma_diff_map_roundtrip(es: Seq<DiffEntryModel>)
    ensures
        sp_diff_map(enc_diff_map(es)) == Some(es),
{
    let s = enc_diff_map(es);
    let r = enc_entries(es) + seq![']'] + seq!['}'];
    assert(s =~= l_header() + r);
    lemma_sp_lit_roundtrip(l_header(), r);
    lemma_entries_roundtrip(es, seq!['}']);
}

// --- Canonical form: parsing succeeds only on a canonical printing ---------

proof fn lemma_sp_lit_inv(s: Seq<char>, lit: Seq<char>)
    ensures
        match sp_lit(s, lit) {
            Some(r) => s == lit + r,
            None => true,
        },
{
    if sp_lit(s, lit) is Some {
        assert(s =~= s.take(lit.len() as int) + s.skip(lit.len() as int));
    }
}

proof fn lemma_sp_string_body_inv(s: Seq<char>)
    ensures
        match sp_string_body(s) {
            Some((t, r)) => s == enc_str_close(t) + r,
            None => true,
        },
    decreases s.len(),
{
    if s.len() == 0 {
    } else if s[0] == '"' {
        assert(esc(Seq::<char>::empty()) == Seq::<char>::empty());
        assert(s =~= enc_str_close(Seq::<char>::empty()) + s.skip(1));
    } else if s[0] == '\\' {
        if s.len() >= 2 && (s[1] == '"' || s[1] == '\\') {
            lemma_sp_string_body_inv(s.skip(2));
            match sp_string_body(s.skip(2)) {
                Some((t2, r)) => {
                    let t = seq![s[1]] + t2;
                    assert(t[0] == s[1]);
                    assert(t.skip(1) =~= t2);
                    assert(esc(t) == esc_char(t[0]) + esc(t.skip(1)));
                    assert(esc_char(t[0]) =~= seq!['\\', s[1]]);
                    assert(s =~= seq![s[0], s[1]] + s.skip(2));
                    assert(s =~= enc_str_close(t) + r);
                },
                None => {},
            }
        }
    } else {
        lemma_sp_string_body_inv(s.skip(1));
        match sp_string_body(s.skip(1)) {
            Some((t2, r)) => {
                let t = seq![s[0]] + t2;
                assert(t[0] == s[0]);
                assert(t.skip(1) =~= t2);
                assert(esc(t) == esc_char(t[0]) + esc(t.skip(1)));
                assert(esc_char(t[0]) =~= seq![s[0]]);
                assert(s =~= seq![s[0]] + s.skip(1));
                assert(s =~= enc_str_close(t) + r);
            },
            None => {},
        }
    }
}

proof fn lemma_sp_number_inv(s: Seq<char>)
    ensures
        match sp_number(s) {
            Some((n, r)) => s == spec_dec(n as nat) + r && (r.len() == 0 || !is_digit_char(r[0])),
            None => true,
        },
{
    crate::decimal::lemma_digit_run_len(s);
    if sp_number(s) is Some {
        let k = digit_run_len(s) as int;
        let digits = s.take(k);
        assert forall|j: int| 0 <= j < k implies is_digit_char(#[trigger] digits[j]) by {
            assert(digits[j] == s[j]);
        }
        assert(digits[0] == s[0]);
        crate::decimal::lemma_spec_dec_of_dec_val(digits);
        assert(s =~= digits + s.skip(k));
    }
}

proof fn lemma_sp_str_field_inv(s: Seq<char>, lit: Seq<char>)
    ensures
        match sp_str_field(s, lit) {
            Some((t, r)) => s == lit + enc_str_close(t) + r,
            None => true,
        },
{
    lemma_sp_lit_inv(s, lit);
    match sp_lit(s, lit) {
        None => {},
        Some(r0) => {
            lemma_sp_string_body_inv(r0);
            match sp_string_body(r0) {
                None => {},
                Some((t, r)) => {
                    assert(s =~= lit + enc_str_close(t) + r);
                },
            }
        },
    }
}

proof fn lemma_sp_num_field_inv(s: Seq<char>, lit: Seq<char>)
    ensures
        match sp_num_field(s, lit) {
            Some((n, r)) => s == lit + spec_dec(n as nat) + r && (r.len() == 0 || !is_digit_char(
                r[0],
            )),
            None => true,
        },
{
    lemma_sp_lit_inv(s, lit);
    match sp_lit(s, lit) {
        None => {},
        Some(r0) => {
            lemma_sp_number_inv(r0);
            match sp_number(r0) {
                None => {},
                Some((n, r)) => {
                    assert(s =~= lit + spec_dec(n as nat) + r);
                },
            }
        },
    }
}

#[verifier::rlimit(100)]
proof fn lemma_sp_entry_inv(s: Seq<char>)
    ensures
        match sp_entry(s) {
            Some((e, r)) => s == enc_entry(e) + r,
            None => true,
        },
{
    if sp_entry(s) is Some {
        lemma_sp_str_field_inv(s, l_source_name());
        let (v1, s1) = sp_str_field(s, l_source_name())->Some_0;
        lemma_sp_str_field_inv(s1, l_source_md5());
        let (v2, s2) = sp_str_field(s1, l_source_md5())->Some_0;
        lemma_sp_num_field_inv(s2, l_source_size());
        let (n1, s3) = sp_num_field(s2, l_source_size())->Some_0;
        lemma_sp_str_field_inv(s3, l_target_name());
        let (v3, s4) = sp_str_field(s3, l_target_name())->Some_0;
        lemma_sp_str_field_inv(s4, l_target_md5());
        let (v4, s5) = sp_str_field(s4, l_target_md5())->Some_0;
        lemma_sp_num_field_inv(s5, l_target_size());
        let (n2, s6) = sp_num_field(s5, l_target_size())->Some_0;
        lemma_sp_str_field_inv(s6, l_patch_name());
        let (v5, s7) = sp_str_field(s6, l_patch_name())->Some_0;
        let (e, r) = sp_entry(s)->Some_0;
        assert(s7 =~= seq![s7[0]] + s7.skip(1));
        assert(s =~= enc_entry(e) + r);
    }
}

#[verifier::rlimit(100)]
proof fn lemma_sp_entries1_inv(s: Seq<char>)
    ensures
        match sp_entries1(s) {
            Some((es, r)) => es.len() >= 1 && s == enc_entries(es) + seq![']'] + r,
            None => true,
        },
    decreases s.len(),
{
    lemma_sp_entry_consumes(s);
    lemma_sp_entry_inv(s);
    match sp_entry(s) {
        None => {},
        Some((e, r0)) => {
            if r0.len() >= 1 && r0[0] == ',' {
                lemma_sp_entries1_inv(r0.skip(1));
                match sp_entries1(r0.skip(1)) {
                    None => {},
                    Some((es2, r)) => {
                        let es = seq![e] + es2;
                        assert(es.len() >= 2);
                        assert(es[0] == e);
                        assert(es.skip(1) =~= es2);
                        assert(enc_entries(es) == enc_entry(e) + seq![','] + enc_entries(es2));
                        assert(r0 =~= seq![','] + r0.skip(1));
                        assert(s =~= enc_entries(es) + seq![']'] + r);
                    },
                }
            } else if r0.len() >= 1 && r0[0] == ']' {
                let es = seq![e];
                assert(es.len() == 1);
                assert(es[0] == e);
                assert(enc_entries(es) == enc_entry(e));
                assert(r0 =~= seq![']'] + r0.skip(1));
                assert(s =~= enc_entries(es) + seq![']'] + r0.skip(1));
            }
        },
    }
}

proof fn lemma_sp_entries_inv(s: Seq<char>)
    ensures
        match sp_entries(s) {
            Some((es, r)) => s == enc_entries(es) + seq![']'] + r,
            None => true,
        },
{
    if s.len() >= 1 && s[0] == ']' {
        assert(enc_entries(Seq::<DiffEntryModel>::empty()) == Seq::<char>::empty());
        assert(s =~= enc_entries(Seq::<DiffEntryModel>::empty()) + seq![']'] + s.skip(1));
    } else {
        lemma_sp_entries1_inv(s);
    }
}

/// Decoding is injective into canonical texts: whenever the diff-map text
/// parses, it is exactly the canonical printing of what it parsed to. With
/// [`lemma_diff_map_roundtrip`], entry lists and canonical texts are in
/// one-to-one correspondence.
pub proof fn lemma_diff_map_canonical(s: Seq<char>)
    ensures
        match sp_diff_map(s) {
            Some(es) => s == enc_diff_map(es),
            None => true,
        },
{
    lemma_sp_lit_inv(s, l_header());
    match sp_lit(s, l_header()) {
        None => {},
        Some(r) => {
            lemma_sp_entries_inv(r);
            match sp_entries(r) {
                None => {},
                Some((es, r2)) => {
                    if r2 == seq!['}'] {
                        assert(s =~= enc_diff_map(es));
                    }
                },
            }
        },
    }
}

// --- Executable parser -----------------------------------------------------

fn is_digit(c: char) -> (r: bool)
    ensures
        r == is_digit_char(c),
{
    let u = c as u32;
    48 <= u && u <= 57
}

pub(crate) fn match_lit<'a>(s: &'a [char], lit: &[char]) -> (r: Option<&'a [char]>)
    ensures
        match r {
            Some(rest) => sp_lit(s@, lit@) == Some(rest@),
            None => sp_lit(s@, lit@) is None,
        },
{
    let n = lit.len();
    if n > s.len() {
        return None;
    }
    let mut i: usize = 0;
    while i < n
        invariant
            i <= n == lit@.len(),
            n <= s@.len(),
            forall|k: int| 0 <= k < i ==> s@[k] == lit@[k],
        decreases n - i,
    {
        if s[i] != lit[i] {
            proof {
                assert(s@.take(n as int)[i as int] != lit@[i as int]);
            }
            return None;
        }
        i = i + 1;
    }
    proof {
        assert(s@.take(n as int) =~= lit@);
        assert(s@.subrange(n as int, s@.len() as int) =~= s@.skip(n as int));
    }
    Some(&s[n..s.len()])
}

fn parse_string_body<'a>(s: &'a [char]) -> (r: Option<(Vec<char>, &'a [char])>)
    ensures
        match r {
            Some(p) => sp_string_body(s@) == Some((p.0@, p.1@)),
            None => sp_string_body(s@) is None,
        },
    decreases s@.len(),
{
    let n = s.len();
    if n == 0 {
        None
    } else if s[0] == '"' {
        let v: Vec<char> = Vec::new();
        proof {
            assert(s@.subrange(1, n as int) =~= s@.skip(1));
        }
        Some((v, &s[1..n]))
    } else if s[0] == '\\' {
        if n >= 2 && (s[1] == '"' || s[1] == '\\') {
            proof {
                assert(s@.subrange(2, n as int) =~= s@.skip(2));
            }
            match parse_string_body(&s[2..n]) {
                Some(p) => {
                    let (mut t, r) = p;
                    let ghost tv = t@;
                    t.insert(0, s[1]);
                    proof {
                        assert(t@ =~= seq![s@[1]] + tv);
                    }
                    Some((t, r))
                },
                None => None,
            }
        } else {
            None
        }
    } else {
        proof {
            assert(s@.subrange(1, n as int) =~= s@.skip(1));
        }
        match parse_string_body(&s[1..n]) {
            Some(p) => {
                let (mut t, r) = p;
                let ghost tv = t@;
                t.insert(0, s[0]);
                proof {
                    assert(t@ =~= seq![s@[0]] + tv);
                }
                Some((t, r))
            },
            None => None,
        }
    }
}

fn parse_number<'a>(s: &'a [char]) -> (r: Option<(u64, &'a [char])>)
    ensures
        match r {
            Some(p) => sp_number(s@) == Some((p.0, p.1@)),
            None => sp_number(s@) is None,
        },
{
    proof {
        crate::decimal::lemma_digit_run_len(s@);
    }
    let n = s.len();
    let mut k: usize = 0;
    let mut stop = false;
    while !stop && k < n
        invariant
            k <= n == s@.len(),
            forall|j: int| 0 <= j < k ==> is_digit_char(#[trigger] s@[j]),
            stop ==> k < n && !is_digit_char(s@[k as int]),
        decreases n - k, if stop { 0int } else { 1int },
    {
        if is_digit(s[k]) {
            k = k + 1;
        } else {
            stop = true;
        }
    }
    proof {
        // The loop's stopping point is exactly the spec-level digit run.
        assert(k == digit_run_len(s@));
    }
    if k == 0 {
        return None;
    }
    if s[0] == '0' && k > 1 {
        return None;
    }
    let ghost digits = s@.take(k as int);
    let mut acc: u64 = 0;
    let mut i: usize = 0;
    while i < k
        invariant
            i <= k <= n == s@.len(),
            digits == s@.take(k as int),
            digits.len() == k,
            k == digit_run_len(s@),
            k >= 1,
            !(s@[0] == '0' && k > 1),
            forall|j: int| 0 <= j < k ==> is_digit_char(#[trigger] s@[j]),
            acc == dec_val(digits.take(i as int)),
        decreases k - i,
    {
        let c = s[i];
        proof {
            assert(is_digit_char(s@[i as int]));
            assert(digits.take(i + 1).drop_last() =~= digits.take(i as int));
            assert(digits.take(i + 1).last() == s@[i as int]);
        }
        let d = (c as u32 - 48) as u64;
        let step = match acc.checked_mul(10) {
            Some(m) => m.checked_add(d),
            None => None,
        };
        match step {
            Some(a) => {
                acc = a;
            },
            None => {
                proof {
                    assert(digit_val(s@[i as int]) == d);
                    assert(dec_val(digits.take(i + 1)) == dec_val(digits.take(i as int)) * 10 + d);
                    assert(dec_val(digits.take(i + 1)) > u64::MAX);
                    assert forall|j: int| 0 <= j < k implies is_digit_char(
                        #[trigger] digits[j],
                    ) by {
                        assert(digits[j] == s@[j]);
                    }
                    crate::decimal::lemma_dec_val_prefix_monotone(digits, i + 1, k as int);
                    assert(digits.take(k as int) =~= digits);
                    assert(dec_val(digits) > u64::MAX);
                }
                return None;
            },
        }
        i = i + 1;
    }
    proof {
        assert(digits.take(k as int) =~= digits);
        assert(s@.subrange(k as int, n as int) =~= s@.skip(k as int));
    }
    Some((acc, &s[k..n]))
}

pub(crate) fn parse_str_field<'a>(s: &'a [char], lit: &[char]) -> (r: Option<(String, &'a [char])>)
    ensures
        match r {
            Some(p) => sp_str_field(s@, lit@) == Some((p.0@, p.1@)),
            None => sp_str_field(s@, lit@) is None,
        },
{
    match match_lit(s, lit) {
        None => None,
        Some(rest) => match parse_string_body(rest) {
            None => None,
            Some(p) => {
                let (v, r) = p;
                Some((chars_to_string(v.as_slice()), r))
            },
        },
    }
}

fn parse_num_field<'a>(s: &'a [char], lit: &[char]) -> (r: Option<(u64, &'a [char])>)
    ensures
        match r {
            Some(p) => sp_num_field(s@, lit@) == Some((p.0, p.1@)),
            None => sp_num_field(s@, lit@) is None,
        },
{
    match match_lit(s, lit) {
        None => None,
        Some(rest) => parse_number(rest),
    }
}

fn parse_entry<'a>(s: &'a [char]) -> (r: Option<(DiffEntry, &'a [char])>)
    ensures
        match r {
            Some(p) => sp_entry(s@) == Some((p.0@, p.1@)),
            None => sp_entry(s@) is None,
        },
{
    let lit1 = str_to_chars("{\"source_file_name\":\"");
    let p1 = match parse_str_field(s, lit1.as_slice()) {
        None => {
            return None;
        },
        Some(p) => p,
    };
    let lit2 = str_to_chars(",\"source_file_md5\":\"");
    let p2 = match parse_str_field(p1.1, lit2.as_slice()) {
        None => {
            return None;
        },
        Some(p) => p,
    };
    let lit3 = str_to_chars(",\"source_file_size\":");
    let p3 = match parse_num_field(p2.1, lit3.as_slice()) {
        None => {
            return None;
        },
        Some(p) => p,
    };
    let lit4 = str_to_chars(",\"target_file_name\":\"");
    let p4 = match parse_str_field(p3.1, lit4.as_slice()) {
        None => {
            return None;
        },
        Some(p) => p,
    };
    let lit5 = str_to_chars(",\"target_file_md5\":\"");
    let p5 = match parse_str_field(p4.1, lit5.as_slice()) {
        None => {
            return None;
        },
        Some(p) => p,
    };
    let lit6 = str_to_chars(",\"target_file_size\":");
    let p6 = match parse_num_field(p5.1, lit6.as_slice()) {
        None => {
            return None;
        },
        Some(p) => p,
    };
    let lit7 = str_to_chars(",\"patch_file_name\":\"");
    let p7 = match parse_str_field(p6.1, lit7.as_slice()) {
        None => {
            return None;
        },
        Some(p) => p,
    };
    let rest = p7.1;
    let n = rest.len();
    if n >= 1 && rest[0] == '}' {
        let e = DiffEntry {
            source_file_name: p1.0,
            source_file_md5: p2.0,
            source_file_size: p3.0,
            target_file_name: p4.0,
            target_file_md5: p5.0,
            target_file_size: p6.0,
            patch_file_name: p7.0,
        };
        proof {
            assert(rest@.subrange(1, n as int) =~= rest@.skip(1));
        }
        Some((e, &rest[1..n]))
    } else {
        None
    }
}

fn parse_entries1<'a>(s: &'a [char]) -> (r: Option<(Vec<DiffEntry>, &'a [char])>)
    ensures
        match r {
            Some(p) => sp_entries1(s@) == Some((p.0@.map_values(|e: DiffEntry| e@), p.1@)),
            None => sp_entries1(s@) is None,
        },
    decreases s@.len(),
{
    let p = match parse_entry(s) {
        None => {
            return None;
        },
        Some(p) => p,
    };
    let (e, rest) = p;
    let n = rest.len();
    if n >= 1 && rest[0] == ',' {
        proof {
            lemma_sp_entry_consumes(s@);
            assert(rest@.subrange(1, n as int) =~= rest@.skip(1));
        }
        match parse_entries1(&rest[1..n]) {
            Some(p2) => {
                let (mut es, r2) = p2;
                let ghost esv = es@;
                es.insert(0, e);
                proof {
                    assert(es@.map_values(|x: DiffEntry| x@) =~= seq![e@] + esv.map_values(
                        |x: DiffEntry| x@,
                    ));
                }
                Some((es, r2))
            },
            None => None,
        }
    } else if n >= 1 && rest[0] == ']' {
        let mut es: Vec<DiffEntry> = Vec::new();
        es.push(e);
        proof {
            assert(es@.map_values(|x: DiffEntry| x@) =~= seq![e@]);
            assert(rest@.subrange(1, n as int) =~= rest@.skip(1));
        }
        Some((es, &rest[1..n]))
    } else {
        None
    }
}

fn parse_entries<'a>(s: &'a [char]) -> (r: Option<(Vec<DiffEntry>, &'a [char])>)
    ensures
        match r {
            Some(p) => sp_entries(s@) == Some((p.0@.map_values(|e: DiffEntry| e@), p.1@)),
            None => sp_entries(s@) is None,
        },
{
    let n = s.len();
    if n >= 1 && s[0] == ']' {
        let es: Vec<DiffEntry> = Vec::new();
        proof {
            assert(es@.map_values(|e: DiffEntry| e@) =~= Seq::<DiffEntryModel>::empty());
            assert(s@.subrange(1, n as int) =~= s@.skip(1));
        }
        Some((es, &s[1..n]))
    } else {
        parse_entries1(s)
    }
}

/// Decodes a canonical `hdiffmap.json` text into its diff entries; any other
/// text is a structure error.
pub fn decode_diff_map(s: &str) -> (r: Result<HDiffMap, PatchError>)
    ensures
        match r {
            Ok(m) => sp_diff_map(s@) == Some(m@),
            Err(e) => sp_diff_map(s@) is None && e == PatchError::Json,
        },
{
    let chars = str_to_chars(s);
    let header = str_to_chars("{\"diff_map\":[");
    let rest = match match_lit(chars.as_slice(), header.as_slice()) {
        None => {
            return Err(PatchError::Json);
        },
        Some(r) => r,
    };
    let p = match parse_entries(rest) {
        None => {
            return Err(PatchError::Json);
        },
        Some(p) => p,
    };
    let (es, tail) = p;
    if tail.len() == 1 && tail[0] == '}' {
        proof {
            assert(tail@ =~= seq!['}']);
        }
        Ok(HDiffMap { diff_map: es })
    } else {
        proof {
            assert(tail@ != seq!['}']);
        }
        Err(PatchError::Json)
    }
}

} // verus!

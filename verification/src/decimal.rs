//! Decimal digit strings: the spec-level meaning of a digit sequence, the
//! canonical rendering of an unsigned number, and the proofs tying the two
//! together.

use vstd::prelude::*;
use crate::text::chars_to_string;

verus! {

/// `c` is an ASCII decimal digit.
pub open spec fn is_digit_char(c: char) -> bool {
    48 <= c as u32 <= 57
}

/// Numeric value of one digit character.
pub open spec fn digit_val(c: char) -> int {
    c as u32 - 48
}

/// Digit character for a value in `0..10`.
pub open spec fn digit_char(d: int) -> char {
    ((48 + d) as u8) as char
}

/// Value of a digit string, most significant digit first.
pub open spec fn dec_val(s: Seq<char>) -> nat
    decreases s.len(),
{
    if s.len() == 0 {
        0
    } else {
        (dec_val(s.drop_last()) * 10 + digit_val(s.last())) as nat
    }
}

/// Canonical decimal rendering of `n`: no leading zeros, `"0"` for zero.
pub open spec fn spec_dec(n: nat) -> Seq<char>
    decreases n,
{
    if n < 10 {
        seq![digit_char(n as int)]
    } else {
        spec_dec(n / 10).push(digit_char((n % 10) as int))
    }
}

/// Number of leading digit characters of `s`.
pub open spec fn digit_run_len(s: Seq<char>) -> nat
    decreases s.len(),
{
    if s.len() == 0 || !is_digit_char(s[0]) {
        0
    } else {
        1 + digit_run_len(s.skip(1))
    }
}

/// The digit run never runs past the end of the text, and its characters are
/// exactly the leading digits.
pub proof fn lemma_digit_run_len(s: Seq<char>)
    ensures
        digit_run_len(s) <= s.len(),
        forall|k: int| 0 <= k < digit_run_len(s) ==> is_digit_char(#[trigger] s[k]),
        digit_run_len(s) == s.len() || !is_digit_char(s[digit_run_len(s) as int]),
    decreases s.len(),
{
    if s.len() > 0 && is_digit_char(s[0]) {
        lemma_digit_run_len(s.skip(1));
        assert forall|k: int| 0 <= k < digit_run_len(s) implies is_digit_char(#[trigger] s[k]) by {
            if k > 0 {
                assert(s[k] == s.skip(1)[k - 1]);
            }
        }
    }
}

/// A digit string followed by text that does not start with a digit has a
/// digit run of exactly the digit string.
pub proof fn lemma_digit_run_len_concat(d: Seq<char>, rest: Seq<char>)
    requires
        forall|k: int| 0 <= k < d.len() ==> is_digit_char(#[trigger] d[k]),
        rest.len() == 0 || !is_digit_char(rest[0]),
    ensures
        digit_run_len(d + rest) == d.len(),
    decreases d.len(),
{
    let s = d + rest;
    if d.len() == 0 {
        assert(s =~= rest);
    } else {
        assert(s[0] == d[0]);
        assert(s.skip(1) =~= d.skip(1) + rest);
        lemma_digit_run_len_concat(d.skip(1), rest);
    }
}

/// Every character of the canonical rendering is a digit, the first is not
/// `'0'` unless the rendering is exactly `"0"`, and the rendering is non-empty.
pub proof fn lemma_spec_dec_shape(n: nat)
    ensures
        spec_dec(n).len() >= 1,
        forall|i: int| 0 <= i < spec_dec(n).len() ==> is_digit_char(#[trigger] spec_dec(n)[i]),
        n >= 10 ==> spec_dec(n).len() >= 2,
        spec_dec(n)[0] == '0' ==> n == 0,
    decreases n,
{
    if n < 10 {
        assert(spec_dec(n) == seq![digit_char(n as int)]);
        assert(is_digit_char(digit_char(n as int)));
        assert(digit_char(n as int) == '0' ==> n == 0);
    } else {
        lemma_spec_dec_shape(n / 10);
        assert(n / 10 >= 1);
        assert(is_digit_char(digit_char((n % 10) as int)));
        assert(spec_dec(n)[0] == spec_dec(n / 10)[0]);
    }
}

/// Reading back the canonical rendering of `n` gives `n`.
pub proof fn lemma_dec_val_of_spec_dec(n: nat)
    ensures
        dec_val(spec_dec(n)) == n,
    decreases n,
{
    if n < 10 {
        let s = spec_dec(n);
        assert(digit_val(digit_char(n as int)) == n);
        assert(s.drop_last() =~= Seq::<char>::empty());
        assert(s.last() == digit_char(n as int));
        assert(dec_val(s) == (dec_val(s.drop_last()) * 10 + digit_val(s.last())) as nat);
    } else {
        lemma_dec_val_of_spec_dec(n / 10);
        let s = spec_dec(n);
        assert(s.drop_last() =~= spec_dec(n / 10));
        assert(digit_val(digit_char((n % 10) as int)) == n % 10);
        assert(dec_val(s) == (n / 10) * 10 + n % 10);
        assert((n / 10) * 10 + n % 10 == n) by (nonlinear_arith);
    }
}

/// A digit string's value grows (weakly) as more digits are appended, so a
/// prefix that already exceeds a bound means the whole string does.
pub proof fn lemma_dec_val_prefix_monotone(s: Seq<char>, i: int, j: int)
    requires
        0 <= i <= j <= s.len(),
        forall|k: int| 0 <= k < j ==> is_digit_char(#[trigger] s[k]),
    ensures
        dec_val(s.take(i)) <= dec_val(s.take(j)),
    decreases j - i,
{
    if i < j {
        lemma_dec_val_prefix_monotone(s, i, j - 1);
        let a = s.take(j - 1);
        let b = s.take(j);
        assert(b.drop_last() =~= a);
        assert(dec_val(b) == dec_val(a) * 10 + digit_val(b.last()));
        assert(dec_val(a) * 10 >= dec_val(a)) by (nonlinear_arith);
    }
}

/// A digit character is recovered from its value.
proof fn lemma_digit_char_roundtrip(c: char)
    requires
        is_digit_char(c),
    ensures
        digit_char(digit_val(c)) == c,
{
}

/// A nonzero digit character has a positive value.
proof fn lemma_digit_val_pos(c: char)
    requires
        is_digit_char(c),
        c != '0',
    ensures
        digit_val(c) >= 1,
{
}

/// A digit string without a redundant leading zero is the canonical
/// rendering of its own value.
#[verifier::rlimit(100)]
pub proof fn lemma_spec_dec_of_dec_val(d: Seq<char>)
    requires
        d.len() >= 1,
        forall|k: int| 0 <= k < d.len() ==> is_digit_char(#[trigger] d[k]),
        d[0] == '0' ==> d.len() == 1,
    ensures
        spec_dec(dec_val(d)) == d,
    decreases d.len(),
{
    if d.len() == 1 {
        assert(is_digit_char(d[0]));
        assert(d.drop_last() =~= Seq::<char>::empty());
        assert(d.last() == d[0]);
        assert(dec_val(d.drop_last()) == 0);
        assert(digit_val(d[0]) >= 0);
        assert(dec_val(d) == digit_val(d[0]));
        lemma_digit_char_roundtrip(d[0]);
        assert(spec_dec(dec_val(d)) =~= d);
    } else {
        let front = d.drop_last();
        let l = digit_val(d.last());
        assert(forall|k: int| 0 <= k < front.len() ==> is_digit_char(#[trigger] front[k]));
        lemma_spec_dec_of_dec_val(front);
        let vp = dec_val(front);
        // The leading digit is not zero, so the front's value is at least one.
        lemma_dec_val_prefix_monotone(front, 1, front.len() as int);
        let single = front.take(1);
        assert(single =~= seq![d[0]]);
        assert(front.take(front.len() as int) =~= front);
        assert(is_digit_char(d[0]));
        assert(single.drop_last() =~= Seq::<char>::empty());
        assert(single.last() == d[0]);
        assert(dec_val(single) == digit_val(d[0])) by {
            assert(is_digit_char(d[0]));
            assert(single.drop_last() =~= Seq::<char>::empty());
            assert(dec_val(single.drop_last()) == 0);
        }
        lemma_digit_val_pos(d[0]);
        assert(vp >= 1);
        let v = dec_val(d);
        assert(v == vp * 10 + l);
        assert(vp >= 1 && 0 <= l < 10 ==> (vp * 10 + l) / 10 == vp && (vp * 10 + l) % 10 == l
            && vp * 10 + l >= 10) by (nonlinear_arith);
        assert(spec_dec(v) == spec_dec(vp).push(digit_char(l)));
        lemma_digit_char_roundtrip(d.last());
        assert(spec_dec(v) =~= d);
    }
}

/// Renders `n` as its canonical decimal digit characters.
pub fn u64_to_dec_chars(n: u64) -> (r: Vec<char>)
    ensures
        r@ == spec_dec(n as nat),
    decreases n,
{
    if n < 10 {
        let c = (48 + n as u8) as char;
        proof {
            assert(c == digit_char(n as int));
        }
        let mut v: Vec<char> = Vec::new();
        v.push(c);
        proof {
            assert(v@ =~= spec_dec(n as nat));
        }
        v
    } else {
        let mut v = u64_to_dec_chars(n / 10);
        let d = (n % 10) as u8;
        let c = (48 + d) as char;
        proof {
            assert(c == digit_char((n % 10) as int));
        }
        v.push(c);
        v
    }
}

/// Renders `n` as a canonical decimal string.
pub fn u64_to_string(n: u64) -> (r: String)
    ensures
        r@ == spec_dec(n as nat),
{
    let v = u64_to_dec_chars(n);
    chars_to_string(v.as_slice())
}

} // verus!

//! Fixed-capacity text fields: UTF-8, zero-padded, read up to the first NUL.
//!
//! Reading never fails: a field whose bytes stop in the middle of a
//! multi-byte character keeps only its longest valid UTF-8 prefix.

use crate::wire::push_zeros;
use vstd::prelude::*;
use vstd::utf8::{decode_utf8, encode_utf8, valid_utf8};

verus! {

broadcast use vstd::utf8::group_utf8_lib;

/// Position of the first zero byte of `b` at or after `i`, or `b.len()`.
pub open spec fn nul_from(b: Seq<u8>, i: int) -> int
    decreases b.len() - i,
{
    if i < 0 || i >= b.len() {
        b.len() as int
    } else if b[i] == 0 {
        i
    } else {
        nul_from(b, i + 1)
    }
}

/// Length of the longest prefix of `b.take(n)` that is valid UTF-8.
pub open spec fn valid_prefix_len(b: Seq<u8>, n: int) -> int
    decreases n,
{
    if n <= 0 {
        0
    } else if valid_utf8(b.take(n)) {
        n
    } else {
        valid_prefix_len(b, n - 1)
    }
}

/// The bytes of a field up to its terminator.
pub open spec fn until_nul(field: Seq<u8>) -> Seq<u8> {
    field.take(nul_from(field, 0))
}

/// The text a field holds: its bytes up to the first NUL, cut back to the
/// longest valid UTF-8 prefix.
pub open spec fn field_text(field: Seq<u8>) -> Seq<char> {
    let t = until_nul(field);
    decode_utf8(t.take(valid_prefix_len(t, t.len() as int)))
}

/// Number of bytes of `s` that a field of `cap` bytes keeps.
pub open spec fn kept_len(s: Seq<char>, cap: nat) -> nat {
    if encode_utf8(s).len() <= cap {
        encode_utf8(s).len()
    } else {
        cap
    }
}

/// A field of `cap` bytes holding `s`: its UTF-8 bytes (at most `cap`), then zeros.
pub open spec fn fixed_text(s: Seq<char>, cap: nat) -> Seq<u8> {
    encode_utf8(s).take(kept_len(s, cap) as int) + Seq::new((cap - kept_len(s, cap)) as nat, |i: int| 0u8)
}

/// `s` is a value a field of `cap` bytes can carry: it fits and holds no NUL byte.
pub open spec fn text_fits(s: Seq<char>, cap: nat) -> bool {
    &&& encode_utf8(s).len() <= cap
    &&& forall|i: int| 0 <= i < encode_utf8(s).len() ==> encode_utf8(s)[i] != 0
}

/// Relies on `std::str::from_utf8`: `Ok` exactly when the bytes are valid
/// UTF-8, with a text made of those bytes; otherwise the error's
/// `valid_up_to`, the largest index whose prefix would decode.
#[verifier::external_body]
fn utf8_text(b: &[u8]) -> (r: Result<String, usize>)
    ensures
        r is Ok <==> valid_utf8(b@),
        r matches Ok(s) ==> encode_utf8(s@) == b@,
        r matches Err(k) ==> {
            &&& k < b@.len()
            &&& valid_utf8(b@.take(k as int))
            &&& forall|m: int| k < m <= b@.len() ==> !valid_utf8(b@.take(m))
        },
{
    match std::str::from_utf8(b) {
        Ok(s) => Ok(s.to_string()),
        Err(e) => Err(e.valid_up_to()),
    }
}

proof fn lemma_valid_prefix_len(b: Seq<u8>, n: int, k: int)
    requires
        0 <= k <= n,
        valid_utf8(b.take(k)),
        forall|m: int| k < m <= n ==> !valid_utf8(b.take(m)),
    ensures
        valid_prefix_len(b, n) == k,
    decreases n,
{
    if n > k {
        lemma_valid_prefix_len(b, n - 1, k);
    }
}

proof fn lemma_nul_from(b: Seq<u8>, i: int, n: int)
    requires
        0 <= i <= n <= b.len(),
        forall|j: int| i <= j < n ==> b[j] != 0,
        n == b.len() || b[n] == 0,
    ensures
        nul_from(b, i) == n,
    decreases n - i,
{
    if i < n {
        lemma_nul_from(b, i + 1, n);
    }
}

/// Writing a fitting text into a field and reading the field back gives the text.
pub proof fn lemma_text_round_trip(s: Seq<char>, cap: nat)
    requires
        text_fits(s, cap),
    ensures
        fixed_text(s, cap).len() == cap,
        field_text(fixed_text(s, cap)) == s,
{
    let b = encode_utf8(s);
    let f = fixed_text(s, cap);
    let n = b.len() as int;
    assert(b.take(n) =~= b);
    assert forall|j: int| 0 <= j < n implies f[j] != 0 by {
        assert(f[j] == b[j]);
    }
    lemma_nul_from(f, 0, n);
    assert(until_nul(f) =~= b);
    if n > 0 {
        assert(valid_prefix_len(b, n) == n);
    }
}

/// A fitting text written at offset `pre.len()` reads back from there.
pub proof fn lemma_text_at(pre: Seq<u8>, s: Seq<char>, cap: nat, rest: Seq<u8>)
    requires
        text_fits(s, cap),
    ensures
        fixed_text(s, cap).len() == cap,
        field_text((pre + fixed_text(s, cap) + rest).subrange(pre.len() as int, (pre.len() + cap) as int))
            == s,
{
    lemma_text_round_trip(s, cap);
    assert((pre + fixed_text(s, cap) + rest).subrange(pre.len() as int, (pre.len() + cap) as int)
        =~= fixed_text(s, cap));
}

/// What a field decodes to always fits back into a field of the same size.
pub proof fn lemma_field_text_fits(field: Seq<u8>)
    ensures
        text_fits(field_text(field), field.len()),
{
    let t = until_nul(field);
    let v = valid_prefix_len(t, t.len() as int);
    lemma_valid_prefix_len_props(t, t.len() as int);
    lemma_nul_from_props(field, 0);
    let p = t.take(v);
    assert(encode_utf8(decode_utf8(p)) == p);
    assert forall|i: int| 0 <= i < p.len() implies p[i] != 0 by {
        assert(p[i] == field[i]);
    }
}

proof fn lemma_valid_prefix_len_props(b: Seq<u8>, n: int)
    requires
        0 <= n <= b.len(),
    ensures
        0 <= valid_prefix_len(b, n) <= n,
        valid_utf8(b.take(valid_prefix_len(b, n))),
    decreases n,
{
    if n <= 0 {
        assert(b.take(0) =~= Seq::<u8>::empty());
    } else if !valid_utf8(b.take(n)) {
        lemma_valid_prefix_len_props(b, n - 1);
    }
}

proof fn lemma_nul_from_props(b: Seq<u8>, i: int)
    requires
        0 <= i <= b.len(),
    ensures
        i <= nul_from(b, i) <= b.len(),
        forall|j: int| i <= j < nul_from(b, i) ==> b[j] != 0,
    decreases b.len() - i,
{
    if i < b.len() && b[i] != 0 {
        lemma_nul_from_props(b, i + 1);
    }
}

/// Whether two texts are equal.
pub fn same_text(a: &str, b: &str) -> (r: bool)
    ensures
        r == (a@ == b@),
{
    let x = a.to_owned();
    let y = b.to_owned();
    x == y
}

/// Appends a field of `cap` bytes holding `s`.
pub fn push_text(out: &mut Vec<u8>, s: &str, cap: usize)
    ensures
        final(out)@ == old(out)@ + fixed_text(s@, cap as nat),
{
    let b = s.as_bytes();
    let ghost e = encode_utf8(s@);
    assert(b@ == e);
    let n: usize = if b.len() <= cap {
        b.len()
    } else {
        cap
    };
    let ghost start = out@;
    let mut k: usize = 0;
    while k < n
        invariant
            k <= n,
            n <= b@.len(),
            b@ == e,
            out@ == start + e.take(k as int),
        decreases n - k,
    {
        out.push(b[k]);
        k = k + 1;
        assert(out@ =~= start + e.take(k as int));
    }
    push_zeros(out, cap - n);
    assert(final(out)@ =~= old(out)@ + fixed_text(s@, cap as nat));
}

/// Reads the field `data[off..off + cap]`.
pub fn read_text(data: &[u8], off: usize, cap: usize) -> (r: String)
    requires
        off + cap <= data@.len(),
    ensures
        r@ == field_text(data@.subrange(off as int, off + cap)),
        text_fits(r@, cap as nat),
{
    let ghost field = data@.subrange(off as int, off + cap);
    let len = data.len();
    let mut i: usize = 0;
    while i < cap && data[off + i] != 0
        invariant
            i <= cap,
            off + cap <= data@.len(),
            len == data@.len(),
            field == data@.subrange(off as int, off + cap),
            nul_from(field, i as int) == nul_from(field, 0),
        decreases cap - i,
    {
        i = i + 1;
    }
    proof {
        lemma_field_text_fits(field);
    }
    let t = &data[off..off + i];
    let ghost tt = until_nul(field);
    assert(t@ =~= tt);
    match utf8_text(t) {
        Ok(s) => {
            proof {
                if tt.len() > 0 {
                    assert(tt.take(tt.len() as int) =~= tt);
                }
            }
            s
        },
        Err(k) => {
            proof {
                lemma_valid_prefix_len(tt, tt.len() as int, k as int);
            }
            let p = &t[0..k];
            assert(p@ =~= tt.take(k as int));
            match utf8_text(p) {
                Ok(s) => s,
                Err(_) => String::new(),
            }
        },
    }
}

} // verus!

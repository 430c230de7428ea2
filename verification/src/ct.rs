//! Constant-time comparison of API-key strings.
//!
//! The comparison accumulates a difference byte over the lengths and over
//! every byte position up to the longer of the two lengths; it never stops
//! early at the first mismatch, so its running time does not reveal where
//! two keys diverge. Unequal lengths always contribute: beside the low
//! byte of the length mix, a dedicated bit records any length difference,
//! so the accumulated difference is zero exactly for equal strings.

use vstd::prelude::*;

verus! {

use vstd::string::StringSliceAdditionalSpecFns;
use vstd::utf8::{encode_utf8, encode_utf8_decode_utf8};

/// Byte the comparison reads at position `i`: the byte itself inside the
/// string, and a zero pad past its end.
pub open spec fn byte_at(s: Seq<u8>, i: int) -> u8 {
    if 0 <= i < s.len() {
        s[i]
    } else {
        0
    }
}

/// The seed of the accumulated difference: the low byte of the length
/// mix, with one more bit set whenever the lengths differ at all.
pub open spec fn ct_seed(a: Seq<u8>, b: Seq<u8>) -> u8 {
    (((a.len() as usize) ^ (b.len() as usize)) as u8) | (if a.len() == b.len() {
        0u8
    } else {
        1u8
    })
}

/// Difference byte accumulated after mixing the two lengths and the bytes
/// at the first `n` positions. Every position below `n` contributes,
/// whether or not an earlier position already differed.
pub open spec fn ct_acc(a: Seq<u8>, b: Seq<u8>, n: int) -> u8
    decreases n,
{
    if n <= 0 {
        ct_seed(a, b)
    } else {
        ct_acc(a, b, n - 1) | (byte_at(a, n - 1) ^ byte_at(b, n - 1))
    }
}

/// The longer of the two byte lengths: the number of positions the
/// comparison walks.
pub open spec fn max_len(a: Seq<u8>, b: Seq<u8>) -> int {
    if a.len() >= b.len() {
        a.len() as int
    } else {
        b.len() as int
    }
}

/// What the constant-time comparison reports for byte strings `a` and `b`:
/// a zero difference accumulated over every position up to the longer
/// length.
pub open spec fn ct_eq(a: Seq<u8>, b: Seq<u8>) -> bool {
    ct_acc(a, b, max_len(a, b)) == 0
}

/// Compare two strings in constant time over their byte encodings.
///
/// The result is string equality, computed as the accumulated-difference
/// test [`ct_eq`]: the loop walks every byte position up to the longer
/// length regardless of where the first mismatch sits.
pub fn constant_time_eq(a: &str, b: &str) -> (r: bool)
    ensures
        r == (a@ == b@),
        r == ct_eq(a.spec_bytes(), b.spec_bytes()),
{
    let ab: &[u8] = a.as_bytes();
    let bb: &[u8] = b.as_bytes();
    let al: usize = ab.len();
    let bl: usize = bb.len();
    let max: usize = if al >= bl {
        al
    } else {
        bl
    };
    let len_mix: u8 = #[verifier::truncate] ((al ^ bl) as u8);
    let len_neq: u8 = if al != bl {
        1
    } else {
        0
    };
    let mut diff: u8 = len_mix | len_neq;
    assert(diff == ct_acc(ab@, bb@, 0));
    let mut i: usize = 0;
    while i < max
        invariant
            ab@ == a.spec_bytes(),
            bb@ == b.spec_bytes(),
            al == ab@.len(),
            bl == bb@.len(),
            max == max_len(ab@, bb@),
            i <= max,
            diff == ct_acc(ab@, bb@, i as int),
        decreases max - i,
    {
        let av: u8 = if i < al {
            ab[i]
        } else {
            0
        };
        let bv: u8 = if i < bl {
            bb[i]
        } else {
            0
        };
        diff = diff | (av ^ bv);
        i = i + 1;
    }
    proof {
        lemma_ct_eq_chars(a@, b@);
    }
    diff == 0
}

/// The accumulated difference is zero exactly when the length seed is zero
/// and the bytes agree at every one of the first `n` positions: no position
/// is skipped, however early a mismatch occurs.
pub proof fn lemma_ct_acc_zero(a: Seq<u8>, b: Seq<u8>, n: int)
    requires
        0 <= n,
    ensures
        ct_acc(a, b, n) == 0 <==> (ct_seed(a, b) == 0 && forall|i: int|
            0 <= i < n ==> byte_at(a, i) == byte_at(b, i)),
    decreases n,
{
    if n > 0 {
        lemma_ct_acc_zero(a, b, n - 1);
        let x = ct_acc(a, b, n - 1);
        let p = byte_at(a, n - 1);
        let q = byte_at(b, n - 1);
        assert((x | (p ^ q)) == 0 <==> (x == 0 && p == q)) by (bit_vector);
    }
}

/// The constant-time test decides byte-string equality: the seed's extra
/// bit flags any length difference, and the walk covers every position.
pub proof fn lemma_ct_eq_decides(a: Seq<u8>, b: Seq<u8>)
    ensures
        ct_eq(a, b) <==> a == b,
{
    let m = max_len(a, b);
    lemma_ct_acc_zero(a, b, m);
    if ct_eq(a, b) {
        let neq: u8 = if a.len() == b.len() {
            0
        } else {
            1
        };
        let mix: u8 = ((a.len() as usize) ^ (b.len() as usize)) as u8;
        assert((mix | neq) == 0 ==> neq == 0) by (bit_vector);
        assert(a.len() == b.len());
        assert forall|i: int| 0 <= i < a.len() implies a[i] == b[i] by {
            assert(byte_at(a, i) == byte_at(b, i));
        }
        assert(a =~= b);
    } else {
        if a == b {
            let al = a.len() as usize;
            let bl = b.len() as usize;
            let mix: u8 = (al ^ bl) as u8;
            assert(mix == 0) by (bit_vector)
                requires
                    mix == ((al ^ bl) as u8),
                    al == bl,
            ;
            assert((mix | 0u8) == 0) by (bit_vector)
                requires
                    mix == 0,
            ;
            assert(ct_seed(a, b) == (mix | 0u8));
            assert(ct_seed(a, b) == 0);
            assert(forall|i: int| 0 <= i < m ==> byte_at(a, i) == byte_at(b, i));
            assert(false);
        }
    }
}

/// Character-level reading of the same fact: over the UTF-8 encodings that
/// [`constant_time_eq`] walks, the constant-time test decides string
/// equality.
pub proof fn lemma_ct_eq_chars(a: Seq<char>, b: Seq<char>)
    ensures
        ct_eq(encode_utf8(a), encode_utf8(b)) <==> a == b,
{
    lemma_ct_eq_decides(encode_utf8(a), encode_utf8(b));
    if encode_utf8(a) == encode_utf8(b) {
        encode_utf8_decode_utf8(a);
        encode_utf8_decode_utf8(b);
        assert(a == b);
    }
}

} // verus!

//! Scalars of the prime-order group, in their 32-byte little-endian encoding.

use vstd::prelude::*;

verus! {

/// The number that a byte string denotes when read least significant byte
/// first.
pub open spec fn le_value(bytes: Seq<u8>) -> nat
    decreases bytes.len(),
{
    if bytes.len() == 0 {
        0
    } else {
        bytes[0] as nat + 256 * le_value(bytes.drop_first())
    }
}

/// The little-endian encoding of the group order
/// `2^252 + 27742317777372353535851937790883648493`.
pub open spec fn group_order_bytes() -> Seq<u8> {
    seq![
        0xedu8, 0xd3u8, 0xf5u8, 0x5cu8, 0x1au8, 0x63u8, 0x12u8, 0x58u8,
        0xd6u8, 0x9cu8, 0xf7u8, 0xa2u8, 0xdeu8, 0xf9u8, 0xdeu8, 0x14u8,
        0x00u8, 0x00u8, 0x00u8, 0x00u8, 0x00u8, 0x00u8, 0x00u8, 0x00u8,
        0x00u8, 0x00u8, 0x00u8, 0x00u8, 0x00u8, 0x00u8, 0x00u8, 0x10u8,
    ]
}

/// The order of the group, `2^252 + 27742317777372353535851937790883648493`:
/// scalars are the integers below it.
pub open spec fn group_order() -> nat {
    7237005577332262213973186563042994240857116359379907606001950938285454250989nat
}

/// The group order as the bytes that encodings are compared against.
pub fn order_bytes() -> (out: [u8; 32])
    ensures
        out@ == group_order_bytes(),
{
    let out: [u8; 32] = [
        0xed, 0xd3, 0xf5, 0x5c, 0x1a, 0x63, 0x12, 0x58,
        0xd6, 0x9c, 0xf7, 0xa2, 0xde, 0xf9, 0xde, 0x14,
        0x00, 0x00, 0x00, 0x00, 0x00, 0x00, 0x00, 0x00,
        0x00, 0x00, 0x00, 0x00, 0x00, 0x00, 0x00, 0x10,
    ];
    assert(out@ =~= group_order_bytes());
    out
}

/// `256^n`, the weight of the byte at position `n`.
pub open spec fn pow256(n: nat) -> nat
    decreases n,
{
    if n == 0 {
        1
    } else {
        256 * pow256((n - 1) as nat)
    }
}

/// The `len`-byte little-endian encoding of `x`, truncated to the low
/// `len` bytes where `x` needs more.
pub open spec fn le_bytes(x: nat, len: nat) -> Seq<u8>
    decreases len,
{
    if len == 0 {
        Seq::empty()
    } else {
        seq![(x % 256) as u8] + le_bytes(x / 256, (len - 1) as nat)
    }
}

/// Two encodings of one length that agree above position `k` are ordered as
/// their bytes at `k` are.
pub proof fn lemma_le_value_decided_at(a: Seq<u8>, b: Seq<u8>, k: int)
    requires
        a.len() == b.len(),
        0 <= k < a.len(),
        a[k] < b[k],
        forall|j: int| k < j < a.len() ==> a[j] == b[j],
    ensures
        le_value(a) < le_value(b),
    decreases a.len(),
{
    let ra = a.drop_first();
    let rb = b.drop_first();
    if k == 0 {
        assert(ra =~= rb);
    } else {
        assert forall|j: int| k - 1 < j < ra.len() implies ra[j] == rb[j] by {
            assert(ra[j] == a[j + 1]);
            assert(rb[j] == b[j + 1]);
        }
        lemma_le_value_decided_at(ra, rb, k - 1);
    }
}

/// Decoding undoes encoding: the `len`-byte encoding of a number below
/// `256^len` denotes that number.
pub proof fn lemma_le_bytes_value(x: nat, len: nat)
    ensures
        le_bytes(x, len).len() == len,
        x < pow256(len) ==> le_value(le_bytes(x, len)) == x,
    decreases len,
{
    if len > 0 {
        lemma_le_bytes_value(x / 256, (len - 1) as nat);
        let s = le_bytes(x, len);
        assert(s.drop_first() =~= le_bytes(x / 256, (len - 1) as nat));
        assert(s[0] == (x % 256) as u8);
    }
}

/// Encoding undoes decoding: a byte string is the encoding of the number it
/// denotes.
pub proof fn lemma_le_value_bytes(s: Seq<u8>)
    ensures
        le_bytes(le_value(s), s.len()) == s,
    decreases s.len(),
{
    if s.len() > 0 {
        let rest = s.drop_first();
        lemma_le_value_bytes(rest);
        let x = le_value(s);
        assert(x % 256 == s[0] as nat);
        assert(x / 256 == le_value(rest));
        assert(le_bytes(x, s.len()) =~= s);
    } else {
        assert(le_bytes(0, 0) =~= s);
    }
}

/// The bytes that encodings are compared against denote the group order.
pub proof fn lemma_group_order_bytes()
    ensures
        le_value(group_order_bytes()) == group_order(),
{
    let s = group_order_bytes();
    let low = s.subrange(0, 16);
    let high = s.subrange(16, 32);
    lemma_le_value_split(s, 16);
    lemma_le_value_16(low);
    lemma_le_value_16(high);
    assert(pow256(16) == 0x1_0000_0000_0000_0000_0000_0000_0000_0000nat) by {
        reveal_with_fuel(pow256, 17);
    }
    let lo: nat = 27742317777372353535851937790883648493nat;
    let hi: nat = 0x1000_0000_0000_0000_0000_0000_0000_0000nat;
    assert(le_value(low) == lo);
    assert(le_value(high) == hi);
    let weight: nat = 0x1_0000_0000_0000_0000_0000_0000_0000_0000nat;
    assert(le_value(s) == lo + weight * hi);
    assert(weight * hi
        == 0x1000_0000_0000_0000_0000_0000_0000_0000_0000_0000_0000_0000_0000_0000_0000_0000nat)
        by (nonlinear_arith)
        requires
            weight == 0x1_0000_0000_0000_0000_0000_0000_0000_0000nat,
            hi == 0x1000_0000_0000_0000_0000_0000_0000_0000nat,
    ;
    assert(group_order()
        == 0x1000_0000_0000_0000_0000_0000_0000_0000_0000_0000_0000_0000_0000_0000_0000_0000nat
        + lo);
}

/// The number denoted by sixteen bytes, written as a sum.
proof fn lemma_le_value_16(s: Seq<u8>)
    requires
        s.len() == 16,
    ensures
        le_value(s) == s[0] + 0x100 * (s[1] + 0x100 * (s[2] + 0x100 * (s[3] + 0x100 * (s[4] + 0x100
            * (s[5] + 0x100 * (s[6] + 0x100 * (s[7] + 0x100 * (s[8] + 0x100 * (s[9] + 0x100 * (s[10]
            + 0x100 * (s[11] + 0x100 * (s[12] + 0x100 * (s[13] + 0x100 * (s[14] + 0x100
            * s[15])))))))))))))),
{
    let low = s.subrange(0, 8);
    let high = s.subrange(8, 16);
    lemma_le_value_split(s, 8);
    lemma_le_value_8(low);
    lemma_le_value_8(high);
    assert(pow256(8) == 0x1_0000_0000_0000_0000nat) by {
        reveal_with_fuel(pow256, 9);
    }
    assert(low[0] == s[0] && low[1] == s[1] && low[2] == s[2] && low[3] == s[3]);
    assert(low[4] == s[4] && low[5] == s[5] && low[6] == s[6] && low[7] == s[7]);
    assert(high[0] == s[8] && high[1] == s[9] && high[2] == s[10] && high[3] == s[11]);
    assert(high[4] == s[12] && high[5] == s[13] && high[6] == s[14] && high[7] == s[15]);
    assert(le_value(s) == le_value(low) + 0x1_0000_0000_0000_0000 * le_value(high));
}

/// The number denoted by eight bytes, written as a sum.
proof fn lemma_le_value_8(s: Seq<u8>)
    requires
        s.len() == 8,
    ensures
        le_value(s) == s[0] + 0x100 * (s[1] + 0x100 * (s[2] + 0x100 * (s[3] + 0x100 * (s[4] + 0x100
            * (s[5] + 0x100 * (s[6] + 0x100 * s[7])))))),
{
    let s1 = s.drop_first();
    let s2 = s1.drop_first();
    let s3 = s2.drop_first();
    let s4 = s3.drop_first();
    let s5 = s4.drop_first();
    let s6 = s5.drop_first();
    let s7 = s6.drop_first();
    let s8 = s7.drop_first();
    assert(le_value(s8) == 0);
    assert(le_value(s7) == s[7]);
    assert(le_value(s6) == s[6] + 256 * le_value(s7));
    assert(le_value(s5) == s[5] + 256 * le_value(s6));
    assert(le_value(s4) == s[4] + 256 * le_value(s5));
    assert(le_value(s3) == s[3] + 256 * le_value(s4));
    assert(le_value(s2) == s[2] + 256 * le_value(s3));
    assert(le_value(s1) == s[1] + 256 * le_value(s2));
}

/// The number denoted by a byte string is that of its first `k` bytes plus
/// `256^k` times that of the rest.
pub proof fn lemma_le_value_split(s: Seq<u8>, k: int)
    requires
        0 <= k <= s.len(),
    ensures
        le_value(s) == le_value(s.subrange(0, k)) + pow256(k as nat) * le_value(
            s.subrange(k, s.len() as int),
        ),
    decreases k,
{
    let head = s.subrange(0, k);
    let tail = le_value(s.subrange(k, s.len() as int));
    if k == 0 {
        assert(s.subrange(0, s.len() as int) =~= s);
        assert(le_value(head) == 0);
        assert(pow256(0) == 1);
        assert(le_value(s) == 0 + 1 * tail);
    } else {
        let rest = s.drop_first();
        let weight = pow256((k - 1) as nat);
        lemma_le_value_split(rest, k - 1);
        assert(head.drop_first() =~= rest.subrange(0, k - 1));
        assert(rest.subrange(k - 1, rest.len() as int) =~= s.subrange(k, s.len() as int));
        assert(head[0] == s[0]);
        assert(le_value(head) == s[0] + 256 * le_value(rest.subrange(0, k - 1)));
        assert(le_value(rest) == le_value(rest.subrange(0, k - 1)) + weight * tail);
        assert(le_value(s) == s[0] + 256 * le_value(rest));
        assert(pow256(k as nat) == 256 * weight);
        assert(256 * (weight * tail) == (256 * weight) * tail) by (nonlinear_arith);
    }
}

/// `256^n` grows with `n`.
pub proof fn lemma_pow256_monotonic(a: nat, b: nat)
    requires
        a <= b,
    ensures
        1 <= pow256(a) <= pow256(b),
    decreases b,
{
    if b > 0 {
        if a < b {
            lemma_pow256_monotonic(a, (b - 1) as nat);
        } else {
            lemma_pow256_monotonic((a - 1) as nat, (b - 1) as nat);
        }
    }
}

/// Whether `bytes` is the canonical encoding of a scalar: whether the
/// number it denotes lies below the group order.  The bytes are compared
/// from the most significant down, and the first that differs decides.
pub fn is_canonical(bytes: &[u8; 32]) -> (ok: bool)
    ensures
        ok == (le_value(bytes@) < group_order()),
{
    let order = order_bytes();
    proof {
        lemma_group_order_bytes();
    }
    let mut i: usize = 32;
    while i > 0
        invariant
            i <= 32,
            order@ == group_order_bytes(),
            le_value(order@) == group_order(),
            forall|j: int| i <= j < 32 ==> bytes@[j] == order@[j],
        decreases i,
    {
        i -= 1;
        if bytes[i] < order[i] {
            proof {
                lemma_le_value_decided_at(bytes@, order@, i as int);
            }
            return true;
        }
        if bytes[i] > order[i] {
            proof {
                lemma_le_value_decided_at(order@, bytes@, i as int);
            }
            return false;
        }
    }
    assert(bytes@ =~= order@);
    false
}

/// An integer modulo the group order, held in its canonical encoding.
#[derive(Clone, Copy, Debug, PartialEq, Eq)]
pub struct Scalar {
    bytes: [u8; 32],
}

impl View for Scalar {
    type V = Seq<u8>;

    /// The 32 bytes of the canonical encoding.
    closed spec fn view(&self) -> Seq<u8> {
        self.bytes@
    }
}

impl Scalar {
    #[verifier::type_invariant]
    spec fn canonical(self) -> bool {
        le_value(self.bytes@) < group_order()
    }

    /// The integer that the scalar stands for.
    pub open spec fn value(&self) -> nat {
        le_value(self@)
    }

    /// The scalar that stands for `x`.
    pub fn from_u64(x: u64) -> (s: Scalar)
        ensures
            s@ == le_bytes(x as nat, 32),
            s.value() == x,
    {
        let mut bytes = [0u8; 32];
        let mut rest = x;
        let mut i: usize = 0;
        while i < 32
            invariant
                i <= 32,
                le_bytes(x as nat, 32) =~= bytes@.subrange(0, i as int) + le_bytes(
                    rest as nat,
                    (32 - i) as nat,
                ),
            decreases 32 - i,
        {
            let ghost before = bytes@;
            bytes[i] = (rest % 256) as u8;
            assert(bytes@.subrange(0, i + 1) =~= before.subrange(0, i as int).push(
                (rest % 256) as u8,
            ));
            rest = rest / 256;
            i += 1;
        }
        proof {
            assert(bytes@ =~= le_bytes(x as nat, 32));
            assert(pow256(8) == 0x1_0000_0000_0000_0000nat) by {
                reveal_with_fuel(pow256, 9);
            }
            lemma_pow256_monotonic(8, 32);
            lemma_le_bytes_value(x as nat, 32);
        }
        Scalar { bytes }
    }

    /// Reads a scalar from its encoding; `None` where the encoding is not
    /// canonical.
    pub fn from_canonical_bytes(bytes: [u8; 32]) -> (r: Option<Scalar>)
        ensures
            r is Some <==> le_value(bytes@) < group_order(),
            r matches Some(s) ==> s@ == bytes@,
    {
        if is_canonical(&bytes) {
            Some(Scalar { bytes })
        } else {
            None
        }
    }

    /// The canonical encoding.
    pub fn to_bytes(&self) -> (out: [u8; 32])
        ensures
            out@ == self@,
            le_value(out@) < group_order(),
    {
        proof {
            use_type_invariant(self);
        }
        self.bytes
    }
}

} // verus!

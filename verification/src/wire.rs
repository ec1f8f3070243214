//! The fixed-width wire encoding of commitments and range proofs.
//!
//! A commitment is one 32-byte compressed group element.  A proof is a row
//! of 32-byte fields: the four commitments `A`, `S`, `T1`, `T2`; the three
//! scalars `t`, `tau_x`, `mu`; one pair `(L, R)` of group elements for each
//! round of the inner-product argument; and the two final scalars `a`, `b`.

use vstd::prelude::*;

use crate::backend::{is_ristretto_point, point_decodes};
use crate::scalar::{group_order, is_canonical, le_value};

verus! {

/// Bytes in one field of the encoding.
pub const FIELD_LEN: usize = 32;

/// Rounds of the inner-product argument for a 64-bit range.
pub const ROUNDS: usize = 6;

/// Fields in an encoded proof.
pub const FIELD_COUNT: usize = 21;

/// Bytes in an encoded commitment.
pub const COMMITMENT_LEN: usize = 32;

/// Bytes in an encoded proof.
pub const PROOF_LEN: usize = 672;

/// Why a byte string is not the encoding of a commitment or of a proof.
#[derive(Clone, Copy, Debug, PartialEq, Eq)]
pub enum CodecError {
    /// The byte string has the wrong length, or the proof the wrong number
    /// of rounds.
    BadLength,
    /// A field that must hold a group element does not decode to one.
    BadPoint,
    /// A field that must hold a scalar is not below the group order.
    BadScalar,
}

/// The `n`-th 32-byte field of a byte string.
pub open spec fn field(bytes: Seq<u8>, n: int) -> Seq<u8> {
    bytes.subrange(32 * n, 32 * n + 32)
}

/// Whether the `n`-th field of a proof holds a scalar; the others hold group
/// elements.
pub open spec fn is_scalar_field(n: int) -> bool {
    4 <= n < 7 || 19 <= n < 21
}

/// Whether the `n`-th field of a proof holds a scalar.
pub fn holds_scalar(n: usize) -> (yes: bool)
    ensures
        yes == is_scalar_field(n as int),
{
    (4 <= n && n < 7) || (19 <= n && n < 21)
}

/// What is wrong with the `n`-th field of an encoded proof, if anything.
pub open spec fn field_fault(bytes: Seq<u8>, n: int) -> Option<CodecError> {
    if is_scalar_field(n) {
        if le_value(field(bytes, n)) < group_order() {
            None
        } else {
            Some(CodecError::BadScalar)
        }
    } else {
        if is_ristretto_point(field(bytes, n)) {
            None
        } else {
            Some(CodecError::BadPoint)
        }
    }
}

/// The fault of the first faulty field at or after `from`, in wire order.
pub open spec fn first_fault(bytes: Seq<u8>, from: int) -> Option<CodecError>
    decreases FIELD_COUNT - from,
{
    if from >= FIELD_COUNT {
        None
    } else if field_fault(bytes, from) is Some {
        field_fault(bytes, from)
    } else {
        first_fault(bytes, from + 1)
    }
}

/// Why `bytes` is not an encoded proof: its length is checked first, then
/// its fields in wire order.  `None` where it is one.
pub open spec fn proof_fault(bytes: Seq<u8>) -> Option<CodecError> {
    if bytes.len() != PROOF_LEN {
        Some(CodecError::BadLength)
    } else {
        first_fault(bytes, 0)
    }
}

/// Why `bytes` is not an encoded commitment.  `None` where it is one.
pub open spec fn commitment_fault(bytes: Seq<u8>) -> Option<CodecError> {
    if bytes.len() != COMMITMENT_LEN {
        Some(CodecError::BadLength)
    } else if !is_ristretto_point(bytes) {
        Some(CodecError::BadPoint)
    } else {
        None
    }
}

/// The result that reports a fault, or its absence.
pub open spec fn fault_result(fault: Option<CodecError>) -> Result<(), CodecError> {
    match fault {
        Some(e) => Err(e),
        None => Ok(()),
    }
}

/// Copies the `n`-th field out of a byte string.
pub fn read_field(bytes: &[u8], n: usize) -> (out: [u8; 32])
    requires
        32 * n + 32 <= bytes@.len(),
    ensures
        out@ == field(bytes@, n as int),
{
    let mut out = [0u8; 32];
    assert(32 * n + 32 <= usize::MAX) by {
        vstd::slice::axiom_spec_len(bytes);
    }
    let start: usize = 32 * n;
    let mut i: usize = 0;
    while i < 32
        invariant
            i <= 32,
            start == 32 * n,
            start + 32 <= bytes@.len(),
            forall|j: int| 0 <= j < i ==> out@[j] == bytes@[start + j],
        decreases 32 - i,
    {
        out[i] = bytes[start + i];
        i += 1;
    }
    assert(out@ =~= field(bytes@, n as int));
    out
}

/// Checks that `bytes` is an encoded proof: 672 bytes whose scalar fields
/// are canonical and whose other fields decode to group elements.
pub fn check_proof_bytes(bytes: &[u8]) -> (r: Result<(), CodecError>)
    ensures
        r == fault_result(proof_fault(bytes@)),
{
    if bytes.len() != PROOF_LEN {
        return Err(CodecError::BadLength);
    }
    let mut n: usize = 0;
    while n < FIELD_COUNT
        invariant
            n <= 21,
            bytes@.len() == 672,
            first_fault(bytes@, 0) == first_fault(bytes@, n as int),
        decreases 21 - n,
    {
        let raw = read_field(bytes, n);
        if holds_scalar(n) {
            if !is_canonical(&raw) {
                return Err(CodecError::BadScalar);
            }
        } else {
            if !point_decodes(&raw) {
                return Err(CodecError::BadPoint);
            }
        }
        n += 1;
    }
    Ok(())
}

/// Checks that `bytes` is an encoded commitment: 32 bytes that decode to a
/// group element.
pub fn check_commitment_bytes(bytes: &[u8]) -> (r: Result<(), CodecError>)
    ensures
        r == fault_result(commitment_fault(bytes@)),
{
    if bytes.len() != COMMITMENT_LEN {
        return Err(CodecError::BadLength);
    }
    let raw = read_field(bytes, 0);
    assert(raw@ =~= bytes@);
    if point_decodes(&raw) {
        Ok(())
    } else {
        Err(CodecError::BadPoint)
    }
}

/// A Pedersen commitment in its wire form, one compressed group element.
#[derive(Clone, Copy, Debug, PartialEq, Eq)]
pub struct Commitment {
    pub bytes: [u8; 32],
}

impl View for Commitment {
    type V = Seq<u8>;

    open spec fn view(&self) -> Seq<u8> {
        self.bytes@
    }
}

impl Commitment {
    /// Whether the bytes decode to a group element.
    pub open spec fn well_formed(&self) -> bool {
        commitment_fault(self@) is None
    }

    /// Decodes a commitment, or tells why the bytes do not encode one.
    pub fn from_bytes(bytes: &[u8]) -> (r: Result<Commitment, CodecError>)
        ensures
            match commitment_fault(bytes@) {
                Some(e) => r == Err::<Commitment, CodecError>(e),
                None => r matches Ok(c) && c@ == bytes@,
            },
    {
        match check_commitment_bytes(bytes) {
            Err(e) => Err(e),
            Ok(()) => {
                let raw = read_field(bytes, 0);
                assert(raw@ =~= bytes@);
                Ok(Commitment { bytes: raw })
            },
        }
    }

    /// The 32 bytes of the wire form.
    pub fn to_bytes(&self) -> (out: [u8; 32])
        ensures
            out@ == self@,
    {
        self.bytes
    }

    /// Checks that the bytes decode to a group element.
    pub fn validate(&self) -> (r: Result<(), CodecError>)
        ensures
            r == fault_result(commitment_fault(self@)),
            r is Ok <==> self.well_formed(),
    {
        if point_decodes(&self.bytes) {
            Ok(())
        } else {
            Err(CodecError::BadPoint)
        }
    }
}

/// The pair of group elements that one round of the inner-product argument
/// adds to a proof.
#[derive(Clone, Copy, Debug, PartialEq, Eq)]
pub struct Round {
    pub left: [u8; 32],
    pub right: [u8; 32],
}

/// A range proof, each element in its 32-byte wire form.
#[derive(Clone, Debug, PartialEq, Eq)]
pub struct RangeProof {
    /// `A`, the commitment to the bits of the value.
    pub a_commit: [u8; 32],
    /// `S`, the commitment to the blinding vectors.
    pub s_commit: [u8; 32],
    /// `T1`, the commitment to the linear coefficient of `t(X)`.
    pub t1_commit: [u8; 32],
    /// `T2`, the commitment to the quadratic coefficient of `t(X)`.
    pub t2_commit: [u8; 32],
    /// `t`, the value of `t(X)` at the challenge.
    pub t: [u8; 32],
    /// `tau_x`, the blinding factor that goes with `t`.
    pub tau_x: [u8; 32],
    /// `mu`, the blinding factor that goes with `A` and `S`.
    pub mu: [u8; 32],
    /// `(L, R)` of each round of the inner-product argument, first round
    /// first.
    pub rounds: Vec<Round>,
    /// `a`, the first scalar that the inner-product argument ends on.
    pub a: [u8; 32],
    /// `b`, the second scalar that the inner-product argument ends on.
    pub b: [u8; 32],
}

/// The encoding of a row of rounds: `L` then `R` of each, in order.
pub open spec fn rounds_encoding(rounds: Seq<Round>) -> Seq<u8>
    decreases rounds.len(),
{
    if rounds.len() == 0 {
        Seq::empty()
    } else {
        rounds_encoding(rounds.drop_last()) + rounds.last().left@ + rounds.last().right@
    }
}

impl RangeProof {
    /// The wire encoding: the fields in wire order, 32 bytes each.
    pub open spec fn encoding(&self) -> Seq<u8> {
        self.a_commit@ + self.s_commit@ + self.t1_commit@ + self.t2_commit@ + self.t@
            + self.tau_x@ + self.mu@ + rounds_encoding(self.rounds@) + self.a@ + self.b@
    }

    /// Whether the proof has six rounds, canonical scalars and fields that
    /// decode to group elements.
    pub open spec fn well_formed(&self) -> bool {
        proof_fault(self.encoding()) is None
    }

    /// Encodes the proof.
    pub fn to_bytes(&self) -> (out: Vec<u8>)
        ensures
            out@ == self.encoding(),
    {
        let mut out: Vec<u8> = Vec::new();
        append_field(&mut out, &self.a_commit);
        append_field(&mut out, &self.s_commit);
        append_field(&mut out, &self.t1_commit);
        append_field(&mut out, &self.t2_commit);
        append_field(&mut out, &self.t);
        append_field(&mut out, &self.tau_x);
        append_field(&mut out, &self.mu);
        let ghost head = out@;
        assert(head =~= self.a_commit@ + self.s_commit@ + self.t1_commit@ + self.t2_commit@
            + self.t@ + self.tau_x@ + self.mu@);
        let mut i: usize = 0;
        while i < self.rounds.len()
            invariant
                i <= self.rounds@.len(),
                out@ == head + rounds_encoding(self.rounds@.take(i as int)),
            decreases self.rounds@.len() - i,
        {
            let ghost before = out@;
            append_field(&mut out, &self.rounds[i].left);
            append_field(&mut out, &self.rounds[i].right);
            proof {
                let next = self.rounds@.take(i + 1);
                assert(next.drop_last() =~= self.rounds@.take(i as int));
                assert(next.last() == self.rounds@[i as int]);
                assert(out@ =~= head + rounds_encoding(next));
            }
            i += 1;
        }
        assert(self.rounds@.take(i as int) =~= self.rounds@);
        append_field(&mut out, &self.a);
        append_field(&mut out, &self.b);
        assert(out@ =~= self.encoding());
        out
    }

    /// Decodes a proof, or tells why the bytes do not encode one.
    pub fn from_bytes(bytes: &[u8]) -> (r: Result<RangeProof, CodecError>)
        ensures
            match proof_fault(bytes@) {
                Some(e) => r == Err::<RangeProof, CodecError>(e),
                None => r matches Ok(p) && p.encoding() == bytes@ && p.well_formed(),
            },
    {
        match check_proof_bytes(bytes) {
            Err(e) => Err(e),
            Ok(()) => Ok(split_fields(bytes)),
        }
    }

    /// Checks that the proof has six rounds, canonical scalars and fields
    /// that decode to group elements, in wire order.
    pub fn validate(&self) -> (r: Result<(), CodecError>)
        ensures
            r == fault_result(proof_fault(self.encoding())),
            r is Ok <==> self.well_formed(),
    {
        proof {
            lemma_encoding_len(self);
        }
        if self.rounds.len() != ROUNDS {
            return Err(CodecError::BadLength);
        }
        let bytes = self.to_bytes();
        check_proof_bytes(bytes.as_slice())
    }

    /// Whether two proofs hold the same elements.
    pub open spec fn same_elements(&self, other: &RangeProof) -> bool {
        &&& self.a_commit == other.a_commit
        &&& self.s_commit == other.s_commit
        &&& self.t1_commit == other.t1_commit
        &&& self.t2_commit == other.t2_commit
        &&& self.t == other.t
        &&& self.tau_x == other.tau_x
        &&& self.mu == other.mu
        &&& self.rounds@ == other.rounds@
        &&& self.a == other.a
        &&& self.b == other.b
    }
}

/// Splits 672 bytes into the elements of a proof, unchecked.
fn split_fields(bytes: &[u8]) -> (p: RangeProof)
    requires
        bytes@.len() == 672,
    ensures
        p.encoding() == bytes@,
        p.rounds@.len() == 6,
{
    let mut rounds: Vec<Round> = Vec::new();
    let mut i: usize = 0;
    while i < ROUNDS
        invariant
            i <= 6,
            bytes@.len() == 672,
            rounds@.len() == i,
            rounds_encoding(rounds@) == bytes@.subrange(224, 224 + 64 * i),
        decreases 6 - i,
    {
        let ghost before = rounds@;
        let round = Round { left: read_field(bytes, 7 + 2 * i), right: read_field(bytes, 8 + 2 * i) };
        rounds.push(round);
        proof {
            assert(rounds@.drop_last() =~= before);
            assert(rounds@.last() == round);
            assert(rounds_encoding(rounds@) =~= bytes@.subrange(224, 224 + 64 * (i + 1)));
        }
        i += 1;
    }
    let p = RangeProof {
        a_commit: read_field(bytes, 0),
        s_commit: read_field(bytes, 1),
        t1_commit: read_field(bytes, 2),
        t2_commit: read_field(bytes, 3),
        t: read_field(bytes, 4),
        tau_x: read_field(bytes, 5),
        mu: read_field(bytes, 6),
        rounds,
        a: read_field(bytes, 19),
        b: read_field(bytes, 20),
    };
    assert(p.encoding() =~= bytes@);
    p
}

/// The rounds of a proof take 64 bytes each.
pub proof fn lemma_rounds_encoding_len(rounds: Seq<Round>)
    ensures
        rounds_encoding(rounds).len() == 64 * rounds.len(),
    decreases rounds.len(),
{
    if rounds.len() > 0 {
        lemma_rounds_encoding_len(rounds.drop_last());
    }
}

/// An encoded proof has nine fields and two more for each round.
pub proof fn lemma_encoding_len(p: &RangeProof)
    ensures
        p.encoding().len() == 32 * (9 + 2 * p.rounds@.len()),
        p.encoding().len() == 672 <==> p.rounds@.len() == 6,
{
    lemma_rounds_encoding_len(p.rounds@);
}

/// Every well-formed proof has six rounds and an encoding of the one fixed
/// length, whatever the value that it speaks of.
pub proof fn lemma_fixed_size(p: &RangeProof)
    requires
        p.well_formed(),
    ensures
        p.rounds@.len() == ROUNDS,
        p.encoding().len() == PROOF_LEN,
{
    lemma_encoding_len(p);
}

/// Round `i` lies at its place in the encoding of a row of rounds: `L` in
/// field `2 * i`, `R` in the field after it.
pub proof fn lemma_rounds_layout(rounds: Seq<Round>, i: int)
    requires
        0 <= i < rounds.len(),
    ensures
        field(rounds_encoding(rounds), 2 * i) == rounds[i].left@,
        field(rounds_encoding(rounds), 2 * i + 1) == rounds[i].right@,
    decreases rounds.len(),
{
    let front = rounds.drop_last();
    lemma_rounds_encoding_len(front);
    if i == rounds.len() - 1 {
        assert(field(rounds_encoding(rounds), 2 * i) =~= rounds[i].left@);
        assert(field(rounds_encoding(rounds), 2 * i + 1) =~= rounds[i].right@);
    } else {
        lemma_rounds_layout(front, i);
        assert(field(rounds_encoding(rounds), 2 * i) =~= field(rounds_encoding(front), 2 * i));
        assert(field(rounds_encoding(rounds), 2 * i + 1) =~= field(
            rounds_encoding(front),
            2 * i + 1,
        ));
    }
}

/// Where each element of a proof lies in its encoding.
pub proof fn lemma_layout(p: &RangeProof)
    ensures
        field(p.encoding(), 0) == p.a_commit@,
        field(p.encoding(), 1) == p.s_commit@,
        field(p.encoding(), 2) == p.t1_commit@,
        field(p.encoding(), 3) == p.t2_commit@,
        field(p.encoding(), 4) == p.t@,
        field(p.encoding(), 5) == p.tau_x@,
        field(p.encoding(), 6) == p.mu@,
        forall|i: int|
            0 <= i < p.rounds@.len() ==> #[trigger] field(p.encoding(), 7 + 2 * i)
                == p.rounds@[i].left@,
        forall|i: int|
            0 <= i < p.rounds@.len() ==> #[trigger] field(p.encoding(), 8 + 2 * i)
                == p.rounds@[i].right@,
        field(p.encoding(), 7 + 2 * p.rounds@.len() as int) == p.a@,
        field(p.encoding(), 8 + 2 * p.rounds@.len() as int) == p.b@,
{
    let e = p.encoding();
    let r = rounds_encoding(p.rounds@);
    lemma_rounds_encoding_len(p.rounds@);
    assert(field(e, 0) =~= p.a_commit@);
    assert(field(e, 1) =~= p.s_commit@);
    assert(field(e, 2) =~= p.t1_commit@);
    assert(field(e, 3) =~= p.t2_commit@);
    assert(field(e, 4) =~= p.t@);
    assert(field(e, 5) =~= p.tau_x@);
    assert(field(e, 6) =~= p.mu@);
    assert(field(e, 7 + 2 * p.rounds@.len() as int) =~= p.a@);
    assert(field(e, 8 + 2 * p.rounds@.len() as int) =~= p.b@);
    assert forall|i: int| 0 <= i < p.rounds@.len() implies #[trigger] field(e, 7 + 2 * i)
        == p.rounds@[i].left@ by {
        lemma_rounds_layout(p.rounds@, i);
        assert(field(e, 7 + 2 * i) =~= field(r, 2 * i));
    }
    assert forall|i: int| 0 <= i < p.rounds@.len() implies #[trigger] field(e, 8 + 2 * i)
        == p.rounds@[i].right@ by {
        lemma_rounds_layout(p.rounds@, i);
        assert(field(e, 8 + 2 * i) =~= field(r, 2 * i + 1));
    }
}

/// A proof is what its encoding says: two proofs with one encoding hold the
/// same elements, so decoding an encoded proof gives the proof back.
pub proof fn lemma_encoding_determines_elements(p: &RangeProof, q: &RangeProof)
    requires
        p.encoding() == q.encoding(),
    ensures
        p.same_elements(q),
{
    lemma_encoding_len(p);
    lemma_encoding_len(q);
    lemma_layout(p);
    lemma_layout(q);
    assert(p.a_commit@ == q.a_commit@);
    assert(p.a_commit =~= q.a_commit);
    assert(p.s_commit =~= q.s_commit);
    assert(p.t1_commit =~= q.t1_commit);
    assert(p.t2_commit =~= q.t2_commit);
    assert(p.t =~= q.t);
    assert(p.tau_x =~= q.tau_x);
    assert(p.mu =~= q.mu);
    assert(p.a =~= q.a);
    assert(p.b =~= q.b);
    assert forall|i: int| 0 <= i < p.rounds@.len() implies p.rounds@[i] == q.rounds@[i] by {
        assert(field(p.encoding(), 7 + 2 * i) == p.rounds@[i].left@);
        assert(field(p.encoding(), 8 + 2 * i) == p.rounds@[i].right@);
        assert(field(q.encoding(), 7 + 2 * i) == q.rounds@[i].left@);
        assert(field(q.encoding(), 8 + 2 * i) == q.rounds@[i].right@);
        assert(p.rounds@[i].left =~= q.rounds@[i].left);
        assert(p.rounds@[i].right =~= q.rounds@[i].right);
    }
    assert(p.rounds@ =~= q.rounds@);
}

/// Appends one field to an encoding under construction.
fn append_field(out: &mut Vec<u8>, bytes: &[u8; 32])
    ensures
        final(out)@ == old(out)@ + bytes@,
{
    let mut i: usize = 0;
    while i < 32
        invariant
            i <= 32,
            out@ == old(out)@ + bytes@.take(i as int),
        decreases 32 - i,
    {
        out.push(bytes[i]);
        assert(bytes@.take(i + 1) =~= bytes@.take(i as int).push(bytes@[i as int]));
        i += 1;
    }
    assert(bytes@.take(32) =~= bytes@);
}

} // verus!

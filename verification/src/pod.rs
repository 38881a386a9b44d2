//! Host-side plain values and their packed byte layout.
//!
//! A host value of semantic type `ty` is the sequence of its scalar leaves
//! in depth-first declared order, one [`HostScalar`] per leaf component of
//! [`crate::schema::leaf_scalars`]. Encoding packs each scalar into four
//! little-endian bytes — a boolean as 0 or 1, a float as its IEEE-754 bit
//! pattern, a signed integer in two's complement — with no padding, exactly
//! the layout the code generator declares for the same schema.

use vstd::prelude::*;

use crate::schema::{leaf_scalars, Registry, StructDefV};
use crate::ty::{ScalarTy, Ty};

verus! {

use vstd::bytes::{
    lemma_auto_spec_u32_to_from_le_bytes,
    spec_u32_from_le_bytes,
    spec_u32_to_le_bytes,
    u32_from_le_bytes,
    u32_to_le_bytes,
};

/// One scalar leaf of a host value. A 32-bit float travels as its bit
/// pattern, so host data stays exact and free of rounding concerns.
#[derive(Clone, Copy, Debug, PartialEq, Eq, Structural)]
pub enum HostScalar {
    Bool(bool),
    F32Bits(u32),
    I32(i32),
    U32(u32),
}

impl HostScalar {
    /// The scalar kind this value inhabits.
    pub open spec fn kind(self) -> ScalarTy {
        match self {
            HostScalar::Bool(_) => ScalarTy::Bool,
            HostScalar::F32Bits(_) => ScalarTy::F32,
            HostScalar::I32(_) => ScalarTy::I32,
            HostScalar::U32(_) => ScalarTy::U32,
        }
    }
}

/// Two's-complement bit pattern of a signed 32-bit integer.
pub open spec fn i32_to_bits(v: i32) -> u32 {
    if v >= 0 {
        v as u32
    } else {
        (v + 0x1_0000_0000) as u32
    }
}

/// The signed 32-bit integer a bit pattern denotes.
pub open spec fn bits_to_i32(x: u32) -> i32 {
    if x < 0x8000_0000 {
        x as i32
    } else {
        (x - 0x1_0000_0000) as i32
    }
}

/// The four-byte bit pattern of one scalar.
pub open spec fn scalar_bits(v: HostScalar) -> u32 {
    match v {
        HostScalar::Bool(b) => if b {
            1
        } else {
            0
        },
        HostScalar::F32Bits(x) => x,
        HostScalar::I32(x) => i32_to_bits(x),
        HostScalar::U32(x) => x,
    }
}

/// Little-endian encoding of one scalar.
pub open spec fn spec_encode_scalar(v: HostScalar) -> Seq<u8> {
    spec_u32_to_le_bytes(scalar_bits(v))
}

/// Decoding of four bytes at the given scalar kind.
pub open spec fn spec_decode_scalar(k: ScalarTy, bytes: Seq<u8>) -> HostScalar {
    let x = spec_u32_from_le_bytes(bytes);
    match k {
        ScalarTy::Bool => HostScalar::Bool(x != 0),
        ScalarTy::F32 => HostScalar::F32Bits(x),
        ScalarTy::I32 => HostScalar::I32(bits_to_i32(x)),
        ScalarTy::U32 => HostScalar::U32(x),
    }
}

/// Encoding of the first `k` scalars of a host value.
pub open spec fn spec_encode_prefix(vals: Seq<HostScalar>, k: int) -> Seq<u8>
    decreases k,
{
    if k <= 0 {
        Seq::empty()
    } else {
        spec_encode_prefix(vals, k - 1) + spec_encode_scalar(vals[k - 1])
    }
}

/// Packed little-endian encoding of a whole host value.
pub open spec fn spec_encode(vals: Seq<HostScalar>) -> Seq<u8> {
    spec_encode_prefix(vals, vals.len() as int)
}

/// Reinterpretation of packed bytes at a list of scalar kinds, four bytes a
/// leaf.
pub open spec fn spec_decode(kinds: Seq<ScalarTy>, bytes: Seq<u8>) -> Seq<HostScalar> {
    Seq::new(kinds.len(), |i: int| spec_decode_scalar(kinds[i], bytes.subrange(4 * i, 4 * i + 4)))
}

/// The scalar kinds a host value inhabits.
pub open spec fn kinds_of(vals: Seq<HostScalar>) -> Seq<ScalarTy> {
    vals.map_values(|v: HostScalar| v.kind())
}

/// A host value inhabits `ty` when its leaves carry exactly the schema's
/// leaf scalar kinds, in order.
pub open spec fn value_has_ty(structs: Seq<StructDefV>, vals: Seq<HostScalar>, ty: Ty) -> bool {
    kinds_of(vals) == leaf_scalars(structs, ty)
}

/// An encoded prefix occupies four bytes per scalar.
pub proof fn lemma_encode_prefix_len(vals: Seq<HostScalar>, k: int)
    requires
        0 <= k <= vals.len(),
    ensures
        spec_encode_prefix(vals, k).len() == 4 * k,
    decreases k,
{
    if k > 0 {
        lemma_encode_prefix_len(vals, k - 1);
        lemma_auto_spec_u32_to_from_le_bytes();
    }
}

/// Each scalar's chunk of the encoding is its own encoding.
pub proof fn lemma_encode_prefix_index(vals: Seq<HostScalar>, k: int, i: int)
    requires
        0 <= i < k <= vals.len(),
    ensures
        spec_encode_prefix(vals, k).subrange(4 * i, 4 * i + 4) == spec_encode_scalar(vals[i]),
    decreases k,
{
    lemma_encode_prefix_len(vals, k);
    lemma_encode_prefix_len(vals, k - 1);
    lemma_auto_spec_u32_to_from_le_bytes();
    if i == k - 1 {
        assert(spec_encode_prefix(vals, k).subrange(4 * i, 4 * i + 4) =~= spec_encode_scalar(
            vals[i],
        ));
    } else {
        lemma_encode_prefix_index(vals, k - 1, i);
        assert(spec_encode_prefix(vals, k).subrange(4 * i, 4 * i + 4) =~= spec_encode_prefix(
            vals,
            k - 1,
        ).subrange(4 * i, 4 * i + 4));
    }
}

/// One scalar survives an encode–decode round trip.
pub proof fn lemma_scalar_round_trip(v: HostScalar)
    ensures
        spec_decode_scalar(v.kind(), spec_encode_scalar(v)) == v,
{
    lemma_auto_spec_u32_to_from_le_bytes();
    assert(spec_u32_to_le_bytes(scalar_bits(v)).len() == 4);
    assert(spec_u32_from_le_bytes(spec_u32_to_le_bytes(scalar_bits(v))) == scalar_bits(v));
}

/// Layout fidelity round trip: a host value, packed to POD bytes and
/// reinterpreted at its own leaf kinds, yields identical field values.
pub proof fn lemma_pod_round_trip(vals: Seq<HostScalar>)
    ensures
        spec_decode(kinds_of(vals), spec_encode(vals)) == vals,
{
    let n = vals.len() as int;
    lemma_encode_prefix_len(vals, n);
    assert forall|i: int| 0 <= i < n implies spec_decode(kinds_of(vals), spec_encode(vals))[i]
        == vals[i] by {
        lemma_encode_prefix_index(vals, n, i);
        lemma_scalar_round_trip(vals[i]);
    }
    assert(spec_decode(kinds_of(vals), spec_encode(vals)) =~= vals);
}

/// Executable little-endian encoding of one scalar's bit pattern.
pub fn scalar_to_bits(v: HostScalar) -> (x: u32)
    ensures
        x == scalar_bits(v),
{
    match v {
        HostScalar::Bool(b) => if b {
            1
        } else {
            0
        },
        HostScalar::F32Bits(x) => x,
        HostScalar::I32(y) => {
            if y >= 0 {
                y as u32
            } else {
                ((y as i64) + 0x1_0000_0000) as u32
            }
        },
        HostScalar::U32(x) => x,
    }
}

/// Executable decoding of one scalar from its bit pattern.
pub fn scalar_from_bits(k: ScalarTy, x: u32) -> (v: HostScalar)
    ensures
        v == spec_decode_scalar(k, spec_u32_to_le_bytes(x)),
{
    proof {
        lemma_auto_spec_u32_to_from_le_bytes();
        assert(spec_u32_to_le_bytes(x).len() == 4);
        assert(spec_u32_from_le_bytes(spec_u32_to_le_bytes(x)) == x);
    }
    match k {
        ScalarTy::Bool => HostScalar::Bool(x != 0),
        ScalarTy::F32 => HostScalar::F32Bits(x),
        ScalarTy::I32 => {
            if x < 0x8000_0000 {
                HostScalar::I32(x as i32)
            } else {
                HostScalar::I32(((x as i64) - 0x1_0000_0000) as i32)
            }
        },
        ScalarTy::U32 => HostScalar::U32(x),
    }
}

/// Packs a host value into upload-ready POD bytes: four little-endian bytes
/// per scalar leaf, field order preserved, no padding.
pub fn encode_scalars(vals: &Vec<HostScalar>) -> (out: Vec<u8>)
    ensures
        out@ == spec_encode(vals@),
        out@.len() == 4 * vals@.len(),
{
    let mut out: Vec<u8> = Vec::new();
    let mut i: usize = 0;
    while i < vals.len()
        invariant
            0 <= i <= vals@.len(),
            out@ == spec_encode_prefix(vals@, i as int),
            out@.len() == 4 * i,
        decreases vals@.len() - i,
    {
        proof {
            lemma_encode_prefix_len(vals@, i as int);
        }
        let bits = scalar_to_bits(vals[i]);
        let mut chunk = u32_to_le_bytes(bits);
        proof {
            lemma_auto_spec_u32_to_from_le_bytes();
        }
        out.append(&mut chunk);
        i = i + 1;
    }
    proof {
        lemma_encode_prefix_len(vals@, vals@.len() as int);
    }
    out
}

/// Reinterprets POD bytes at a list of leaf kinds. Succeeds exactly when
/// the byte length is four per leaf.
#[verifier::loop_isolation(false)]
pub fn decode_scalars(kinds: &Vec<ScalarTy>, bytes: &Vec<u8>) -> (out: Option<Vec<HostScalar>>)
    ensures
        match out {
            Some(vals) => {
                &&& bytes@.len() == 4 * kinds@.len()
                &&& vals@ == spec_decode(kinds@, bytes@)
            },
            None => bytes@.len() != 4 * kinds@.len(),
        },
{
    if kinds.len() > usize::MAX / 4 {
        let blen = bytes.len();
        proof {
            let m = usize::MAX as int;
            assert(m == 4 * (m / 4) + m % 4 && 0 <= m % 4 < 4);
            assert(4 * kinds@.len() >= 4 * (m / 4 + 1) > m);
            assert(bytes@.len() == blen <= usize::MAX);
        }
        return None;
    }
    if bytes.len() != 4 * kinds.len() {
        return None;
    }
    let mut vals: Vec<HostScalar> = Vec::new();
    let mut i: usize = 0;
    while i < kinds.len()
        invariant
            0 <= i <= kinds@.len(),
            bytes@.len() == 4 * kinds@.len(),
            vals@.len() == i,
            forall|j: int| 0 <= j < i ==> vals@[j] == spec_decode(kinds@, bytes@)[j],
        decreases kinds@.len() - i,
    {
        let chunk = vstd::slice::slice_subrange(bytes.as_slice(), 4 * i, 4 * i + 4);
        let bits = u32_from_le_bytes(chunk);
        proof {
            lemma_auto_spec_u32_to_from_le_bytes();
            assert(spec_u32_to_le_bytes(spec_u32_from_le_bytes(chunk@)) == chunk@);
        }
        let v = scalar_from_bits(kinds[i], bits);
        vals.push(v);
        i = i + 1;
    }
    assert(vals@ =~= spec_decode(kinds@, bytes@));
    Some(vals)
}

/// Packs a host value of type `ty` into its uniform-block image: the byte
/// count equals the schema's packed size for `ty`.
pub fn value_to_pod(reg: &Registry, ty: Ty, vals: &Vec<HostScalar>) -> (out: Vec<u8>)
    requires
        reg.wf(),
        crate::schema::ty_rank(ty) <= reg@.structs.len(),
        value_has_ty(reg@.structs, vals@, ty),
    ensures
        out@ == spec_encode(vals@),
        out@.len() == crate::schema::ty_byte_size(reg@.structs, ty),
{
    assert(vals@.len() == leaf_scalars(reg@.structs, ty).len()) by {
        assert(kinds_of(vals@).len() == vals@.len());
    }
    encode_scalars(vals)
}

} // verus!

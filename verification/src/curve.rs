//! What the outside libraries compute, on plain bytes.
//!
//! The elliptic-curve and pairing arithmetic comes from `miracl_core`
//! (curve BN254), the digest from `sha2`. Nothing in this file is proved:
//! each function has one computation done by those libraries, and its
//! contract is taken on trust from their source. Everything else in the
//! crate is proved from these contracts.
//!
//! Group elements cross this boundary as their wire encodings: a function
//! reads its arguments from bytes with the library's `frombytes` and writes
//! its result to bytes with the library's `tobytes`. A value that takes
//! pages to describe (a digest, a scalar multiple, a pairing) is given a
//! name, a function of the arguments without a definition, so that the
//! contracts of the verified code can say exactly which value they return.

use crate::bytes::be_nat;
use crate::entropy::WasmRAND;
use miracl_core::bn254::big::BIG;
use miracl_core::bn254::ecp::ECP;
use miracl_core::bn254::ecp2::ECP2;
use miracl_core::bn254::fp12::FP12;
use miracl_core::bn254::pair;
use miracl_core::bn254::rom;
use sha2::Digest;
use sha2::Sha256;
use vstd::prelude::*;

verus! {

/// Bytes in a digest and in a derived key.
pub const DIGEST_LEN: usize = 32;

/// Bytes in the encoding of a scalar.
pub const SCALAR_LEN: usize = 32;

/// Bytes in the encoding of an element of G1: a flag and two coordinates.
pub const G1_LEN: usize = 65;

/// Bytes that the pairing library writes for an element of G2: a flag and
/// four coordinates.
pub const G2_WRITTEN_LEN: usize = 129;

/// Bytes in the encoding of an element of GT: twelve coordinates.
pub const GT_LEN: usize = 384;

/// The prime order of the groups G1, G2 and GT.
pub open spec fn group_order() -> nat {
    0x2523648240000001BA344D8000000007FF9F800000000010A10000000000000Dnat
}

/// The encoding of the fixed generator of G1, the point (-1, 1).
pub open spec fn g1_generator() -> Seq<u8> {
    seq![
        0x04u8, 0x25u8, 0x23u8, 0x64u8, 0x82u8, 0x40u8, 0x00u8, 0x00u8, 0x01u8, 0xbau8, 0x34u8, 0x4du8, 0x80u8,
        0x00u8, 0x00u8, 0x00u8, 0x08u8, 0x61u8, 0x21u8, 0x00u8, 0x00u8, 0x00u8, 0x00u8, 0x00u8, 0x13u8, 0xa7u8,
        0x00u8, 0x00u8, 0x00u8, 0x00u8, 0x00u8, 0x00u8, 0x12u8, 0x00u8, 0x00u8, 0x00u8, 0x00u8, 0x00u8, 0x00u8,
        0x00u8, 0x00u8, 0x00u8, 0x00u8, 0x00u8, 0x00u8, 0x00u8, 0x00u8, 0x00u8, 0x00u8, 0x00u8, 0x00u8, 0x00u8,
        0x00u8, 0x00u8, 0x00u8, 0x00u8, 0x00u8, 0x00u8, 0x00u8, 0x00u8, 0x00u8, 0x00u8, 0x00u8, 0x00u8, 0x01u8,
    ]
}

/// What the pairing library writes for the fixed generator of G2.
pub open spec fn g2_generator_written() -> Seq<u8> {
    seq![
        0x04u8, 0x05u8, 0x16u8, 0xaau8, 0xf9u8, 0xbau8, 0x73u8, 0x78u8, 0x33u8, 0x31u8, 0x0au8, 0xa7u8, 0x8cu8,
        0x59u8, 0x82u8, 0xaau8, 0x5bu8, 0x1fu8, 0x4du8, 0x74u8, 0x6bu8, 0xaeu8, 0x37u8, 0x84u8, 0xb7u8, 0x0du8,
        0x8cu8, 0x34u8, 0xc1u8, 0xe7u8, 0xd5u8, 0x4cu8, 0xf3u8, 0x06u8, 0x1au8, 0x10u8, 0xbbu8, 0x51u8, 0x9eu8,
        0xb6u8, 0x2fu8, 0xebu8, 0x8du8, 0x8cu8, 0x7eu8, 0x8cu8, 0x61u8, 0xedu8, 0xb6u8, 0xa4u8, 0x64u8, 0x8bu8,
        0xbbu8, 0x48u8, 0x98u8, 0xbfu8, 0x0du8, 0x91u8, 0xeeu8, 0x42u8, 0x24u8, 0xc8u8, 0x03u8, 0xfbu8, 0x2bu8,
        0x0eu8, 0xbbu8, 0x2bu8, 0x0eu8, 0x7cu8, 0x8bu8, 0x15u8, 0x26u8, 0x8fu8, 0x6du8, 0x44u8, 0x56u8, 0xf5u8,
        0xf3u8, 0x8du8, 0x37u8, 0xb0u8, 0x90u8, 0x06u8, 0xffu8, 0xd7u8, 0x39u8, 0xc9u8, 0x57u8, 0x8au8, 0x2du8,
        0x1au8, 0xecu8, 0x6bu8, 0x3au8, 0xceu8, 0x9bu8, 0x02u8, 0x18u8, 0x97u8, 0xa0u8, 0x6bu8, 0xafu8, 0x93u8,
        0x43u8, 0x9au8, 0x90u8, 0xe0u8, 0x96u8, 0x69u8, 0x8cu8, 0x82u8, 0x23u8, 0x29u8, 0xbdu8, 0x0au8, 0xe6u8,
        0xbdu8, 0xbeu8, 0x09u8, 0xbdu8, 0x19u8, 0xf0u8, 0xe0u8, 0x78u8, 0x91u8, 0xcdu8, 0x2bu8, 0x9au8,
    ]
}

/// The SHA-256 digest of `data`.
pub uninterp spec fn sha256_of(data: Seq<u8>) -> Seq<u8>;

/// What the pairing library writes for `k` times the G1 point that it reads
/// from `point`.
pub uninterp spec fn g1_scalar_mul(point: Seq<u8>, k: nat) -> Seq<u8>;

/// What the pairing library writes for the G1 point that it reads from
/// `bytes`, in normal form.
pub uninterp spec fn g1_reading(bytes: Seq<u8>) -> Seq<u8>;

/// What the pairing library writes for `k` times the G2 point that it reads
/// from `point`.
pub uninterp spec fn g2_scalar_mul(point: Seq<u8>, k: nat) -> Seq<u8>;

/// What the pairing library writes for the G2 point that it reads from
/// `bytes`, in normal form.
pub uninterp spec fn g2_reading(bytes: Seq<u8>) -> Seq<u8>;

/// The encoding of what the Miller loop of the optimal ate pairing gives on
/// the G2 point `q` and the G1 point `p`.
pub uninterp spec fn miller_loop_of(q: Seq<u8>, p: Seq<u8>) -> Seq<u8>;

/// The encoding of the final exponentiation of the field element `f`.
pub uninterp spec fn final_exp_of(f: Seq<u8>) -> Seq<u8>;

/// The encoding of the field element `f` raised to the power `k`.
pub uninterp spec fn gt_power(f: Seq<u8>, k: nat) -> Seq<u8>;

/// Whether `bytes` are the 32-byte encoding of a number below the group
/// order.
pub open spec fn is_scalar_encoding(bytes: Seq<u8>) -> bool {
    bytes.len() == SCALAR_LEN && be_nat(bytes) < group_order()
}

/// Calls `sha2::Sha256::digest`.
///
/// The result is the SHA-256 digest of `data`, which is 32 bytes long.
#[verifier::external_body]
pub(crate) fn sha256_digest(data: &[u8]) -> (digest: [u8; 32])
    ensures
        digest@ == sha256_of(data@),
{
    Sha256::digest(data).into()
}

/// Calls `BIG::randomnum` with the group order as the bound and `rng` as the
/// byte source.
///
/// `randomnum` builds a number from bytes that it takes from `rng` and
/// reduces it modulo the bound, so the result is below the group order
/// whatever bytes were served. Nothing is claimed of `rng` afterwards.
#[verifier::external_body]
pub(crate) fn random_below_order(rng: &mut WasmRAND) -> (k: Vec<u8>)
    ensures
        is_scalar_encoding(k@),
{
    let q = BIG::new_ints(&rom::CURVE_ORDER);
    let mut out = vec![0u8; SCALAR_LEN];
    BIG::randomnum(&q, rng).tobytes(&mut out);
    out
}

/// Calls `BIG::rmod` with the group order as the modulus.
///
/// The result is the 32-byte big-endian encoding of the number that `bytes`
/// spell, reduced modulo the group order.
#[verifier::external_body]
pub(crate) fn reduce_mod_order(bytes: &[u8]) -> (k: Vec<u8>)
    requires
        bytes@.len() == SCALAR_LEN,
    ensures
        k@.len() == SCALAR_LEN,
        be_nat(k@) == be_nat(bytes@) % group_order(),
{
    let q = BIG::new_ints(&rom::CURVE_ORDER);
    let mut n = BIG::frombytes(bytes);
    n.rmod(&q);
    let mut out = vec![0u8; SCALAR_LEN];
    n.tobytes(&mut out);
    out
}

/// Calls `ECP::generator`.
///
/// The result is the uncompressed encoding of the generator of G1, whose
/// coordinates are constants of the curve. It is read back as the same
/// point.
#[verifier::external_body]
pub(crate) fn ecp_generator() -> (g: Vec<u8>)
    ensures
        g@ == g1_generator(),
        g1_reading(g@) == g@,
{
    let mut out = vec![0u8; G1_LEN];
    ECP::generator().tobytes(&mut out, false);
    out
}

/// Calls `ECP::mul`.
///
/// The result is what the library writes for the point read from `point`,
/// multiplied by the number that `k` spells. It is 65 bytes long. It need
/// not be read back as it is: the library does not always write the point
/// at infinity in the same way.
#[verifier::external_body]
pub(crate) fn ecp_mul(point: &[u8], k: &[u8]) -> (product: Vec<u8>)
    requires
        point@.len() == G1_LEN,
        k@.len() == SCALAR_LEN,
    ensures
        product@ == g1_scalar_mul(point@, be_nat(k@)),
        product@.len() == G1_LEN,
{
    let p = ECP::frombytes(point);
    let e = BIG::frombytes(k);
    let mut out = vec![0u8; G1_LEN];
    p.mul(&e).tobytes(&mut out, false);
    out
}

/// Calls `ECP::frombytes`.
///
/// The result is the uncompressed encoding of the point that the library
/// reads from `bytes`; where it reads none, that is the encoding of the
/// point at infinity. `frombytes` returns a point in normal form, either
/// affine or the one representation of the point at infinity that it makes,
/// so what is written for it is read back as the same point and written in
/// the same way again.
#[verifier::external_body]
pub(crate) fn ecp_read(bytes: &[u8]) -> (encoding: Vec<u8>)
    requires
        bytes@.len() == G1_LEN,
    ensures
        encoding@ == g1_reading(bytes@),
        encoding@.len() == G1_LEN,
        g1_reading(encoding@) == encoding@,
{
    let mut out = vec![0u8; G1_LEN];
    ECP::frombytes(bytes).tobytes(&mut out, false);
    out
}

/// Calls `ECP2::generator`.
///
/// The result is what the library writes for the generator of G2, whose
/// coordinates are constants of the curve. It is read back as the same
/// point.
#[verifier::external_body]
pub(crate) fn ecp2_generator() -> (g: Vec<u8>)
    ensures
        g@ == g2_generator_written(),
        g2_reading(g@) == g@,
{
    let mut out = vec![0u8; G2_WRITTEN_LEN];
    ECP2::generator().tobytes(&mut out, false);
    out
}

/// Calls `ECP2::mul`.
///
/// The result is what the library writes for the point read from `point`,
/// multiplied by the number that `k` spells. It is 129 bytes long. It need
/// not be read back as it is: the library does not always write the point
/// at infinity in the same way.
#[verifier::external_body]
pub(crate) fn ecp2_mul(point: &[u8], k: &[u8]) -> (product: Vec<u8>)
    requires
        point@.len() == G2_WRITTEN_LEN,
        k@.len() == SCALAR_LEN,
    ensures
        product@ == g2_scalar_mul(point@, be_nat(k@)),
        product@.len() == G2_WRITTEN_LEN,
{
    let p = ECP2::frombytes(point);
    let e = BIG::frombytes(k);
    let mut out = vec![0u8; G2_WRITTEN_LEN];
    p.mul(&e).tobytes(&mut out, false);
    out
}

/// Calls `ECP2::frombytes`.
///
/// The result is the uncompressed encoding of the point that the library
/// reads from `bytes`; where it reads none, that is the encoding of the
/// point at infinity. It is 129 bytes long. `frombytes` returns a point in
/// normal form, either affine or the one representation of the point at
/// infinity that it makes, so what is written for it is read back as the
/// same point and written in the same way again.
#[verifier::external_body]
pub(crate) fn ecp2_read(bytes: &[u8]) -> (encoding: Vec<u8>)
    requires
        bytes@.len() == G2_WRITTEN_LEN,
    ensures
        encoding@ == g2_reading(bytes@),
        encoding@.len() == G2_WRITTEN_LEN,
        g2_reading(encoding@) == encoding@,
{
    let mut out = vec![0u8; G2_WRITTEN_LEN];
    ECP2::frombytes(bytes).tobytes(&mut out, false);
    out
}

/// Calls `pair::ate`, the Miller loop of the optimal ate pairing.
///
/// The result is the 384-byte encoding of the field element that the loop
/// gives on the points read from `q` and `p`.
#[verifier::external_body]
pub(crate) fn ate(q: &[u8], p: &[u8]) -> (f: Vec<u8>)
    requires
        q@.len() == G2_WRITTEN_LEN,
        p@.len() == G1_LEN,
    ensures
        f@ == miller_loop_of(q@, p@),
        f@.len() == GT_LEN,
{
    let left = ECP2::frombytes(q);
    let right = ECP::frombytes(p);
    let mut out = vec![0u8; GT_LEN];
    pair::ate(&left, &right).tobytes(&mut out);
    out
}

/// Calls `pair::fexp`, the final exponentiation of the pairing.
///
/// The result is the 384-byte encoding of the field element read from `f`,
/// raised to the fixed power of the final exponentiation.
#[verifier::external_body]
pub(crate) fn fexp(f: &[u8]) -> (g: Vec<u8>)
    requires
        f@.len() == GT_LEN,
    ensures
        g@ == final_exp_of(f@),
        g@.len() == GT_LEN,
{
    let m = FP12::frombytes(f);
    let mut out = vec![0u8; GT_LEN];
    pair::fexp(&m).tobytes(&mut out);
    out
}

/// Calls `FP12::pow`.
///
/// The result is the 384-byte encoding of the field element read from `f`,
/// raised to the power that `k` spells.
#[verifier::external_body]
pub(crate) fn fp12_pow(f: &[u8], k: &[u8]) -> (g: Vec<u8>)
    requires
        f@.len() == GT_LEN,
        k@.len() == SCALAR_LEN,
    ensures
        g@ == gt_power(f@, be_nat(k@)),
        g@.len() == GT_LEN,
{
    let m = FP12::frombytes(f);
    let e = BIG::frombytes(k);
    let mut out = vec![0u8; GT_LEN];
    m.pow(&e).tobytes(&mut out);
    out
}

} // verus!

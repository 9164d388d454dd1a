//! Scalars and elements of the groups G1, G2 and GT.
//!
//! A value of each of these types is held, and modelled, as its wire
//! encoding: the view of a scalar or a group element is the byte string
//! that stands for it in keys and ciphertexts. Every value is well formed,
//! which the constructors establish: a scalar is below the group order, and
//! a point is one that the pairing library reads and writes back unchanged.
//! The encoding of a G2 point ends in one byte of padding, which is zero.

use crate::bytes::be_nat;
use crate::bytes::bytes_equal;
use crate::bytes::copy_range;
use crate::bytes::lemma_be_nat_injective;
use crate::curve::ate;
use crate::curve::ecp2_generator;
use crate::curve::ecp2_mul;
use crate::curve::ecp2_read;
use crate::curve::ecp_generator;
use crate::curve::ecp_mul;
use crate::curve::ecp_read;
use crate::curve::fexp;
use crate::curve::final_exp_of;
use crate::curve::fp12_pow;
use crate::curve::g1_generator;
use crate::curve::g1_reading;
use crate::curve::g1_scalar_mul;
use crate::curve::g2_generator_written;
use crate::curve::g2_reading;
use crate::curve::g2_scalar_mul;
use crate::curve::group_order;
use crate::curve::gt_power;
use crate::curve::is_scalar_encoding;
use crate::curve::miller_loop_of;
use crate::curve::random_below_order;
use crate::curve::reduce_mod_order;
use crate::curve::sha256_digest;
use crate::curve::sha256_of;
use crate::curve::G1_LEN;
use crate::curve::G2_WRITTEN_LEN;
use crate::curve::GT_LEN;
use crate::curve::SCALAR_LEN;
use crate::entropy::WasmRAND;
use crate::error::CryptoError;
use vstd::prelude::*;
use vstd::slice::slice_subrange;

verus! {

/// Bytes in the encoding of an element of G2: what the pairing library
/// writes for it, and one byte of padding, which is zero.
pub const G2_LEN: usize = 130;

/// Whether `bytes` are the encoding of a G1 point: 65 bytes that the pairing
/// library reads as a point and writes back unchanged.
pub open spec fn is_g1_encoding(bytes: Seq<u8>) -> bool {
    bytes.len() == G1_LEN && g1_reading(bytes) == bytes
}

/// Whether `bytes` are the encoding of a G2 point: 129 bytes that the
/// pairing library reads as a point and writes back unchanged, and a zero
/// byte.
pub open spec fn is_g2_encoding(bytes: Seq<u8>) -> bool {
    &&& bytes.len() == G2_LEN
    &&& bytes[G2_WRITTEN_LEN as int] == 0
    &&& g2_reading(bytes.subrange(0, G2_WRITTEN_LEN as int)) == bytes.subrange(
        0,
        G2_WRITTEN_LEN as int,
    )
}

/// The encoding of the fixed generator of G2.
pub open spec fn g2_generator() -> Seq<u8> {
    g2_generator_written().push(0u8)
}

/// What decoding a scalar from `bytes` gives: the bytes must be exactly 32,
/// and the number they spell is reduced modulo the group order.
pub open spec fn scalar_decoding(bytes: Seq<u8>) -> Result<nat, CryptoError> {
    if bytes.len() != SCALAR_LEN {
        Err(CryptoError::InvalidLength)
    } else {
        Ok(be_nat(bytes) % group_order())
    }
}

/// What decoding a G1 point from `bytes` gives: the first 65 bytes, if there
/// are that many and they are the encoding of a point.
pub open spec fn g1_decoding(bytes: Seq<u8>) -> Result<Seq<u8>, CryptoError> {
    if bytes.len() < G1_LEN {
        Err(CryptoError::InvalidLength)
    } else if !is_g1_encoding(bytes.subrange(0, G1_LEN as int)) {
        Err(CryptoError::DecodeError)
    } else {
        Ok(bytes.subrange(0, G1_LEN as int))
    }
}

/// What decoding a G2 point from `bytes` gives. There must be 130 bytes.
/// The pairing library decides on the first 129 of them, which it must
/// read as a point and write back unchanged; the byte of padding is not
/// read, and is zero in the point that is decoded.
pub open spec fn g2_decoding(bytes: Seq<u8>) -> Result<Seq<u8>, CryptoError> {
    if bytes.len() < G2_LEN {
        Err(CryptoError::InvalidLength)
    } else if g2_reading(bytes.subrange(0, G2_WRITTEN_LEN as int)) != bytes.subrange(
        0,
        G2_WRITTEN_LEN as int,
    ) {
        Err(CryptoError::DecodeError)
    } else {
        Ok(bytes.subrange(0, G2_WRITTEN_LEN as int).push(0u8))
    }
}

/// The encoding of a G1 point decodes to itself.
pub proof fn lemma_g1_encoding_decodes(bytes: Seq<u8>)
    requires
        is_g1_encoding(bytes),
    ensures
        g1_decoding(bytes) == Ok::<Seq<u8>, CryptoError>(bytes),
{
    assert(bytes.subrange(0, G1_LEN as int) =~= bytes);
}

/// The encoding of a G2 point decodes to itself.
pub proof fn lemma_g2_encoding_decodes(bytes: Seq<u8>)
    requires
        is_g2_encoding(bytes),
    ensures
        g2_decoding(bytes) == Ok::<Seq<u8>, CryptoError>(bytes),
{
    assert(bytes.subrange(0, G2_WRITTEN_LEN as int).push(0u8) =~= bytes);
}

/// What is decoded as a G2 point is the encoding of a G2 point.
pub proof fn lemma_g2_decoding_is_encoding(bytes: Seq<u8>)
    requires
        g2_decoding(bytes) is Ok,
    ensures
        is_g2_encoding(g2_decoding(bytes)->Ok_0),
{
    let written = bytes.subrange(0, G2_WRITTEN_LEN as int);
    assert(written.push(0u8).subrange(0, G2_WRITTEN_LEN as int) =~= written);
}

/// The encoding of `k` times the G1 point `point`: what the pairing library
/// writes for the product, read once more, so that the point at infinity
/// has one encoding.
pub open spec fn g1_product(point: Seq<u8>, k: nat) -> Seq<u8> {
    g1_reading(g1_scalar_mul(point, k))
}

/// The encoding of `k` times the G2 point `point`: what the pairing library
/// writes for the product, read once more, so that the point at infinity
/// has one encoding.
pub open spec fn g2_product(point: Seq<u8>, k: nat) -> Seq<u8> {
    g2_reading(g2_scalar_mul(point.subrange(0, G2_WRITTEN_LEN as int), k)).push(0u8)
}

/// The scalar that a label is hashed to: its digest, read as a big-endian
/// number and reduced modulo the group order.
pub open spec fn hash_to_scalar(label: Seq<u8>) -> nat {
    be_nat(sha256_of(label)) % group_order()
}

/// The G2 point that a label is hashed to: the generator of G2 multiplied
/// by the scalar of the label.
pub open spec fn hash_to_g2(label: Seq<u8>) -> Seq<u8> {
    g2_product(g2_generator(), hash_to_scalar(label))
}

/// The pairing of the G2 point `q` with the G1 point `p`: the Miller loop
/// followed by the final exponentiation.
pub open spec fn pairing_of(q: Seq<u8>, p: Seq<u8>) -> Seq<u8> {
    final_exp_of(miller_loop_of(q.subrange(0, G2_WRITTEN_LEN as int), p))
}

/// The 32-byte key derived from an element of GT: the digest of its
/// encoding.
pub open spec fn derived_key(gt: Seq<u8>) -> Seq<u8> {
    sha256_of(gt)
}

/// A number below the group order.
pub struct Scalar {
    bytes: Vec<u8>,
}

impl View for Scalar {
    type V = Seq<u8>;

    closed spec fn view(&self) -> Seq<u8> {
        self.bytes@
    }
}

impl Scalar {
    /// The encoding is 32 bytes long and spells a number below the group
    /// order.
    #[verifier::type_invariant]
    pub open spec fn wf(&self) -> bool {
        is_scalar_encoding(self@)
    }

    /// The number itself.
    pub open spec fn value(&self) -> nat {
        be_nat(self@)
    }

    /// Decodes a scalar from exactly 32 bytes, reducing the number they
    /// spell modulo the group order. Bytes that spell a number below the
    /// group order are kept as they are.
    pub fn from_bytes(bytes: &[u8]) -> (r: Result<Scalar, CryptoError>)
        ensures
            match r {
                Ok(k) => k.wf() && scalar_decoding(bytes@) == Ok::<nat, CryptoError>(k.value()),
                Err(e) => scalar_decoding(bytes@) == Err::<nat, CryptoError>(e),
            },
            is_scalar_encoding(bytes@) ==> r is Ok && r->Ok_0@ == bytes@,
    {
        if bytes.len() != SCALAR_LEN {
            return Err(CryptoError::InvalidLength);
        }
        let reduced = reduce_mod_order(bytes);
        proof {
            if is_scalar_encoding(bytes@) {
                lemma_be_nat_injective(reduced@, bytes@);
            }
        }
        Ok(Scalar { bytes: reduced })
    }

    /// Decoding the encoding of a scalar gives its value back.
    pub proof fn lemma_round_trip(self)
        requires
            self.wf(),
        ensures
            scalar_decoding(self@) == Ok::<nat, CryptoError>(self.value()),
    {
    }

    /// A scalar is determined by its value: two scalars of one value have
    /// the same encoding.
    pub proof fn lemma_value_determines(self, other: Scalar)
        requires
            self.wf(),
            other.wf(),
            self.value() == other.value(),
        ensures
            self@ == other@,
    {
        lemma_be_nat_injective(self@, other@);
    }

    /// The 32-byte big-endian encoding.
    pub fn to_bytes(&self) -> (out: Vec<u8>)
        ensures
            out@ == self@,
            out@.len() == SCALAR_LEN,
    {
        proof {
            use_type_invariant(self);
        }
        copy_range(self.bytes.as_slice(), 0, self.bytes.len())
    }

    /// Draws a scalar from `rng`. The draw fails, with
    /// `EntropyUnavailable`, exactly if `rng` has recorded a failure of the
    /// operating system by the time the scalar is made.
    pub fn random_from(rng: &mut WasmRAND) -> (r: Result<Scalar, CryptoError>)
        ensures
            r is Ok <==> !final(rng).entropy_failed(),
            r matches Ok(k) ==> k.wf(),
            r matches Err(e) ==> e == CryptoError::EntropyUnavailable,
    {
        let drawn = random_below_order(rng);
        if rng.has_failed() {
            Err(CryptoError::EntropyUnavailable)
        } else {
            Ok(Scalar { bytes: drawn })
        }
    }

    /// Draws a scalar from a byte source of its own.
    pub fn random() -> (r: Result<Scalar, CryptoError>)
        ensures
            r matches Ok(k) ==> k.wf(),
            r matches Err(e) ==> e == CryptoError::EntropyUnavailable,
    {
        let mut rng = WasmRAND::new();
        Scalar::random_from(&mut rng)
    }
}

/// An element of G1.
pub struct G1Point {
    bytes: Vec<u8>,
}

impl View for G1Point {
    type V = Seq<u8>;

    closed spec fn view(&self) -> Seq<u8> {
        self.bytes@
    }
}

impl G1Point {
    /// The encoding is that of a point of G1.
    #[verifier::type_invariant]
    pub open spec fn wf(&self) -> bool {
        is_g1_encoding(self@)
    }

    /// The fixed generator of G1.
    pub fn generator() -> (g: G1Point)
        ensures
            g.wf(),
            g@ == g1_generator(),
    {
        let bytes = ecp_generator();
        assert(bytes@.len() == G1_LEN);
        G1Point { bytes }
    }

    /// This point multiplied by `k`.
    pub fn mul(&self, k: &Scalar) -> (product: G1Point)
        ensures
            product.wf(),
            product@ == g1_product(self@, k.value()),
    {
        proof {
            use_type_invariant(self);
            use_type_invariant(k);
        }
        let written = ecp_mul(self.bytes.as_slice(), k.bytes.as_slice());
        let bytes = ecp_read(written.as_slice());
        G1Point { bytes }
    }

    /// Decodes a point from the first 65 bytes of `bytes`. The encoding of
    /// a point decodes to that point.
    pub fn from_bytes(bytes: &[u8]) -> (r: Result<G1Point, CryptoError>)
        ensures
            match r {
                Ok(p) => p.wf() && g1_decoding(bytes@) == Ok::<Seq<u8>, CryptoError>(p@),
                Err(e) => g1_decoding(bytes@) == Err::<Seq<u8>, CryptoError>(e),
            },
            is_g1_encoding(bytes@) ==> r is Ok && r->Ok_0@ == bytes@,
    {
        assert(is_g1_encoding(bytes@) ==> bytes@.subrange(0, G1_LEN as int) =~= bytes@);
        if bytes.len() < G1_LEN {
            return Err(CryptoError::InvalidLength);
        }
        let head = copy_range(bytes, 0, G1_LEN);
        let read = ecp_read(head.as_slice());
        if bytes_equal(read.as_slice(), head.as_slice()) {
            Ok(G1Point { bytes: head })
        } else {
            Err(CryptoError::DecodeError)
        }
    }

    /// The 65-byte encoding.
    pub fn to_bytes(&self) -> (out: Vec<u8>)
        ensures
            out@ == self@,
            out@.len() == G1_LEN,
    {
        proof {
            use_type_invariant(self);
        }
        copy_range(self.bytes.as_slice(), 0, self.bytes.len())
    }

    /// Decoding the encoding of a point gives the point back.
    pub proof fn lemma_round_trip(self)
        requires
            self.wf(),
        ensures
            g1_decoding(self@) == Ok::<Seq<u8>, CryptoError>(self@),
    {
        assert(self@.subrange(0, G1_LEN as int) =~= self@);
    }
}

/// An element of G2.
pub struct G2Point {
    bytes: Vec<u8>,
}

impl View for G2Point {
    type V = Seq<u8>;

    closed spec fn view(&self) -> Seq<u8> {
        self.bytes@
    }
}

impl G2Point {
    /// The encoding is that of a point of G2.
    #[verifier::type_invariant]
    pub open spec fn wf(&self) -> bool {
        is_g2_encoding(self@)
    }

    /// The fixed generator of G2.
    pub fn generator() -> (g: G2Point)
        ensures
            g.wf(),
            g@ == g2_generator(),
    {
        let mut bytes = ecp2_generator();
        let ghost written = bytes@;
        bytes.push(0u8);
        assert(bytes@.subrange(0, G2_WRITTEN_LEN as int) =~= written);
        G2Point { bytes }
    }

    /// This point multiplied by `k`.
    pub fn mul(&self, k: &Scalar) -> (product: G2Point)
        ensures
            product.wf(),
            product@ == g2_product(self@, k.value()),
    {
        proof {
            use_type_invariant(self);
            use_type_invariant(k);
        }
        let point = slice_subrange(self.bytes.as_slice(), 0, G2_WRITTEN_LEN);
        let written = ecp2_mul(point, k.bytes.as_slice());
        let mut bytes = ecp2_read(written.as_slice());
        let ghost read = bytes@;
        bytes.push(0u8);
        assert(bytes@.subrange(0, G2_WRITTEN_LEN as int) =~= read);
        G2Point { bytes }
    }

    /// Decodes a point from the first 129 of at least 130 bytes. The byte
    /// of padding behind them is not read. The encoding of a point decodes
    /// to that point.
    pub fn from_bytes(bytes: &[u8]) -> (r: Result<G2Point, CryptoError>)
        ensures
            match r {
                Ok(p) => p.wf() && g2_decoding(bytes@) == Ok::<Seq<u8>, CryptoError>(p@),
                Err(e) => g2_decoding(bytes@) == Err::<Seq<u8>, CryptoError>(e),
            },
            is_g2_encoding(bytes@) ==> r is Ok && r->Ok_0@ == bytes@,
    {
        proof {
            if is_g2_encoding(bytes@) {
                lemma_g2_encoding_decodes(bytes@);
            }
        }
        if bytes.len() < G2_LEN {
            return Err(CryptoError::InvalidLength);
        }
        let mut head = copy_range(bytes, 0, G2_WRITTEN_LEN);
        let read = ecp2_read(head.as_slice());
        if bytes_equal(read.as_slice(), head.as_slice()) {
            let ghost written = head@;
            head.push(0u8);
            assert(head@.subrange(0, G2_WRITTEN_LEN as int) =~= written);
            Ok(G2Point { bytes: head })
        } else {
            Err(CryptoError::DecodeError)
        }
    }

    /// The 130-byte encoding.
    pub fn to_bytes(&self) -> (out: Vec<u8>)
        ensures
            out@ == self@,
            out@.len() == G2_LEN,
    {
        proof {
            use_type_invariant(self);
        }
        copy_range(self.bytes.as_slice(), 0, self.bytes.len())
    }

    /// Decoding the encoding of a point gives the point back.
    pub proof fn lemma_round_trip(self)
        requires
            self.wf(),
        ensures
            g2_decoding(self@) == Ok::<Seq<u8>, CryptoError>(self@),
    {
        lemma_g2_encoding_decodes(self@);
    }
}

/// An element of GT, the target group of the pairing.
pub struct GtElement {
    bytes: Vec<u8>,
}

impl View for GtElement {
    type V = Seq<u8>;

    closed spec fn view(&self) -> Seq<u8> {
        self.bytes@
    }
}

impl GtElement {
    /// The encoding is 384 bytes long.
    #[verifier::type_invariant]
    pub open spec fn wf(&self) -> bool {
        self@.len() == GT_LEN
    }

    /// This element raised to the power `k`.
    pub fn pow(&self, k: &Scalar) -> (power: GtElement)
        ensures
            power.wf(),
            power@ == gt_power(self@, k.value()),
    {
        proof {
            use_type_invariant(self);
            use_type_invariant(k);
        }
        let bytes = fp12_pow(self.bytes.as_slice(), k.bytes.as_slice());
        GtElement { bytes }
    }

    /// The 384-byte encoding.
    pub fn to_bytes(&self) -> (out: Vec<u8>)
        ensures
            out@ == self@,
            out@.len() == GT_LEN,
    {
        proof {
            use_type_invariant(self);
        }
        copy_range(self.bytes.as_slice(), 0, self.bytes.len())
    }

    /// The 32-byte key derived from this element.
    pub fn derive_key(&self) -> (key: [u8; 32])
        ensures
            key@ == derived_key(self@),
    {
        sha256_digest(self.bytes.as_slice())
    }
}

/// Hashes a label to a scalar.
pub fn hash_to_field(label: &[u8]) -> (k: Scalar)
    ensures
        k.wf(),
        k.value() == hash_to_scalar(label@),
{
    let digest = sha256_digest(label);
    let reduced = reduce_mod_order(digest.as_slice());
    Scalar { bytes: reduced }
}

/// Hashes a label to a point of G2.
pub fn hash_to_group(label: &[u8]) -> (point: G2Point)
    ensures
        point.wf(),
        point@ == hash_to_g2(label@),
{
    let k = hash_to_field(label);
    let g = G2Point::generator();
    g.mul(&k)
}

/// The pairing of `q` with `p`.
pub fn pairing(q: &G2Point, p: &G1Point) -> (e: GtElement)
    ensures
        e.wf(),
        e@ == pairing_of(q@, p@),
{
    proof {
        use_type_invariant(q);
        use_type_invariant(p);
    }
    let left = slice_subrange(q.bytes.as_slice(), 0, G2_WRITTEN_LEN);
    let looped = ate(left, p.bytes.as_slice());
    let bytes = fexp(looped.as_slice());
    GtElement { bytes }
}

} // verus!

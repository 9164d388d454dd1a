//! The Boneh-Franklin identity-based encryption scheme on group elements.

use crate::bytes::apply_keystream;
use crate::bytes::keystream_xor;
use crate::bytes::lemma_keystream_involution;
use crate::curve::g1_generator;
use crate::group::g1_product;
use crate::group::g2_product;
use crate::curve::group_order;
use crate::curve::gt_power;
use crate::curve::sha256_digest;
use crate::curve::sha256_of;
use crate::error::CryptoError;
use crate::group::derived_key;
use crate::group::hash_to_g2;
use crate::group::hash_to_group;
use crate::group::pairing;
use crate::group::pairing_of;
use crate::group::G1Point;
use crate::group::G2Point;
use crate::group::GtElement;
use crate::group::Scalar;
use vstd::prelude::*;
use vstd::string::StringSliceAdditionalSpecFns;

verus! {

/// The public parameters that belong to the master secret `s`: the
/// generator of G1 multiplied by `s`.
pub open spec fn public_params_of(s: nat) -> Seq<u8> {
    g1_product(g1_generator(), s)
}

/// The private key of the label `label` under the master secret `s`: the
/// point of the label multiplied by `s`.
pub open spec fn private_key_of(s: nat, label: Seq<u8>) -> Seq<u8> {
    g2_product(hash_to_g2(label), s)
}

/// The key that masks a message encrypted to `label` under the public
/// parameters `p_pub` with the ephemeral scalar `r`: derived from the
/// pairing of the label's point with `p_pub`, raised to the power `r`.
pub open spec fn encryption_key(p_pub: Seq<u8>, label: Seq<u8>, r: nat) -> Seq<u8> {
    derived_key(gt_power(pairing_of(hash_to_g2(label), p_pub), r))
}

/// The key that unmasks a ciphertext whose first component is `u`, for the
/// holder of the private key `d`: derived from the pairing of `d` with `u`.
pub open spec fn decryption_key(d: Seq<u8>, u: Seq<u8>) -> Seq<u8> {
    derived_key(pairing_of(d, u))
}

/// Whether the pairing gives the holder of the private key of `label` under
/// the master secret `s` the same element of GT as it gave the sender who
/// used the ephemeral scalar `r`: whether the pairing of the private key
/// with `r` times the generator equals the pairing of the label's point
/// with the public parameters, raised to the power `r`. A bilinear pairing
/// does so for every `s`, `label` and `r`.
pub open spec fn pairing_agrees(s: nat, label: Seq<u8>, r: nat) -> bool {
    pairing_of(private_key_of(s, label), public_params_of(r)) == gt_power(
        pairing_of(hash_to_g2(label), public_params_of(s)),
        r,
    )
}

/// The two components of the encryption of `message` to `label` with the
/// ephemeral scalar `r`: the generator of G1 multiplied by `r`, and the
/// message under the keystream of the encryption key.
pub open spec fn ibe_encryption(p_pub: Seq<u8>, label: Seq<u8>, message: Seq<u8>, r: nat) -> (
    Seq<u8>,
    Seq<u8>,
) {
    (g1_product(g1_generator(), r), keystream_xor(message, encryption_key(p_pub, label, r)))
}

/// The message that the holder of the private key `d` reads from the
/// components `u` and `v`.
pub open spec fn ibe_decryption(d: Seq<u8>, u: Seq<u8>, v: Seq<u8>) -> Seq<u8> {
    keystream_xor(v, decryption_key(d, u))
}

/// The holder of the private key reads what was sent, wherever the pairing
/// agrees on the two sides: for the master secret `s`, a label, a message
/// and the ephemeral scalar `r`, decrypting the two components of the
/// encryption with the private key of the label gives the message. The
/// pairing agrees where it is bilinear, which is a matter of the pairing
/// library and is assumed here, not proved.
pub proof fn lemma_decryption_inverts_encryption(
    s: nat,
    label: Seq<u8>,
    message: Seq<u8>,
    r: nat,
)
    requires
        pairing_agrees(s, label, r),
    ensures
        ibe_decryption(
            private_key_of(s, label),
            ibe_encryption(public_params_of(s), label, message, r).0,
            ibe_encryption(public_params_of(s), label, message, r).1,
        ) == message,
{
    lemma_keystream_involution(message, encryption_key(public_params_of(s), label, r));
}

/// The algorithms of the scheme.
pub struct IBEImpl;

impl IBEImpl {
    /// Draws a scalar below the group order from the operating system's
    /// entropy. The only failure is `EntropyUnavailable`.
    pub fn random_big() -> (r: Result<Scalar, CryptoError>)
        ensures
            r matches Ok(k) ==> k.wf() && k.value() < group_order(),
            r matches Err(e) ==> e == CryptoError::EntropyUnavailable,
    {
        Scalar::random()
    }

    /// Hashes an identity to its point of G2.
    pub fn hash_identity(identity: &str) -> (point: G2Point)
        ensures
            point.wf(),
            point@ == hash_to_g2(identity.spec_bytes()),
    {
        hash_to_group(identity.as_bytes())
    }

    /// The SHA-256 digest of `data`.
    pub fn hash_message(data: &[u8]) -> (digest: [u8; 32])
        ensures
            digest@ == sha256_of(data@),
    {
        sha256_digest(data)
    }

    /// The key derived from the result of a pairing.
    pub fn hash_pairing_result(p: &GtElement) -> (key: [u8; 32])
        ensures
            key@ == derived_key(p@),
    {
        p.derive_key()
    }

    /// The master key pair that belongs to the secret `s`.
    pub fn setup_with(s: Scalar) -> (pair: (Scalar, G1Point))
        ensures
            pair.0 == s,
            pair.1.wf(),
            pair.1@ == public_params_of(s.value()),
    {
        let p_pub = G1Point::generator().mul(&s);
        (s, p_pub)
    }

    /// Draws a master secret and computes its public parameters. The only
    /// failure is `EntropyUnavailable`.
    pub fn setup() -> (r: Result<(Scalar, G1Point), CryptoError>)
        ensures
            r matches Ok(pair) ==> pair.0.wf() && pair.1.wf() && pair.1@ == public_params_of(
                pair.0.value(),
            ),
            r matches Err(e) ==> e == CryptoError::EntropyUnavailable,
    {
        match IBEImpl::random_big() {
            Ok(s) => Ok(IBEImpl::setup_with(s)),
            Err(e) => Err(e),
        }
    }

    /// The private key of `identity` under the master secret `s`.
    pub fn extract(s: &Scalar, identity: &str) -> (d_id: G2Point)
        ensures
            d_id.wf(),
            d_id@ == private_key_of(s.value(), identity.spec_bytes()),
    {
        let h_id = IBEImpl::hash_identity(identity);
        h_id.mul(s)
    }

    /// Encrypts `message` to `identity` with the ephemeral scalar `r`.
    pub fn encrypt_with(p_pub: &G1Point, identity: &str, message: &[u8], r: &Scalar) -> (ct: (
        G1Point,
        Vec<u8>,
    ))
        ensures
            ct.0.wf(),
            (ct.0@, ct.1@) == ibe_encryption(
                p_pub@,
                identity.spec_bytes(),
                message@,
                r.value(),
            ),
    {
        let u = G1Point::generator().mul(r);
        let h_id = IBEImpl::hash_identity(identity);
        let shared = pairing(&h_id, p_pub).pow(r);
        let hash_key = IBEImpl::hash_pairing_result(&shared);
        let v = apply_keystream(message, &hash_key);
        (u, v)
    }

    /// Encrypts `message` to `identity` with a fresh ephemeral scalar. The
    /// only failure is `EntropyUnavailable`.
    pub fn encrypt(p_pub: &G1Point, identity: &str, message: &[u8]) -> (r: Result<
        (G1Point, Vec<u8>),
        CryptoError,
    >)
        ensures
            r matches Ok(ct) ==> ct.0.wf() && exists|k: nat|
                k < group_order() && (ct.0@, ct.1@) == #[trigger] ibe_encryption(
                    p_pub@,
                    identity.spec_bytes(),
                    message@,
                    k,
                ),
            r matches Err(e) ==> e == CryptoError::EntropyUnavailable,
    {
        match IBEImpl::random_big() {
            Ok(k) => {
                let ct = IBEImpl::encrypt_with(p_pub, identity, message, &k);
                assert((ct.0@, ct.1@) == ibe_encryption(
                    p_pub@,
                    identity.spec_bytes(),
                    message@,
                    k.value(),
                ));
                Ok(ct)
            },
            Err(e) => Err(e),
        }
    }

    /// Decrypts the components `u` and `v` with the private key `d_id`.
    pub fn decrypt(d_id: &G2Point, u: &G1Point, v: &[u8]) -> (message: Vec<u8>)
        ensures
            message@ == ibe_decryption(d_id@, u@, v@),
    {
        let shared = pairing(d_id, u);
        let hash_key = IBEImpl::hash_pairing_result(&shared);
        apply_keystream(v, &hash_key)
    }
}

} // verus!

//! The simplified attribute-based encryption scheme on group elements.
//!
//! A key holds one component per attribute, and a ciphertext carries one
//! component per attribute, but the mask of the message comes from the
//! first attribute alone: the scheme is identity-based encryption to the
//! first attribute, with the other components carried along unused. The
//! ciphertext-policy and the key-policy form are the same construction.

use crate::bytes::apply_keystream;
use crate::bytes::copy_range;
use crate::bytes::keystream_xor;
use crate::bytes::lemma_keystream_involution;
use crate::curve::g1_generator;
use crate::group::g1_product;
use crate::curve::group_order;
use crate::curve::sha256_digest;
use crate::curve::sha256_of;
use crate::error::CryptoError;
use crate::group::derived_key;
use crate::group::hash_to_g2;
use crate::group::hash_to_group;
use crate::group::pairing;
use crate::group::G1Point;
use crate::group::G2Point;
use crate::group::GtElement;
use crate::group::Scalar;
use crate::ibe_impl::decryption_key;
use crate::ibe_impl::encryption_key;
use crate::ibe_impl::pairing_agrees;
use crate::ibe_impl::private_key_of;
use crate::ibe_impl::public_params_of;
use vstd::prelude::*;
use vstd::string::StringSliceAdditionalSpecFns;
use vstd::utf8::encode_utf8;

verus! {

/// The byte strings of a list of attributes: each attribute in UTF-8.
pub open spec fn label_bytes(attributes: Seq<String>) -> Seq<Seq<u8>> {
    Seq::new(attributes.len(), |i: int| encode_utf8(attributes[i]@))
}

/// The encodings of a list of G2 points.
pub open spec fn encodings(points: Seq<G2Point>) -> Seq<Seq<u8>> {
    Seq::new(points.len(), |i: int| points[i]@)
}

/// One component per label: the point of the label multiplied by `k`. With
/// the master secret for `k` these are the components of a private key;
/// with the ephemeral scalar, the attribute components of a ciphertext.
pub open spec fn attribute_components(k: nat, labels: Seq<Seq<u8>>) -> Seq<Seq<u8>> {
    Seq::new(labels.len(), |i: int| private_key_of(k, labels[i]))
}

/// The masked message of an encryption to `labels` with the ephemeral
/// scalar `s`: masked as for the first label alone, and left as it is
/// where there is no label.
pub open spec fn abe_masked(p_pub: Seq<u8>, labels: Seq<Seq<u8>>, message: Seq<u8>, s: nat) -> Seq<
    u8,
> {
    if labels.len() > 0 {
        keystream_xor(message, encryption_key(p_pub, labels[0], s))
    } else {
        message
    }
}

/// The message read from the components of a ciphertext with the
/// components of a key: unmasked with the first key component alone, and
/// left as it is where the key or the ciphertext has no component.
pub open spec fn abe_unmasked(
    key_components: Seq<Seq<u8>>,
    c0: Seq<u8>,
    v: Seq<u8>,
    c_attrs: Seq<Seq<u8>>,
) -> Seq<u8> {
    if key_components.len() > 0 && c_attrs.len() > 0 {
        keystream_xor(v, decryption_key(key_components[0], c0))
    } else {
        v
    }
}

/// Whether every point of the list is well formed.
pub open spec fn all_wf(points: Seq<G2Point>) -> bool {
    forall|i: int| 0 <= i < points.len() ==> (#[trigger] points[i]).wf()
}

/// A key reads what was sent to a list of attributes with the same first
/// attribute as its own, whatever the other attributes are, wherever the
/// pairing agrees on the two sides for that attribute. The pairing agrees
/// where it is bilinear, which is a matter of the pairing library and is
/// assumed here, not proved.
pub proof fn lemma_decryption_inverts_encryption(
    alpha: nat,
    key_labels: Seq<Seq<u8>>,
    labels: Seq<Seq<u8>>,
    message: Seq<u8>,
    s: nat,
)
    requires
        key_labels.len() > 0,
        labels.len() > 0,
        key_labels[0] == labels[0],
        pairing_agrees(alpha, labels[0], s),
    ensures
        abe_unmasked(
            attribute_components(alpha, key_labels),
            public_params_of(s),
            abe_masked(public_params_of(alpha), labels, message, s),
            attribute_components(s, labels),
        ) == message,
{
    lemma_keystream_involution(message, encryption_key(public_params_of(alpha), labels[0], s));
}

/// The algorithms of the ciphertext-policy form.
pub struct ABEImpl;

impl ABEImpl {
    /// Draws a scalar below the group order from the operating system's
    /// entropy. The only failure is `EntropyUnavailable`.
    pub fn random_big() -> (r: Result<Scalar, CryptoError>)
        ensures
            r matches Ok(k) ==> k.wf() && k.value() < group_order(),
            r matches Err(e) ==> e == CryptoError::EntropyUnavailable,
    {
        Scalar::random()
    }

    /// Hashes an attribute to its point of G2.
    pub fn hash_attribute(attribute: &str) -> (point: G2Point)
        ensures
            point.wf(),
            point@ == hash_to_g2(attribute.spec_bytes()),
    {
        hash_to_group(attribute.as_bytes())
    }

    /// The SHA-256 digest of `data`.
    pub fn hash_message(data: &[u8]) -> (digest: [u8; 32])
        ensures
            digest@ == sha256_of(data@),
    {
        sha256_digest(data)
    }

    /// The key derived from the result of a pairing.
    pub fn hash_pairing_result(p: &GtElement) -> (key: [u8; 32])
        ensures
            key@ == derived_key(p@),
    {
        p.derive_key()
    }

    /// The master key pair that belongs to the secret `alpha`.
    pub fn setup_with(alpha: Scalar) -> (pair: (Scalar, G1Point))
        ensures
            pair.0 == alpha,
            pair.1.wf(),
            pair.1@ == public_params_of(alpha.value()),
    {
        let p_pub = G1Point::generator().mul(&alpha);
        (alpha, p_pub)
    }

    /// Draws a master secret and computes its public parameters. The only
    /// failure is `EntropyUnavailable`.
    pub fn setup() -> (r: Result<(Scalar, G1Point), CryptoError>)
        ensures
            r matches Ok(pair) ==> pair.0.wf() && pair.1.wf() && pair.1@ == public_params_of(
                pair.0.value(),
            ),
            r matches Err(e) ==> e == CryptoError::EntropyUnavailable,
    {
        match ABEImpl::random_big() {
            Ok(alpha) => Ok(ABEImpl::setup_with(alpha)),
            Err(e) => Err(e),
        }
    }

    /// One component per attribute, in the order of the attributes: the
    /// point of the attribute multiplied by `k`.
    fn components(k: &Scalar, attributes: &[String]) -> (out: Vec<G2Point>)
        ensures
            all_wf(out@),
            encodings(out@) == attribute_components(k.value(), label_bytes(attributes@)),
    {
        let n: usize = attributes.len();
        let mut out: Vec<G2Point> = Vec::with_capacity(n);
        let mut i: usize = 0;
        while i < n
            invariant
                n == attributes@.len(),
                i <= n,
                out@.len() == i,
                all_wf(out@),
                forall|j: int|
                    0 <= j < i ==> (#[trigger] out@[j])@ == private_key_of(
                        k.value(),
                        encode_utf8(attributes@[j]@),
                    ),
            decreases n - i,
        {
            let h_attr = ABEImpl::hash_attribute(attributes[i].as_str());
            out.push(h_attr.mul(k));
            i = i + 1;
        }
        assert(encodings(out@) =~= attribute_components(k.value(), label_bytes(attributes@)));
        out
    }

    /// The private key for `attributes` under the master secret `alpha`:
    /// one component per attribute.
    pub fn key_gen(alpha: &Scalar, attributes: &[String]) -> (keys: Vec<G2Point>)
        ensures
            all_wf(keys@),
            encodings(keys@) == attribute_components(alpha.value(), label_bytes(attributes@)),
    {
        ABEImpl::components(alpha, attributes)
    }

    /// Encrypts `message` to `attributes` with the ephemeral scalar `s`.
    pub fn encrypt_with(p_pub: &G1Point, attributes: &[String], message: &[u8], s: &Scalar) -> (ct:
        (G1Point, Vec<u8>, Vec<G2Point>))
        ensures
            ct.0.wf(),
            ct.0@ == g1_product(g1_generator(), s.value()),
            ct.1@ == abe_masked(p_pub@, label_bytes(attributes@), message@, s.value()),
            all_wf(ct.2@),
            encodings(ct.2@) == attribute_components(s.value(), label_bytes(attributes@)),
    {
        let c0 = G1Point::generator().mul(s);
        let c_attrs = ABEImpl::components(s, attributes);
        if attributes.len() > 0 {
            let h_attr = ABEImpl::hash_attribute(attributes[0].as_str());
            let shared = pairing(&h_attr, p_pub).pow(s);
            let hash_key = ABEImpl::hash_pairing_result(&shared);
            let v = apply_keystream(message, &hash_key);
            (c0, v, c_attrs)
        } else {
            (c0, copy_range(message, 0, message.len()), c_attrs)
        }
    }

    /// Encrypts `message` to `attributes` with a fresh ephemeral scalar.
    /// The only failure is `EntropyUnavailable`.
    pub fn encrypt(p_pub: &G1Point, attributes: &[String], message: &[u8]) -> (r: Result<
        (G1Point, Vec<u8>, Vec<G2Point>),
        CryptoError,
    >)
        ensures
            r matches Ok(ct) ==> ct.0.wf() && all_wf(ct.2@) && exists|s: nat|
                #![trigger attribute_components(s, label_bytes(attributes@))]
                {
                    &&& s < group_order()
                    &&& ct.0@ == g1_product(g1_generator(), s)
                    &&& ct.1@ == abe_masked(p_pub@, label_bytes(attributes@), message@, s)
                    &&& encodings(ct.2@) == attribute_components(s, label_bytes(attributes@))
                },
            r matches Err(e) ==> e == CryptoError::EntropyUnavailable,
    {
        match ABEImpl::random_big() {
            Ok(s) => {
                let ct = ABEImpl::encrypt_with(p_pub, attributes, message, &s);
                assert(encodings(ct.2@) == attribute_components(
                    s.value(),
                    label_bytes(attributes@),
                ));
                Ok(ct)
            },
            Err(e) => Err(e),
        }
    }

    /// Decrypts the masked message `v` of a ciphertext with first component
    /// `c0` and attribute components `c_attrs`, for the holder of the key
    /// components `key_components`.
    pub fn decrypt(key_components: &[G2Point], c0: &G1Point, v: &[u8], c_attrs: &[G2Point]) -> (message:
        Vec<u8>)
        ensures
            message@ == abe_unmasked(encodings(key_components@), c0@, v@, encodings(c_attrs@)),
    {
        if key_components.len() > 0 && c_attrs.len() > 0 {
            let shared = pairing(&key_components[0], c0);
            let hash_key = ABEImpl::hash_pairing_result(&shared);
            apply_keystream(v, &hash_key)
        } else {
            copy_range(v, 0, v.len())
        }
    }
}

/// The algorithms of the key-policy form: the key is generated for a
/// policy, a list of attributes, and a message is encrypted to a set of
/// attributes. Each does what its namesake of [`ABEImpl`] does.
pub struct KPABEImpl;

impl KPABEImpl {
    /// Draws a scalar below the group order from the operating system's
    /// entropy. The only failure is `EntropyUnavailable`.
    pub fn random_big() -> (r: Result<Scalar, CryptoError>)
        ensures
            r matches Ok(k) ==> k.wf() && k.value() < group_order(),
            r matches Err(e) ==> e == CryptoError::EntropyUnavailable,
    {
        ABEImpl::random_big()
    }

    /// Hashes an attribute to its point of G2.
    pub fn hash_attribute(attribute: &str) -> (point: G2Point)
        ensures
            point.wf(),
            point@ == hash_to_g2(attribute.spec_bytes()),
    {
        ABEImpl::hash_attribute(attribute)
    }

    /// The SHA-256 digest of `data`.
    pub fn hash_message(data: &[u8]) -> (digest: [u8; 32])
        ensures
            digest@ == sha256_of(data@),
    {
        ABEImpl::hash_message(data)
    }

    /// The key derived from the result of a pairing.
    pub fn hash_pairing_result(p: &GtElement) -> (key: [u8; 32])
        ensures
            key@ == derived_key(p@),
    {
        ABEImpl::hash_pairing_result(p)
    }

    /// The master key pair that belongs to the secret `alpha`.
    pub fn setup_with(alpha: Scalar) -> (pair: (Scalar, G1Point))
        ensures
            pair.0 == alpha,
            pair.1.wf(),
            pair.1@ == public_params_of(alpha.value()),
    {
        ABEImpl::setup_with(alpha)
    }

    /// Draws a master secret and computes its public parameters. The only
    /// failure is `EntropyUnavailable`.
    pub fn setup() -> (r: Result<(Scalar, G1Point), CryptoError>)
        ensures
            r matches Ok(pair) ==> pair.0.wf() && pair.1.wf() && pair.1@ == public_params_of(
                pair.0.value(),
            ),
            r matches Err(e) ==> e == CryptoError::EntropyUnavailable,
    {
        ABEImpl::setup()
    }

    /// The private key for `policy` under the master secret `alpha`: one
    /// component per attribute of the policy.
    pub fn key_gen(alpha: &Scalar, policy: &[String]) -> (keys: Vec<G2Point>)
        ensures
            all_wf(keys@),
            encodings(keys@) == attribute_components(alpha.value(), label_bytes(policy@)),
    {
        ABEImpl::key_gen(alpha, policy)
    }

    /// Encrypts `message` to `attributes` with the ephemeral scalar `s`.
    pub fn encrypt_with(p_pub: &G1Point, attributes: &[String], message: &[u8], s: &Scalar) -> (ct:
        (G1Point, Vec<u8>, Vec<G2Point>))
        ensures
            ct.0.wf(),
            ct.0@ == g1_product(g1_generator(), s.value()),
            ct.1@ == abe_masked(p_pub@, label_bytes(attributes@), message@, s.value()),
            all_wf(ct.2@),
            encodings(ct.2@) == attribute_components(s.value(), label_bytes(attributes@)),
    {
        ABEImpl::encrypt_with(p_pub, attributes, message, s)
    }

    /// Encrypts `message` to `attributes` with a fresh ephemeral scalar.
    /// The only failure is `EntropyUnavailable`.
    pub fn encrypt(p_pub: &G1Point, attributes: &[String], message: &[u8]) -> (r: Result<
        (G1Point, Vec<u8>, Vec<G2Point>),
        CryptoError,
    >)
        ensures
            r matches Ok(ct) ==> ct.0.wf() && all_wf(ct.2@) && exists|s: nat|
                #![trigger attribute_components(s, label_bytes(attributes@))]
                {
                    &&& s < group_order()
                    &&& ct.0@ == g1_product(g1_generator(), s)
                    &&& ct.1@ == abe_masked(p_pub@, label_bytes(attributes@), message@, s)
                    &&& encodings(ct.2@) == attribute_components(s, label_bytes(attributes@))
                },
            r matches Err(e) ==> e == CryptoError::EntropyUnavailable,
    {
        ABEImpl::encrypt(p_pub, attributes, message)
    }

    /// Decrypts the masked message `v` of a ciphertext with first component
    /// `c0` and attribute components `c_attrs`, for the holder of the key
    /// components `key_components`.
    pub fn decrypt(key_components: &[G2Point], c0: &G1Point, v: &[u8], c_attrs: &[G2Point]) -> (message:
        Vec<u8>)
        ensures
            message@ == abe_unmasked(encodings(key_components@), c0@, v@, encodings(c_attrs@)),
    {
        ABEImpl::decrypt(key_components, c0, v, c_attrs)
    }
}

} // verus!

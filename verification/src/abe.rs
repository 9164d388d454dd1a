//! Attribute-based encryption on bytes: keys and ciphertexts in their wire
//! form.
//!
//! A master secret is 32 bytes and public parameters are 65 bytes. The
//! bytes of a private key are its components, 130 bytes each, in the order
//! of its attributes, which are kept beside them. A ciphertext is one byte
//! that counts its attributes, the 65 bytes of its first component, the
//! masked message, and one component of 130 bytes per attribute.

use crate::abe_impl::abe_masked;
use crate::abe_impl::abe_unmasked;
use crate::abe_impl::all_wf;
use crate::abe_impl::attribute_components;
use crate::abe_impl::encodings;
use crate::abe_impl::label_bytes;
use crate::abe_impl::ABEImpl;
use crate::bytes::be_nat;
use crate::bytes::copy_range;
use crate::bytes::keystream_xor;
use crate::bytes::lemma_keystream_involution;
use crate::curve::g1_generator;
use crate::group::g1_product;
use crate::curve::group_order;
use crate::curve::G1_LEN;
use crate::curve::SCALAR_LEN;
use crate::error::CryptoError;
use crate::group::g1_decoding;
use crate::group::g2_decoding;
use crate::group::lemma_g2_encoding_decodes;
use crate::group::is_g1_encoding;
use crate::group::is_g2_encoding;
use crate::group::scalar_decoding;
use crate::group::G1Point;
use crate::group::G2Point;
use crate::group::G2_LEN;
use crate::group::Scalar;
use crate::ibe_impl::decryption_key;
use crate::ibe_impl::encryption_key;
use crate::ibe_impl::pairing_agrees;
use crate::ibe_impl::private_key_of;
use crate::ibe_impl::public_params_of;
use crate::policy::names;
use crate::policy::parse_policy;
use crate::policy::policy_attributes;
use vstd::prelude::*;
use vstd::utf8::encode_utf8;

verus! {

/// The most attributes that a ciphertext can count in its first byte.
pub const MAX_ATTRIBUTES: usize = 255;

/// Bytes of a ciphertext before its masked message: the count and the
/// first component.
pub const HEADER_LEN: usize = 66;

/// The byte strings of `parts`, one after the other.
pub open spec fn concat(parts: Seq<Seq<u8>>) -> Seq<u8>
    decreases parts.len(),
{
    if parts.len() == 0 {
        Seq::empty()
    } else {
        concat(parts.drop_last()) + parts.last()
    }
}

/// The `count` components of 130 bytes each that start at `offset` in
/// `bytes`.
pub open spec fn components_at(bytes: Seq<u8>, offset: int, count: nat) -> Seq<Seq<u8>> {
    Seq::new(
        count,
        |i: int| bytes.subrange(offset + i * (G2_LEN as int), offset + (i + 1) * (G2_LEN as int)),
    )
}

/// Whether each of `parts` is the encoding of a G2 point.
pub open spec fn all_g2_encodings(parts: Seq<Seq<u8>>) -> bool {
    forall|i: int| 0 <= i < parts.len() ==> is_g2_encoding(#[trigger] parts[i])
}

/// Whether each of `parts` decodes as a G2 point.
pub open spec fn all_g2_decodable(parts: Seq<Seq<u8>>) -> bool {
    forall|i: int| 0 <= i < parts.len() ==> g2_decoding(#[trigger] parts[i]) is Ok
}

/// The G2 points that `parts` decode to.
pub open spec fn g2_decoded(parts: Seq<Seq<u8>>) -> Seq<Seq<u8>> {
    Seq::new(parts.len(), |i: int| g2_decoding(parts[i])->Ok_0)
}

/// The byte strings of the attributes that a policy names.
pub open spec fn policy_labels(policy: Seq<char>) -> Seq<Seq<u8>> {
    Seq::new(
        policy_attributes(policy).len(),
        |i: int| encode_utf8(policy_attributes(policy)[i]),
    )
}

/// The bytes of the private key for `labels` under the master secret
/// bytes `secret`.
pub open spec fn abe_key_bytes(secret: Seq<u8>, labels: Seq<Seq<u8>>) -> Result<
    Seq<u8>,
    CryptoError,
> {
    match scalar_decoding(secret) {
        Ok(alpha) => Ok(concat(attribute_components(alpha, labels))),
        Err(e) => Err(e),
    }
}

/// Why no message can be encrypted to the attributes `labels` under the
/// public parameter bytes `params`, if that is so. The length of the
/// parameters and the number of attributes are checked before the
/// parameters are decoded.
pub open spec fn abe_encrypt_refusal(params: Seq<u8>, labels: Seq<Seq<u8>>) -> Option<CryptoError> {
    if params.len() < G1_LEN {
        Some(CryptoError::InvalidLength)
    } else if labels.len() == 0 {
        Some(CryptoError::EmptyPolicy)
    } else if labels.len() > MAX_ATTRIBUTES {
        Some(CryptoError::TooManyAttributes)
    } else {
        match g1_decoding(params) {
            Ok(_) => None,
            Err(e) => Some(e),
        }
    }
}

/// The ciphertext of `message` for the attributes `labels` under the
/// public parameter bytes `params`, made with the ephemeral scalar `s`:
/// the count of the attributes, the first component, the masked message
/// and one component per attribute.
pub open spec fn abe_ciphertext(
    params: Seq<u8>,
    labels: Seq<Seq<u8>>,
    message: Seq<u8>,
    s: nat,
) -> Result<Seq<u8>, CryptoError> {
    match abe_encrypt_refusal(params, labels) {
        Some(e) => Err(e),
        None => Ok(
            seq![labels.len() as u8] + g1_product(g1_generator(), s) + abe_masked(
                g1_decoding(params)->Ok_0,
                labels,
                message,
                s,
            ) + concat(attribute_components(s, labels)),
        ),
    }
}

/// Whether `ct` is laid out as the ciphertext of `message` for the
/// attributes `labels` under the public parameters `p_pub`, made with the
/// ephemeral scalar `s`. Its first byte counts the attributes. Bytes 1 to
/// 65 are the encoding of `s` times the generator of G1. Behind them
/// stands the masked message, as long as the message. Behind that stand
/// the components, 130 bytes each: the `i`-th is the encoding of the point
/// of the `i`-th attribute multiplied by `s`.
pub open spec fn abe_laid_out(
    ct: Seq<u8>,
    p_pub: Seq<u8>,
    labels: Seq<Seq<u8>>,
    message: Seq<u8>,
    s: nat,
) -> bool {
    &&& ct.len() == HEADER_LEN + message.len() + labels.len() * G2_LEN
    &&& ct[0] as nat == labels.len()
    &&& is_g1_encoding(ct.subrange(1, HEADER_LEN as int))
    &&& ct.subrange(1, HEADER_LEN as int) == public_params_of(s)
    &&& ct.subrange(HEADER_LEN as int, HEADER_LEN + message.len()) == abe_masked(
        p_pub,
        labels,
        message,
        s,
    )
    &&& all_g2_encodings(attribute_components(s, labels))
    &&& components_at(ct, HEADER_LEN + message.len(), labels.len()) == attribute_components(
        s,
        labels,
    )
}

/// Whether `key` is laid out as the private key for the attributes
/// `labels` under the master secret `alpha`: its components stand one
/// after the other, 130 bytes each, and the `i`-th is the encoding of the
/// point of the `i`-th attribute multiplied by `alpha`.
pub open spec fn abe_key_laid_out(key: Seq<u8>, alpha: nat, labels: Seq<Seq<u8>>) -> bool {
    &&& key.len() == labels.len() * G2_LEN
    &&& all_g2_encodings(attribute_components(alpha, labels))
    &&& components_at(key, 0, labels.len()) == attribute_components(alpha, labels)
}

/// What decrypting `ciphertext` gives the holder of the key bytes `key`
/// for `key_attributes` attributes.
///
/// The ciphertext must hold its header; its count must be that of the
/// key; it must hold its components behind the header, with the masked
/// message, which may be empty, between the two; and the key must hold as
/// many components as it has attributes. Only then are the components
/// decoded.
pub open spec fn abe_plaintext(key: Seq<u8>, key_attributes: nat, ciphertext: Seq<u8>) -> Result<
    Seq<u8>,
    CryptoError,
> {
    if ciphertext.len() < HEADER_LEN {
        Err(CryptoError::InvalidLength)
    } else if ciphertext[0] as nat != key_attributes {
        Err(CryptoError::AttributeCountMismatch)
    } else if ciphertext.len() < HEADER_LEN + key_attributes * G2_LEN {
        Err(CryptoError::InvalidLength)
    } else if key.len() < key_attributes * G2_LEN {
        Err(CryptoError::InvalidLength)
    } else {
        let v_end = ciphertext.len() - key_attributes * G2_LEN;
        let c0 = ciphertext.subrange(1, HEADER_LEN as int);
        let v = ciphertext.subrange(HEADER_LEN as int, v_end);
        let c_attrs = components_at(ciphertext, v_end, key_attributes);
        let key_components = components_at(key, 0, key_attributes);
        if is_g1_encoding(c0) && all_g2_decodable(c_attrs) && all_g2_decodable(key_components) {
            Ok(abe_unmasked(g2_decoded(key_components), c0, v, g2_decoded(c_attrs)))
        } else {
            Err(CryptoError::DecodeError)
        }
    }
}

/// Encodings of G2 points decode, each to itself.
pub proof fn lemma_encodings_decode(parts: Seq<Seq<u8>>)
    requires
        all_g2_encodings(parts),
    ensures
        all_g2_decodable(parts),
        g2_decoded(parts) == parts,
{
    assert forall|i: int| 0 <= i < parts.len() implies g2_decoding(#[trigger] parts[i]) == Ok::<
        Seq<u8>,
        CryptoError,
    >(parts[i]) by {
        lemma_g2_encoding_decodes(parts[i]);
    }
    assert(g2_decoded(parts) =~= parts);
}

/// Components that were written one after the other are read back as they
/// were: where each of `parts` is 130 bytes long, they are the components
/// that start in `before + concat(parts) + after` behind `before`.
pub proof fn lemma_components_of_concat(before: Seq<u8>, parts: Seq<Seq<u8>>, after: Seq<u8>)
    requires
        forall|i: int| 0 <= i < parts.len() ==> (#[trigger] parts[i]).len() == G2_LEN,
    ensures
        concat(parts).len() == parts.len() * G2_LEN,
        components_at(before + concat(parts) + after, before.len() as int, parts.len()) == parts,
    decreases parts.len(),
{
    let whole = before + concat(parts) + after;
    let read = components_at(whole, before.len() as int, parts.len());
    if parts.len() == 0 {
        assert(read =~= parts);
    } else {
        let firsts = parts.drop_last();
        let n = firsts.len() as int;
        lemma_components_of_concat(before, firsts, parts.last() + after);
        let earlier = components_at(
            before + concat(firsts) + (parts.last() + after),
            before.len() as int,
            firsts.len(),
        );
        assert(whole =~= before + concat(firsts) + (parts.last() + after));
        assert forall|i: int| 0 <= i < parts.len() implies read[i] == parts[i] by {
            if i < n {
                assert(read[i] == earlier[i]);
                assert(firsts[i] == parts[i]);
            } else {
                assert(read[i] =~= parts.last());
            }
        }
        assert(read =~= parts);
    }
}

/// A key decrypts what was encrypted to its attributes, and to any list of
/// as many attributes with the same first one, wherever the pairing agrees
/// on the two sides.
///
/// Take a master secret of 32 bytes, the attributes of a key, the
/// attributes of a ciphertext, as many and at most 255, of which the first
/// is the same, a message and an ephemeral scalar `s`.
/// Let the public parameters and all components of the key and of the
/// ciphertext be encodings of points, as all those are that this library
/// computes. Suppose that the pairing agrees on the two sides for the
/// first attribute, in the sense of [`pairing_agrees`]: it does where the
/// pairing is bilinear, which is a matter of the pairing library and is
/// assumed here, not proved. Then the key decrypts the ciphertext to the
/// message.
pub proof fn lemma_round_trip_where_pairing_agrees(
    secret: Seq<u8>,
    key_labels: Seq<Seq<u8>>,
    labels: Seq<Seq<u8>>,
    message: Seq<u8>,
    s: nat,
)
    requires
        secret.len() == SCALAR_LEN,
        0 < labels.len() <= MAX_ATTRIBUTES,
        key_labels.len() == labels.len(),
        key_labels[0] == labels[0],
        is_g1_encoding(public_params_of(be_nat(secret) % group_order())),
        is_g1_encoding(public_params_of(s)),
        all_g2_encodings(attribute_components(be_nat(secret) % group_order(), key_labels)),
        all_g2_encodings(attribute_components(s, labels)),
        pairing_agrees(be_nat(secret) % group_order(), labels[0], s),
    ensures
        abe_key_bytes(secret, key_labels) is Ok,
        abe_ciphertext(public_params_of(be_nat(secret) % group_order()), labels, message, s) is Ok,
        abe_plaintext(
            abe_key_bytes(secret, key_labels)->Ok_0,
            key_labels.len(),
            abe_ciphertext(
                public_params_of(be_nat(secret) % group_order()),
                labels,
                message,
                s,
            )->Ok_0,
        ) == Ok::<Seq<u8>, CryptoError>(message),
{
    let alpha = be_nat(secret) % group_order();
    let params = public_params_of(alpha);
    let n = labels.len();
    let key_parts = attribute_components(alpha, key_labels);
    let parts = attribute_components(s, labels);
    let key = concat(key_parts);
    let c0 = public_params_of(s);
    let mask = encryption_key(params, labels[0], s);
    let v = keystream_xor(message, mask);
    let head = seq![n as u8] + c0 + v;
    let ct = head + concat(parts);
    assert(params.subrange(0, G1_LEN as int) =~= params);
    assert(abe_ciphertext(params, labels, message, s) == Ok::<Seq<u8>, CryptoError>(ct));
    assert forall|i: int| 0 <= i < parts.len() implies (#[trigger] parts[i]).len() == G2_LEN by {
        assert(is_g2_encoding(parts[i]));
    }
    assert forall|i: int| 0 <= i < key_parts.len() implies (#[trigger] key_parts[i]).len()
        == G2_LEN by {
        assert(is_g2_encoding(key_parts[i]));
    }
    lemma_components_of_concat(head, parts, Seq::empty());
    lemma_components_of_concat(Seq::empty(), key_parts, Seq::empty());
    assert(head + concat(parts) + Seq::<u8>::empty() =~= ct);
    assert(Seq::<u8>::empty() + concat(key_parts) + Seq::<u8>::empty() =~= key);
    let v_end = ct.len() - n * G2_LEN;
    assert(v_end == head.len());
    assert(ct[0] == n as u8);
    assert(ct.subrange(1, HEADER_LEN as int) =~= c0);
    assert(ct.subrange(HEADER_LEN as int, v_end) =~= v);
    assert(components_at(ct, v_end, n) == parts);
    assert(components_at(key, 0, n) == key_parts);
    lemma_encodings_decode(parts);
    lemma_encodings_decode(key_parts);
    assert(key_parts[0] == private_key_of(alpha, labels[0]));
    assert(decryption_key(key_parts[0], c0) == mask);
    lemma_keystream_involution(message, mask);
}

/// A ciphertext whose count differs from the number of attributes of the
/// key is never decrypted: decryption fails, and where the ciphertext holds
/// its header of 66 bytes, it fails with `AttributeCountMismatch`.
pub proof fn lemma_count_mismatch(key: Seq<u8>, key_attributes: nat, ciphertext: Seq<u8>)
    requires
        ciphertext.len() > 0,
        ciphertext[0] as nat != key_attributes,
    ensures
        abe_plaintext(key, key_attributes, ciphertext) is Err,
        ciphertext.len() >= HEADER_LEN ==> abe_plaintext(key, key_attributes, ciphertext) == Err::<
            Seq<u8>,
            CryptoError,
        >(CryptoError::AttributeCountMismatch),
{
}

/// The bytes of a master secret.
pub struct ABEMasterKey {
    secret: Vec<u8>,
}

impl View for ABEMasterKey {
    type V = Seq<u8>;

    closed spec fn view(&self) -> Seq<u8> {
        self.secret@
    }
}

impl ABEMasterKey {
    /// A master key without bytes, which no operation accepts.
    pub fn new() -> (key: ABEMasterKey)
        ensures
            key@ == Seq::<u8>::empty(),
    {
        ABEMasterKey { secret: Vec::new() }
    }

    /// A master key that holds the given bytes.
    pub fn from_bytes(secret: Vec<u8>) -> (key: ABEMasterKey)
        ensures
            key@ == secret@,
    {
        ABEMasterKey { secret }
    }

    /// A copy of the bytes.
    pub fn secret(&self) -> (out: Vec<u8>)
        ensures
            out@ == self@,
    {
        copy_range(self.secret.as_slice(), 0, self.secret.len())
    }
}

/// The bytes of public parameters.
pub struct ABEPublicParams {
    params: Vec<u8>,
}

impl View for ABEPublicParams {
    type V = Seq<u8>;

    closed spec fn view(&self) -> Seq<u8> {
        self.params@
    }
}

impl ABEPublicParams {
    /// Public parameters without bytes, which no operation accepts.
    pub fn new() -> (params: ABEPublicParams)
        ensures
            params@ == Seq::<u8>::empty(),
    {
        ABEPublicParams { params: Vec::new() }
    }

    /// Public parameters that hold the given bytes.
    pub fn from_bytes(params: Vec<u8>) -> (out: ABEPublicParams)
        ensures
            out@ == params@,
    {
        ABEPublicParams { params }
    }

    /// A copy of the bytes.
    pub fn params(&self) -> (out: Vec<u8>)
        ensures
            out@ == self@,
    {
        copy_range(self.params.as_slice(), 0, self.params.len())
    }
}

/// The bytes of a private key, and the attributes that it was made for.
pub struct ABEPrivateKey {
    key: Vec<u8>,
    attributes: Vec<String>,
}

impl ABEPrivateKey {
    /// The bytes of the key.
    pub closed spec fn key_bytes(&self) -> Seq<u8> {
        self.key@
    }

    /// The attributes of the key.
    pub closed spec fn attribute_list(&self) -> Seq<String> {
        self.attributes@
    }

    /// A private key without bytes and without attributes.
    pub fn new() -> (key: ABEPrivateKey)
        ensures
            key.key_bytes() == Seq::<u8>::empty(),
            key.attribute_list() == Seq::<String>::empty(),
    {
        ABEPrivateKey { key: Vec::new(), attributes: Vec::new() }
    }

    /// A private key that holds the given bytes and attributes.
    pub fn from_parts(key: Vec<u8>, attributes: Vec<String>) -> (out: ABEPrivateKey)
        ensures
            out.key_bytes() == key@,
            out.attribute_list() == attributes@,
    {
        ABEPrivateKey { key, attributes }
    }

    /// A copy of the bytes.
    pub fn key(&self) -> (out: Vec<u8>)
        ensures
            out@ == self.key_bytes(),
    {
        copy_range(self.key.as_slice(), 0, self.key.len())
    }

    /// A copy of the attributes.
    pub fn attributes(&self) -> (out: Vec<String>)
        ensures
            names(out@) == names(self.attribute_list()),
    {
        let n: usize = self.attributes.len();
        let mut out: Vec<String> = Vec::with_capacity(n);
        let mut i: usize = 0;
        while i < n
            invariant
                n == self.attributes@.len(),
                i <= n,
                out@.len() == i,
                forall|j: int| 0 <= j < i ==> out@[j]@ == self.attributes@[j]@,
            decreases n - i,
        {
            out.push(self.attributes[i].clone());
            i = i + 1;
        }
        assert(names(out@) =~= names(self.attributes@));
        out
    }
}

/// The encodings of `points`, one after the other, 130 bytes each.
fn encode_components(points: &[G2Point]) -> (out: Vec<u8>)
    requires
        all_wf(points@),
    ensures
        out@ == concat(encodings(points@)),
        out@.len() == points@.len() * G2_LEN,
        all_g2_encodings(encodings(points@)),
        components_at(out@, 0, points@.len()) == encodings(points@),
{
    let n: usize = points.len();
    let mut out: Vec<u8> = Vec::new();
    let mut i: usize = 0;
    assert(encodings(points@).subrange(0, 0) =~= Seq::<Seq<u8>>::empty());
    while i < n
        invariant
            n == points@.len(),
            i <= n,
            out@ == concat(encodings(points@).subrange(0, i as int)),
            out@.len() == i * G2_LEN,
        decreases n - i,
    {
        let part = points[i].to_bytes();
        out.extend_from_slice(part.as_slice());
        proof {
            let done = encodings(points@).subrange(0, i as int);
            let more = encodings(points@).subrange(0, i + 1);
            assert(more.drop_last() =~= done);
            assert(more.last() == points@[i as int]@);
            assert(out@ =~= concat(done) + part@);
        }
        i = i + 1;
    }
    assert(encodings(points@).subrange(0, n as int) =~= encodings(points@));
    proof {
        let parts = encodings(points@);
        assert forall|j: int| 0 <= j < parts.len() implies is_g2_encoding(#[trigger] parts[j]) by {
            assert(points@[j].wf());
        }
        lemma_components_of_concat(Seq::empty(), parts, Seq::empty());
        assert(Seq::<u8>::empty() + concat(parts) + Seq::<u8>::empty() =~= out@);
    }
    out
}

/// Decodes the `count` components that start at `offset` in `bytes`.
/// Fails, with `DecodeError`, exactly if one of them does not decode as a
/// point.
fn decode_components(bytes: &[u8], offset: usize, count: usize) -> (r: Result<
    Vec<G2Point>,
    CryptoError,
>)
    requires
        offset + count * G2_LEN <= bytes@.len(),
    ensures
        match r {
            Ok(points) => all_wf(points@) && all_g2_decodable(
                components_at(bytes@, offset as int, count as nat),
            ) && encodings(points@) == g2_decoded(
                components_at(bytes@, offset as int, count as nat),
            ),
            Err(e) => e == CryptoError::DecodeError && !all_g2_decodable(
                components_at(bytes@, offset as int, count as nat),
            ),
        },
{
    let ghost parts = components_at(bytes@, offset as int, count as nat);
    let total: usize = bytes.len();
    let mut points: Vec<G2Point> = Vec::with_capacity(count);
    let mut i: usize = 0;
    while i < count
        invariant
            total == bytes@.len(),
            offset + count * G2_LEN <= bytes@.len(),
            parts == components_at(bytes@, offset as int, count as nat),
            i <= count,
            points@.len() == i,
            all_wf(points@),
            forall|j: int| 0 <= j < i ==> (#[trigger] points@[j])@ == g2_decoding(parts[j])->Ok_0,
            forall|j: int| 0 <= j < i ==> g2_decoding(#[trigger] parts[j]) is Ok,
        decreases count - i,
    {
        assert(i * G2_LEN + G2_LEN <= count * G2_LEN);
        let from: usize = offset + i * G2_LEN;
        let part = copy_range(bytes, from, from + G2_LEN);
        assert(part@ == parts[i as int]);
        match G2Point::from_bytes(part.as_slice()) {
            Ok(point) => {
                points.push(point);
            },
            Err(_) => {
                assert(!(g2_decoding(parts[i as int]) is Ok));
                return Err(CryptoError::DecodeError);
            },
        }
        i = i + 1;
    }
    assert(encodings(points@) =~= g2_decoded(parts));
    Ok(points)
}

/// The scheme on bytes: Setup, KeyGen, Encrypt and Decrypt.
pub struct ABE {}

impl ABE {
    /// The scheme. It holds no state.
    pub fn new() -> ABE {
        ABE {  }
    }

    /// The master key pair that belongs to the secret `alpha`: its 32 bytes
    /// and the 65 bytes of its public parameters, which are the encoding
    /// of a point.
    pub fn setup_with(&self, alpha: Scalar) -> (pair: (ABEMasterKey, ABEPublicParams))
        ensures
            pair.0@ == alpha@,
            pair.0@.len() == SCALAR_LEN,
            pair.1@ == public_params_of(alpha.value()),
            pair.1@.len() == G1_LEN,
            is_g1_encoding(pair.1@),
    {
        proof {
            use_type_invariant(&alpha);
        }
        let (alpha, p_pub) = ABEImpl::setup_with(alpha);
        proof {
            use_type_invariant(&p_pub);
        }
        (ABEMasterKey { secret: alpha.to_bytes() }, ABEPublicParams { params: p_pub.to_bytes() })
    }

    /// Draws a master secret and computes its public parameters, which are
    /// the encoding of a point. The only failure is `EntropyUnavailable`.
    pub fn setup(&self) -> (r: Result<(ABEMasterKey, ABEPublicParams), CryptoError>)
        ensures
            r matches Ok(pair) ==> {
                &&& pair.0@.len() == SCALAR_LEN
                &&& be_nat(pair.0@) < group_order()
                &&& pair.1@.len() == G1_LEN
                &&& pair.1@ == public_params_of(be_nat(pair.0@))
                &&& is_g1_encoding(pair.1@)
            },
            r matches Err(e) ==> e == CryptoError::EntropyUnavailable,
    {
        match ABEImpl::random_big() {
            Ok(alpha) => {
                proof {
                    use_type_invariant(&alpha);
                }
                Ok(self.setup_with(alpha))
            },
            Err(e) => Err(e),
        }
    }

    /// Generates the private key for `attributes`: one component of 130
    /// bytes per attribute, in the order of the attributes, each the
    /// encoding of a point. Fails with `InvalidLength` exactly if the
    /// master key is not 32 bytes long.
    pub fn key_gen(&self, master_key: &ABEMasterKey, attributes: Vec<String>) -> (r: Result<
        ABEPrivateKey,
        CryptoError,
    >)
        ensures
            match r {
                Ok(key) => {
                    &&& key.attribute_list() == attributes@
                    &&& key.key_bytes().len() == attributes@.len() * G2_LEN
                    &&& abe_key_bytes(master_key@, label_bytes(attributes@)) == Ok::<
                        Seq<u8>,
                        CryptoError,
                    >(key.key_bytes())
                    &&& abe_key_laid_out(
                        key.key_bytes(),
                        scalar_decoding(master_key@)->Ok_0,
                        label_bytes(attributes@),
                    )
                },
                Err(e) => abe_key_bytes(master_key@, label_bytes(attributes@)) == Err::<
                    Seq<u8>,
                    CryptoError,
                >(e),
            },
    {
        let alpha = match Scalar::from_bytes(master_key.secret.as_slice()) {
            Ok(alpha) => alpha,
            Err(e) => { return Err(e); },
        };
        let key_components = ABEImpl::key_gen(&alpha, attributes.as_slice());
        let key = encode_components(key_components.as_slice());
        Ok(ABEPrivateKey { key, attributes })
    }

    /// Encrypts `message` to the attributes that `policy` names, with the
    /// ephemeral scalar `s`. Fails with `InvalidLength` if the public
    /// parameters are shorter than 65 bytes, else with `EmptyPolicy` if the
    /// policy names no attribute, else with `TooManyAttributes` if it names
    /// more than 255, else with `DecodeError` if the first 65 bytes of the
    /// parameters are not the encoding of a point. The ciphertext is the
    /// count of the attributes, the first component, the masked message
    /// and one component of 130 bytes per attribute.
    pub fn encrypt_with(
        &self,
        public_params: &ABEPublicParams,
        policy: &str,
        message: &[u8],
        s: &Scalar,
    ) -> (out: Result<Vec<u8>, CryptoError>)
        ensures
            match out {
                Ok(ct) => abe_ciphertext(
                    public_params@,
                    policy_labels(policy@),
                    message@,
                    s.value(),
                ) == Ok::<Seq<u8>, CryptoError>(ct@) && abe_laid_out(
                    ct@,
                    g1_decoding(public_params@)->Ok_0,
                    policy_labels(policy@),
                    message@,
                    s.value(),
                ),
                Err(e) => abe_ciphertext(
                    public_params@,
                    policy_labels(policy@),
                    message@,
                    s.value(),
                ) == Err::<Seq<u8>, CryptoError>(e),
            },
    {
        if public_params.params.len() < G1_LEN {
            return Err(CryptoError::InvalidLength);
        }
        let attributes = parse_policy(policy);
        assert(label_bytes(attributes@) =~= policy_labels(policy@)) by {
            assert(names(attributes@) == policy_attributes(policy@));
            assert forall|i: int| 0 <= i < attributes@.len() implies attributes@[i]@
                == policy_attributes(policy@)[i] by {
                assert(names(attributes@)[i] == attributes@[i]@);
            }
        }
        let num_attrs: usize = attributes.len();
        if num_attrs == 0 {
            return Err(CryptoError::EmptyPolicy);
        }
        if num_attrs > MAX_ATTRIBUTES {
            return Err(CryptoError::TooManyAttributes);
        }
        let p_pub = match G1Point::from_bytes(public_params.params.as_slice()) {
            Ok(p) => p,
            Err(e) => { return Err(e); },
        };
        let (c0, v, c_attrs) = ABEImpl::encrypt_with(&p_pub, attributes.as_slice(), message, s);
        let mut ciphertext: Vec<u8> = Vec::new();
        ciphertext.push(num_attrs as u8);
        let c0_bytes = c0.to_bytes();
        ciphertext.extend_from_slice(c0_bytes.as_slice());
        ciphertext.extend_from_slice(v.as_slice());
        let tail = encode_components(c_attrs.as_slice());
        ciphertext.extend_from_slice(tail.as_slice());
        assert(ciphertext@ =~= seq![num_attrs as u8] + c0@ + v@ + tail@);
        proof {
            let head = seq![num_attrs as u8] + c0@ + v@;
            let parts = encodings(c_attrs@);
            assert(ciphertext@.subrange(1, HEADER_LEN as int) =~= c0@);
            assert(ciphertext@.subrange(HEADER_LEN as int, HEADER_LEN + message@.len()) =~= v@);
            assert forall|i: int| 0 <= i < parts.len() implies (#[trigger] parts[i]).len()
                == G2_LEN by {
                assert(is_g2_encoding(parts[i]));
            }
            lemma_components_of_concat(head, parts, Seq::empty());
            assert(head + concat(parts) + Seq::<u8>::empty() =~= ciphertext@);
        }
        Ok(ciphertext)
    }

    /// Encrypts `message` to the attributes that `policy` names, with a
    /// fresh ephemeral scalar. What [`ABE::encrypt_with`] refuses is
    /// refused in the same way, before any entropy is drawn; otherwise the
    /// only failure is `EntropyUnavailable`.
    pub fn encrypt(&self, public_params: &ABEPublicParams, policy: &str, message: &[u8]) -> (out:
        Result<Vec<u8>, CryptoError>)
        ensures
            abe_encrypt_refusal(public_params@, policy_labels(policy@)) matches Some(e) ==> out
                == Err::<Vec<u8>, CryptoError>(e),
            abe_encrypt_refusal(public_params@, policy_labels(policy@)) is None ==> match out {
                Ok(ct) => ct@.len() == HEADER_LEN + message@.len() + policy_labels(policy@).len()
                    * G2_LEN && ct@[0] as nat == policy_labels(policy@).len() && exists|s: nat|
                    s < group_order() && #[trigger] abe_ciphertext(
                        public_params@,
                        policy_labels(policy@),
                        message@,
                        s,
                    ) == Ok::<Seq<u8>, CryptoError>(ct@) && abe_laid_out(
                        ct@,
                        g1_decoding(public_params@)->Ok_0,
                        policy_labels(policy@),
                        message@,
                        s,
                    ),
                Err(e) => e == CryptoError::EntropyUnavailable,
            },
    {
        if public_params.params.len() < G1_LEN {
            return Err(CryptoError::InvalidLength);
        }
        let attributes = parse_policy(policy);
        assert(policy_labels(policy@).len() == attributes@.len()) by {
            assert(names(attributes@) == policy_attributes(policy@));
            assert(names(attributes@).len() == attributes@.len());
        }
        if attributes.len() == 0 {
            return Err(CryptoError::EmptyPolicy);
        }
        if attributes.len() > MAX_ATTRIBUTES {
            return Err(CryptoError::TooManyAttributes);
        }
        if let Err(e) = G1Point::from_bytes(public_params.params.as_slice()) {
            return Err(e);
        }
        match ABEImpl::random_big() {
            Ok(s) => {
                let out = self.encrypt_with(public_params, policy, message, &s);
                assert(abe_ciphertext(
                    public_params@,
                    policy_labels(policy@),
                    message@,
                    s.value(),
                ) == Ok::<Seq<u8>, CryptoError>(out->Ok_0@));
                out
            },
            Err(e) => Err(e),
        }
    }

    /// Decrypts `ciphertext` with `private_key`.
    ///
    /// Fails with `InvalidLength` if the ciphertext is shorter than its
    /// header of 66 bytes; else with `AttributeCountMismatch` if its count
    /// differs from the number of attributes of the key; else with
    /// `InvalidLength` if it is too short to hold its components behind
    /// the header or the key holds too few components; else with
    /// `DecodeError` if a component does not decode as a point. The masked
    /// message may be empty.
    pub fn decrypt(&self, private_key: &ABEPrivateKey, ciphertext: &[u8]) -> (out: Result<
        Vec<u8>,
        CryptoError,
    >)
        ensures
            match out {
                Ok(message) => abe_plaintext(
                    private_key.key_bytes(),
                    private_key.attribute_list().len(),
                    ciphertext@,
                ) == Ok::<Seq<u8>, CryptoError>(message@),
                Err(e) => abe_plaintext(
                    private_key.key_bytes(),
                    private_key.attribute_list().len(),
                    ciphertext@,
                ) == Err::<Seq<u8>, CryptoError>(e),
            },
    {
        if ciphertext.len() < HEADER_LEN {
            return Err(CryptoError::InvalidLength);
        }
        let num_attrs: usize = ciphertext[0] as usize;
        if num_attrs != private_key.attributes.len() {
            return Err(CryptoError::AttributeCountMismatch);
        }
        let tail: usize = num_attrs * G2_LEN;
        if ciphertext.len() < HEADER_LEN + tail {
            return Err(CryptoError::InvalidLength);
        }
        if private_key.key.len() < tail {
            return Err(CryptoError::InvalidLength);
        }
        let v_end: usize = ciphertext.len() - tail;
        let c0_bytes = copy_range(ciphertext, 1, HEADER_LEN);
        assert(c0_bytes@.subrange(0, G1_LEN as int) =~= c0_bytes@);
        let c0 = match G1Point::from_bytes(c0_bytes.as_slice()) {
            Ok(c0) => c0,
            Err(_) => { return Err(CryptoError::DecodeError); },
        };
        let c_attrs = match decode_components(ciphertext, v_end, num_attrs) {
            Ok(points) => points,
            Err(e) => { return Err(e); },
        };
        let key_components = match decode_components(private_key.key.as_slice(), 0, num_attrs) {
            Ok(points) => points,
            Err(e) => { return Err(e); },
        };
        let v = copy_range(ciphertext, HEADER_LEN, v_end);
        Ok(ABEImpl::decrypt(key_components.as_slice(), &c0, v.as_slice(), c_attrs.as_slice()))
    }
}

} // verus!

//! Identity-based encryption on bytes: keys and ciphertexts in their wire
//! form.
//!
//! A master secret is 32 bytes, public parameters are 65 bytes, a private
//! key is 130 bytes, and a ciphertext is the 65 bytes of its first
//! component followed by the masked message.

use crate::bytes::be_nat;
use crate::bytes::copy_range;
use crate::bytes::keystream_xor;
use crate::bytes::lemma_keystream_involution;
use crate::bytes::key_byte;
use crate::bytes::lemma_keystream_of_two_keys;
use crate::curve::group_order;
use crate::curve::G1_LEN;
use crate::curve::SCALAR_LEN;
use crate::error::CryptoError;
use crate::group::g1_decoding;
use crate::group::is_g1_encoding;
use crate::group::is_g2_encoding;
use crate::group::g2_decoding;
use crate::group::lemma_g2_encoding_decodes;
use crate::group::scalar_decoding;
use crate::group::G1Point;
use crate::group::G2Point;
use crate::group::G2_LEN;
use crate::group::Scalar;
use crate::ibe_impl::decryption_key;
use crate::ibe_impl::encryption_key;
use crate::ibe_impl::ibe_decryption;
use crate::ibe_impl::ibe_encryption;
use crate::ibe_impl::pairing_agrees;
use crate::ibe_impl::private_key_of;
use crate::ibe_impl::public_params_of;
use crate::ibe_impl::IBEImpl;
use vstd::prelude::*;
use vstd::string::StringSliceAdditionalSpecFns;

verus! {

/// What extracting the private key of `identity` from the master secret
/// bytes gives.
pub open spec fn ibe_extraction(secret: Seq<u8>, identity: Seq<u8>) -> Result<
    Seq<u8>,
    CryptoError,
> {
    match scalar_decoding(secret) {
        Ok(s) => Ok(private_key_of(s, identity)),
        Err(e) => Err(e),
    }
}

/// The ciphertext of `message` for `identity` under the public parameter
/// bytes `params`, made with the ephemeral scalar `r`.
pub open spec fn ibe_ciphertext(
    params: Seq<u8>,
    identity: Seq<u8>,
    message: Seq<u8>,
    r: nat,
) -> Result<Seq<u8>, CryptoError> {
    match g1_decoding(params) {
        Ok(p_pub) => {
            let ct = ibe_encryption(p_pub, identity, message, r);
            Ok(ct.0 + ct.1)
        },
        Err(e) => Err(e),
    }
}

/// Whether `ct` is laid out as the ciphertext of `message` for `identity`
/// under the public parameters `p_pub`, made with the ephemeral scalar
/// `r`: its first 65 bytes are the encoding of `r` times the generator of
/// G1, and the bytes behind them are the message under the keystream of
/// the encryption key, byte for byte.
pub open spec fn ibe_laid_out(
    ct: Seq<u8>,
    p_pub: Seq<u8>,
    identity: Seq<u8>,
    message: Seq<u8>,
    r: nat,
) -> bool {
    &&& ct.len() == G1_LEN + message.len()
    &&& is_g1_encoding(ct.subrange(0, G1_LEN as int))
    &&& ct.subrange(0, G1_LEN as int) == public_params_of(r)
    &&& ct.subrange(G1_LEN as int, ct.len() as int) == keystream_xor(
        message,
        encryption_key(p_pub, identity, r),
    )
}

/// What decrypting `ciphertext` with the private key bytes `key` gives.
/// Both lengths are checked before either part is decoded: the first
/// component from the first 65 bytes of the ciphertext, the key from the
/// first 129 of its 130 bytes.
pub open spec fn ibe_plaintext(key: Seq<u8>, ciphertext: Seq<u8>) -> Result<Seq<u8>, CryptoError> {
    if ciphertext.len() < G1_LEN || key.len() < G2_LEN {
        Err(CryptoError::InvalidLength)
    } else {
        match (g1_decoding(ciphertext), g2_decoding(key)) {
            (Ok(u), Ok(d_id)) => Ok(
                ibe_decryption(d_id, u, ciphertext.subrange(G1_LEN as int, ciphertext.len() as int)),
            ),
            _ => Err(CryptoError::DecodeError),
        }
    }
}

/// Decryption gives the message back, wherever the pairing agrees on the
/// two sides.
///
/// Take a master secret of 32 bytes, an identity, a message and an
/// ephemeral scalar `r`. Let the public parameters, the private key of the
/// identity and the first component of the ciphertext be encodings of
/// points, as all those are that this library computes. Suppose that the
/// pairing agrees on the two sides, in the sense of [`pairing_agrees`]: it
/// does where the pairing is bilinear, which is a matter of the pairing
/// library and is assumed here, not proved. Then the ciphertext of the
/// message under those parameters decrypts, with that private key, to the
/// message.
pub proof fn lemma_round_trip_where_pairing_agrees(
    secret: Seq<u8>,
    identity: Seq<u8>,
    message: Seq<u8>,
    r: nat,
)
    requires
        secret.len() == SCALAR_LEN,
        is_g1_encoding(public_params_of(be_nat(secret) % group_order())),
        is_g2_encoding(private_key_of(be_nat(secret) % group_order(), identity)),
        is_g1_encoding(public_params_of(r)),
        pairing_agrees(be_nat(secret) % group_order(), identity, r),
    ensures
        ibe_extraction(secret, identity) is Ok,
        ibe_ciphertext(
            public_params_of(be_nat(secret) % group_order()),
            identity,
            message,
            r,
        ) is Ok,
        ibe_plaintext(
            ibe_extraction(secret, identity)->Ok_0,
            ibe_ciphertext(
                public_params_of(be_nat(secret) % group_order()),
                identity,
                message,
                r,
            )->Ok_0,
        ) == Ok::<Seq<u8>, CryptoError>(message),
{
    let s = be_nat(secret) % group_order();
    let params = public_params_of(s);
    let key = private_key_of(s, identity);
    let u = public_params_of(r);
    let v = keystream_xor(message, encryption_key(params, identity, r));
    let ct = u + v;
    assert(params.subrange(0, G1_LEN as int) =~= params);
    lemma_g2_encoding_decodes(key);
    assert(ct.subrange(0, G1_LEN as int) =~= u);
    assert(ct.subrange(G1_LEN as int, ct.len() as int) =~= v);
    assert(ibe_ciphertext(params, identity, message, r) == Ok::<Seq<u8>, CryptoError>(ct));
    assert(decryption_key(key, u) == encryption_key(params, identity, r));
    lemma_keystream_involution(message, encryption_key(params, identity, r));
}

/// What any key reads from a ciphertext: the message under two masks, that
/// of the sender and that of the key. It is the message exactly if the two
/// masks agree in every byte that masks some byte of the message.
///
/// Take a private key that decodes as a point, public parameters that
/// decode as a point, an identity, a message and an ephemeral scalar `r`
/// for which the first component is the encoding of a point. The key may
/// be that of any identity under any master secret.
pub proof fn lemma_what_a_key_reads(
    key: Seq<u8>,
    params: Seq<u8>,
    identity: Seq<u8>,
    message: Seq<u8>,
    r: nat,
)
    requires
        g2_decoding(key) is Ok,
        g1_decoding(params) is Ok,
        is_g1_encoding(public_params_of(r)),
    ensures
        ibe_ciphertext(params, identity, message, r) is Ok,
        ibe_plaintext(key, ibe_ciphertext(params, identity, message, r)->Ok_0) == Ok::<
            Seq<u8>,
            CryptoError,
        >(
            keystream_xor(
                keystream_xor(
                    message,
                    encryption_key(g1_decoding(params)->Ok_0, identity, r),
                ),
                decryption_key(g2_decoding(key)->Ok_0, public_params_of(r)),
            ),
        ),
        ibe_plaintext(key, ibe_ciphertext(params, identity, message, r)->Ok_0) == Ok::<
            Seq<u8>,
            CryptoError,
        >(message) <==> forall|i: int|
            0 <= i < message.len() ==> #[trigger] key_byte(
                encryption_key(g1_decoding(params)->Ok_0, identity, r),
                i,
            ) == key_byte(decryption_key(g2_decoding(key)->Ok_0, public_params_of(r)), i),
{
    let sent = encryption_key(g1_decoding(params)->Ok_0, identity, r);
    let held = decryption_key(g2_decoding(key)->Ok_0, public_params_of(r));
    let u = public_params_of(r);
    let v = keystream_xor(message, sent);
    let ct = u + v;
    assert(ct.subrange(0, G1_LEN as int) =~= u);
    assert(ct.subrange(G1_LEN as int, ct.len() as int) =~= v);
    lemma_keystream_of_two_keys(message, sent, held);
}

/// A key for another identity is no error: a ciphertext whose first 65
/// bytes encode a point decrypts under every private key that decodes as a
/// point, whatever identity either was made for, to a message as long as
/// the masked one.
pub proof fn lemma_any_key_decrypts(key: Seq<u8>, ciphertext: Seq<u8>)
    requires
        g2_decoding(key) is Ok,
        ciphertext.len() >= G1_LEN,
        is_g1_encoding(ciphertext.subrange(0, G1_LEN as int)),
    ensures
        ibe_plaintext(key, ciphertext) is Ok,
        ibe_plaintext(key, ciphertext)->Ok_0.len() == ciphertext.len() - G1_LEN,
{
}

/// The bytes of a master secret.
pub struct IBEMasterKey {
    secret: Vec<u8>,
}

impl View for IBEMasterKey {
    type V = Seq<u8>;

    closed spec fn view(&self) -> Seq<u8> {
        self.secret@
    }
}

impl IBEMasterKey {
    /// A master key without bytes, which no operation accepts.
    pub fn new() -> (key: IBEMasterKey)
        ensures
            key@ == Seq::<u8>::empty(),
    {
        IBEMasterKey { secret: Vec::new() }
    }

    /// A master key that holds the given bytes.
    pub fn from_bytes(secret: Vec<u8>) -> (key: IBEMasterKey)
        ensures
            key@ == secret@,
    {
        IBEMasterKey { secret }
    }

    /// A copy of the bytes.
    pub fn secret(&self) -> (out: Vec<u8>)
        ensures
            out@ == self@,
    {
        copy_range(self.secret.as_slice(), 0, self.secret.len())
    }
}

/// The bytes of public parameters.
pub struct IBEPublicParams {
    params: Vec<u8>,
}

impl View for IBEPublicParams {
    type V = Seq<u8>;

    closed spec fn view(&self) -> Seq<u8> {
        self.params@
    }
}

impl IBEPublicParams {
    /// Public parameters without bytes, which no operation accepts.
    pub fn new() -> (params: IBEPublicParams)
        ensures
            params@ == Seq::<u8>::empty(),
    {
        IBEPublicParams { params: Vec::new() }
    }

    /// Public parameters that hold the given bytes.
    pub fn from_bytes(params: Vec<u8>) -> (out: IBEPublicParams)
        ensures
            out@ == params@,
    {
        IBEPublicParams { params }
    }

    /// A copy of the bytes.
    pub fn params(&self) -> (out: Vec<u8>)
        ensures
            out@ == self@,
    {
        copy_range(self.params.as_slice(), 0, self.params.len())
    }
}

/// The bytes of a private key.
pub struct IBEPrivateKey {
    key: Vec<u8>,
}

impl View for IBEPrivateKey {
    type V = Seq<u8>;

    closed spec fn view(&self) -> Seq<u8> {
        self.key@
    }
}

impl IBEPrivateKey {
    /// A private key without bytes, which no operation accepts.
    pub fn new() -> (key: IBEPrivateKey)
        ensures
            key@ == Seq::<u8>::empty(),
    {
        IBEPrivateKey { key: Vec::new() }
    }

    /// A private key that holds the given bytes.
    pub fn from_bytes(key: Vec<u8>) -> (out: IBEPrivateKey)
        ensures
            out@ == key@,
    {
        IBEPrivateKey { key }
    }

    /// A copy of the bytes.
    pub fn key(&self) -> (out: Vec<u8>)
        ensures
            out@ == self@,
    {
        copy_range(self.key.as_slice(), 0, self.key.len())
    }
}

/// The scheme on bytes: Setup, Extract, Encrypt and Decrypt.
pub struct IBE {}

impl IBE {
    /// The scheme. It holds no state.
    pub fn new() -> IBE {
        IBE {  }
    }

    /// The master key pair that belongs to the secret `s`: its 32 bytes and
    /// the 65 bytes of its public parameters, which are the encoding of a
    /// point.
    pub fn setup_with(&self, s: Scalar) -> (pair: (IBEMasterKey, IBEPublicParams))
        ensures
            pair.0@ == s@,
            pair.0@.len() == SCALAR_LEN,
            pair.1@ == public_params_of(s.value()),
            pair.1@.len() == G1_LEN,
            is_g1_encoding(pair.1@),
    {
        proof {
            use_type_invariant(&s);
        }
        let (s, p_pub) = IBEImpl::setup_with(s);
        proof {
            use_type_invariant(&p_pub);
        }
        (IBEMasterKey { secret: s.to_bytes() }, IBEPublicParams { params: p_pub.to_bytes() })
    }

    /// Draws a master secret and computes its public parameters, which are
    /// the encoding of a point. The only failure is `EntropyUnavailable`.
    pub fn setup(&self) -> (r: Result<(IBEMasterKey, IBEPublicParams), CryptoError>)
        ensures
            r matches Ok(pair) ==> {
                &&& pair.0@.len() == SCALAR_LEN
                &&& be_nat(pair.0@) < group_order()
                &&& pair.1@.len() == G1_LEN
                &&& pair.1@ == public_params_of(be_nat(pair.0@))
                &&& is_g1_encoding(pair.1@)
            },
            r matches Err(e) ==> e == CryptoError::EntropyUnavailable,
    {
        match IBEImpl::random_big() {
            Ok(s) => {
                proof {
                    use_type_invariant(&s);
                }
                Ok(self.setup_with(s))
            },
            Err(e) => Err(e),
        }
    }

    /// Extracts the private key of `identity`, which is the encoding of a
    /// point. Fails with `InvalidLength` exactly if the master key is not
    /// 32 bytes long.
    pub fn extract(&self, master_key: &IBEMasterKey, identity: &str) -> (r: Result<
        IBEPrivateKey,
        CryptoError,
    >)
        ensures
            match r {
                Ok(key) => key@.len() == G2_LEN && is_g2_encoding(key@) && ibe_extraction(
                    master_key@,
                    identity.spec_bytes(),
                ) == Ok::<Seq<u8>, CryptoError>(key@),
                Err(e) => ibe_extraction(master_key@, identity.spec_bytes()) == Err::<
                    Seq<u8>,
                    CryptoError,
                >(e),
            },
    {
        let s = match Scalar::from_bytes(master_key.secret.as_slice()) {
            Ok(s) => s,
            Err(e) => { return Err(e); },
        };
        let d_id = IBEImpl::extract(&s, identity);
        proof {
            use_type_invariant(&d_id);
        }
        Ok(IBEPrivateKey { key: d_id.to_bytes() })
    }

    /// Encrypts `message` to `identity` with the ephemeral scalar `r`.
    /// Fails with `InvalidLength` exactly if the public parameters are
    /// shorter than 65 bytes, and with `DecodeError` exactly if their
    /// first 65 bytes are not the encoding of a point. The ciphertext is
    /// its first component, the encoding of a point, and behind it the
    /// masked message.
    pub fn encrypt_with(
        &self,
        public_params: &IBEPublicParams,
        identity: &str,
        message: &[u8],
        r: &Scalar,
    ) -> (out: Result<Vec<u8>, CryptoError>)
        ensures
            match out {
                Ok(ct) => ibe_ciphertext(
                    public_params@,
                    identity.spec_bytes(),
                    message@,
                    r.value(),
                ) == Ok::<Seq<u8>, CryptoError>(ct@) && ibe_laid_out(
                    ct@,
                    g1_decoding(public_params@)->Ok_0,
                    identity.spec_bytes(),
                    message@,
                    r.value(),
                ),
                Err(e) => ibe_ciphertext(
                    public_params@,
                    identity.spec_bytes(),
                    message@,
                    r.value(),
                ) == Err::<Seq<u8>, CryptoError>(e),
            },
    {
        let p_pub = match G1Point::from_bytes(public_params.params.as_slice()) {
            Ok(p) => p,
            Err(e) => { return Err(e); },
        };
        let (u, v) = IBEImpl::encrypt_with(&p_pub, identity, message, r);
        proof {
            use_type_invariant(&u);
        }
        let mut ciphertext = u.to_bytes();
        ciphertext.extend_from_slice(v.as_slice());
        assert(ciphertext@ =~= u@ + v@);
        assert(ciphertext@.subrange(0, G1_LEN as int) =~= u@);
        assert(ciphertext@.subrange(G1_LEN as int, ciphertext@.len() as int) =~= v@);
        Ok(ciphertext)
    }

    /// Encrypts `message` to `identity` with a fresh ephemeral scalar.
    /// Invalid public parameters are refused as by [`IBE::encrypt_with`],
    /// before any entropy is drawn; otherwise the only failure is
    /// `EntropyUnavailable`.
    pub fn encrypt(&self, public_params: &IBEPublicParams, identity: &str, message: &[u8]) -> (out:
        Result<Vec<u8>, CryptoError>)
        ensures
            g1_decoding(public_params@) matches Err(e) ==> out == Err::<Vec<u8>, CryptoError>(e),
            g1_decoding(public_params@) is Ok ==> match out {
                Ok(ct) => ct@.len() == G1_LEN + message@.len() && is_g1_encoding(
                    ct@.subrange(0, G1_LEN as int),
                ) && exists|k: nat|
                    k < group_order() && #[trigger] ibe_ciphertext(
                        public_params@,
                        identity.spec_bytes(),
                        message@,
                        k,
                    ) == Ok::<Seq<u8>, CryptoError>(ct@) && ibe_laid_out(
                        ct@,
                        g1_decoding(public_params@)->Ok_0,
                        identity.spec_bytes(),
                        message@,
                        k,
                    ),
                Err(e) => e == CryptoError::EntropyUnavailable,
            },
    {
        if let Err(e) = G1Point::from_bytes(public_params.params.as_slice()) {
            return Err(e);
        }
        match IBEImpl::random_big() {
            Ok(k) => {
                let out = self.encrypt_with(public_params, identity, message, &k);
                assert(out is Ok);
                assert(ibe_ciphertext(
                    public_params@,
                    identity.spec_bytes(),
                    message@,
                    k.value(),
                ) == Ok::<Seq<u8>, CryptoError>(out->Ok_0@));
                out
            },
            Err(e) => Err(e),
        }
    }

    /// Decrypts `ciphertext` with `private_key`. Fails with
    /// `InvalidLength` exactly if the ciphertext is shorter than 65 bytes
    /// or the key shorter than 130, and otherwise with `DecodeError`
    /// exactly if the first 65 bytes of the ciphertext or the first 129 of
    /// the key are not bytes that the pairing library reads as a point and
    /// writes back unchanged.
    pub fn decrypt(&self, private_key: &IBEPrivateKey, ciphertext: &[u8]) -> (out: Result<
        Vec<u8>,
        CryptoError,
    >)
        ensures
            match out {
                Ok(message) => ibe_plaintext(private_key@, ciphertext@) == Ok::<
                    Seq<u8>,
                    CryptoError,
                >(message@),
                Err(e) => ibe_plaintext(private_key@, ciphertext@) == Err::<Seq<u8>, CryptoError>(e),
            },
    {
        if ciphertext.len() < G1_LEN || private_key.key.len() < G2_LEN {
            return Err(CryptoError::InvalidLength);
        }
        let u = match G1Point::from_bytes(ciphertext) {
            Ok(u) => u,
            Err(_) => { return Err(CryptoError::DecodeError); },
        };
        let d_id = match G2Point::from_bytes(private_key.key.as_slice()) {
            Ok(d) => d,
            Err(_) => { return Err(CryptoError::DecodeError); },
        };
        let v = copy_range(ciphertext, G1_LEN, ciphertext.len());
        Ok(IBEImpl::decrypt(&d_id, &u, v.as_slice()))
    }
}

} // verus!

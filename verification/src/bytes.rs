//! Byte strings as numbers, and the keystream mask.

use vstd::prelude::*;

verus! {

/// Length of a derived key, and so the period of the keystream.
pub const KEY_LEN: usize = 32;

/// The natural number that `bytes` spell in big-endian order.
pub open spec fn be_nat(bytes: Seq<u8>) -> nat
    decreases bytes.len(),
{
    if bytes.len() == 0 {
        0
    } else {
        256 * be_nat(bytes.drop_last()) + bytes.last() as nat
    }
}

/// Two byte strings of one length that spell the same number are equal.
pub proof fn lemma_be_nat_injective(a: Seq<u8>, b: Seq<u8>)
    requires
        a.len() == b.len(),
        be_nat(a) == be_nat(b),
    ensures
        a == b,
    decreases a.len(),
{
    if a.len() > 0 {
        let x = be_nat(a.drop_last());
        let y = be_nat(b.drop_last());
        assert(256 * x + a.last() as nat == 256 * y + b.last() as nat);
        assert(x == y && a.last() == b.last());
        lemma_be_nat_injective(a.drop_last(), b.drop_last());
        assert(a =~= a.drop_last().push(a.last()));
        assert(b =~= b.drop_last().push(b.last()));
    } else {
        assert(a =~= b);
    }
}

/// `data` masked with the repeating 32-byte `key`: byte `i` is combined by
/// exclusive or with key byte `i mod 32`.
pub open spec fn keystream_xor(data: Seq<u8>, key: Seq<u8>) -> Seq<u8> {
    Seq::new(data.len(), |i: int| data[i] ^ key[i % (KEY_LEN as int)])
}

/// Masks `data` with the repeating key.
pub fn apply_keystream(data: &[u8], key: &[u8; 32]) -> (out: Vec<u8>)
    ensures
        out@ == keystream_xor(data@, key@),
{
    let n: usize = data.len();
    let mut out: Vec<u8> = Vec::with_capacity(n);
    let mut i: usize = 0;
    while i < n
        invariant
            n == data@.len(),
            i <= n,
            out@.len() == i,
            forall|j: int| 0 <= j < i ==> out@[j] == data@[j] ^ key@[j % (KEY_LEN as int)],
        decreases n - i,
    {
        out.push(data[i] ^ key[i % KEY_LEN]);
        i = i + 1;
    }
    assert(out@ =~= keystream_xor(data@, key@));
    out
}

/// Masking twice with one key gives the data back.
pub proof fn lemma_keystream_involution(data: Seq<u8>, key: Seq<u8>)
    ensures
        keystream_xor(keystream_xor(data, key), key) == data,
{
    let once = keystream_xor(data, key);
    let twice = keystream_xor(once, key);
    assert forall|i: int| 0 <= i < data.len() implies twice[i] == data[i] by {
        let d: u8 = data[i];
        let k: u8 = key[i % (KEY_LEN as int)];
        assert((d ^ k) ^ k == d) by (bit_vector);
    }
    assert(twice =~= data);
}

/// The byte of the repeating 32-byte `key` that masks byte `i` of the data.
pub open spec fn key_byte(key: Seq<u8>, i: int) -> u8 {
    key[i % (KEY_LEN as int)]
}

/// Masking with one key and then with another gives the data back exactly
/// if the two keys agree in every byte that masks some byte of the data.
pub proof fn lemma_keystream_of_two_keys(data: Seq<u8>, first: Seq<u8>, second: Seq<u8>)
    ensures
        keystream_xor(keystream_xor(data, first), second) == data <==> forall|i: int|
            0 <= i < data.len() ==> #[trigger] key_byte(first, i) == key_byte(second, i),
{
    let once = keystream_xor(data, first);
    let twice = keystream_xor(once, second);
    if forall|i: int| 0 <= i < data.len() ==> #[trigger] key_byte(first, i) == key_byte(second, i) {
        assert forall|i: int| 0 <= i < data.len() implies twice[i] == data[i] by {
            let d: u8 = data[i];
            let a: u8 = key_byte(first, i);
            let b: u8 = key_byte(second, i);
            assert(once[i] == d ^ a);
            assert(twice[i] == (d ^ a) ^ b);
            assert(a == b ==> (d ^ a) ^ b == d) by (bit_vector);
        }
        assert(twice =~= data);
    }
    if twice == data {
        assert forall|i: int| 0 <= i < data.len() implies #[trigger] key_byte(first, i)
            == key_byte(second, i) by {
            let d: u8 = data[i];
            let a: u8 = key_byte(first, i);
            let b: u8 = key_byte(second, i);
            assert(once[i] == d ^ a);
            assert(twice[i] == (d ^ a) ^ b);
            assert((d ^ a) ^ b == d ==> a == b) by (bit_vector);
        }
    }
}

/// Whether two byte strings are equal.
pub fn bytes_equal(a: &[u8], b: &[u8]) -> (same: bool)
    ensures
        same == (a@ == b@),
{
    if a.len() != b.len() {
        return false;
    }
    let n: usize = a.len();
    let mut i: usize = 0;
    while i < n
        invariant
            n == a@.len(),
            n == b@.len(),
            i <= n,
            forall|j: int| 0 <= j < i ==> a@[j] == b@[j],
        decreases n - i,
    {
        if a[i] != b[i] {
            return false;
        }
        i = i + 1;
    }
    assert(a@ =~= b@);
    true
}

/// A copy of the bytes of `src` from `from` up to, not including, `to`.
pub fn copy_range(src: &[u8], from: usize, to: usize) -> (out: Vec<u8>)
    requires
        from <= to <= src@.len(),
    ensures
        out@ == src@.subrange(from as int, to as int),
{
    let mut out: Vec<u8> = Vec::with_capacity(to - from);
    let mut i: usize = from;
    while i < to
        invariant
            from <= i <= to,
            to <= src@.len(),
            out@ == src@.subrange(from as int, i as int),
        decreases to - i,
    {
        out.push(src[i]);
        assert(src@.subrange(from as int, i as int).push(src@[i as int]) =~= src@.subrange(
            from as int,
            i + 1,
        ));
        i = i + 1;
    }
    out
}

} // verus!

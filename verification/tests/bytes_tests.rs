use pairing_ibe::bytes::apply_keystream;
use pairing_ibe::bytes::bytes_equal;
use pairing_ibe::bytes::copy_range;
use pairing_ibe::bytes::KEY_LEN;

fn counting_key() -> [u8; 32] {
    let mut key = [0u8; 32];
    for i in 0..32 {
        key[i] = (i as u8) + 1;
    }
    key
}

#[test]
fn keystream_of_nothing_is_nothing() {
    assert_eq!(apply_keystream(&[], &counting_key()), Vec::<u8>::new());
}

#[test]
fn keystream_xors_byte_by_byte() {
    let key = counting_key();
    let out = apply_keystream(&[0x68, 0x65, 0x6c, 0x6c, 0x6f], &key);
    assert_eq!(out, vec![0x68 ^ 1, 0x65 ^ 2, 0x6c ^ 3, 0x6c ^ 4, 0x6f ^ 5]);
    assert_eq!(out, vec![0x69, 0x67, 0x6f, 0x68, 0x6a]);
}

#[test]
fn keystream_of_zeros_is_the_key_repeated() {
    let key = counting_key();
    let out = apply_keystream(&[0u8; 70], &key);
    assert_eq!(out.len(), 70);
    for i in 0..70 {
        assert_eq!(out[i], key[i % 32]);
    }
    assert_eq!(out[31], 32);
    assert_eq!(out[32], 1);
    assert_eq!(out[64], 1);
    assert_eq!(out[69], 6);
}

#[test]
fn keystream_twice_gives_the_data_back() {
    let key = counting_key();
    let mut data = Vec::new();
    for i in 0..100u32 {
        data.push((i * 7 + 3) as u8);
    }
    let once = apply_keystream(&data, &key);
    assert_ne!(once, data);
    let twice = apply_keystream(&once, &key);
    assert_eq!(twice, data);
}

#[test]
fn add_gives_the_sum() {
    assert_eq!(pairing_ibe::add(2, 3), 5);
    assert_eq!(pairing_ibe::add(0, 0), 0);
    assert_eq!(pairing_ibe::add(u32::MAX - 1, 1), u32::MAX);
}

#[test]
fn key_length_is_thirty_two() {
    assert_eq!(KEY_LEN, 32);
}

#[test]
fn bytes_equal_compares_length_and_content() {
    assert!(bytes_equal(&[], &[]));
    assert!(bytes_equal(&[1, 2, 3], &[1, 2, 3]));
    assert!(!bytes_equal(&[1, 2, 3], &[1, 2, 4]));
    assert!(!bytes_equal(&[1, 2, 3], &[1, 2]));
    assert!(!bytes_equal(&[], &[0]));
    assert!(!bytes_equal(&[9, 2, 3], &[1, 2, 3]));
}

#[test]
fn copy_range_takes_the_bytes_between() {
    let src = [10u8, 11, 12, 13, 14];
    assert_eq!(copy_range(&src, 0, 5), vec![10, 11, 12, 13, 14]);
    assert_eq!(copy_range(&src, 1, 4), vec![11, 12, 13]);
    assert_eq!(copy_range(&src, 2, 2), Vec::<u8>::new());
    assert_eq!(copy_range(&src, 5, 5), Vec::<u8>::new());
    assert_eq!(copy_range(&src, 4, 5), vec![14]);
}

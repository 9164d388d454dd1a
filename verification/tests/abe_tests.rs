use pairing_ibe::abe::ABEMasterKey;
use pairing_ibe::abe::ABEPrivateKey;
use pairing_ibe::abe::ABEPublicParams;
use pairing_ibe::abe::ABE;
use pairing_ibe::abe::HEADER_LEN;
use pairing_ibe::abe::MAX_ATTRIBUTES;
use pairing_ibe::abe_impl::ABEImpl;
use pairing_ibe::abe_impl::KPABEImpl;
use pairing_ibe::bytes::apply_keystream;
use pairing_ibe::error::CryptoError;
use pairing_ibe::group::hash_to_group;
use pairing_ibe::group::pairing;
use pairing_ibe::group::G1Point;
use pairing_ibe::group::G2Point;
use pairing_ibe::group::Scalar;
use pairing_ibe::policy::is_space;
use pairing_ibe::policy::parse_policy;

fn abe_scalar(n: u8) -> Scalar {
    let mut bytes = [0u8; 32];
    bytes[29] = 0x02;
    bytes[31] = n;
    Scalar::from_bytes(&bytes).expect("32 bytes")
}

fn strings(items: &[&str]) -> Vec<String> {
    items.iter().map(|s| s.to_string()).collect()
}

fn abe_order_bytes() -> Vec<u8> {
    vec![
        0x25, 0x23, 0x64, 0x82, 0x40, 0x00, 0x00, 0x01, 0xba, 0x34, 0x4d, 0x80, 0x00, 0x00, 0x00,
        0x07, 0xff, 0x9f, 0x80, 0x00, 0x00, 0x00, 0x00, 0x10, 0xa1, 0x00, 0x00, 0x00, 0x00, 0x00,
        0x00, 0x0d,
    ]
}

#[test]
fn policy_is_split_at_commas_and_trimmed() {
    assert_eq!(parse_policy("admin"), strings(&["admin"]));
    assert_eq!(parse_policy("admin,finance"), strings(&["admin", "finance"]));
    assert_eq!(parse_policy("  admin , finance\t,\n hr  "), strings(&["admin", "finance", "hr"]));
    assert_eq!(parse_policy("a b, c"), strings(&["a b", "c"]));
    assert_eq!(parse_policy("a,a"), strings(&["a", "a"]));
    assert_eq!(parse_policy("\u{3000}部門\u{a0},x"), strings(&["部門", "x"]));
}

#[test]
fn white_space_is_what_the_standard_library_tells() {
    let mut count = 0;
    for n in 0..=0x10ffffu32 {
        if let Some(c) = char::from_u32(n) {
            assert_eq!(is_space(c), c.is_whitespace());
            if is_space(c) {
                count += 1;
            }
        }
    }
    assert_eq!(count, 25);
    assert!(is_space(' '));
    assert!(is_space('\t'));
    assert!(is_space('\u{b}'));
    assert!(is_space('\u{a0}'));
    assert!(is_space('\u{3000}'));
    assert!(!is_space('a'));
    assert!(!is_space(','));
    assert!(!is_space('\u{200b}'));
    assert!(!is_space('\u{1c}'));
}

#[test]
fn policy_with_gaps_names_three_attributes() {
    assert_eq!(parse_policy("a, b,,c "), strings(&["a", "b", "c"]));
    let abe = ABE::new();
    let (master_key, public_params) = abe.setup().expect("setup");
    let ciphertext = abe
        .encrypt(&public_params, "a, b,,c ", &[0x68, 0x65, 0x6c, 0x6c, 0x6f])
        .expect("encrypt");
    assert_eq!(ciphertext[0], 3);
    assert_eq!(ciphertext.len(), 461);
    let key = abe.key_gen(&master_key, strings(&["a", "x", "y"])).expect("key_gen");
    assert_eq!(abe.decrypt(&key, &ciphertext).expect("decrypt"), b"hello".to_vec());
}

#[test]
fn policy_entries_that_are_empty_name_nothing() {
    assert_eq!(parse_policy(""), Vec::<String>::new());
    assert_eq!(parse_policy("   "), Vec::<String>::new());
    assert_eq!(parse_policy(","), Vec::<String>::new());
    assert_eq!(parse_policy(" , ,, "), Vec::<String>::new());
    assert_eq!(parse_policy(",a,,b,"), strings(&["a", "b"]));
    assert_eq!(parse_policy("a, ,b"), strings(&["a", "b"]));
}

#[test]
fn policy_attributes_are_names() {
    for policy in ["a", " a ,b\u{2003}, , c d ,,", "x,\ty\n", ",,,", "\u{a0}é , ü"] {
        for name in parse_policy(policy) {
            assert!(!name.is_empty());
            assert_eq!(name.trim(), name);
            assert!(!name.contains(','));
        }
    }
    assert_eq!(parse_policy(" a ,b\u{2003}, , c d ,,").len(), 3);
    assert_eq!(parse_policy("\u{a0}é , ü"), strings(&["é", "ü"]));
}

#[test]
fn abe_round_trip_on_bytes() {
    let abe = ABE::new();
    let (master_key, public_params) = abe.setup().expect("setup");
    assert_eq!(master_key.secret().len(), 32);
    assert!(master_key.secret() < abe_order_bytes());
    assert_eq!(public_params.params().len(), 65);
    let key = abe.key_gen(&master_key, strings(&["admin", "finance"])).expect("key_gen");
    assert_eq!(key.key().len(), 260);
    assert_eq!(key.attributes(), strings(&["admin", "finance"]));
    let ciphertext = abe.encrypt(&public_params, "admin, finance", b"hello").expect("encrypt");
    assert_eq!(ciphertext.len(), 1 + 65 + 5 + 2 * 130);
    assert_eq!(ciphertext[0], 2);
    assert_eq!(abe.decrypt(&key, &ciphertext).expect("decrypt"), b"hello".to_vec());
}

#[test]
fn abe_round_trip_for_several_lengths() {
    let abe = ABE::new();
    let (master_key, public_params) = abe.setup_with(abe_scalar(1));
    let key = abe.key_gen(&master_key, strings(&["a"])).expect("key_gen");
    for len in [0usize, 1, 2, 32, 33, 65, 130, 131] {
        let mut message = Vec::new();
        for i in 0..len {
            message.push((i * 11 + 1) as u8);
        }
        let ciphertext =
            abe.encrypt_with(&public_params, "a", &message, &abe_scalar(2)).expect("encrypt");
        assert_eq!(ciphertext.len(), 66 + len + 130);
        assert_eq!(abe.decrypt(&key, &ciphertext).expect("decrypt"), message);
    }
}

#[test]
fn only_the_first_attribute_masks_the_message() {
    let abe = ABE::new();
    let (master_key, public_params) = abe.setup_with(abe_scalar(3));
    let ciphertext =
        abe.encrypt_with(&public_params, "admin,finance", b"hello", &abe_scalar(4)).expect("encrypt");
    let same_first = abe.key_gen(&master_key, strings(&["admin", "other"])).expect("key_gen");
    assert_eq!(abe.decrypt(&same_first, &ciphertext).expect("decrypt"), b"hello".to_vec());
    let other_first = abe.key_gen(&master_key, strings(&["finance", "admin"])).expect("key_gen");
    let read = abe.decrypt(&other_first, &ciphertext).expect("no error");
    assert_eq!(read.len(), 5);
    assert_ne!(read, b"hello".to_vec());
}

#[test]
fn count_mismatch_is_refused() {
    let abe = ABE::new();
    let (master_key, public_params) = abe.setup_with(abe_scalar(5));
    let policies = ["a", "a,b", "a,b,c"];
    let lists = [strings(&[]), strings(&["a"]), strings(&["a", "b"]), strings(&["a", "b", "c"])];
    for (i, policy) in policies.iter().enumerate() {
        let ciphertext =
            abe.encrypt_with(&public_params, policy, b"hello", &abe_scalar(6)).expect("encrypt");
        for (j, list) in lists.iter().enumerate() {
            let key = abe.key_gen(&master_key, list.clone()).expect("key_gen");
            let out = abe.decrypt(&key, &ciphertext);
            if j == i + 1 {
                assert_eq!(out.expect("decrypt"), b"hello".to_vec());
            } else {
                assert_eq!(out.err(), Some(CryptoError::AttributeCountMismatch));
            }
        }
    }
}

#[test]
fn count_mismatch_comes_before_the_size_of_the_components() {
    let abe = ABE::new();
    let key = ABEPrivateKey::from_parts(vec![], strings(&["a", "b"]));
    let mut ciphertext = vec![0u8; 66];
    ciphertext[0] = 3;
    assert_eq!(abe.decrypt(&key, &ciphertext).err(), Some(CryptoError::AttributeCountMismatch));
    ciphertext[0] = 200;
    assert_eq!(abe.decrypt(&key, &ciphertext).err(), Some(CryptoError::AttributeCountMismatch));
    assert_eq!(abe.decrypt(&key, &ciphertext[..65]).err(), Some(CryptoError::InvalidLength));
    assert_eq!(abe.decrypt(&key, &[3u8]).err(), Some(CryptoError::InvalidLength));
    assert_eq!(abe.decrypt(&key, &[]).err(), Some(CryptoError::InvalidLength));
}

#[test]
fn abe_decrypt_checks_the_lengths() {
    let abe = ABE::new();
    let (master_key, public_params) = abe.setup_with(abe_scalar(7));
    let key = abe.key_gen(&master_key, strings(&["a", "b"])).expect("key_gen");
    let ciphertext =
        abe.encrypt_with(&public_params, "a,b", b"xyz", &abe_scalar(8)).expect("encrypt");
    assert_eq!(ciphertext.len(), 66 + 3 + 260);
    assert_eq!(abe.decrypt(&key, &ciphertext[..66 + 259]).err(), Some(CryptoError::InvalidLength));
    assert_eq!(abe.decrypt(&key, &ciphertext[..66 + 260]).err(), Some(CryptoError::DecodeError));
    let short_key = ABEPrivateKey::from_parts(key.key()[..259].to_vec(), key.attributes());
    assert_eq!(abe.decrypt(&short_key, &ciphertext).err(), Some(CryptoError::InvalidLength));
    let long_key = ABEPrivateKey::from_parts(
        [key.key(), vec![1, 2, 3]].concat(),
        key.attributes(),
    );
    assert_eq!(abe.decrypt(&long_key, &ciphertext).expect("decrypt"), b"xyz".to_vec());
}

#[test]
fn abe_empty_message_is_decrypted() {
    let abe = ABE::new();
    let (master_key, public_params) = abe.setup_with(abe_scalar(9));
    for attributes in [strings(&["a"]), strings(&["a", "b", "c"])] {
        let policy = attributes.join(",");
        let key = abe.key_gen(&master_key, attributes.clone()).expect("key_gen");
        let ciphertext =
            abe.encrypt_with(&public_params, &policy, b"", &abe_scalar(10)).expect("encrypt");
        assert_eq!(ciphertext.len(), 66 + 130 * attributes.len());
        assert_eq!(abe.decrypt(&key, &ciphertext).expect("decrypt"), Vec::<u8>::new());
        let fresh = abe.encrypt(&public_params, &policy, b"").expect("encrypt");
        assert_eq!(fresh.len(), 66 + 130 * attributes.len());
        assert_eq!(abe.decrypt(&key, &fresh).expect("decrypt"), Vec::<u8>::new());
        assert_eq!(
            abe.decrypt(&key, &ciphertext[..ciphertext.len() - 1]).err(),
            Some(CryptoError::InvalidLength)
        );
    }
}

#[test]
fn abe_decrypt_refuses_what_is_no_point() {
    let abe = ABE::new();
    let (master_key, public_params) = abe.setup_with(abe_scalar(11));
    let key = abe.key_gen(&master_key, strings(&["a", "b"])).expect("key_gen");
    let ciphertext =
        abe.encrypt_with(&public_params, "a,b", b"xyz", &abe_scalar(12)).expect("encrypt");
    for at in [5usize, 69 + 20, 69 + 128, 69 + 130 + 20, 69 + 258] {
        let mut broken = ciphertext.clone();
        broken[at] ^= 0x01;
        assert_eq!(abe.decrypt(&key, &broken).err(), Some(CryptoError::DecodeError));
    }
    for at in [20usize, 128, 150, 258] {
        let mut bad = key.key();
        bad[at] ^= 0x01;
        let bad_key = ABEPrivateKey::from_parts(bad, key.attributes());
        assert_eq!(abe.decrypt(&bad_key, &ciphertext).err(), Some(CryptoError::DecodeError));
    }
    let mut masked = ciphertext.clone();
    masked[67] ^= 0xff;
    assert_eq!(abe.decrypt(&key, &masked).expect("decrypt"), vec![b'x', b'y' ^ 0xff, b'z']);
}

#[test]
fn abe_decrypt_does_not_read_the_padding() {
    let abe = ABE::new();
    let (master_key, public_params) = abe.setup_with(abe_scalar(26));
    let key = abe.key_gen(&master_key, strings(&["a", "b"])).expect("key_gen");
    let mut ciphertext =
        abe.encrypt_with(&public_params, "a,b", b"xyz", &abe_scalar(27)).expect("encrypt");
    assert_eq!(ciphertext[69 + 129], 0);
    assert_eq!(ciphertext[69 + 259], 0);
    ciphertext[69 + 129] = 0x5a;
    ciphertext[69 + 259] = 0xff;
    let mut bytes = key.key();
    assert_eq!(bytes[129], 0);
    assert_eq!(bytes[259], 0);
    bytes[129] = 0x01;
    bytes[259] = 0x80;
    let padded = ABEPrivateKey::from_parts(bytes, key.attributes());
    assert_eq!(abe.decrypt(&padded, &ciphertext).expect("decrypt"), b"xyz".to_vec());
}

#[test]
fn abe_key_gen_wants_thirty_two_bytes() {
    let abe = ABE::new();
    assert!(matches!(
        abe.key_gen(&ABEMasterKey::new(), strings(&["a"])),
        Err(CryptoError::InvalidLength)
    ));
    assert!(matches!(
        abe.key_gen(&ABEMasterKey::from_bytes(vec![0u8; 33]), strings(&["a"])),
        Err(CryptoError::InvalidLength)
    ));
}

#[test]
fn abe_key_is_one_component_per_attribute() {
    let abe = ABE::new();
    let (master_key, _) = abe.setup_with(abe_scalar(13));
    let key = abe.key_gen(&master_key, strings(&["x", "y", "x"])).expect("key_gen");
    let bytes = key.key();
    assert_eq!(bytes.len(), 390);
    let x = hash_to_group(b"x").mul(&abe_scalar(13)).to_bytes();
    let y = hash_to_group(b"y").mul(&abe_scalar(13)).to_bytes();
    assert_eq!(&bytes[..130], &x[..]);
    assert_eq!(&bytes[130..260], &y[..]);
    assert_eq!(&bytes[260..], &x[..]);
    let none = abe.key_gen(&master_key, strings(&[])).expect("key_gen");
    assert_eq!(none.key(), Vec::<u8>::new());
    assert_eq!(none.attributes(), Vec::<String>::new());
}

#[test]
fn abe_encrypt_checks_its_input_in_order() {
    let abe = ABE::new();
    let (_, public_params) = abe.setup_with(abe_scalar(14));
    let s = abe_scalar(15);
    let short = ABEPublicParams::from_bytes(vec![4u8; 64]);
    assert_eq!(abe.encrypt_with(&short, "", b"m", &s).err(), Some(CryptoError::InvalidLength));
    assert_eq!(abe.encrypt(&short, "a", b"m").err(), Some(CryptoError::InvalidLength));
    assert_eq!(abe.encrypt(&ABEPublicParams::new(), "a", b"m").err(), Some(CryptoError::InvalidLength));
    let garbage = ABEPublicParams::from_bytes(vec![4u8; 65]);
    assert_eq!(abe.encrypt_with(&garbage, " , ", b"m", &s).err(), Some(CryptoError::EmptyPolicy));
    assert_eq!(abe.encrypt(&garbage, "", b"m").err(), Some(CryptoError::EmptyPolicy));
    assert_eq!(abe.encrypt_with(&garbage, "a", b"m", &s).err(), Some(CryptoError::DecodeError));
    assert_eq!(abe.encrypt(&garbage, "a", b"m").err(), Some(CryptoError::DecodeError));
    assert_eq!(abe.encrypt(&public_params, ",", b"m").err(), Some(CryptoError::EmptyPolicy));
    let mut many = String::new();
    for i in 0..256 {
        many.push_str(&format!("attr{},", i));
    }
    assert_eq!(abe.encrypt(&public_params, &many, b"m").err(), Some(CryptoError::TooManyAttributes));
    assert_eq!(abe.encrypt(&garbage, &many, b"m").err(), Some(CryptoError::TooManyAttributes));
    assert_eq!(
        abe.encrypt_with(&public_params, &many, b"m", &s).err(),
        Some(CryptoError::TooManyAttributes)
    );
    assert_eq!(MAX_ATTRIBUTES, 255);
    assert_eq!(HEADER_LEN, 66);
}

#[test]
fn abe_ciphertext_layout() {
    let abe = ABE::new();
    let (_, public_params) = abe.setup_with(abe_scalar(16));
    let s = abe_scalar(17);
    let message = b"forty bytes of message, more than a key!".to_vec();
    let ciphertext =
        abe.encrypt_with(&public_params, " admin ,finance", &message, &s).expect("encrypt");
    assert_eq!(ciphertext.len(), 1 + 65 + 40 + 260);
    assert_eq!(ciphertext[0], 2);
    assert_eq!(&ciphertext[1..66], &G1Point::generator().mul(&s).to_bytes()[..]);
    let p_pub = G1Point::from_bytes(&public_params.params()).expect("point");
    let key = pairing(&hash_to_group(b"admin"), &p_pub).pow(&s).derive_key();
    assert_eq!(&ciphertext[66..106], &apply_keystream(&message, &key)[..]);
    assert_eq!(&ciphertext[106..236], &hash_to_group(b"admin").mul(&s).to_bytes()[..]);
    assert_eq!(&ciphertext[236..], &hash_to_group(b"finance").mul(&s).to_bytes()[..]);
}

#[test]
fn abe_encryption_with_one_scalar_is_repeatable() {
    let abe = ABE::new();
    let (_, public_params) = abe.setup_with(abe_scalar(18));
    let one = abe.encrypt_with(&public_params, "a", b"same", &abe_scalar(19)).expect("encrypt");
    let two = abe.encrypt_with(&public_params, "a", b"same", &abe_scalar(19)).expect("encrypt");
    assert_eq!(one, two);
    let fresh_one = abe.encrypt(&public_params, "a", b"same").expect("encrypt");
    let fresh_two = abe.encrypt(&public_params, "a", b"same").expect("encrypt");
    assert_ne!(fresh_one, fresh_two);
}

#[test]
fn abe_setup_with_computes_the_public_parameters() {
    let abe = ABE::new();
    let (master_key, public_params) = abe.setup_with(abe_scalar(20));
    assert_eq!(master_key.secret(), abe_scalar(20).to_bytes());
    assert_eq!(public_params.params(), G1Point::generator().mul(&abe_scalar(20)).to_bytes());
    let (alpha, p_pub) = ABEImpl::setup_with(abe_scalar(20));
    assert_eq!(alpha.to_bytes(), master_key.secret());
    assert_eq!(p_pub.to_bytes(), public_params.params());
    let (kp_alpha, kp_pub) = KPABEImpl::setup_with(abe_scalar(20));
    assert_eq!(kp_alpha.to_bytes(), master_key.secret());
    assert_eq!(kp_pub.to_bytes(), public_params.params());
}

#[test]
fn abe_byte_holders_keep_their_bytes() {
    assert_eq!(ABEMasterKey::new().secret(), Vec::<u8>::new());
    assert_eq!(ABEPublicParams::new().params(), Vec::<u8>::new());
    assert_eq!(ABEPrivateKey::new().key(), Vec::<u8>::new());
    assert_eq!(ABEPrivateKey::new().attributes(), Vec::<String>::new());
    assert_eq!(ABEMasterKey::from_bytes(vec![1, 2]).secret(), vec![1, 2]);
    assert_eq!(ABEPublicParams::from_bytes(vec![3]).params(), vec![3]);
    let key = ABEPrivateKey::from_parts(vec![4, 5], strings(&["a", "b"]));
    assert_eq!(key.key(), vec![4, 5]);
    assert_eq!(key.attributes(), strings(&["a", "b"]));
}

#[test]
fn cp_round_trip_on_group_elements() {
    let (alpha, p_pub) = ABEImpl::setup().expect("setup");
    let attributes = strings(&["admin", "finance"]);
    let keys = ABEImpl::key_gen(&alpha, &attributes);
    assert_eq!(keys.len(), 2);
    assert_eq!(keys[0].to_bytes(), hash_to_group(b"admin").mul(&alpha).to_bytes());
    assert_eq!(keys[1].to_bytes(), hash_to_group(b"finance").mul(&alpha).to_bytes());
    let (c0, v, c_attrs) = ABEImpl::encrypt(&p_pub, &attributes, b"hello").expect("encrypt");
    assert_eq!(c_attrs.len(), 2);
    assert_eq!(v.len(), 5);
    assert_ne!(v, b"hello".to_vec());
    assert_eq!(ABEImpl::decrypt(&keys, &c0, &v, &c_attrs), b"hello".to_vec());
}

#[test]
fn kp_round_trip_on_group_elements() {
    let (alpha, p_pub) = KPABEImpl::setup().expect("setup");
    let policy = strings(&["admin", "finance"]);
    let keys = KPABEImpl::key_gen(&alpha, &policy);
    assert_eq!(keys.len(), 2);
    assert_eq!(keys[1].to_bytes(), hash_to_group(b"finance").mul(&alpha).to_bytes());
    let (c0, v, c_attrs) = KPABEImpl::encrypt(&p_pub, &policy, b"hello").expect("encrypt");
    assert_eq!(KPABEImpl::decrypt(&keys, &c0, &v, &c_attrs), b"hello".to_vec());
    assert_eq!(ABEImpl::decrypt(&keys, &c0, &v, &c_attrs), b"hello".to_vec());
}

#[test]
fn cp_and_kp_agree() {
    let alpha = abe_scalar(21);
    let s = abe_scalar(22);
    let attributes = strings(&["x", "y"]);
    let (_, p_pub) = ABEImpl::setup_with(abe_scalar(21));
    let cp = ABEImpl::encrypt_with(&p_pub, &attributes, b"message", &s);
    let kp = KPABEImpl::encrypt_with(&p_pub, &attributes, b"message", &s);
    assert_eq!(cp.0.to_bytes(), kp.0.to_bytes());
    assert_eq!(cp.0.to_bytes(), G1Point::generator().mul(&s).to_bytes());
    assert_eq!(cp.1, kp.1);
    assert_eq!(cp.2.len(), 2);
    assert_eq!(kp.2.len(), 2);
    assert_eq!(cp.2[0].to_bytes(), hash_to_group(b"x").mul(&s).to_bytes());
    assert_eq!(cp.2[1].to_bytes(), kp.2[1].to_bytes());
    assert_eq!(cp.2[1].to_bytes(), hash_to_group(b"y").mul(&s).to_bytes());
    let cp_keys = ABEImpl::key_gen(&alpha, &attributes);
    let kp_keys = KPABEImpl::key_gen(&alpha, &attributes);
    assert_eq!(cp_keys[0].to_bytes(), kp_keys[0].to_bytes());
    assert_eq!(KPABEImpl::decrypt(&cp_keys, &cp.0, &cp.1, &cp.2), b"message".to_vec());
    assert_eq!(KPABEImpl::hash_attribute("x").to_bytes(), ABEImpl::hash_attribute("x").to_bytes());
    assert_eq!(ABEImpl::hash_attribute("x").to_bytes(), hash_to_group(b"x").to_bytes());
    assert_eq!(KPABEImpl::hash_message(b"abc"), ABEImpl::hash_message(b"abc"));
    assert_eq!(ABEImpl::hash_message(b"abc")[0], 0xba);
    let e = pairing(&cp_keys[0], &cp.0);
    assert_eq!(KPABEImpl::hash_pairing_result(&e), ABEImpl::hash_pairing_result(&e));
    assert_eq!(ABEImpl::hash_pairing_result(&e), e.derive_key());
}

#[test]
fn without_attributes_the_message_is_left_as_it_is() {
    let (_, p_pub) = ABEImpl::setup_with(abe_scalar(23));
    let s = abe_scalar(24);
    let (c0, v, c_attrs) = ABEImpl::encrypt_with(&p_pub, &[], b"plain", &s);
    assert_eq!(v, b"plain".to_vec());
    assert_eq!(c_attrs.len(), 0);
    assert_eq!(c0.to_bytes(), G1Point::generator().mul(&s).to_bytes());
    let no_points: Vec<G2Point> = Vec::new();
    assert_eq!(ABEImpl::decrypt(&no_points, &c0, b"masked", &no_points), b"masked".to_vec());
    let some = vec![hash_to_group(b"a")];
    assert_eq!(ABEImpl::decrypt(&some, &c0, b"masked", &no_points), b"masked".to_vec());
    assert_eq!(KPABEImpl::decrypt(&no_points, &c0, b"masked", &some), b"masked".to_vec());
    assert_ne!(ABEImpl::decrypt(&some, &c0, b"masked", &some), b"masked".to_vec());
    assert_eq!(ABEImpl::key_gen(&s, &[]).len(), 0);
}

#[test]
fn a_key_and_a_ciphertext_without_attributes() {
    let abe = ABE::new();
    let c0 = G1Point::generator().mul(&abe_scalar(25)).to_bytes();
    let mut ciphertext = vec![0u8];
    ciphertext.extend_from_slice(&c0);
    ciphertext.extend_from_slice(b"as it is");
    let key = ABEPrivateKey::from_parts(vec![], strings(&[]));
    assert_eq!(abe.decrypt(&key, &ciphertext).expect("decrypt"), b"as it is".to_vec());
    assert_eq!(abe.decrypt(&key, &ciphertext[..66]).expect("decrypt"), Vec::<u8>::new());
    assert_eq!(abe.decrypt(&key, &ciphertext[..65]).err(), Some(CryptoError::InvalidLength));
}

#[test]
fn abe_random_big_is_below_the_order() {
    for _ in 0..5 {
        assert!(ABEImpl::random_big().expect("entropy").to_bytes() < abe_order_bytes());
        assert!(KPABEImpl::random_big().expect("entropy").to_bytes() < abe_order_bytes());
    }
}

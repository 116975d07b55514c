use frp_client::crypto::{cipher_concat_consistent, cipher_round_trip, get_privilege_key, FrpCoder};
use cipher::KeyIvInit;

type Aes128CfbEnc = cfb_mode::BufEncryptor<aes::Aes128>;

#[test]
fn derive_key_matches_pbkdf2() {
    let coder = FrpCoder::new("tok", [0u8; 16]);
    let mut expected = [0u8; 16];
    ring::pbkdf2::derive(
        ring::pbkdf2::PBKDF2_HMAC_SHA1,
        core::num::NonZeroU32::new(64).unwrap(),
        b"frp",
        b"tok",
        &mut expected,
    );
    assert_eq!(*coder.key(), expected);
}

#[test]
fn same_token_same_key_different_token_differs() {
    let a = FrpCoder::new("alpha", [1u8; 16]);
    let b = FrpCoder::new("alpha", [2u8; 16]);
    let c = FrpCoder::new("beta", [1u8; 16]);
    assert_eq!(a.key(), b.key());
    assert_ne!(a.key(), c.key());
}

#[test]
fn encypt_matches_cfb_mode_directly() {
    let iv = [0x24u8; 16];
    let mut coder = FrpCoder::new("secret", iv);
    let plain = b"hello world! this is my plaintext.".to_vec();
    let mut buf = plain.clone();
    coder.encypt(&mut buf);

    let mut reference = plain.clone();
    let mut enc = Aes128CfbEnc::new_from_slices(coder.key(), &iv).unwrap();
    enc.encrypt(&mut reference);
    assert_eq!(buf, reference);
    assert_ne!(buf, plain);
}

#[test]
fn round_trip_across_instances() {
    let iv = [7u8; 16];
    let mut enc = FrpCoder::new("tok", iv);
    let mut dec = FrpCoder::new("tok", iv);
    let out = cipher_round_trip(&mut enc, &mut dec, b"first buffer".to_vec());
    assert_eq!(out, b"first buffer".to_vec());
    let out2 = cipher_round_trip(&mut enc, &mut dec, b"second, longer buffer......".to_vec());
    assert_eq!(out2, b"second, longer buffer......".to_vec());
}

#[test]
fn split_equals_concatenation() {
    let iv = [9u8; 16];
    let mut c1 = FrpCoder::new("tok", iv);
    let mut c2 = FrpCoder::new("tok", iv);
    let (two_calls, one_call) =
        cipher_concat_consistent(&mut c1, &mut c2, b"abcdefgh".to_vec(), b"0123456789xyz".to_vec());
    assert_eq!(two_calls, one_call);
}

#[test]
fn statefulness_positions_never_reset() {
    // decrypting the second buffer with a fresh decoder must fail to
    // reproduce the plaintext: the position matters.
    let iv = [3u8; 16];
    let mut enc = FrpCoder::new("tok", iv);
    let mut b1 = b"0123456789abcdef".to_vec();
    enc.encypt(&mut b1);
    let mut b2 = b"0123456789abcdef".to_vec();
    enc.encypt(&mut b2);
    assert_ne!(b1, b2);
    let mut fresh = FrpCoder::new("tok", iv);
    let mut copy = b2.clone();
    fresh.decrypt(&mut copy);
    assert_ne!(copy, b"0123456789abcdef".to_vec());
}

#[test]
fn privilege_key_is_md5_hex() {
    let k = get_privilege_key(42, "tok");
    let expected = format!("{:x}", md5::compute(b"tok42"));
    assert_eq!(String::from_utf8(k).unwrap(), expected);
    let neg = get_privilege_key(-5, "a");
    let expected_neg = format!("{:x}", md5::compute(b"a-5"));
    assert_eq!(String::from_utf8(neg).unwrap(), expected_neg);
}

#[test]
fn empty_buffer_round_trips() {
    let iv = [5u8; 16];
    let mut enc = FrpCoder::new("tok", iv);
    let mut dec = FrpCoder::new("tok", iv);
    let out = cipher_round_trip(&mut enc, &mut dec, Vec::new());
    assert!(out.is_empty());
    // positions are unchanged by an empty buffer: the next one still lines up
    let out2 = cipher_round_trip(&mut enc, &mut dec, b"payload".to_vec());
    assert_eq!(out2, b"payload".to_vec());
}

#[test]
fn round_trip_over_a_sequence_of_buffers() {
    let iv = [11u8; 16];
    let mut enc = FrpCoder::new("tok", iv);
    let mut dec = FrpCoder::new("tok", iv);
    let bufs = vec![
        b"one".to_vec(),
        Vec::new(),
        b"a longer third buffer spanning blocks.........".to_vec(),
        b"4".to_vec(),
    ];
    let out = frp_client::crypto::cipher_round_trip_sequence(&mut enc, &mut dec, bufs.clone());
    assert_eq!(out, bufs);
}

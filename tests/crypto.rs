use rsa::pkcs1::{EncodeRsaPrivateKey, EncodeRsaPublicKey};

use ngenrs::crypto::{
    base64_decode, base64_encode, bytes2hex, bytes2str, hash_md5, hash_sha1, hash_sha256,
    hex2bytes, rsa_dec, rsa_enc, str2bytes, Aes256EcbPkcs5, CryptoError, RsaPadding,
};

fn key() -> Vec<u8> {
    (0u8..32).collect()
}

#[test]
fn block_cipher_round_trip_for_many_lengths() {
    let c = Aes256EcbPkcs5::new(&key()).unwrap();
    for n in [0usize, 1, 15, 16, 17, 31, 32, 100, 1000] {
        let data: Vec<u8> = (0..n).map(|i| (i * 7 % 256) as u8).collect();
        let sealed = c.enc(&data);
        assert_eq!(sealed.len(), (n / 16 + 1) * 16);
        if n > 0 {
            assert_ne!(&sealed[..n], &data[..]);
        }
        assert_eq!(c.dec(&sealed).unwrap(), data);
    }
}

#[test]
fn block_cipher_matches_the_aes256_test_vector() {
    let c = Aes256EcbPkcs5::new(&key()).unwrap();
    let plain = hex2bytes("00112233445566778899aabbccddeeff").unwrap();
    let sealed = c.enc(&plain);
    assert_eq!(bytes2hex(&sealed[..16]), "8ea2b7ca516745bfeafc49904b496089");
}

#[test]
fn block_cipher_rejects_bad_key_and_bad_ciphertext() {
    assert_eq!(Aes256EcbPkcs5::new(&[0u8; 16]).err(), Some(CryptoError::InvalidKeyLength));
    let c = Aes256EcbPkcs5::new(&key()).unwrap();
    assert_eq!(c.dec(&[1, 2, 3]), Err(CryptoError::DecryptFailed));
}

#[test]
fn digests_match_known_values() {
    assert_eq!(bytes2hex(&hash_md5(b"")), "d41d8cd98f00b204e9800998ecf8427e");
    assert_eq!(bytes2hex(&hash_md5(b"abc")), "900150983cd24fb0d6963f7d28e17f72");
    assert_eq!(bytes2hex(&hash_sha1(b"abc")), "a9993e364706816aba3e25717850c26c9cd0d89d");
    assert_eq!(
        bytes2hex(&hash_sha256(b"abc")),
        "ba7816bf8f01cfea414140de5dae2223b00361a396177a9cb410ff61f20015ad"
    );
}

#[test]
fn base64_known_values() {
    assert_eq!(base64_encode(b"hello"), b"aGVsbG8=".to_vec());
    assert_eq!(base64_encode(b""), Vec::<u8>::new());
    assert_eq!(base64_decode(b"aGVsbG8="), b"hello".to_vec());
    assert_eq!(base64_decode(b"not base64!"), Vec::<u8>::new());
    assert_eq!(base64_decode(&[0xff, 0xfe]), Vec::<u8>::new());
    for data in [Vec::new(), vec![0u8], vec![1, 2], (0u8..=255).collect::<Vec<u8>>()] {
        assert_eq!(base64_decode(&base64_encode(&data)), data);
    }
}

#[test]
fn hex_and_text_conversions() {
    assert_eq!(bytes2hex(&[0x00, 0x0f, 0xa0, 0xff]), "000fa0ff");
    assert_eq!(hex2bytes("000FA0ff").unwrap(), vec![0x00, 0x0f, 0xa0, 0xff]);
    assert_eq!(hex2bytes("123"), Err(CryptoError::InvalidHex));
    assert_eq!(hex2bytes("zz"), Err(CryptoError::InvalidHex));
    assert_eq!(str2bytes("héllo".to_string()), "héllo".as_bytes().to_vec());
    assert_eq!(bytes2str(vec![104, 105]).unwrap(), "hi");
    assert_eq!(bytes2str(vec![0xff]), Err(CryptoError::InvalidUtf8));
}

fn key_pair() -> (Vec<u8>, Vec<u8>) {
    let private = rsa::RsaPrivateKey::new(&mut rsa::rand_core::OsRng, 1024).unwrap();
    let public = rsa::RsaPublicKey::from(&private);
    (
        public.to_pkcs1_der().unwrap().as_bytes().to_vec(),
        private.to_pkcs1_der().unwrap().as_bytes().to_vec(),
    )
}

#[test]
fn rsa_round_trip_under_both_paddings() {
    let (public, private) = key_pair();
    for padding in [0, 1, 2] {
        for msg in [b"".to_vec(), b"secret".to_vec(), vec![7u8; 62]] {
            let sealed = rsa_enc(msg.clone(), public.clone(), padding);
            assert_eq!(sealed.len(), 128);
            assert_eq!(rsa_dec(sealed, private.clone(), padding), msg);
        }
    }
}

#[test]
fn rsa_refuses_messages_that_do_not_fit() {
    let (public, _) = key_pair();
    assert_eq!(rsa_enc(vec![1u8; 117], public.clone(), 0).len(), 128);
    assert!(rsa_enc(vec![1u8; 118], public.clone(), 0).is_empty());
    assert_eq!(rsa_enc(vec![1u8; 62], public.clone(), 1).len(), 128);
    assert!(rsa_enc(vec![1u8; 63], public, 1).is_empty());
}

#[test]
fn rsa_with_unparsable_key_gives_nothing() {
    assert!(rsa_enc(b"data".to_vec(), vec![1u8; 16], 0).is_empty());
    assert!(rsa_dec(b"data".to_vec(), vec![1u8; 32], 1).is_empty());
    let (_, private) = key_pair();
    assert!(rsa_dec(vec![0u8; 5], private, 0).is_empty());
}

#[test]
fn padding_codes() {
    assert_eq!(RsaPadding::from(0), RsaPadding::Pkcs1v15);
    assert_eq!(RsaPadding::from(1), RsaPadding::OaepSha256);
    assert_eq!(RsaPadding::from(2), RsaPadding::Unspecified);
    assert_eq!(RsaPadding::from(-5), RsaPadding::Unspecified);
}

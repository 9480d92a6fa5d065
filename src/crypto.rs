use vstd::prelude::*;
use vstd::utf8::{decode_utf8, encode_utf8, valid_utf8};

use aes::Aes256;
use base64::Engine;
use block_modes::block_padding::Pkcs7;
use block_modes::{BlockMode, Ecb};
use md5::Digest;
use rsa::pkcs1::{DecodeRsaPrivateKey, DecodeRsaPublicKey};
use rsa::{PublicKey, PublicKeyParts};

verus! {

/// Why a cryptographic operation failed.
#[derive(Clone, Copy, Debug, PartialEq, Eq, Structural)]
pub enum CryptoError {
    /// A block-cipher key must be 32 bytes.
    InvalidKeyLength,
    /// The bytes are not UTF-8.
    InvalidUtf8,
    /// The text is not an even number of hex digits.
    InvalidHex,
    /// The ciphertext is not whole blocks or its padding is wrong.
    DecryptFailed,
}

// ---------------------------------------------------------------------------
// Text and hex
// ---------------------------------------------------------------------------

/// The lowercase hex digit for `n`, which is below 16.
pub open spec fn hex_digit(n: u8) -> char {
    if n < 10 {
        (48 + n) as char
    } else {
        (87 + n) as char
    }
}

/// The value of a hex digit of either case, or `None` for another char.
pub open spec fn hex_value(c: char) -> Option<u8> {
    if '0' <= c && c <= '9' {
        Some((c as u32 - 48) as u8)
    } else if 'a' <= c && c <= 'f' {
        Some((c as u32 - 87) as u8)
    } else if 'A' <= c && c <= 'F' {
        Some((c as u32 - 55) as u8)
    } else {
        None
    }
}

/// `t` is the lowercase hex text of `b`: two digits per byte, high first.
pub open spec fn is_hex_of(b: Seq<u8>, t: Seq<char>) -> bool {
    &&& t.len() == 2 * b.len()
    &&& forall|i: int|
        0 <= i < b.len() ==> t[2 * i] == hex_digit(#[trigger] b[i] / 16) && t[2 * i + 1]
            == hex_digit(b[i] % 16)
}

/// Whether `t` is an even number of hex digits.
pub open spec fn is_hex_text(t: Seq<char>) -> bool {
    t.len() % 2 == 0 && forall|i: int| 0 <= i < t.len() ==> (#[trigger] hex_value(t[i])) is Some
}

/// `b` is what the hex text `t` decodes to: one byte per pair of digits.
pub open spec fn is_bytes_of_hex(t: Seq<char>, b: Seq<u8>) -> bool {
    &&& 2 * b.len() == t.len()
    &&& forall|i: int|
        0 <= i < b.len() ==> #[trigger] b[i] == hex_value(t[2 * i])->Some_0 * 16 + hex_value(
            t[2 * i + 1],
        )->Some_0
}

/// Relies on hex::encode: two lowercase digits for each byte, high nibble
/// first.
#[verifier::external_body]
fn hex_encode(b: &[u8]) -> (r: String)
    ensures
        is_hex_of(b@, r@),
{
    hex::encode(b)
}

/// Relies on hex::decode: it fails on an odd length or on a char that is
/// not a hex digit of either case, and otherwise decodes each pair.
#[verifier::external_body]
fn hex_decode(t: &str) -> (r: Option<Vec<u8>>)
    ensures
        r is Some <==> is_hex_text(t@),
        r matches Some(b) ==> is_bytes_of_hex(t@, b@),
{
    hex::decode(t).ok()
}

/// Relies on String::from_utf8: it accepts exactly the valid UTF-8 byte
/// sequences and decodes them.
#[verifier::external_body]
fn utf8_string(v: Vec<u8>) -> (r: Option<String>)
    ensures
        r is Some <==> valid_utf8(v@),
        r matches Some(s) ==> s@ == decode_utf8(v@),
{
    String::from_utf8(v).ok()
}

/// The UTF-8 bytes of a string.
pub fn str2bytes(s: String) -> (r: Vec<u8>)
    ensures
        r@ == encode_utf8(s@),
{
    let bytes = s.as_str().as_bytes();
    let mut r: Vec<u8> = Vec::new();
    let mut i: usize = 0;
    while i < bytes.len()
        invariant
            i <= bytes@.len(),
            r@ == bytes@.subrange(0, i as int),
        decreases bytes@.len() - i,
    {
        r.push(bytes[i]);
        i = i + 1;
        assert(r@ =~= bytes@.subrange(0, i as int));
    }
    assert(r@ =~= bytes@);
    r
}

/// The string whose UTF-8 bytes are `v`; fails when `v` is not UTF-8.
pub fn bytes2str(v: Vec<u8>) -> (r: Result<String, CryptoError>)
    ensures
        r is Ok <==> valid_utf8(v@),
        r matches Ok(s) ==> s@ == decode_utf8(v@),
        r matches Err(e) ==> e == CryptoError::InvalidUtf8,
{
    match utf8_string(v) {
        Some(s) => Ok(s),
        None => Err(CryptoError::InvalidUtf8),
    }
}

/// The bytes that a hex text stands for; either case is accepted.
pub fn hex2bytes(hex: &str) -> (r: Result<Vec<u8>, CryptoError>)
    ensures
        r is Ok <==> is_hex_text(hex@),
        r matches Ok(b) ==> is_bytes_of_hex(hex@, b@),
        r matches Err(e) ==> e == CryptoError::InvalidHex,
{
    match hex_decode(hex) {
        Some(b) => Ok(b),
        None => Err(CryptoError::InvalidHex),
    }
}

/// The lowercase hex text of `bytes`.
pub fn bytes2hex(bytes: &[u8]) -> (r: String)
    ensures
        is_hex_of(bytes@, r@),
{
    hex_encode(bytes)
}

// ---------------------------------------------------------------------------
// AES-256 in ECB mode with PKCS#7 padding
// ---------------------------------------------------------------------------

/// The ciphertext of `data` under AES-256-ECB with PKCS#7 padding.
pub uninterp spec fn aes256_ecb_sealed(key: Seq<u8>, data: Seq<u8>) -> Seq<u8>;

/// The plaintext of `data` under AES-256-ECB with PKCS#7 padding, or `None`
/// when `data` is not whole blocks or its padding is malformed.
pub uninterp spec fn aes256_ecb_opened(key: Seq<u8>, data: Seq<u8>) -> Option<Seq<u8>>;

/// Relies on block_modes' Ecb<Aes256, Pkcs7>: new_from_slices accepts a
/// 32-byte key with an empty IV, and encrypt_vec pads to the next whole
/// block (a full block when already aligned) and encrypts; the padding is
/// unambiguous, so decrypt_vec with the same key gives the input back.
#[verifier::external_body]
fn aes_encrypt(key: &[u8], data: &[u8]) -> (r: Vec<u8>)
    requires
        key@.len() == 32,
    ensures
        r@ == aes256_ecb_sealed(key@, data@),
        r@.len() == (data@.len() / 16 + 1) * 16,
        aes256_ecb_opened(key@, r@) == Some(data@),
{
    match Ecb::<Aes256, Pkcs7>::new_from_slices(key, &[]) {
        Ok(cipher) => cipher.encrypt_vec(data),
        Err(_) => Vec::new(),
    }
}

/// Relies on block_modes' Ecb<Aes256, Pkcs7>::decrypt_vec: it fails on a
/// length that is not whole blocks or on malformed padding.
#[verifier::external_body]
fn aes_decrypt(key: &[u8], data: &[u8]) -> (r: Option<Vec<u8>>)
    requires
        key@.len() == 32,
    ensures
        r is Some <==> aes256_ecb_opened(key@, data@) is Some,
        r matches Some(v) ==> aes256_ecb_opened(key@, data@) == Some(v@),
        data@.len() % 16 != 0 ==> r is None,
{
    match Ecb::<Aes256, Pkcs7>::new_from_slices(key, &[]) {
        Ok(cipher) => cipher.decrypt_vec(data).ok(),
        Err(_) => None,
    }
}

/// A block cipher: AES-256 in ECB mode with PKCS#7 (PKCS#5) padding, under
/// one 32-byte key.
pub struct Aes256EcbPkcs5 {
    key: Vec<u8>,
}

impl Aes256EcbPkcs5 {
    /// The key.
    pub closed spec fn key(&self) -> Seq<u8> {
        self.key@
    }

    pub closed spec fn wf(&self) -> bool {
        self.key@.len() == 32
    }

    /// A cipher under `key`; fails unless the key is 32 bytes.
    pub fn new(key: &[u8]) -> (r: Result<Aes256EcbPkcs5, CryptoError>)
        ensures
            r is Ok <==> key@.len() == 32,
            r matches Ok(c) ==> c.wf() && c.key() == key@,
            r matches Err(e) ==> e == CryptoError::InvalidKeyLength,
    {
        if key.len() != 32 {
            return Err(CryptoError::InvalidKeyLength);
        }
        let mut k: Vec<u8> = Vec::new();
        let mut i: usize = 0;
        while i < key.len()
            invariant
                i <= key@.len(),
                k@ == key@.subrange(0, i as int),
            decreases key@.len() - i,
        {
            k.push(key[i]);
            i = i + 1;
            assert(k@ =~= key@.subrange(0, i as int));
        }
        assert(k@ =~= key@);
        Ok(Aes256EcbPkcs5 { key: k })
    }

    /// Encrypts `data`. Decrypting the result with the same cipher gives
    /// `data` back.
    pub fn enc(&self, data: &[u8]) -> (r: Vec<u8>)
        requires
            self.wf(),
        ensures
            r@ == aes256_ecb_sealed(self.key(), data@),
            r@.len() == (data@.len() / 16 + 1) * 16,
            aes256_ecb_opened(self.key(), r@) == Some(data@),
    {
        aes_encrypt(self.key.as_slice(), data)
    }

    /// Decrypts `data`; fails when it is not whole blocks or its padding
    /// is malformed.
    pub fn dec(&self, data: &[u8]) -> (r: Result<Vec<u8>, CryptoError>)
        requires
            self.wf(),
        ensures
            r is Ok <==> aes256_ecb_opened(self.key(), data@) is Some,
            r matches Ok(v) ==> aes256_ecb_opened(self.key(), data@) == Some(v@),
            r matches Err(e) ==> e == CryptoError::DecryptFailed,
            data@.len() % 16 != 0 ==> r is Err,
    {
        match aes_decrypt(self.key.as_slice(), data) {
            Some(v) => Ok(v),
            None => Err(CryptoError::DecryptFailed),
        }
    }
}

// ---------------------------------------------------------------------------
// Digests and base64
// ---------------------------------------------------------------------------

/// The MD5 digest of `data`.
pub uninterp spec fn md5_of(data: Seq<u8>) -> Seq<u8>;

/// The SHA-1 digest of `data`.
pub uninterp spec fn sha1_of(data: Seq<u8>) -> Seq<u8>;

/// The SHA-256 digest of `data`.
pub uninterp spec fn sha256_of(data: Seq<u8>) -> Seq<u8>;

/// The standard base64 text of `data`, with padding, as ASCII bytes.
pub uninterp spec fn base64_of(data: Seq<u8>) -> Seq<u8>;

/// What the standard, padded base64 text `t` decodes to, or `None` when it
/// is not such a text.
pub uninterp spec fn base64_decoded(t: Seq<char>) -> Option<Seq<u8>>;

/// Relies on md-5's Md5::digest: a 16-byte digest of the input.
#[verifier::external_body]
fn md5_digest(data: &[u8]) -> (r: Vec<u8>)
    ensures
        r@ == md5_of(data@),
        r@.len() == 16,
{
    md5::Md5::digest(data).to_vec()
}

/// Relies on sha1's Sha1::digest: a 20-byte digest of the input.
#[verifier::external_body]
fn sha1_digest(data: &[u8]) -> (r: Vec<u8>)
    ensures
        r@ == sha1_of(data@),
        r@.len() == 20,
{
    sha1::Sha1::digest(data).to_vec()
}

/// Relies on sha2's Sha256::digest: a 32-byte digest of the input.
#[verifier::external_body]
fn sha256_digest(data: &[u8]) -> (r: Vec<u8>)
    ensures
        r@ == sha256_of(data@),
        r@.len() == 32,
{
    sha2::Sha256::digest(data).to_vec()
}

/// Relies on base64's STANDARD engine encode: padded standard base64, all
/// ASCII, which the same engine's decode reads back to the input; the empty
/// input gives the empty text.
#[verifier::external_body]
fn b64_encode(data: &[u8]) -> (r: Vec<u8>)
    ensures
        r@ == base64_of(data@),
        valid_utf8(r@),
        base64_decoded(decode_utf8(r@)) == Some(data@),
        data@.len() == 0 ==> r@.len() == 0,
{
    base64::engine::general_purpose::STANDARD.encode(data).into_bytes()
}

/// Relies on base64's STANDARD engine decode of a text.
#[verifier::external_body]
fn b64_decode(t: &str) -> (r: Option<Vec<u8>>)
    ensures
        r is Some <==> base64_decoded(t@) is Some,
        r matches Some(v) ==> base64_decoded(t@) == Some(v@),
{
    base64::engine::general_purpose::STANDARD.decode(t).ok()
}

/// The MD5 digest of `data`.
pub fn hash_md5(data: &[u8]) -> (r: Vec<u8>)
    ensures
        r@ == md5_of(data@),
        r@.len() == 16,
{
    md5_digest(data)
}

/// The SHA-1 digest of `data`.
pub fn hash_sha1(data: &[u8]) -> (r: Vec<u8>)
    ensures
        r@ == sha1_of(data@),
        r@.len() == 20,
{
    sha1_digest(data)
}

/// The SHA-256 digest of `data`.
pub fn hash_sha256(data: &[u8]) -> (r: Vec<u8>)
    ensures
        r@ == sha256_of(data@),
        r@.len() == 32,
{
    sha256_digest(data)
}

/// The standard base64 text of `data`, as bytes.
pub fn base64_encode(data: &[u8]) -> (r: Vec<u8>)
    ensures
        r@ == base64_of(data@),
        base64_decode_spec(r@) == data@,
{
    b64_encode(data)
}

/// What the base64 text in `data` decodes to: `data` is read as UTF-8, and
/// anything that is not UTF-8 or not base64 gives the empty result.
pub open spec fn base64_decode_spec(data: Seq<u8>) -> Seq<u8> {
    if valid_utf8(data) {
        match base64_decoded(decode_utf8(data)) {
            Some(v) => v,
            None => Seq::empty(),
        }
    } else {
        Seq::empty()
    }
}

/// Decodes the base64 text in `data`; empty when it cannot be decoded.
pub fn base64_decode(data: &[u8]) -> (r: Vec<u8>)
    ensures
        r@ == base64_decode_spec(data@),
{
    let mut copy: Vec<u8> = Vec::new();
    let mut i: usize = 0;
    while i < data.len()
        invariant
            i <= data@.len(),
            copy@ == data@.subrange(0, i as int),
        decreases data@.len() - i,
    {
        copy.push(data[i]);
        i = i + 1;
        assert(copy@ =~= data@.subrange(0, i as int));
    }
    assert(copy@ =~= data@);
    match utf8_string(copy) {
        Some(text) => match b64_decode(text.as_str()) {
            Some(v) => v,
            None => Vec::new(),
        },
        None => Vec::new(),
    }
}

// ---------------------------------------------------------------------------
// RSA
// ---------------------------------------------------------------------------

/// The padding scheme of an RSA operation, chosen by a numeric code at the
/// flat boundary.
#[derive(Clone, Copy, Debug, PartialEq, Eq, Structural)]
pub enum RsaPadding {
    Pkcs1v15,
    OaepSha256,
    Unspecified,
}

/// The padding that a numeric code selects: 0 and 1 name the two schemes,
/// anything else means no explicit choice.
pub open spec fn padding_of(code: i32) -> RsaPadding {
    if code == 0 {
        RsaPadding::Pkcs1v15
    } else if code == 1 {
        RsaPadding::OaepSha256
    } else {
        RsaPadding::Unspecified
    }
}

impl From<i32> for RsaPadding {
    fn from(value: i32) -> (r: RsaPadding)
        ensures
            r == padding_of(value),
    {
        match value {
            0 => RsaPadding::Pkcs1v15,
            1 => RsaPadding::OaepSha256,
            _ => RsaPadding::Unspecified,
        }
    }
}

impl vstd::std_specs::convert::FromSpecImpl<i32> for RsaPadding {
    open spec fn obeys_from_spec() -> bool {
        true
    }

    open spec fn from_spec(v: i32) -> RsaPadding {
        padding_of(v)
    }
}

/// The byte size of the modulus of the PKCS#1 DER public key `der`, or
/// `None` when `der` is not such a key.
pub uninterp spec fn rsa_public_size(der: Seq<u8>) -> Option<nat>;

/// What decrypting `input` under the PKCS#1 DER private key `der` gives,
/// with OAEP over SHA-256 when `oaep` holds and PKCS#1 v1.5 padding
/// otherwise; `None` when `der` is not such a key or decryption fails.
pub uninterp spec fn rsa_opened(der: Seq<u8>, oaep: bool, input: Seq<u8>) -> Option<Seq<u8>>;

/// Whether `padding` selects OAEP over SHA-256; every other code selects
/// PKCS#1 v1.5.
pub open spec fn uses_oaep(padding: RsaPadding) -> bool {
    padding == RsaPadding::OaepSha256
}

/// The bytes that the padding scheme adds to a message: 11 for PKCS#1
/// v1.5, and twice the SHA-256 size plus 2 for OAEP.
pub open spec fn padding_overhead(padding: RsaPadding) -> nat {
    if uses_oaep(padding) {
        66
    } else {
        11
    }
}

/// The length of what `rsa_enc` gives: the modulus size when the key parses
/// and the message fits under the padding, and nothing otherwise.
pub open spec fn sealed_len(pub_key: Seq<u8>, padding: RsaPadding, input_len: nat) -> nat {
    match rsa_public_size(pub_key) {
        Some(k) => if input_len + padding_overhead(padding) <= k {
            k
        } else {
            0
        },
        None => 0,
    }
}

/// What `rsa_dec` gives: the plaintext, or nothing when the key does not
/// parse or the ciphertext does not decrypt.
pub open spec fn opened_or_empty(private_key: Seq<u8>, padding: RsaPadding, input: Seq<u8>) -> Seq<
    u8,
> {
    match rsa_opened(private_key, uses_oaep(padding), input) {
        Some(v) => v,
        None => Seq::empty(),
    }
}

/// Relies on rsa's RsaPublicKey::from_pkcs1_der (which checks the key) and
/// PublicKeyParts::size: the modulus size in bytes of a key that parses.
#[verifier::external_body]
fn rsa_public_key_size(der: &[u8]) -> (r: Option<usize>)
    ensures
        r is None <==> rsa_public_size(der@) is None,
        r matches Some(k) ==> rsa_public_size(der@) == Some(k as nat),
{
    rsa::RsaPublicKey::from_pkcs1_der(der).ok().map(|key| key.size())
}

/// Relies on rsa's PublicKey::encrypt with PKCS#1 v1.5 padding under the
/// key parsed from `der`, drawing from the operating system's random
/// source: a message of at most the modulus size minus 11 bytes encrypts to
/// a ciphertext of exactly the modulus size.
#[verifier::external_body]
fn rsa_encrypt_pkcs1v15(der: &[u8], input: &[u8]) -> (r: Option<Vec<u8>>)
    requires
        rsa_public_size(der@) matches Some(k) && input@.len() + 11 <= k,
    ensures
        r is Some,
        r matches Some(c) ==> c@.len() == rsa_public_size(der@)->Some_0,
{
    match rsa::RsaPublicKey::from_pkcs1_der(der) {
        Ok(key) => key.encrypt(&mut rsa::rand_core::OsRng, rsa::Pkcs1v15Encrypt, input).ok(),
        Err(_) => None,
    }
}

/// Relies on rsa's PublicKey::encrypt with OAEP over SHA-256 under the key
/// parsed from `der`, drawing from the operating system's random source: a
/// message of at most the modulus size minus 66 bytes encrypts to a
/// ciphertext of exactly the modulus size.
#[verifier::external_body]
fn rsa_encrypt_oaep_sha256(der: &[u8], input: &[u8]) -> (r: Option<Vec<u8>>)
    requires
        rsa_public_size(der@) matches Some(k) && input@.len() + 66 <= k,
    ensures
        r is Some,
        r matches Some(c) ==> c@.len() == rsa_public_size(der@)->Some_0,
{
    match rsa::RsaPublicKey::from_pkcs1_der(der) {
        Ok(key) => key.encrypt(
            &mut rsa::rand_core::OsRng,
            rsa::Oaep::new::<sha2::Sha256>(),
            input,
        ).ok(),
        Err(_) => None,
    }
}

/// Relies on rsa's RsaPrivateKey::decrypt with PKCS#1 v1.5 padding under
/// the key parsed from `der`; it uses no random source.
#[verifier::external_body]
fn rsa_decrypt_pkcs1v15(der: &[u8], input: &[u8]) -> (r: Option<Vec<u8>>)
    ensures
        r is Some <==> rsa_opened(der@, false, input@) is Some,
        r matches Some(v) ==> rsa_opened(der@, false, input@) == Some(v@),
{
    match rsa::RsaPrivateKey::from_pkcs1_der(der) {
        Ok(key) => key.decrypt(rsa::Pkcs1v15Encrypt, input).ok(),
        Err(_) => None,
    }
}

/// Relies on rsa's RsaPrivateKey::decrypt with OAEP over SHA-256 under the
/// key parsed from `der`; it uses no random source.
#[verifier::external_body]
fn rsa_decrypt_oaep_sha256(der: &[u8], input: &[u8]) -> (r: Option<Vec<u8>>)
    ensures
        r is Some <==> rsa_opened(der@, true, input@) is Some,
        r matches Some(v) ==> rsa_opened(der@, true, input@) == Some(v@),
{
    match rsa::RsaPrivateKey::from_pkcs1_der(der) {
        Ok(key) => key.decrypt(rsa::Oaep::new::<sha2::Sha256>(), input).ok(),
        Err(_) => None,
    }
}

/// Encrypts `input` under the PKCS#1 DER public key `pub_key` with the
/// padding that `padding` selects (PKCS#1 v1.5 unless it selects OAEP). The
/// ciphertext is random, and is exactly as long as the key's modulus; the
/// result is empty when the key does not parse or the message does not fit.
pub fn rsa_enc(input: Vec<u8>, pub_key: Vec<u8>, padding: i32) -> (r: Vec<u8>)
    ensures
        r@.len() == sealed_len(pub_key@, padding_of(padding), input@.len()),
{
    let k = match rsa_public_key_size(pub_key.as_slice()) {
        Some(k) => k,
        None => return Vec::new(),
    };
    let sealed = match RsaPadding::from(padding) {
        RsaPadding::OaepSha256 => {
            if k < 66 || input.len() > k - 66 {
                return Vec::new();
            }
            rsa_encrypt_oaep_sha256(pub_key.as_slice(), input.as_slice())
        },
        RsaPadding::Pkcs1v15 | RsaPadding::Unspecified => {
            if k < 11 || input.len() > k - 11 {
                return Vec::new();
            }
            rsa_encrypt_pkcs1v15(pub_key.as_slice(), input.as_slice())
        },
    };
    match sealed {
        Some(v) => v,
        None => Vec::new(),
    }
}

/// Decrypts `input` under the PKCS#1 DER private key `private_key` with the
/// padding that `padding` selects (PKCS#1 v1.5 unless it selects OAEP).
/// The result is empty when the key does not parse or the ciphertext does
/// not decrypt.
pub fn rsa_dec(input: Vec<u8>, private_key: Vec<u8>, padding: i32) -> (r: Vec<u8>)
    ensures
        r@ == opened_or_empty(private_key@, padding_of(padding), input@),
{
    let opened = match RsaPadding::from(padding) {
        RsaPadding::OaepSha256 => rsa_decrypt_oaep_sha256(private_key.as_slice(), input.as_slice()),
        RsaPadding::Pkcs1v15 | RsaPadding::Unspecified => rsa_decrypt_pkcs1v15(
            private_key.as_slice(),
            input.as_slice(),
        ),
    };
    match opened {
        Some(v) => v,
        None => Vec::new(),
    }
}

} // verus!

//! Password encryption: a key derived from a master password with
//! PBKDF2-HMAC-SHA256, and AES-256-GCM with a random nonce put in front of the
//! sealed text. The primitives are ring's.

use vstd::prelude::*;

verus! {

/// Length in bytes of an AES-GCM nonce.
pub const NONCE_LEN: usize = 12;

/// Number of PBKDF2 rounds used to derive a key.
pub const ITERATIONS: u32 = 100_000;

/// The 32-byte key that PBKDF2-HMAC-SHA256 derives from `secret` and `salt` in
/// `iterations` rounds.
pub uninterp spec fn pbkdf2_hmac_sha256(iterations: u32, salt: Seq<u8>, secret: Seq<u8>) -> Seq<u8>;

/// What AES-256-GCM sealing, with no associated data, makes of `plaintext` under
/// `key` and `nonce`: the ciphertext followed by the tag.
pub uninterp spec fn aes_256_gcm_seal(key: Seq<u8>, nonce: Seq<u8>, plaintext: Seq<u8>) -> Seq<u8>;

/// What AES-256-GCM opening, with no associated data, makes of `sealed` under `key`
/// and `nonce`: the plaintext, or nothing where the tag does not authenticate.
pub uninterp spec fn aes_256_gcm_open(key: Seq<u8>, nonce: Seq<u8>, sealed: Seq<u8>) -> Option<Seq<u8>>;

/// Fills `dest` with bytes of the operating system's random generator (ring's
/// `SystemRandom::fill`); `false` where the generator fails. Nothing is stated of
/// the bytes.
#[verifier::external_body]
pub(crate) fn fill_random<const N: usize>(dest: &mut [u8; N]) -> bool {
    ::ring::rand::SecureRandom::fill(&::ring::rand::SystemRandom::new(), dest).is_ok()
}

/// A fresh random salt of 16 bytes, or `None` where the operating system's random
/// generator fails. Nothing is stated of the bytes.
pub fn generate_salt() -> Option<[u8; 16]> {
    let mut salt = [0u8; 16];
    if fill_random(&mut salt) {
        Some(salt)
    } else {
        None
    }
}

/// A fresh random nonce, or `None` where the generator fails.
fn random_nonce() -> Option<[u8; 12]> {
    let mut nonce = [0u8; 12];
    if fill_random(&mut nonce) {
        Some(nonce)
    } else {
        None
    }
}

/// PBKDF2-HMAC-SHA256 into a 32-byte key (`ring::pbkdf2::derive`).
///
/// ring panics only for a secret or salt too long for SHA-256 (2^61 bytes), which
/// `requires` leaves out, and for an output far longer than 32 bytes.
#[verifier::external_body]
fn pbkdf2_derive(iterations: u32, salt: &[u8; 16], secret: &[u8]) -> (key: [u8; 32])
    requires
        iterations > 0,
        secret@.len() < 0x2000_0000_0000_0000,
    ensures
        key@ == pbkdf2_hmac_sha256(iterations, salt@, secret@),
{
    let mut key = [0u8; 32];
    let rounds = ::std::num::NonZeroU32::new(iterations).unwrap();
    ::ring::pbkdf2::derive(::ring::pbkdf2::PBKDF2_HMAC_SHA256, rounds, salt, secret, &mut key);
    key
}

/// The longest text AES-GCM takes under one nonce (ring's `MAX_IN_OUT_LEN`).
pub const GCM_MAX_LEN: u64 = 0xF_FFFF_FFE0;

/// Seals `plaintext` with AES-256-GCM (`ring::aead::UnboundKey::new`,
/// `LessSafeKey::seal_in_place_append_tag`), or `None` where ring refuses. With a
/// 32-byte key ring refuses exactly the plaintexts longer than GCM allows.
#[verifier::external_body]
fn aead_seal(key: &[u8; 32], nonce: [u8; 12], plaintext: &[u8]) -> (r: Option<Vec<u8>>)
    ensures
        r matches Some(c) ==> c@ == aes_256_gcm_seal(key@, nonce@, plaintext@),
        r is Some <==> plaintext@.len() <= GCM_MAX_LEN,
{
    let unbound = ::ring::aead::UnboundKey::new(&::ring::aead::AES_256_GCM, key).ok()?;
    let sealer = ::ring::aead::LessSafeKey::new(unbound);
    let mut in_out = plaintext.to_vec();
    let nonce = ::ring::aead::Nonce::assume_unique_for_key(nonce);
    sealer.seal_in_place_append_tag(nonce, ::ring::aead::Aad::empty(), &mut in_out).ok()?;
    Some(in_out)
}

/// Opens `sealed` with AES-256-GCM (`ring::aead::UnboundKey::new`,
/// `LessSafeKey::open_in_place`).
///
/// Besides naming the result, this states what authenticated encryption is for:
/// opening gives back, and only gives back, a plaintext whose sealing under the same
/// key and nonce is `sealed`; the first holds for plaintexts GCM takes at all.
#[verifier::external_body]
fn aead_open(key: &[u8; 32], nonce: [u8; 12], sealed: &[u8]) -> (r: Option<Vec<u8>>)
    ensures
        bytes_view(r) == aes_256_gcm_open(key@, nonce@, sealed@),
        r matches Some(p) ==> aes_256_gcm_seal(key@, nonce@, p@) == sealed@,
        forall|p: Seq<u8>| #[trigger] aes_256_gcm_seal(key@, nonce@, p) == sealed@ && p.len() <= GCM_MAX_LEN ==> bytes_view(r) == Some(p),
{
    let unbound = ::ring::aead::UnboundKey::new(&::ring::aead::AES_256_GCM, key).ok()?;
    let opener = ::ring::aead::LessSafeKey::new(unbound);
    let mut in_out = sealed.to_vec();
    let nonce = ::ring::aead::Nonce::assume_unique_for_key(nonce);
    let plain = opener.open_in_place(nonce, ::ring::aead::Aad::empty(), &mut in_out).ok()?;
    Some(plain.to_vec())
}

/// The text of `bytes` where they are valid UTF-8 (`String::from_utf8`).
#[verifier::external_body]
fn utf8_string(bytes: Vec<u8>) -> (r: Option<String>)
    ensures
        r is Some <==> vstd::utf8::valid_utf8(bytes@),
        r matches Some(s) ==> s@ == vstd::utf8::decode_utf8(bytes@),
{
    String::from_utf8(bytes).ok()
}

/// `e` is a nonce of `NONCE_LEN` bytes followed by the AES-256-GCM sealing of
/// `plaintext` under `key` and that nonce.
pub open spec fn sealed_with(e: Seq<u8>, key: Seq<u8>, plaintext: Seq<u8>) -> bool {
    &&& e.len() >= NONCE_LEN
    &&& e.skip(NONCE_LEN as int) == aes_256_gcm_seal(key, e.take(NONCE_LEN as int), plaintext)
}

/// What decrypting `e` under `key` gives: the password, or the error's text.
pub open spec fn decryption(e: Seq<u8>, key: Seq<u8>) -> Result<Seq<char>, Seq<char>> {
    if e.len() < NONCE_LEN {
        Err("Invalid encrypted data"@)
    } else {
        opened_password(aes_256_gcm_open(key, e.take(NONCE_LEN as int), e.skip(NONCE_LEN as int)))
    }
}

/// The password in what opening gave: its text where it is UTF-8.
pub open spec fn opened_password(opened: Option<Seq<u8>>) -> Result<Seq<char>, Seq<char>> {
    match opened {
        None => Err("Failed to decrypt (wrong key?): Unspecified"@),
        Some(p) => if vstd::utf8::valid_utf8(p) {
            Ok(vstd::utf8::decode_utf8(p))
        } else {
            Err("Invalid UTF-8 in decrypted password"@)
        },
    }
}

/// The view of optional bytes.
pub open spec fn bytes_view(o: Option<Vec<u8>>) -> Option<Seq<u8>> {
    match o {
        Some(v) => Some(v@),
        None => None,
    }
}

/// The view of a `Result<String, String>`.
pub open spec fn result_view(r: Result<String, String>) -> Result<Seq<char>, Seq<char>> {
    match r {
        Ok(s) => Ok(s@),
        Err(m) => Err(m@),
    }
}

/// The 256-bit AES key derived from a master password and a salt, with
/// PBKDF2-HMAC-SHA256 in `ITERATIONS` rounds over the password's UTF-8 bytes. The
/// same password and salt always give the same key.
pub fn derive_key(master_password: &str, salt: &[u8; 16]) -> (key: [u8; 32])
    requires
        vstd::utf8::encode_utf8(master_password@).len() < 0x2000_0000_0000_0000,
    ensures
        key@ == pbkdf2_hmac_sha256(ITERATIONS, salt@, vstd::utf8::encode_utf8(master_password@)),
{
    pbkdf2_derive(ITERATIONS, salt, master_password.as_bytes())
}

/// The error of a plaintext too long to seal.
pub open spec fn seal_failure() -> Seq<char> {
    "Failed to encrypt: Unspecified"@
}

/// The error of a failing random generator.
pub open spec fn nonce_failure() -> Seq<char> {
    "Failed to generate nonce: Unspecified"@
}

/// What sealing a password under `key` and `nonce` gives: the nonce followed by
/// the sealed UTF-8 bytes, or the error of a text too long for GCM.
pub open spec fn sealing(password: Seq<char>, key: Seq<u8>, nonce: Seq<u8>) -> Result<Seq<u8>, Seq<char>> {
    let bytes = vstd::utf8::encode_utf8(password);
    if bytes.len() <= GCM_MAX_LEN {
        Ok(nonce + aes_256_gcm_seal(key, nonce, bytes))
    } else {
        Err(seal_failure())
    }
}

/// The view of a `Result<Vec<u8>, String>`.
pub open spec fn sealed_view(r: Result<Vec<u8>, String>) -> Result<Seq<u8>, Seq<char>> {
    match r {
        Ok(e) => Ok(e@),
        Err(m) => Err(m@),
    }
}

/// Seals a password with AES-256-GCM under `key` and `nonce`, and puts the nonce in
/// front of the sealed text.
pub fn seal_with_nonce(password: &str, key: &[u8; 32], nonce: [u8; 12]) -> (r: Result<Vec<u8>, String>)
    ensures
        sealed_view(r) == sealing(password@, key@, nonce@),
{
    let sealed = match aead_seal(key, nonce, password.as_bytes()) {
        Some(c) => c,
        None => return Err("Failed to encrypt: Unspecified".to_owned()),
    };
    let mut out: Vec<u8> = Vec::new();
    let mut i: usize = 0;
    while i < NONCE_LEN
        invariant
            i <= NONCE_LEN,
            out@ == nonce@.take(i as int),
        decreases NONCE_LEN - i,
    {
        out.push(nonce[i]);
        i = i + 1;
        assert(out@ =~= nonce@.take(i as int));
    }
    let mut j: usize = 0;
    while j < sealed.len()
        invariant
            j <= sealed@.len(),
            out@ == nonce@ + sealed@.take(j as int),
        decreases sealed.len() - j,
    {
        out.push(sealed[j]);
        j = j + 1;
        assert(out@ =~= nonce@ + sealed@.take(j as int));
    }
    assert(sealed@.take(sealed@.len() as int) =~= sealed@);
    assert(nonce@.take(NONCE_LEN as int) =~= nonce@);
    Ok(out)
}

/// Encrypts a password with AES-256-GCM under `key` and a fresh random nonce, which
/// is put in front of the sealed text. It succeeds unless the random generator
/// fails or the password is too long for GCM.
pub fn encrypt_password(password: &str, key: &[u8; 32]) -> (r: Result<Vec<u8>, String>)
    ensures
        sealed_view(r) == Err::<Seq<u8>, Seq<char>>(nonce_failure()) || exists|nonce: Seq<u8>|
            nonce.len() == NONCE_LEN && sealed_view(r) == #[trigger] sealing(password@, key@, nonce),
        r matches Ok(e) ==> sealed_with(e@, key@, vstd::utf8::encode_utf8(password@))
            && vstd::utf8::encode_utf8(password@).len() <= GCM_MAX_LEN,
        r matches Err(m) ==> m@ == nonce_failure() || (m@ == seal_failure()
            && vstd::utf8::encode_utf8(password@).len() > GCM_MAX_LEN),
{
    let nonce = match random_nonce() {
        Some(n) => n,
        None => return Err("Failed to generate nonce: Unspecified".to_owned()),
    };
    let r = seal_with_nonce(password, key, nonce);
    proof {
        let ghost n = nonce@;
        assert(n.len() == NONCE_LEN);
        if r is Ok {
            let e = r->Ok_0@;
            let b = vstd::utf8::encode_utf8(password@);
            assert(e.take(NONCE_LEN as int) =~= n);
            assert(e.skip(NONCE_LEN as int) =~= aes_256_gcm_seal(key@, n, b));
        }
    }
    r
}

/// The password in what AES-GCM opening gave (`None` where the tag did not
/// authenticate): its text, where it is UTF-8.
pub fn password_from_opened(opened: Option<Vec<u8>>) -> (r: Result<String, String>)
    ensures
        result_view(r) == opened_password(bytes_view(opened)),
{
    match opened {
        None => Err("Failed to decrypt (wrong key?): Unspecified".to_owned()),
        Some(p) => match utf8_string(p) {
            Some(s) => Ok(s),
            None => Err("Invalid UTF-8 in decrypted password".to_owned()),
        },
    }
}

/// Decrypts what `encrypt_password` made: a nonce of `NONCE_LEN` bytes followed by
/// the sealed text. Wherever `encrypted` is the sealing of a password's UTF-8 bytes
/// under `key`, the password comes back; a text too short, a wrong key or a
/// tampered text gives an error.
pub fn decrypt_password(encrypted: &[u8], key: &[u8; 32]) -> (r: Result<String, String>)
    ensures
        result_view(r) == decryption(encrypted@, key@),
        forall|password: Seq<char>|
            sealed_with(encrypted@, key@, #[trigger] vstd::utf8::encode_utf8(password))
                && vstd::utf8::encode_utf8(password).len() <= GCM_MAX_LEN ==> (r matches Ok(s) && s@ == password),
{
    if encrypted.len() < NONCE_LEN {
        return Err("Invalid encrypted data".to_owned());
    }
    let mut nonce = [0u8; 12];
    let mut i: usize = 0;
    while i < NONCE_LEN
        invariant
            i <= NONCE_LEN,
            NONCE_LEN <= encrypted@.len(),
            forall|k: int| 0 <= k < i ==> nonce@[k] == encrypted@[k],
        decreases NONCE_LEN - i,
    {
        nonce[i] = encrypted[i];
        i = i + 1;
    }
    assert(nonce@ =~= encrypted@.take(NONCE_LEN as int));
    let mut rest: Vec<u8> = Vec::new();
    let mut j: usize = NONCE_LEN;
    while j < encrypted.len()
        invariant
            NONCE_LEN <= j <= encrypted@.len(),
            rest@ == encrypted@.subrange(NONCE_LEN as int, j as int),
        decreases encrypted.len() - j,
    {
        rest.push(encrypted[j]);
        j = j + 1;
        assert(rest@ =~= encrypted@.subrange(NONCE_LEN as int, j as int));
    }
    assert(rest@ =~= encrypted@.skip(NONCE_LEN as int));
    let opened = aead_open(key, nonce, rest.as_slice());
    proof {
        assert forall|password: Seq<char>|
            sealed_with(encrypted@, key@, #[trigger] vstd::utf8::encode_utf8(password))
                && vstd::utf8::encode_utf8(password).len() <= GCM_MAX_LEN implies (opened matches Some(q)
                && q@ == vstd::utf8::encode_utf8(password) && vstd::utf8::valid_utf8(q@)
                && vstd::utf8::decode_utf8(q@) == password) by {
            vstd::utf8::encode_utf8_valid_utf8(password);
            vstd::utf8::encode_utf8_decode_utf8(password);
        }
    }
    password_from_opened(opened)
}

} // verus!

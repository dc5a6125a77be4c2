//! The hash functions, signature scheme, encodings and entropy that the
//! ledger and the signer call, each behind a small trusted wrapper.
use vstd::prelude::*;

verus! {

/// The BLAKE2b digest with a 32-byte output of a byte string.
pub uninterp spec fn blake2b_256(m: Seq<u8>) -> Seq<u8>;

/// The SHA-256 digest of a byte string.
pub uninterp spec fn sha256_of(m: Seq<u8>) -> Seq<u8>;

/// The Ed25519 public key that belongs to a 32-byte secret key.
pub uninterp spec fn ed25519_public_of(secret: Seq<u8>) -> Seq<u8>;

/// The Ed25519 signature of a message under a 32-byte secret key.
pub uninterp spec fn ed25519_signature_of(secret: Seq<u8>, message: Seq<u8>) -> Seq<u8>;

/// Whether Ed25519 verification accepts a signature on a message under a
/// public key.
pub uninterp spec fn ed25519_accepts(public: Seq<u8>, message: Seq<u8>, signature: Seq<u8>) -> bool;

/// The sixteen lowercase hexadecimal digits.
pub open spec fn hex_alphabet() -> Seq<char> {
    seq!['0', '1', '2', '3', '4', '5', '6', '7', '8', '9', 'a', 'b', 'c', 'd', 'e', 'f']
}

/// Lowercase hexadecimal text of a byte string: two digits per byte, high
/// nibble first.
pub open spec fn hex_of(b: Seq<u8>) -> Seq<char>
    decreases b.len(),
{
    if b.len() == 0 {
        Seq::empty()
    } else {
        let last = b.last();
        hex_of(b.drop_last()) + seq![hex_alphabet()[(last / 16) as int], hex_alphabet()[(last % 16) as int]]
    }
}

/// The decimal digits of a natural number, without leading zeros.
pub open spec fn decimal_of(n: nat) -> Seq<char>
    decreases n,
{
    let digits = seq!['0', '1', '2', '3', '4', '5', '6', '7', '8', '9'];
    if n < 10 {
        seq![digits[n as int]]
    } else {
        decimal_of(n / 10) + seq![digits[(n % 10) as int]]
    }
}

/// Relies on `blake2b_simd::Params::hash` with `hash_length(32)`: the
/// BLAKE2b-256 digest of the input, 32 bytes long.
#[verifier::external_body]
pub(crate) fn blake2b_digest(m: &[u8]) -> (r: Vec<u8>)
    ensures
        r@ == blake2b_256(m@),
        r@.len() == 32,
{
    blake2b_simd::Params::new().hash_length(32).hash(m).as_bytes().to_vec()
}

/// Relies on `sha2::Sha256::digest`: the SHA-256 digest of the input,
/// 32 bytes long.
#[verifier::external_body]
pub(crate) fn sha256_digest(m: &[u8]) -> (r: Vec<u8>)
    ensures
        r@ == sha256_of(m@),
        r@.len() == 32,
{
    <sha2::Sha256 as sha2::Digest>::digest(m).to_vec()
}

/// Relies on `hex::encode`: lowercase hex, two digits per byte.
#[verifier::external_body]
pub(crate) fn hex_encode(b: &[u8]) -> (r: String)
    ensures
        r@ == hex_of(b@),
{
    hex::encode(b)
}

/// Relies on `ToString` for `u64`: its `Display` writes the decimal digits
/// without sign or leading zeros.
#[verifier::external_body]
pub(crate) fn u64_to_decimal(n: u64) -> (r: String)
    ensures
        r@ == decimal_of(n as nat),
{
    n.to_string()
}

/// Relies on `ed25519_dalek::SigningKey::verifying_key`: the 32-byte
/// public key of a secret key.
#[verifier::external_body]
pub(crate) fn ed25519_public_key(secret: &[u8]) -> (r: Vec<u8>)
    requires
        secret@.len() == 32,
    ensures
        r@ == ed25519_public_of(secret@),
        r@.len() == 32,
{
    let bytes: [u8; 32] = secret.try_into().unwrap();
    ed25519_dalek::SigningKey::from_bytes(&bytes).verifying_key().to_bytes().to_vec()
}

/// Relies on `ed25519_dalek::SigningKey::sign`: a 64-byte signature that
/// verification accepts under the key's own public key.
#[verifier::external_body]
pub(crate) fn ed25519_sign(secret: &[u8], message: &[u8]) -> (r: Vec<u8>)
    requires
        secret@.len() == 32,
    ensures
        r@ == ed25519_signature_of(secret@, message@),
        r@.len() == 64,
        ed25519_accepts(ed25519_public_of(secret@), message@, r@),
{
    let bytes: [u8; 32] = secret.try_into().unwrap();
    let key = ed25519_dalek::SigningKey::from_bytes(&bytes);
    <ed25519_dalek::SigningKey as ed25519_dalek::Signer<ed25519_dalek::Signature>>::sign(
        &key,
        message,
    ).to_bytes().to_vec()
}

/// Relies on `ed25519_dalek::VerifyingKey::verify`: whether the signature
/// on the message is valid under the public key; a public key that does
/// not decode is rejected.
#[verifier::external_body]
pub(crate) fn ed25519_verify(public: &[u8], message: &[u8], signature: &[u8]) -> (r: bool)
    requires
        public@.len() == 32,
        signature@.len() == 64,
    ensures
        r == ed25519_accepts(public@, message@, signature@),
{
    let pk: [u8; 32] = public.try_into().unwrap();
    let sig: [u8; 64] = signature.try_into().unwrap();
    match ed25519_dalek::VerifyingKey::from_bytes(&pk) {
        Ok(key) => <ed25519_dalek::VerifyingKey as ed25519_dalek::Verifier<
            ed25519_dalek::Signature,
        >>::verify(&key, message, &ed25519_dalek::Signature::from_bytes(&sig)).is_ok(),
        Err(_) => false,
    }
}

/// Relies on `rand::RngCore::fill_bytes` on the thread-local generator:
/// 32 bytes of entropy, nothing known of their values.
#[verifier::external_body]
pub(crate) fn random_32_bytes() -> (r: Vec<u8>)
    ensures
        r@.len() == 32,
{
    let mut bytes = vec![0u8; 32];
    rand::RngCore::fill_bytes(&mut rand::thread_rng(), &mut bytes);
    bytes
}

/// Appends the bytes of `src` to `dst`.
pub fn append_bytes(dst: &mut Vec<u8>, src: &[u8])
    ensures
        final(dst)@ == old(dst)@ + src@,
{
    let mut i: usize = 0;
    while i < src.len()
        invariant
            i <= src@.len(),
            dst@ == old(dst)@ + src@.subrange(0, i as int),
        decreases src@.len() - i,
    {
        dst.push(src[i]);
        i = i + 1;
        assert(src@.subrange(0, i as int) =~= src@.subrange(0, i - 1) + seq![src@[i - 1]]);
    }
    assert(src@.subrange(0, src@.len() as int) =~= src@);
}

/// The low `n` bytes of `v`, least significant first.
pub open spec fn le_bytes(v: nat, n: nat) -> Seq<u8>
    decreases n,
{
    if n == 0 {
        Seq::empty()
    } else {
        seq![(v % 256) as u8] + le_bytes(v / 256, (n - 1) as nat)
    }
}

/// The little-endian encoding of the low `n` bytes of `v`.
pub fn le_bytes_of(v: u64, n: usize) -> (r: Vec<u8>)
    requires
        n <= 8,
    ensures
        r@ == le_bytes(v as nat, n as nat),
{
    let mut out: Vec<u8> = Vec::new();
    let mut x: u64 = v;
    let mut i: usize = 0;
    while i < n
        invariant
            i <= n,
            out@ + le_bytes(x as nat, (n - i) as nat) == le_bytes(v as nat, n as nat),
        decreases n - i,
    {
        let ghost before = out@;
        out.push((x % 256) as u8);
        assert(le_bytes(x as nat, (n - i) as nat) == seq![(x % 256) as u8] + le_bytes(
            (x / 256) as nat,
            (n - i - 1) as nat,
        ));
        assert(out@ + le_bytes((x / 256) as nat, (n - i - 1) as nat) =~= before + le_bytes(
            x as nat,
            (n - i) as nat,
        ));
        x = x / 256;
        i = i + 1;
    }
    assert(out@ =~= out@ + le_bytes(x as nat, 0));
    out
}

/// The little-endian encoding of a `u64`, as `u64::to_le_bytes` gives it.
pub fn u64_le_bytes(v: u64) -> (r: Vec<u8>)
    ensures
        r@ == le_bytes(v as nat, 8),
{
    le_bytes_of(v, 8)
}

/// Whether `b` is hex text: an even number of bytes, each an ASCII digit
/// or a letter from `a` to `f` in either case.
pub open spec fn is_hex_text(b: Seq<u8>) -> bool {
    &&& b.len() % 2 == 0
    &&& forall|i: int|
        0 <= i < b.len() ==> {
            let c = #[trigger] b[i];
            (48 <= c <= 57) || (65 <= c <= 70) || (97 <= c <= 102)
        }
}

/// The value of a hex digit.
pub open spec fn hex_value(c: u8) -> int {
    if 48 <= c <= 57 {
        c - 48
    } else if 65 <= c <= 70 {
        c - 55
    } else {
        c - 87
    }
}

/// The bytes that hex text stands for, two digits per byte, high nibble
/// first.
pub open spec fn hex_decoded(t: Seq<u8>) -> Seq<u8>
    decreases t.len(),
{
    if t.len() < 2 {
        Seq::empty()
    } else {
        seq![(16 * hex_value(t[0]) + hex_value(t[1])) as u8] + hex_decoded(
            t.subrange(2, t.len() as int),
        )
    }
}

/// Relies on `hex::decode`: it succeeds exactly on hex text, with the bytes
/// the text stands for.
#[verifier::external_body]
pub(crate) fn hex_decode(t: &[u8]) -> (r: Option<Vec<u8>>)
    ensures
        r is Some <==> is_hex_text(t@),
        r matches Some(b) ==> b@ == hex_decoded(t@),
{
    hex::decode(t).ok()
}

/// The BLAKE2b digest with an 8-byte output of a byte string.
pub uninterp spec fn blake2b_64(m: Seq<u8>) -> Seq<u8>;

/// Relies on `blake2b_simd::Params::hash` with `hash_length(8)`: the
/// BLAKE2b-64 digest of the input, 8 bytes long.
#[verifier::external_body]
pub(crate) fn blake2b_short_digest(m: &[u8]) -> (r: Vec<u8>)
    ensures
        r@ == blake2b_64(m@),
        r@.len() == 8,
{
    blake2b_simd::Params::new().hash_length(8).hash(m).as_bytes().to_vec()
}

/// The 64-byte BIP-39 seed of a mnemonic phrase with an empty passphrase,
/// or nothing where the phrase is not a valid mnemonic.
pub uninterp spec fn bip39_seed_of(phrase: Seq<char>) -> Option<Seq<u8>>;

/// Relies on `bip39::Mnemonic::parse_normalized` and `Mnemonic::to_seed`
/// with an empty passphrase: the phrase's 64-byte seed, or nothing where
/// parsing fails.
#[verifier::external_body]
pub(crate) fn mnemonic_seed(phrase: &str) -> (r: Option<Vec<u8>>)
    ensures
        r matches Some(s) ==> bip39_seed_of(phrase@) == Some(s@) && s@.len() == 64,
        r is None ==> bip39_seed_of(phrase@) is None,
{
    match bip39::Mnemonic::parse_normalized(phrase) {
        Ok(m) => Some(m.to_seed("").to_vec()),
        Err(_) => None,
    }
}


/// The decimal text of a signed integer: a minus sign before the digits of
/// a negative one.
pub open spec fn signed_decimal_of(n: int) -> Seq<char> {
    if n < 0 {
        seq!['-'] + decimal_of((-n) as nat)
    } else {
        decimal_of(n as nat)
    }
}

/// Relies on `ToString` for `i64`: its `Display` writes a minus sign for a
/// negative value, then the decimal digits without leading zeros.
#[verifier::external_body]
pub(crate) fn i64_to_decimal(n: i64) -> (r: String)
    ensures
        r@ == signed_decimal_of(n as int),
{
    n.to_string()
}

/// Relies on `chrono::Utc::now` and `DateTime::timestamp`: the current
/// Unix time in seconds, nothing known of its value.
#[verifier::external_body]
pub(crate) fn unix_timestamp_now() -> (r: i64) {
    chrono::Utc::now().timestamp()
}


/// The pieces of a text between slashes, as `str::split('/')` gives them.
pub open spec fn split_slash(s: Seq<char>) -> Seq<Seq<char>>
    decreases s.len(),
{
    if s.len() == 0 {
        seq![Seq::empty()]
    } else {
        let head = split_slash(s.drop_last());
        if s.last() == '/' {
            head.push(Seq::empty())
        } else {
            head.update(head.len() - 1, head.last().push(s.last()))
        }
    }
}

/// Whether BIP-32 accepts a child step: a number below 2^31, with an
/// optional trailing `'` or `h` for a hardened step.
pub open spec fn child_step_valid(step: Seq<char>) -> bool {
    let body = if step.len() > 0 && (step.last() == '\'' || step.last() == 'h') {
        step.drop_last()
    } else {
        step
    };
    u32_parse_of(body) matches Some(n) && n < 0x8000_0000
}

/// Whether BIP-32 accepts a text as a derivation path: `m`, then child
/// steps, all separated by slashes.
pub open spec fn bip32_path_valid(path: Seq<char>) -> bool {
    let pieces = split_slash(path);
    &&& pieces[0] == "m"@
    &&& forall|i: int| 1 <= i < pieces.len() ==> child_step_valid(#[trigger] pieces[i])
}

/// Relies on `bip32::DerivationPath::from_str`: the text split at `/` must
/// start with `m`, and every further piece must parse as a `ChildNumber`
/// (a `u32` below 2^31, with an optional `'` or `h` suffix).
#[verifier::external_body]
pub(crate) fn derivation_path_parses(path: &str) -> (r: bool)
    ensures
        r == bip32_path_valid(path@),
{
    <bip32::DerivationPath as std::str::FromStr>::from_str(path).is_ok()
}


/// The 32-byte PBKDF2-HMAC-SHA256 key stretched from a password and salt.
pub uninterp spec fn pbkdf2_sha256_of(password: Seq<u8>, salt: Seq<u8>, rounds: u32) -> Seq<u8>;

/// Relies on `pbkdf2::pbkdf2` with `Hmac<Sha256>`: a 32-byte key. HMAC
/// takes keys of any length, so the call does not fail.
#[verifier::external_body]
pub(crate) fn pbkdf2_sha256(password: &[u8], salt: &[u8], rounds: u32) -> (r: Vec<u8>)
    ensures
        r@ == pbkdf2_sha256_of(password@, salt@, rounds),
        r@.len() == 32,
{
    let mut key = [0u8; 32];
    let _ = pbkdf2::pbkdf2::<hmac::Hmac<sha2::Sha256>>(password, salt, rounds, &mut key);
    key.to_vec()
}

/// The AES-256-GCM ciphertext (with its tag) of a plaintext.
pub uninterp spec fn aes_gcm_seal_of(key: Seq<u8>, nonce: Seq<u8>, plaintext: Seq<u8>) -> Seq<u8>;

/// The plaintext AES-256-GCM recovers from a ciphertext, or nothing where
/// authentication fails.
pub uninterp spec fn aes_gcm_open_of(key: Seq<u8>, nonce: Seq<u8>, ciphertext: Seq<u8>) -> Option<
    Seq<u8>,
>;

/// The longest plaintext AES-GCM seals: 2^36 bytes.
pub const AES_GCM_MAX_PLAINTEXT: u64 = 68719476736;

/// Relies on `aes_gcm::Aes256Gcm` and `Aead::encrypt`: the ciphertext, which
/// decryption under the same key and nonce turns back into the plaintext;
/// nothing only where the plaintext is longer than 2^36 bytes (`P_MAX`).
#[verifier::external_body]
pub(crate) fn aes_gcm_encrypt(key: &[u8], nonce: &[u8], plaintext: &[u8]) -> (r: Option<Vec<u8>>)
    requires
        key@.len() == 32,
        nonce@.len() == 12,
    ensures
        plaintext@.len() <= AES_GCM_MAX_PLAINTEXT ==> r is Some,
        r matches Some(c) ==> c@ == aes_gcm_seal_of(key@, nonce@, plaintext@) && aes_gcm_open_of(
            key@,
            nonce@,
            c@,
        ) == Some(plaintext@),
{
    let cipher = <aes_gcm::Aes256Gcm as aes_gcm::KeyInit>::new(
        aes_gcm::Key::<aes_gcm::Aes256Gcm>::from_slice(key),
    );
    aes_gcm::aead::Aead::encrypt(&cipher, aes_gcm::Nonce::from_slice(nonce), plaintext).ok()
}

/// Relies on `aes_gcm::Aes256Gcm` and `Aead::decrypt`: the plaintext, or
/// nothing where authentication fails.
#[verifier::external_body]
pub(crate) fn aes_gcm_decrypt(key: &[u8], nonce: &[u8], ciphertext: &[u8]) -> (r: Option<Vec<u8>>)
    requires
        key@.len() == 32,
        nonce@.len() == 12,
    ensures
        r matches Some(p) ==> aes_gcm_open_of(key@, nonce@, ciphertext@) == Some(p@),
        r is None ==> aes_gcm_open_of(key@, nonce@, ciphertext@) is None,
{
    let cipher = <aes_gcm::Aes256Gcm as aes_gcm::KeyInit>::new(
        aes_gcm::Key::<aes_gcm::Aes256Gcm>::from_slice(key),
    );
    aes_gcm::aead::Aead::decrypt(&cipher, aes_gcm::Nonce::from_slice(nonce), ciphertext).ok()
}

/// Relies on `rand::Rng::gen` on the thread-local generator for a
/// `[u8; 12]`: twelve bytes of entropy, nothing known of their values.
#[verifier::external_body]
pub(crate) fn random_12_bytes() -> (r: Vec<u8>)
    ensures
        r@.len() == 12,
{
    let bytes: [u8; 12] = rand::Rng::gen(&mut rand::thread_rng());
    bytes.to_vec()
}


/// The 32-byte private key of the BIP-32 master key of a seed, or nothing
/// where BIP-32 rejects the seed.
pub uninterp spec fn bip32_master_of(seed: Seq<u8>) -> Option<Seq<u8>>;

/// Relies on `bip32::XPrv::new` and `to_bytes`: the master private key of
/// a seed; seeds of other than 16, 32 or 64 bytes are rejected.
#[verifier::external_body]
pub(crate) fn bip32_master_key(seed: &[u8]) -> (r: Option<Vec<u8>>)
    ensures
        r matches Some(k) ==> bip32_master_of(seed@) == Some(k@) && k@.len() == 32,
        r is None ==> bip32_master_of(seed@) is None,
        seed@.len() != 16 && seed@.len() != 32 && seed@.len() != 64 ==> r is None,
{
    match bip32::XPrv::new(seed) {
        Ok(k) => Some(k.to_bytes().to_vec()),
        Err(_) => None,
    }
}


/// The English BIP-39 mnemonic of some entropy, or nothing where BIP-39
/// rejects the entropy.
pub uninterp spec fn bip39_phrase_of(entropy: Seq<u8>) -> Option<Seq<char>>;

/// Relies on `bip39::Mnemonic::from_entropy` and its `Display`: the
/// mnemonic of the entropy, written as words; entropy of 16 to 32 bytes in
/// steps of 4 is accepted.
#[verifier::external_body]
pub(crate) fn mnemonic_from_entropy(entropy: &[u8]) -> (r: Option<String>)
    ensures
        r matches Some(p) ==> bip39_phrase_of(entropy@) == Some(p@),
        r is None ==> bip39_phrase_of(entropy@) is None,
        16 <= entropy@.len() <= 32 && entropy@.len() % 4 == 0 ==> r is Some,
{
    match bip39::Mnemonic::from_entropy(entropy) {
        Ok(m) => Some(m.to_string()),
        Err(_) => None,
    }
}

/// Relies on `rand::random` for a `[u8; 16]`: sixteen bytes of entropy,
/// nothing known of their values.
#[verifier::external_body]
pub(crate) fn random_16_bytes() -> (r: Vec<u8>)
    ensures
        r@.len() == 16,
{
    rand::random::<[u8; 16]>().to_vec()
}


/// Relies on `chrono::Utc::now` and `DateTime::to_rfc3339`: the current
/// time as RFC 3339 text, nothing known of its value.
#[verifier::external_body]
pub(crate) fn now_rfc3339() -> (r: String) {
    chrono::Utc::now().to_rfc3339()
}


/// The value of a run of decimal digits.
pub open spec fn digits_value(d: Seq<char>) -> int
    decreases d.len(),
{
    if d.len() == 0 {
        0
    } else {
        digits_value(d.drop_last()) * 10 + ((d.last() as u32) - 48)
    }
}

/// A non-empty run of ASCII decimal digits.
pub open spec fn is_digits(d: Seq<char>) -> bool {
    d.len() > 0 && forall|i: int| 0 <= i < d.len() ==> '0' <= #[trigger] d[i] <= '9'
}

/// The `u32` a text spells: an optional `+`, then decimal digits whose
/// value fits; nothing otherwise.
pub open spec fn u32_parse_of(s: Seq<char>) -> Option<u32> {
    let d = if s.len() > 0 && s[0] == '+' {
        s.subrange(1, s.len() as int)
    } else {
        s
    };
    if is_digits(d) && digits_value(d) <= u32::MAX {
        Some(digits_value(d) as u32)
    } else {
        None
    }
}

/// Relies on `str::parse::<u32>` (`u32::from_str_radix` in base 10): an
/// optional `+`, then at least one ASCII digit, and a value that fits.
#[verifier::external_body]
pub(crate) fn parse_u32(s: &str) -> (r: Option<u32>)
    ensures
        r == u32_parse_of(s@),
{
    s.parse::<u32>().ok()
}


/// The public key BIP-32 derives along a path from the master key of some
/// key material, or nothing where the material, the path or a derivation
/// step is rejected.
pub uninterp spec fn bip32_child_public_of(material: Seq<u8>, path: Seq<char>) -> Option<Seq<u8>>;

/// Relies on `bip32::XPrv::new`, `DerivationPath::from_str`,
/// `XPrv::derive_child` and `public_key().to_bytes()`: the public key at the
/// end of the path, or nothing where a step fails.
#[verifier::external_body]
pub(crate) fn bip32_child_public_key(material: &[u8], path: &str) -> (r: Option<Vec<u8>>)
    ensures
        r matches Some(k) ==> bip32_child_public_of(material@, path@) == Some(k@),
        r is None ==> bip32_child_public_of(material@, path@) is None,
{
    let mut key = match bip32::XPrv::new(material) {
        Ok(k) => k,
        Err(_) => return None,
    };
    let steps = match <bip32::DerivationPath as std::str::FromStr>::from_str(path) {
        Ok(p) => p,
        Err(_) => return None,
    };
    for child in steps.iter() {
        key = match key.derive_child(child) {
            Ok(k) => k,
            Err(_) => return None,
        };
    }
    Some(key.public_key().to_bytes().to_vec())
}

} // verus!

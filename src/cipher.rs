//! The closed set of authenticated ciphers, and the registry that resolves an
//! algorithm identifier to one of them.

use aes_gcm::aead::{Aead, KeyInit};
use chacha20poly1305::aead::rand_core::RngCore;
use vstd::prelude::*;

verus! {

/// Largest plaintext, in bytes, that AES-GCM encrypts.
pub const AES_GCM_MAX_PLAINTEXT: u64 = 68719476736;

/// Largest plaintext, in bytes, that ChaCha20-Poly1305 encrypts without
/// exhausting its block counter: the keystream starts at block 1, so
/// `u32::MAX - 1` blocks of 64 bytes remain.
pub const CHACHA_MAX_PLAINTEXT: u64 = 274877906816;

/// Length of the authentication tag that each cipher appends.
pub const TAG_LEN: usize = 16;

/// What AES-256-GCM returns for a key, a nonce and a plaintext, with no
/// associated data.
pub uninterp spec fn aes256gcm_sealed(key: Seq<u8>, nonce: Seq<u8>, plaintext: Seq<u8>) -> Seq<u8>;

/// What AES-128-GCM returns for a key, a nonce and a plaintext, with no
/// associated data.
pub uninterp spec fn aes128gcm_sealed(key: Seq<u8>, nonce: Seq<u8>, plaintext: Seq<u8>) -> Seq<u8>;

/// What ChaCha20-Poly1305 returns for a key, a nonce and a plaintext, with no
/// associated data.
pub uninterp spec fn chacha20poly1305_sealed(
    key: Seq<u8>,
    nonce: Seq<u8>,
    plaintext: Seq<u8>,
) -> Seq<u8>;

#[derive(Clone, Copy, Debug, PartialEq, Eq, Structural)]
pub enum EncryptionMethod {
    Aes256Gcm,
    Aes128Gcm,
    ChaCha20Poly1305,
}

#[derive(Clone, Copy, Debug, PartialEq, Eq, Structural)]
pub enum CipherError {
    /// The algorithm identifier names no cipher of the registry.
    UnsupportedAlgorithm,
    /// The ciphertext does not authenticate under the key and nonce.
    AuthenticationFailure,
    /// The plaintext is longer than the cipher can encrypt.
    PlaintextTooLong,
    /// The operating system's random generator gave no bytes.
    RandomnessUnavailable,
}

impl EncryptionMethod {
    /// The identifier by which callers and records name the algorithm.
    pub open spec fn spec_name(self) -> Seq<char> {
        match self {
            EncryptionMethod::Aes256Gcm => "aes256gcm"@,
            EncryptionMethod::Aes128Gcm => "aes128gcm"@,
            EncryptionMethod::ChaCha20Poly1305 => "chacha20poly1305"@,
        }
    }

    pub open spec fn key_len(self) -> nat {
        match self {
            EncryptionMethod::Aes128Gcm => 16,
            _ => 32,
        }
    }

    pub open spec fn nonce_len(self) -> nat {
        12
    }

    pub open spec fn max_plaintext_len(self) -> nat {
        match self {
            EncryptionMethod::ChaCha20Poly1305 => CHACHA_MAX_PLAINTEXT as nat,
            _ => AES_GCM_MAX_PLAINTEXT as nat,
        }
    }

    /// The ciphertext, tag included, of `plaintext` under `key` and `nonce`.
    pub open spec fn sealed(self, key: Seq<u8>, nonce: Seq<u8>, plaintext: Seq<u8>) -> Seq<u8> {
        match self {
            EncryptionMethod::Aes256Gcm => aes256gcm_sealed(key, nonce, plaintext),
            EncryptionMethod::Aes128Gcm => aes128gcm_sealed(key, nonce, plaintext),
            EncryptionMethod::ChaCha20Poly1305 => chacha20poly1305_sealed(key, nonce, plaintext),
        }
    }
}

/// The method whose identifier is `name`, if any.
pub open spec fn method_named(name: Seq<char>) -> Option<EncryptionMethod> {
    if name == EncryptionMethod::Aes256Gcm.spec_name() {
        Some(EncryptionMethod::Aes256Gcm)
    } else if name == EncryptionMethod::Aes128Gcm.spec_name() {
        Some(EncryptionMethod::Aes128Gcm)
    } else if name == EncryptionMethod::ChaCha20Poly1305.spec_name() {
        Some(EncryptionMethod::ChaCha20Poly1305)
    } else {
        None
    }
}

/// `plaintext` is a message that `m` encrypts, under a key and nonce of the
/// right lengths, to exactly `ciphertext`.
pub open spec fn opens_to(
    m: EncryptionMethod,
    key: Seq<u8>,
    nonce: Seq<u8>,
    ciphertext: Seq<u8>,
    plaintext: Seq<u8>,
) -> bool {
    &&& key.len() == m.key_len()
    &&& nonce.len() == m.nonce_len()
    &&& plaintext.len() <= m.max_plaintext_len()
    &&& ciphertext.len() == plaintext.len() + TAG_LEN
    &&& m.sealed(key, nonce, plaintext) == ciphertext
}

/// What decryption owes: the one plaintext that encrypts to the ciphertext,
/// or an authentication failure when there is none.
pub open spec fn decrypts_to(
    m: EncryptionMethod,
    key: Seq<u8>,
    nonce: Seq<u8>,
    ciphertext: Seq<u8>,
    r: Result<Seq<u8>, CipherError>,
) -> bool {
    match r {
        Ok(p) => {
            &&& opens_to(m, key, nonce, ciphertext, p)
            &&& forall|q: Seq<u8>| #[trigger]
                opens_to(m, key, nonce, ciphertext, q) ==> q == p
        },
        Err(e) => {
            &&& e == CipherError::AuthenticationFailure
            &&& forall|q: Seq<u8>| !#[trigger] opens_to(m, key, nonce, ciphertext, q)
        },
    }
}

/// What encryption owes: fresh key and nonce of the cipher's lengths and the
/// sealed plaintext, or an error that says why there are none.
pub open spec fn encrypts_to(
    m: EncryptionMethod,
    plaintext: Seq<u8>,
    r: Result<(Seq<u8>, Seq<u8>, Seq<u8>), CipherError>,
) -> bool {
    match r {
        Ok((ciphertext, key, nonce)) => opens_to(m, key, nonce, ciphertext, plaintext),
        Err(e) => {
            ||| e == CipherError::PlaintextTooLong && plaintext.len() > m.max_plaintext_len()
            ||| e == CipherError::RandomnessUnavailable && plaintext.len()
                <= m.max_plaintext_len()
        },
    }
}

pub open spec fn sealed_view(r: Result<(Vec<u8>, Vec<u8>, Vec<u8>), CipherError>) -> Result<
    (Seq<u8>, Seq<u8>, Seq<u8>),
    CipherError,
> {
    match r {
        Ok((c, k, n)) => Ok((c@, k@, n@)),
        Err(e) => Err(e),
    }
}

pub open spec fn opened_view(r: Result<Vec<u8>, CipherError>) -> Result<Seq<u8>, CipherError> {
    match r {
        Ok(p) => Ok(p@),
        Err(e) => Err(e),
    }
}

/// Relies on `OsRng::try_fill_bytes` (rand_core, as re-exported by the AEAD
/// crates): on success the buffer is filled from the operating system's
/// generator. Nothing is promised of the bytes themselves.
#[verifier::external_body]
pub(crate) fn random_bytes(len: usize) -> (r: Option<Vec<u8>>)
    ensures
        r matches Some(b) ==> b@.len() == len,
{
    let mut buf = vec![0u8; len];
    match chacha20poly1305::aead::OsRng.try_fill_bytes(&mut buf) {
        Ok(()) => Some(buf),
        Err(_) => None,
    }
}

/// Relies on `Aead::encrypt` of `aes_gcm::Aes256Gcm` with no associated data:
/// it fails exactly when the plaintext exceeds `aes_gcm::P_MAX` (2^36 bytes),
/// and otherwise appends a 16-byte tag to the encrypted plaintext.
/// `Key::from_slice` and `Nonce::from_slice` panic on other lengths.
#[verifier::external_body]
fn aes256gcm_encrypt(key: &[u8], nonce: &[u8], plaintext: &[u8]) -> (r: Option<Vec<u8>>)
    requires
        key@.len() == 32,
        nonce@.len() == 12,
    ensures
        r is Some <==> plaintext@.len() <= AES_GCM_MAX_PLAINTEXT,
        r matches Some(c) ==> c@ == aes256gcm_sealed(key@, nonce@, plaintext@) && c@.len()
            == plaintext@.len() + 16,
{
    let cipher = aes_gcm::Aes256Gcm::new(aes_gcm::Key::<aes_gcm::Aes256Gcm>::from_slice(key));
    cipher.encrypt(aes_gcm::aead::Nonce::<aes_gcm::Aes256Gcm>::from_slice(nonce), plaintext).ok()
}

/// Relies on `Aead::decrypt` of `aes_gcm::Aes256Gcm` with no associated data:
/// it returns a plaintext exactly when the tag verifies, and that plaintext is
/// the one whose encryption under the same key and nonce is the ciphertext
/// (counter-mode encryption is inverted, the tag recomputed over the same bytes).
#[verifier::external_body]
fn aes256gcm_decrypt(key: &[u8], nonce: &[u8], ciphertext: &[u8]) -> (r: Option<Vec<u8>>)
    requires
        key@.len() == 32,
        nonce@.len() == 12,
        ciphertext@.len() <= AES_GCM_MAX_PLAINTEXT + 16,
    ensures
        r matches Some(p) ==> p@.len() <= AES_GCM_MAX_PLAINTEXT && ciphertext@.len() == p@.len() + 16
            && aes256gcm_sealed(key@, nonce@, p@) == ciphertext@,
        r is None ==> forall|p: Seq<u8>|
            p.len() <= AES_GCM_MAX_PLAINTEXT ==> #[trigger] aes256gcm_sealed(key@, nonce@, p) != ciphertext@,
        r matches Some(q) ==> forall|p: Seq<u8>|
            p.len() <= AES_GCM_MAX_PLAINTEXT && #[trigger] aes256gcm_sealed(key@, nonce@, p) == ciphertext@ ==> p
                == q@,
{
    let cipher = aes_gcm::Aes256Gcm::new(aes_gcm::Key::<aes_gcm::Aes256Gcm>::from_slice(key));
    cipher.decrypt(aes_gcm::aead::Nonce::<aes_gcm::Aes256Gcm>::from_slice(nonce), ciphertext).ok()
}

/// Relies on `Aead::encrypt` of `aes_gcm::Aes128Gcm` with no associated data:
/// it fails exactly when the plaintext exceeds `aes_gcm::P_MAX` (2^36 bytes),
/// and otherwise appends a 16-byte tag to the encrypted plaintext.
/// `Key::from_slice` and `Nonce::from_slice` panic on other lengths.
#[verifier::external_body]
fn aes128gcm_encrypt(key: &[u8], nonce: &[u8], plaintext: &[u8]) -> (r: Option<Vec<u8>>)
    requires
        key@.len() == 16,
        nonce@.len() == 12,
    ensures
        r is Some <==> plaintext@.len() <= AES_GCM_MAX_PLAINTEXT,
        r matches Some(c) ==> c@ == aes128gcm_sealed(key@, nonce@, plaintext@) && c@.len()
            == plaintext@.len() + 16,
{
    let cipher = aes_gcm::Aes128Gcm::new(aes_gcm::Key::<aes_gcm::Aes128Gcm>::from_slice(key));
    cipher.encrypt(aes_gcm::aead::Nonce::<aes_gcm::Aes128Gcm>::from_slice(nonce), plaintext).ok()
}

/// Relies on `Aead::decrypt` of `aes_gcm::Aes128Gcm` with no associated data:
/// it returns a plaintext exactly when the tag verifies, and that plaintext is
/// the one whose encryption under the same key and nonce is the ciphertext.
#[verifier::external_body]
fn aes128gcm_decrypt(key: &[u8], nonce: &[u8], ciphertext: &[u8]) -> (r: Option<Vec<u8>>)
    requires
        key@.len() == 16,
        nonce@.len() == 12,
        ciphertext@.len() <= AES_GCM_MAX_PLAINTEXT + 16,
    ensures
        r matches Some(p) ==> p@.len() <= AES_GCM_MAX_PLAINTEXT && ciphertext@.len() == p@.len() + 16
            && aes128gcm_sealed(key@, nonce@, p@) == ciphertext@,
        r is None ==> forall|p: Seq<u8>|
            p.len() <= AES_GCM_MAX_PLAINTEXT ==> #[trigger] aes128gcm_sealed(key@, nonce@, p) != ciphertext@,
        r matches Some(q) ==> forall|p: Seq<u8>|
            p.len() <= AES_GCM_MAX_PLAINTEXT && #[trigger] aes128gcm_sealed(key@, nonce@, p) == ciphertext@ ==> p
                == q@,
{
    let cipher = aes_gcm::Aes128Gcm::new(aes_gcm::Key::<aes_gcm::Aes128Gcm>::from_slice(key));
    cipher.decrypt(aes_gcm::aead::Nonce::<aes_gcm::Aes128Gcm>::from_slice(nonce), ciphertext).ok()
}

/// Relies on `Aead::encrypt` of `chacha20poly1305::ChaCha20Poly1305` with no
/// associated data: within `CHACHA_MAX_PLAINTEXT` it succeeds and appends a
/// 16-byte tag to the encrypted plaintext. Longer plaintexts may exhaust the
/// ChaCha20 block counter, where `apply_keystream` panics, and are left out.
/// `Key::from_slice` and `Nonce::from_slice` panic on other lengths.
#[verifier::external_body]
fn chacha20poly1305_encrypt(key: &[u8], nonce: &[u8], plaintext: &[u8]) -> (r: Option<Vec<u8>>)
    requires
        key@.len() == 32,
        nonce@.len() == 12,
        plaintext@.len() <= CHACHA_MAX_PLAINTEXT,
    ensures
        r is Some,
        r matches Some(c) ==> c@ == chacha20poly1305_sealed(key@, nonce@, plaintext@) && c@.len()
            == plaintext@.len() + 16,
{
    let cipher = chacha20poly1305::ChaCha20Poly1305::new(chacha20poly1305::Key::from_slice(key));
    cipher.encrypt(chacha20poly1305::Nonce::from_slice(nonce), plaintext).ok()
}

/// Relies on `Aead::decrypt` of `chacha20poly1305::ChaCha20Poly1305` with no
/// associated data: it returns a plaintext exactly when the Poly1305 tag
/// verifies, and that plaintext is the one whose encryption under the same key
/// and nonce is the ciphertext (the keystream is applied to the same bytes).
/// The bound on the ciphertext keeps the keystream within the block counter.
#[verifier::external_body]
fn chacha20poly1305_decrypt(key: &[u8], nonce: &[u8], ciphertext: &[u8]) -> (r: Option<Vec<u8>>)
    requires
        key@.len() == 32,
        nonce@.len() == 12,
        ciphertext@.len() <= CHACHA_MAX_PLAINTEXT + 16,
    ensures
        r matches Some(p) ==> p@.len() <= CHACHA_MAX_PLAINTEXT && ciphertext@.len() == p@.len() + 16
            && chacha20poly1305_sealed(key@, nonce@, p@) == ciphertext@,
        r is None ==> forall|p: Seq<u8>|
            p.len() <= CHACHA_MAX_PLAINTEXT ==> #[trigger] chacha20poly1305_sealed(key@, nonce@, p) != ciphertext@,
        r matches Some(q) ==> forall|p: Seq<u8>|
            p.len() <= CHACHA_MAX_PLAINTEXT && #[trigger] chacha20poly1305_sealed(key@, nonce@, p) == ciphertext@ ==> p
                == q@,
{
    let cipher = chacha20poly1305::ChaCha20Poly1305::new(chacha20poly1305::Key::from_slice(key));
    cipher.decrypt(chacha20poly1305::Nonce::from_slice(nonce), ciphertext).ok()
}

/// `a` and `b` hold the same characters.
pub fn same_text(a: &str, b: &str) -> (r: bool)
    ensures
        r == (a@ == b@),
{
    a.to_owned() == b.to_owned()
}

impl EncryptionMethod {
    /// The identifier of the algorithm, as records and callers spell it.
    pub fn as_str(&self) -> (r: &'static str)
        ensures
            r@ == self.spec_name(),
    {
        match self {
            EncryptionMethod::Aes256Gcm => "aes256gcm",
            EncryptionMethod::Aes128Gcm => "aes128gcm",
            EncryptionMethod::ChaCha20Poly1305 => "chacha20poly1305",
        }
    }

    /// The algorithm named `name`, or `None` for an identifier the registry
    /// does not know.
    pub fn from_name(name: &str) -> (r: Option<EncryptionMethod>)
        ensures
            r == method_named(name@),
    {
        if same_text(name, "aes256gcm") {
            Some(EncryptionMethod::Aes256Gcm)
        } else if same_text(name, "aes128gcm") {
            Some(EncryptionMethod::Aes128Gcm)
        } else if same_text(name, "chacha20poly1305") {
            Some(EncryptionMethod::ChaCha20Poly1305)
        } else {
            None
        }
    }

    pub fn key_length(&self) -> (r: usize)
        ensures
            r == self.key_len(),
    {
        match self {
            EncryptionMethod::Aes128Gcm => 16,
            _ => 32,
        }
    }

    pub fn nonce_length(&self) -> (r: usize)
        ensures
            r == self.nonce_len(),
    {
        12
    }

    pub fn max_plaintext_length(&self) -> (r: u64)
        ensures
            r == self.max_plaintext_len(),
    {
        match self {
            EncryptionMethod::ChaCha20Poly1305 => CHACHA_MAX_PLAINTEXT,
            _ => AES_GCM_MAX_PLAINTEXT,
        }
    }

    /// Encrypts `plaintext` under a given key and nonce.
    pub fn seal(&self, key: &[u8], nonce: &[u8], plaintext: &[u8]) -> (r: Result<
        Vec<u8>,
        CipherError,
    >)
        requires
            key@.len() == self.key_len(),
            nonce@.len() == self.nonce_len(),
        ensures
            match r {
                Ok(c) => opens_to(*self, key@, nonce@, c@, plaintext@),
                Err(e) => e == CipherError::PlaintextTooLong && plaintext@.len()
                    > self.max_plaintext_len(),
            },
    {
        if plaintext.len() as u64 > self.max_plaintext_length() {
            return Err(CipherError::PlaintextTooLong);
        }
        let sealed = match self {
            EncryptionMethod::Aes256Gcm => aes256gcm_encrypt(key, nonce, plaintext),
            EncryptionMethod::Aes128Gcm => aes128gcm_encrypt(key, nonce, plaintext),
            EncryptionMethod::ChaCha20Poly1305 => chacha20poly1305_encrypt(key, nonce, plaintext),
        };
        match sealed {
            Some(c) => Ok(c),
            None => Err(CipherError::PlaintextTooLong),
        }
    }
}


/// An authenticated cipher: encryption under a fresh key and nonce, and
/// decryption that authenticates the ciphertext before it returns anything.
pub trait Cipher {
    /// The algorithm this cipher implements.
    spec fn method(&self) -> EncryptionMethod;

    /// Encrypts `data` under a key and nonce drawn at random for this call;
    /// returns the ciphertext (tag included), the key and the nonce.
    fn encrypt(&self, data: &[u8]) -> (r: Result<(Vec<u8>, Vec<u8>, Vec<u8>), CipherError>)
        ensures
            encrypts_to(self.method(), data@, sealed_view(r)),
    ;

    /// Decrypts `data` under `key` and `nonce`; fails with
    /// `AuthenticationFailure` unless the ciphertext authenticates.
    fn decrypt(&self, data: &[u8], key: &[u8], nonce: &[u8]) -> (r: Result<Vec<u8>, CipherError>)
        ensures
            decrypts_to(self.method(), key@, nonce@, data@, opened_view(r)),
    ;
}

impl Cipher for EncryptionMethod {
    open spec fn method(&self) -> EncryptionMethod {
        *self
    }

    fn encrypt(&self, plaintext: &[u8]) -> (r: Result<
        (Vec<u8>, Vec<u8>, Vec<u8>),
        CipherError,
    >)
    {
        if plaintext.len() as u64 > self.max_plaintext_length() {
            return Err(CipherError::PlaintextTooLong);
        }
        let key = match random_bytes(self.key_length()) {
            Some(k) => k,
            None => return Err(CipherError::RandomnessUnavailable),
        };
        let nonce = match random_bytes(self.nonce_length()) {
            Some(n) => n,
            None => return Err(CipherError::RandomnessUnavailable),
        };
        match self.seal(key.as_slice(), nonce.as_slice(), plaintext) {
            Ok(c) => Ok((c, key, nonce)),
            Err(e) => Err(e),
        }
    }

    fn decrypt(&self, ciphertext: &[u8], key: &[u8], nonce: &[u8]) -> (r: Result<
        Vec<u8>,
        CipherError,
    >)
    {
        if key.len() != self.key_length() || nonce.len() != self.nonce_length() {
            return Err(CipherError::AuthenticationFailure);
        }
        if ciphertext.len() as u64 > self.max_plaintext_length() + TAG_LEN as u64 {
            return Err(CipherError::AuthenticationFailure);
        }
        let opened = match self {
            EncryptionMethod::Aes256Gcm => aes256gcm_decrypt(key, nonce, ciphertext),
            EncryptionMethod::Aes128Gcm => aes128gcm_decrypt(key, nonce, ciphertext),
            EncryptionMethod::ChaCha20Poly1305 => chacha20poly1305_decrypt(key, nonce, ciphertext),
        };
        match opened {
            Some(p) => Ok(p),
            None => Err(CipherError::AuthenticationFailure),
        }
    }
}

/// AES-256-GCM, with a 12-byte nonce and a 16-byte tag.
pub struct Aes256GcmCipher;

impl Cipher for Aes256GcmCipher {
    open spec fn method(&self) -> EncryptionMethod {
        EncryptionMethod::Aes256Gcm
    }

    fn encrypt(&self, data: &[u8]) -> (r: Result<(Vec<u8>, Vec<u8>, Vec<u8>), CipherError>) {
        EncryptionMethod::Aes256Gcm.encrypt(data)
    }

    fn decrypt(&self, data: &[u8], key: &[u8], nonce: &[u8]) -> (r: Result<Vec<u8>, CipherError>) {
        EncryptionMethod::Aes256Gcm.decrypt(data, key, nonce)
    }
}

/// AES-128-GCM, with a 12-byte nonce and a 16-byte tag.
pub struct Aes128GcmCipher;

impl Cipher for Aes128GcmCipher {
    open spec fn method(&self) -> EncryptionMethod {
        EncryptionMethod::Aes128Gcm
    }

    fn encrypt(&self, data: &[u8]) -> (r: Result<(Vec<u8>, Vec<u8>, Vec<u8>), CipherError>) {
        EncryptionMethod::Aes128Gcm.encrypt(data)
    }

    fn decrypt(&self, data: &[u8], key: &[u8], nonce: &[u8]) -> (r: Result<Vec<u8>, CipherError>) {
        EncryptionMethod::Aes128Gcm.decrypt(data, key, nonce)
    }
}

/// ChaCha20-Poly1305, with a 12-byte nonce and a 16-byte tag.
pub struct ChaChaCipher;

impl Cipher for ChaChaCipher {
    open spec fn method(&self) -> EncryptionMethod {
        EncryptionMethod::ChaCha20Poly1305
    }

    fn encrypt(&self, data: &[u8]) -> (r: Result<(Vec<u8>, Vec<u8>, Vec<u8>), CipherError>) {
        EncryptionMethod::ChaCha20Poly1305.encrypt(data)
    }

    fn decrypt(&self, data: &[u8], key: &[u8], nonce: &[u8]) -> (r: Result<Vec<u8>, CipherError>) {
        EncryptionMethod::ChaCha20Poly1305.decrypt(data, key, nonce)
    }
}

/// The registry: resolves an algorithm identifier to its cipher, or fails
/// with `UnsupportedAlgorithm`.
pub fn get_cipher(method: &str) -> (r: Result<EncryptionMethod, CipherError>)
    ensures
        match method_named(method@) {
            Some(m) => r == Ok::<EncryptionMethod, CipherError>(m),
            None => r == Err::<EncryptionMethod, CipherError>(CipherError::UnsupportedAlgorithm),
        },
{
    match EncryptionMethod::from_name(method) {
        Some(m) => Ok(m),
        None => Err(CipherError::UnsupportedAlgorithm),
    }
}

/// Each algorithm's identifier resolves back to that algorithm.
pub proof fn lemma_name_resolves(m: EncryptionMethod)
    ensures
        method_named(m.spec_name()) == Some(m),
{
    reveal_strlit("aes256gcm");
    reveal_strlit("aes128gcm");
    reveal_strlit("chacha20poly1305");
    assert("aes256gcm"@[3] != "aes128gcm"@[3]);
    assert("aes256gcm"@.len() != "chacha20poly1305"@.len());
    assert("aes128gcm"@.len() != "chacha20poly1305"@.len());
}

/// Decrypting a ciphertext under the key and nonce that encryption produced
/// with it gives back the plaintext, for every algorithm and plaintext.
pub proof fn lemma_round_trip(
    m: EncryptionMethod,
    plaintext: Seq<u8>,
    ciphertext: Seq<u8>,
    key: Seq<u8>,
    nonce: Seq<u8>,
    opened: Result<Seq<u8>, CipherError>,
)
    requires
        encrypts_to(m, plaintext, Ok((ciphertext, key, nonce))),
        decrypts_to(m, key, nonce, ciphertext, opened),
    ensures
        opened == Ok::<Seq<u8>, CipherError>(plaintext),
{
    assert(opens_to(m, key, nonce, ciphertext, plaintext));
}

/// A ciphertext changed after encryption never decrypts to the original
/// plaintext under the original key and nonce: decryption either fails or
/// yields the one message whose encryption is exactly the changed bytes.
pub proof fn lemma_changed_ciphertext_not_accepted_as_original(
    m: EncryptionMethod,
    plaintext: Seq<u8>,
    ciphertext: Seq<u8>,
    key: Seq<u8>,
    nonce: Seq<u8>,
    changed: Seq<u8>,
    opened: Result<Seq<u8>, CipherError>,
)
    requires
        encrypts_to(m, plaintext, Ok((ciphertext, key, nonce))),
        changed != ciphertext,
        decrypts_to(m, key, nonce, changed, opened),
    ensures
        opened != Ok::<Seq<u8>, CipherError>(plaintext),
        opened matches Ok(p) ==> opens_to(m, key, nonce, changed, p),
{
}

} // verus!

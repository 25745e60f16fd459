//! The cryptographic primitives, and the key that a shared secret gives.
use chacha20poly1305::aead::{Aead, KeyInit, OsRng};
use hmac::Mac;
use rand::RngCore;
use sha2::Digest;
use vstd::prelude::*;

verus! {

/// The SHA-256 digest of `data`.
pub uninterp spec fn sha256_of(data: Seq<u8>) -> Seq<u8>;

/// Calls `sha2::Sha256::digest`.
#[verifier::external_body]
pub(crate) fn sha256(data: &[u8]) -> (r: [u8; 32])
    ensures
        r@ == sha256_of(data@),
{
    sha2::Sha256::digest(data).into()
}

/// The HMAC-SHA256 of `message` under `key`.
pub uninterp spec fn hmac_sha256_of(key: Seq<u8>, message: Seq<u8>) -> Seq<u8>;

/// Calls `new_from_slice`, `update` and `finalize` of `hmac::Hmac<sha2::Sha256>`, which takes a key
/// of any length.
#[verifier::external_body]
pub(crate) fn hmac_sha256(key: &[u8], message: &[u8]) -> (r: [u8; 32])
    ensures
        r@ == hmac_sha256_of(key@, message@),
{
    let mut mac = <hmac::Hmac<sha2::Sha256> as Mac>::new_from_slice(key).expect("any key length is accepted");
    mac.update(message);
    mac.finalize().into_bytes().into()
}

/// Calls `fill_bytes` of the operating system's generator, `OsRng`, which overwrites every byte of
/// `dest`. The new bytes are whatever the system gives.
#[verifier::external_body]
pub(crate) fn fill_random(dest: &mut [u8])
    ensures
        final(dest)@.len() == old(dest)@.len(),
{
    OsRng.fill_bytes(dest)
}

/// The X25519 public key of a secret key.
pub uninterp spec fn x25519_public_of(secret: Seq<u8>) -> Seq<u8>;

/// Calls `PublicKey::from` on an `x25519_dalek::StaticSecret` made of the given bytes.
#[verifier::external_body]
pub(crate) fn x25519_public(secret: &[u8; 32]) -> (r: [u8; 32])
    ensures
        r@ == x25519_public_of(secret@),
{
    x25519_dalek::PublicKey::from(&x25519_dalek::StaticSecret::from(*secret)).to_bytes()
}

/// The X25519 secret that the owner of `secret` shares with the owner of `their_public`.
pub uninterp spec fn x25519_shared_of(secret: Seq<u8>, their_public: Seq<u8>) -> Seq<u8>;

/// Calls `x25519_dalek::StaticSecret::diffie_hellman`. Whoever holds the secret key of
/// `their_public` comes to the same secret from the public key of `secret`: that is what a
/// Diffie-Hellman agreement is.
#[verifier::external_body]
pub(crate) fn x25519_shared(secret: &[u8; 32], their_public: &[u8; 32]) -> (r: [u8; 32])
    ensures
        r@ == x25519_shared_of(secret@, their_public@),
        forall|theirs: Seq<u8>|
            theirs.len() == 32 && x25519_public_of(theirs) == their_public@ ==> r@ == #[trigger] x25519_shared_of(
                theirs,
                x25519_public_of(secret@),
            ),
{
    let secret = x25519_dalek::StaticSecret::from(*secret);
    secret.diffie_hellman(&x25519_dalek::PublicKey::from(*their_public)).to_bytes()
}

/// A public key made for one message, and the secret shared through it.
pub struct Agreement {
    pub ephemeral_public: [u8; 32],
    pub shared_secret: [u8; 32],
}

/// Whether the owner of `own`, given the public half of `agreement`, comes to the same secret.
pub open spec fn shares(agreement: Agreement, own: Seq<u8>) -> bool {
    x25519_shared_of(own, agreement.ephemeral_public@) == agreement.shared_secret@
}

/// `x25519_dalek::EphemeralSecret`.
#[verifier::external_type_specification]
#[verifier::external_body]
pub struct ExEphemeralSecret(x25519_dalek::EphemeralSecret);

/// The bytes of a secret key that is used once.
pub uninterp spec fn ephemeral_bytes(secret: x25519_dalek::EphemeralSecret) -> Seq<u8>;

/// Whether `agreement` is what the owner of `secret`, a key that can only be drawn at random and used
/// once, comes to with the owner of `recipient`.
pub open spec fn agreed(agreement: Agreement, secret: x25519_dalek::EphemeralSecret, recipient: Seq<u8>) -> bool {
    &&& ephemeral_bytes(secret).len() == 32
    &&& agreement.ephemeral_public@ == x25519_public_of(ephemeral_bytes(secret))
    &&& agreement.shared_secret@ == x25519_shared_of(ephemeral_bytes(secret), recipient)
}

/// Calls `x25519_dalek::EphemeralSecret::random_from_rng` with the system's generator. Which bytes it
/// drew is left to chance.
#[verifier::external_body]
fn ephemeral_secret() -> (r: x25519_dalek::EphemeralSecret)
    ensures
        ephemeral_bytes(r).len() == 32,
{
    x25519_dalek::EphemeralSecret::random_from_rng(OsRng)
}

/// Calls `PublicKey::from` on an `x25519_dalek::EphemeralSecret`, which gives what it would give for
/// a `StaticSecret` of the same bytes.
#[verifier::external_body]
fn ephemeral_public(secret: &x25519_dalek::EphemeralSecret) -> (r: [u8; 32])
    ensures
        r@ == x25519_public_of(ephemeral_bytes(*secret)),
{
    x25519_dalek::PublicKey::from(secret).to_bytes()
}

/// Calls `x25519_dalek::EphemeralSecret::diffie_hellman`, which gives what it would give for a
/// `StaticSecret` of the same bytes. Whoever holds the secret key of `their_public` comes to the same
/// secret from the public key of `secret`: that is what a Diffie-Hellman agreement is.
#[verifier::external_body]
fn ephemeral_shared(secret: x25519_dalek::EphemeralSecret, their_public: &[u8; 32]) -> (r: [u8; 32])
    ensures
        r@ == x25519_shared_of(ephemeral_bytes(secret), their_public@),
        forall|theirs: Seq<u8>|
            theirs.len() == 32 && x25519_public_of(theirs) == their_public@ ==> r@ == #[trigger] x25519_shared_of(
                theirs,
                x25519_public_of(ephemeral_bytes(secret)),
            ),
{
    secret.diffie_hellman(&x25519_dalek::PublicKey::from(*their_public)).to_bytes()
}

/// Comes to an agreement with the owner of `recipient`, through a secret key made for it and used for
/// nothing else. Whoever holds the secret key of `recipient` comes to the same shared secret.
pub fn ephemeral_agreement(recipient: &[u8; 32]) -> (r: Agreement)
    ensures
        exists|secret: x25519_dalek::EphemeralSecret| agreed(r, secret, recipient@),
        forall|own: Seq<u8>|
            own.len() == 32 && x25519_public_of(own) == recipient@ ==> #[trigger] shares(r, own),
{
    let secret = ephemeral_secret();
    let ghost drawn = secret;
    let ephemeral_public = ephemeral_public(&secret);
    let r = Agreement { ephemeral_public, shared_secret: ephemeral_shared(secret, recipient) };
    assert(agreed(r, drawn, recipient@));
    r
}

/// The longest plaintext that one nonce of the cipher can encrypt, in bytes.
pub const MAX_PLAINTEXT: u64 = 274_877_906_816;

/// The shortest plaintext that the cipher refuses as too long, in bytes.
pub const REFUSED_PLAINTEXT: u64 = 274_877_906_880;

/// The number of bytes by which a ciphertext is longer than its plaintext.
pub const TAG_LEN: usize = 16;

/// Whether the cipher answers for a plaintext of this length, with success or with an error.
/// Between the two limits it would run out of key stream, and panic.
pub open spec fn cipher_answers(plaintext_len: int) -> bool {
    plaintext_len <= MAX_PLAINTEXT || plaintext_len >= REFUSED_PLAINTEXT
}

/// The XChaCha20-Poly1305 ciphertext of `plaintext`, the tag at its end.
pub uninterp spec fn xchacha_sealed(key: Seq<u8>, nonce: Seq<u8>, plaintext: Seq<u8>) -> Seq<u8>;

/// The plaintext of an XChaCha20-Poly1305 ciphertext; `None` if its tag does not fit.
pub uninterp spec fn xchacha_opened(key: Seq<u8>, nonce: Seq<u8>, ciphertext: Seq<u8>) -> Option<Seq<u8>>;

/// Calls `encrypt` of `chacha20poly1305::XChaCha20Poly1305`, without associated data. It succeeds
/// up to [`MAX_PLAINTEXT`] bytes. The ciphertext is longer than the plaintext by the tag, and
/// decrypting it with the same key and nonce gives the plaintext back. An error comes back as its
/// message.
#[verifier::external_body]
pub(crate) fn aead_encrypt(key: &[u8; 32], nonce: &[u8; 24], plaintext: &[u8]) -> (r: Result<Vec<u8>, String>)
    requires
        cipher_answers(plaintext@.len() as int),
    ensures
        r is Ok <==> plaintext@.len() <= MAX_PLAINTEXT,
        r matches Ok(c) ==> c@ == xchacha_sealed(key@, nonce@, plaintext@),
        r matches Ok(c) ==> c@.len() == plaintext@.len() + TAG_LEN,
        r matches Ok(c) ==> xchacha_opened(key@, nonce@, c@) == Some(plaintext@),
        r matches Err(e) ==> e@ == "aead::Error"@,
{
    let cipher = chacha20poly1305::XChaCha20Poly1305::new(chacha20poly1305::Key::from_slice(key));
    let nonce = chacha20poly1305::XNonce::from_slice(nonce);
    cipher.encrypt(nonce, plaintext).map_err(|e| e.to_string())
}

/// Calls `decrypt` of `chacha20poly1305::XChaCha20Poly1305`, without associated data. A plaintext
/// is shorter than its ciphertext by the tag.
#[verifier::external_body]
pub(crate) fn aead_decrypt(key: &[u8; 32], nonce: &[u8; 24], ciphertext: &[u8]) -> (r: Option<Vec<u8>>)
    requires
        cipher_answers(ciphertext@.len() - TAG_LEN),
    ensures
        r is Some <==> xchacha_opened(key@, nonce@, ciphertext@) is Some,
        r matches Some(p) ==> xchacha_opened(key@, nonce@, ciphertext@) == Some(p@),
        r matches Some(p) ==> p@.len() + TAG_LEN == ciphertext@.len(),
{
    let cipher = chacha20poly1305::XChaCha20Poly1305::new(chacha20poly1305::Key::from_slice(key));
    let nonce = chacha20poly1305::XNonce::from_slice(nonce);
    cipher.decrypt(nonce, ciphertext).ok()
}

/// The message key of a shared secret: its SHA-256 digest.
pub fn derive_key(shared_secret: &[u8; 32]) -> (r: [u8; 32])
    ensures
        r@ == sha256_of(shared_secret@),
{
    sha256(shared_secret)
}

/// An array with the bytes of a slice of the same length.
pub(crate) fn array_of<const N: usize>(bytes: &[u8]) -> (r: [u8; N])
    requires
        bytes@.len() == N,
    ensures
        r@ == bytes@,
{
    let mut r = [0u8; N];
    for i in 0..N
        invariant
            bytes@.len() == N,
            forall|j: int| 0 <= j < i ==> r@[j] == bytes@[j],
    {
        r[i] = bytes[i];
    }
    assert(r@ =~= bytes@);
    r
}

/// The key of a shared secret is its whole SHA-256 digest, each time.
pub proof fn law_deriving_a_key(shared_secret: &[u8; 32], first: [u8; 32], again: [u8; 32])
    requires
        call_ensures(derive_key, (shared_secret,), first),
        call_ensures(derive_key, (shared_secret,), again),
    ensures
        first@ == sha256_of(shared_secret@),
        first@ == again@,
{
}

/// An agreement is made through a key that can only be drawn at random, and whoever holds the secret key
/// of the recipient comes to it.
pub proof fn law_coming_to_an_agreement(recipient: &[u8; 32], r: Agreement, own: Seq<u8>)
    requires
        call_ensures(ephemeral_agreement, (recipient,), r),
        own.len() == 32,
        x25519_public_of(own) == recipient@,
    ensures
        x25519_shared_of(own, r.ephemeral_public@) == r.shared_secret@,
        exists|secret: x25519_dalek::EphemeralSecret|
            r.ephemeral_public@ == x25519_public_of(#[trigger] ephemeral_bytes(secret)) && r.shared_secret@
                == x25519_shared_of(ephemeral_bytes(secret), recipient@),
{
    assert(shares(r, own));
}

} // verus!

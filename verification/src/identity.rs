//! The user's identity: an X25519 key pair, and the id that the public key gives.
use vstd::prelude::*;

use crate::crypto::{array_of, fill_random, sha256, sha256_of, x25519_public, x25519_public_of};
use crate::encoding::{
    base64_decode, base64_decoded, base64_encode, base64_text, hex_encode, hex_text, hex_value,
    law_hex_has_two_digits_per_byte,
};
use crate::json::{
    distinct_names, json_document, lemma_found_member, lemma_text_object_is_readable, render_pretty, spells_out,
    Fields, JsonView, READABLE_DEPTH,
};

verus! {

/// The number of bytes of the digest that an id shows.
pub const ID_BYTES: usize = 8;

/// The length of a key, in bytes.
pub const KEY_LEN: usize = 32;

/// The id of a public key: the beginning of its SHA-256 digest, in hexadecimal.
pub open spec fn user_id_of(public_key: Seq<u8>) -> Seq<char> {
    hex_text(sha256_of(public_key).take(ID_BYTES as int))
}

/// The id of a public key.
pub fn user_id_from_public_key(public_key: &[u8; 32]) -> (r: String)
    ensures
        r@ == user_id_of(public_key@),
        r@.len() == 16,
{
    let hash = sha256(public_key);
    let shown = vstd::slice::slice_subrange(hash.as_slice(), 0, ID_BYTES);
    assert(shown@ =~= hash@.take(ID_BYTES as int));
    hex_encode(shown)
}

/// A key pair and the id that goes with it.
#[derive(Debug, PartialEq, Eq)]
pub struct Identity {
    pub private_key: [u8; 32],
    pub public_key: [u8; 32],
    pub user_id: String,
}

impl Identity {
    /// Whether this is the identity of the given secret key.
    pub open spec fn belongs_to(self, secret: Seq<u8>) -> bool {
        &&& self.private_key@ == secret
        &&& self.public_key@ == x25519_public_of(secret)
        &&& self.user_id@ == user_id_of(x25519_public_of(secret))
    }
}

/// The identity of a secret key.
pub fn identity_of(private_key: [u8; 32]) -> (r: Identity)
    ensures
        r.belongs_to(private_key@),
{
    let public_key = x25519_public(&private_key);
    let user_id = user_id_from_public_key(&public_key);
    Identity { private_key, public_key, user_id }
}

/// An identity as its file has it, the keys in base64.
#[derive(Debug, PartialEq, Eq)]
pub struct KeypairFile {
    pub private_key: String,
    pub public_key: String,
    pub user_id: String,
}

/// A stored identity as its file has it.
pub open spec fn keypair_json(file: KeypairFile) -> JsonView {
    JsonView::Object(
        seq![
            ("private_key"@, JsonView::Text(file.private_key@)),
            ("public_key"@, JsonView::Text(file.public_key@)),
            ("user_id"@, JsonView::Text(file.user_id@)),
        ],
    )
}

/// A stored identity is all strings.
proof fn lemma_keypair_is_text(file: KeypairFile)
    ensures
        keypair_json(file).is_text_object(),
{
    let members = keypair_json(file)->Object_0;
    reveal_strlit("private_key");
    reveal_strlit("public_key");
    reveal_strlit("user_id");
    assert(members[0].0.len() == 11 && members[1].0.len() == 10 && members[2].0.len() == 7);
    assert(distinct_names(members));
}

/// The secret key in a stored identity, if there is one and it is a key.
pub open spec fn stored_secret(stored: Option<KeypairFile>) -> Option<Seq<u8>> {
    match stored {
        Some(file) => match base64_decoded(file.private_key@) {
            Ok(bytes) if bytes.len() == KEY_LEN => Some(bytes),
            _ => None,
        },
        None => None,
    }
}

/// The secret key in a stored identity. Only the private key counts: the rest follows from it.
pub fn secret_in(stored: &Option<KeypairFile>) -> (r: Option<[u8; 32]>)
    ensures
        r is Some <==> stored_secret(*stored) is Some,
        r matches Some(secret) ==> stored_secret(*stored) == Some(secret@),
{
    match stored {
        Some(file) => match base64_decode(&file.private_key) {
            Ok(bytes) => if bytes.len() == KEY_LEN {
                Some(array_of::<32>(&bytes))
            } else {
                None
            },
            Err(_) => None,
        },
        None => None,
    }
}

/// The file that keeps an identity.
pub fn file_of(identity: &Identity) -> (r: KeypairFile)
    ensures
        r.private_key@ == base64_text(identity.private_key@),
        r.public_key@ == base64_text(identity.public_key@),
        r.user_id@ == identity.user_id@,
        stored_secret(Some(r)) == Some(identity.private_key@),
{
    KeypairFile {
        private_key: base64_encode(&identity.private_key),
        public_key: base64_encode(&identity.public_key),
        user_id: identity.user_id.clone(),
    }
}

/// The text to write to the file that keeps an identity.
pub fn keypair_file_text(file: &KeypairFile) -> (r: String)
    ensures
        spells_out(r@, keypair_json(*file)),
{
    let tree = Fields::new().with_text("private_key", &file.private_key).with_text(
        "public_key",
        &file.public_key,
    ).with_text("user_id", &file.user_id).object();
    assert(tree@->Object_0 =~= keypair_json(*file)->Object_0);
    proof {
        lemma_keypair_is_text(*file);
        lemma_text_object_is_readable(tree@, READABLE_DEPTH as nat);
    }
    render_pretty(&tree)
}

/// The identity in the stored file, or else a new one from random bytes together with the file to
/// store. The new file holds the new identity: loading it gives the same one.
pub fn load_or_create_keypair(stored: &Option<KeypairFile>) -> (r: (Identity, Option<KeypairFile>))
    ensures
        stored_secret(*stored) matches Some(secret) ==> r.0.belongs_to(secret) && r.1 is None,
        stored_secret(*stored) is None ==> r.0.belongs_to(r.0.private_key@) && r.1 is Some,
        r.1 matches Some(file) ==> {
            &&& stored_secret(r.1) == Some(r.0.private_key@)
            &&& file.private_key@ == base64_text(r.0.private_key@)
            &&& file.public_key@ == base64_text(r.0.public_key@)
            &&& file.user_id@ == r.0.user_id@
        },
{
    match secret_in(stored) {
        Some(secret) => (identity_of(secret), None),
        None => {
            let mut key_bytes = [0u8; 32];
            fill_random(&mut key_bytes);
            let identity = identity_of(key_bytes);
            let file = file_of(&identity);
            (identity, Some(file))
        },
    }
}

/// A secret key has one identity: who loads it again is the same user.
pub proof fn law_one_identity_per_secret(first: Identity, again: Identity, secret: Seq<u8>)
    requires
        first.belongs_to(secret),
        again.belongs_to(secret),
    ensures
        first.private_key@ == again.private_key@,
        first.public_key@ == again.public_key@,
        first.user_id@ == again.user_id@,
{
}

/// What was saved is loaded: of a file with the text of a stored identity, no other one has the
/// document, and so the secret key is the same.
pub proof fn law_saved_identity_is_loaded(text: Seq<char>, saved: KeypairFile, loaded: KeypairFile)
    requires
        spells_out(text, keypair_json(saved)),
        json_document(text) == Some(keypair_json(loaded)),
    ensures
        loaded.private_key@ == saved.private_key@,
        loaded.public_key@ == saved.public_key@,
        loaded.user_id@ == saved.user_id@,
        stored_secret(Some(loaded)) == stored_secret(Some(saved)),
{
    let a = keypair_json(saved)->Object_0;
    let b = keypair_json(loaded)->Object_0;
    assert(a[0].1 == b[0].1 && a[1].1 == b[1].1 && a[2].1 == b[2].1);
}

/// An id is the beginning of the digest of the public key: its sixteen hexadecimal digits are the first
/// eight bytes.
pub proof fn law_id_is_the_digest(public_key: Seq<u8>, i: int)
    requires
        sha256_of(public_key).len() == 32,
        0 <= i < 8,
    ensures
        user_id_of(public_key).len() == 16,
        hex_value(user_id_of(public_key)[2 * i]) == Some(sha256_of(public_key)[i] as int / 16),
        hex_value(user_id_of(public_key)[2 * i + 1]) == Some(sha256_of(public_key)[i] as int % 16),
{
    law_hex_has_two_digits_per_byte(sha256_of(public_key).take(8), i);
}

/// The stored secret is the private key of the file, as long as it is a key: nothing else in the file
/// matters.
pub proof fn law_private_key_is_the_secret(file: KeypairFile, secret: Seq<u8>)
    ensures
        stored_secret(None) is None,
        stored_secret(Some(file)) == Some(secret) <==> base64_decoded(file.private_key@) == Ok::<Seq<u8>, Seq<char>>(
            secret,
        ) && secret.len() == 32,
{
}

/// Everything in an identity follows from its secret.
pub proof fn law_identity_follows_from_its_secret(identity: Identity, secret: Seq<u8>)
    ensures
        identity.belongs_to(secret) <==> identity.private_key@ == secret && identity.public_key@ == x25519_public_of(
            secret,
        ) && identity.user_id@ == user_id_of(x25519_public_of(secret)),
{
}

/// The file of an identity has the three strings under their names, and nothing else.
pub proof fn law_file_has_the_identity(file: KeypairFile)
    ensures
        keypair_json(file).text_member("private_key"@) == Some(file.private_key@),
        keypair_json(file).text_member("public_key"@) == Some(file.public_key@),
        keypair_json(file).text_member("user_id"@) == Some(file.user_id@),
        keypair_json(file)->Object_0.len() == 3,
{
    lemma_keypair_is_text(file);
    let members = keypair_json(file)->Object_0;
    lemma_found_member(members, 0);
    lemma_found_member(members, 1);
    lemma_found_member(members, 2);
}

/// The user stays the same: what is loaded from the file that was made for a new identity is that
/// identity, and a stored one is loaded again and again, without another file.
pub proof fn law_loading_again(
    stored: &Option<KeypairFile>,
    first: (Identity, Option<KeypairFile>),
    again: (Identity, Option<KeypairFile>),
)
    requires
        call_ensures(load_or_create_keypair, (stored,), first),
        first.1 is Some ==> call_ensures(load_or_create_keypair, (&first.1,), again),
        first.1 is None ==> call_ensures(load_or_create_keypair, (stored,), again),
    ensures
        again.0.private_key@ == first.0.private_key@,
        again.0.public_key@ == first.0.public_key@,
        again.0.user_id@ == first.0.user_id@,
        again.1 is None,
        first.0.public_key@ == x25519_public_of(first.0.private_key@),
        first.0.user_id@ == user_id_of(first.0.public_key@),
        first.1 is None <==> (*stored matches Some(file) && base64_decoded(file.private_key@) matches Ok(bytes)
            && bytes.len() == 32),
{
    if let Some(file) = *stored {
        if base64_decoded(file.private_key@) is Ok {
            law_private_key_is_the_secret(file, base64_decoded(file.private_key@)->Ok_0);
        }
    }
    assert(stored_secret(first.1) == Some(first.0.private_key@) || first.1 is None);
}

/// Who has a public key has its id: sixteen hexadecimal digits, the first eight bytes of the digest.
pub proof fn law_id_of_a_public_key(public_key: &[u8; 32], r: String, i: int)
    requires
        call_ensures(user_id_from_public_key, (public_key,), r),
        sha256_of(public_key@).len() == 32,
        0 <= i < 8,
    ensures
        r@.len() == 16,
        hex_value(r@[2 * i]) == Some(sha256_of(public_key@)[i] as int / 16),
        hex_value(r@[2 * i + 1]) == Some(sha256_of(public_key@)[i] as int % 16),
{
    law_id_is_the_digest(public_key@, i);
}

/// The text for the file of an identity has what is needed to load it again: the private key, and what
/// follows from it.
pub proof fn law_saving_an_identity(identity: &Identity, file: KeypairFile, kept: &KeypairFile, text: String)
    requires
        call_ensures(file_of, (identity,), file),
        *kept == file,
        call_ensures(keypair_file_text, (kept,), text),
    ensures
        json_document(text@) matches Some(document) && {
            &&& document.text_member("private_key"@) == Some(base64_text(identity.private_key@))
            &&& document.text_member("public_key"@) == Some(base64_text(identity.public_key@))
            &&& document.text_member("user_id"@) == Some(identity.user_id@)
        },
        stored_secret(Some(file)) == Some(identity.private_key@),
{
    law_file_has_the_identity(file);
}

} // verus!

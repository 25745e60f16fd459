//! Encrypted messages: sealing for a recipient, opening with one's own key.
use vstd::prelude::*;
use vstd::utf8::*;

use crate::crypto::{
    aead_decrypt, aead_encrypt, agreed, array_of, cipher_answers, derive_key, ephemeral_agreement,
    ephemeral_bytes, fill_random, sha256_of, shares, x25519_public_of, x25519_shared, x25519_shared_of,
    xchacha_opened, xchacha_sealed, Agreement, MAX_PLAINTEXT, REFUSED_PLAINTEXT, TAG_LEN,
};
use crate::encoding::{
    base64_decode, base64_decoded, base64_encode, base64_len, base64_text, decodes_to, holds_bytes, is_base64_text,
};
use crate::identity::KEY_LEN;
use crate::json::{
    equally_wide, json_document, json_text, lemma_encode_concat, lemma_found_member, lemma_members_width,
    lemma_text_object_is_readable, members_text, render, spells, Fields, Json, JsonView, READABLE_DEPTH,
};
use crate::padding::{
    frame, framed, framed_len, law_frame_hides_length, law_frame_is_read_as_declared, law_frame_is_whole_blocks,
    law_unframe_gives_back, pad_len, padding_for, unframe, unframed, PADDING_BLOCK, PREFIX_LEN,
};
use crate::text::{joined, string_from_utf8, utf8_error_text};

verus! {

/// The length of a nonce, in bytes.
pub const NONCE_LEN: usize = 24;

/// A message as it travels: what the recipient needs to decrypt it, in base64, and who sent it.
#[derive(Debug, PartialEq, Eq)]
pub struct EncryptedEnvelope {
    pub ephemeral_public_key: String,
    pub nonce: String,
    pub ciphertext: String,
    pub sender_id: String,
    pub sender_name: String,
    pub format: String,
}

/// What an [`EncryptedEnvelope`] holds.
pub struct EnvelopeView {
    pub ephemeral_public_key: Seq<char>,
    pub nonce: Seq<char>,
    pub ciphertext: Seq<char>,
    pub sender_id: Seq<char>,
    pub sender_name: Seq<char>,
    pub format: Seq<char>,
}

impl View for EncryptedEnvelope {
    type V = EnvelopeView;

    open spec fn view(&self) -> EnvelopeView {
        EnvelopeView {
            ephemeral_public_key: self.ephemeral_public_key@,
            nonce: self.nonce@,
            ciphertext: self.ciphertext@,
            sender_id: self.sender_id@,
            sender_name: self.sender_name@,
            format: self.format@,
        }
    }
}

/// An envelope as a document.
pub open spec fn envelope_json(envelope: EnvelopeView) -> JsonView {
    JsonView::Object(
        seq![
            ("ephemeral_public_key"@, JsonView::Text(envelope.ephemeral_public_key)),
            ("nonce"@, JsonView::Text(envelope.nonce)),
            ("ciphertext"@, JsonView::Text(envelope.ciphertext)),
            ("sender_id"@, JsonView::Text(envelope.sender_id)),
            ("sender_name"@, JsonView::Text(envelope.sender_name)),
            ("format"@, JsonView::Text(envelope.format)),
        ],
    )
}

/// The document of an envelope is all strings.
proof fn lemma_envelope_is_text(envelope: EnvelopeView)
    ensures
        envelope_json(envelope).is_text_object(),
{
    let members = envelope_json(envelope)->Object_0;
    reveal_strlit("ephemeral_public_key");
    reveal_strlit("nonce");
    reveal_strlit("ciphertext");
    reveal_strlit("sender_id");
    reveal_strlit("sender_name");
    reveal_strlit("format");
    assert(members[0].0.len() == 20 && members[1].0.len() == 5 && members[2].0.len() == 10);
    assert(members[3].0.len() == 9 && members[4].0.len() == 11 && members[5].0.len() == 6);
}

/// The key for the messages between the owner of `own` and the owner of `their_public`.
pub open spec fn message_key(own: Seq<u8>, their_public: Seq<u8>) -> Seq<u8> {
    sha256_of(x25519_shared_of(own, their_public))
}

/// The words for a ciphertext that does not fit the key.
pub const NOT_FOR_US: &'static str = "Decryption failed — message not from a known contact";

/// The text of a decrypted message, or the words that say what is wrong with it.
pub open spec fn message_in(plaintext: Option<Seq<u8>>) -> Result<Seq<char>, Seq<char>> {
    match plaintext {
        None => Err(NOT_FOR_US@),
        Some(plaintext) => match unframed(plaintext) {
            Err(words) => Err(words),
            Ok(content) => if valid_utf8(content) {
                Ok(decode_utf8(content))
            } else {
                Err("UTF-8 decode: "@ + utf8_error_text(content))
            },
        },
    }
}

/// The plaintext of a ciphertext. One of a length for which the cipher has no answer has none.
pub open spec fn plaintext_of(key: Seq<u8>, nonce: Seq<u8>, ciphertext: Seq<u8>) -> Option<Seq<u8>> {
    if cipher_answers(ciphertext.len() - TAG_LEN) {
        xchacha_opened(key, nonce, ciphertext)
    } else {
        None
    }
}

/// What the owner of the secret key `own` finds in an envelope: the message, or the words that say
/// why there is none. The key is looked at first, then the nonce, then the ciphertext.
pub open spec fn opened(envelope: EnvelopeView, own: Seq<u8>) -> Result<Seq<char>, Seq<char>> {
    match base64_decoded(envelope.ephemeral_public_key) {
        Err(words) => Err("Ephemeral key decode: "@ + words),
        Ok(their_public) => if their_public.len() != KEY_LEN {
            Err("Invalid ephemeral public key length"@)
        } else {
            match base64_decoded(envelope.nonce) {
                Err(words) => Err("Nonce decode: "@ + words),
                Ok(nonce) => if nonce.len() != NONCE_LEN {
                    Err("Invalid nonce length"@)
                } else {
                    match base64_decoded(envelope.ciphertext) {
                        Err(words) => Err("Ciphertext decode: "@ + words),
                        Ok(ciphertext) => message_in(plaintext_of(message_key(own, their_public), nonce, ciphertext)),
                    }
                },
            }
        },
    }
}

/// Decrypts, unless the ciphertext has a length for which the cipher has no answer.
fn decrypt_bytes(key: &[u8; 32], nonce: &[u8; 24], ciphertext: &[u8]) -> (r: Option<Vec<u8>>)
    ensures
        r is Some <==> plaintext_of(key@, nonce@, ciphertext@) is Some,
        r matches Some(p) ==> plaintext_of(key@, nonce@, ciphertext@) == Some(p@),
{
    if ciphertext.len() > TAG_LEN {
        let plaintext_len: u64 = (ciphertext.len() - TAG_LEN) as u64;
        if MAX_PLAINTEXT < plaintext_len && plaintext_len < REFUSED_PLAINTEXT {
            return None;
        }
    }
    aead_decrypt(key, nonce, ciphertext)
}

/// The text of a decrypted message.
pub fn read_message(plaintext: Option<Vec<u8>>) -> (r: Result<String, String>)
    ensures
        plaintext is None ==> (r matches Err(e) && e@ == NOT_FOR_US@),
        plaintext matches Some(p) ==> match message_in(Some(p@)) {
            Ok(content) => r matches Ok(s) && s@ == content,
            Err(words) => r matches Err(e) && e@ == words,
        },
{
    match plaintext {
        None => Err(NOT_FOR_US.to_string()),
        Some(plaintext) => match unframe(&plaintext) {
            Err(e) => Err(e),
            Ok(content) => match string_from_utf8(content) {
                Ok(s) => Ok(s),
                Err(e) => Err(joined("UTF-8 decode: ", &e)),
            },
        },
    }
}

/// Opens an envelope with one's own secret key.
pub fn open_envelope(envelope: &EncryptedEnvelope, own_secret: &[u8; 32]) -> (r: Result<String, String>)
    ensures
        match opened(envelope@, own_secret@) {
            Ok(content) => r matches Ok(s) && s@ == content,
            Err(words) => r matches Err(e) && e@ == words,
        },
{
    let their_public = match base64_decode(&envelope.ephemeral_public_key) {
        Ok(bytes) => bytes,
        Err(e) => return Err(joined("Ephemeral key decode: ", &e)),
    };
    if their_public.len() != KEY_LEN {
        return Err("Invalid ephemeral public key length".to_string());
    }
    let shared_secret = x25519_shared(own_secret, &array_of::<32>(&their_public));
    let key = derive_key(&shared_secret);
    let nonce = match base64_decode(&envelope.nonce) {
        Ok(bytes) => bytes,
        Err(e) => return Err(joined("Nonce decode: ", &e)),
    };
    if nonce.len() != NONCE_LEN {
        return Err("Invalid nonce length".to_string());
    }
    let ciphertext = match base64_decode(&envelope.ciphertext) {
        Ok(bytes) => bytes,
        Err(e) => return Err(joined("Ciphertext decode: ", &e)),
    };
    read_message(decrypt_bytes(&key, &array_of::<24>(&nonce), &ciphertext))
}

/// The envelope that carries `content` under an agreement, a nonce and some padding.
pub open spec fn sealed_envelope(
    content: Seq<char>,
    agreement: Agreement,
    nonce: Seq<u8>,
    pad: Seq<u8>,
    sender_id: Seq<char>,
    sender_name: Seq<char>,
    format: Seq<char>,
) -> EnvelopeView {
    EnvelopeView {
        ephemeral_public_key: base64_text(agreement.ephemeral_public@),
        nonce: base64_text(nonce),
        ciphertext: base64_text(
            xchacha_sealed(sha256_of(agreement.shared_secret@), nonce, framed(encode_utf8(content), pad)),
        ),
        sender_id,
        sender_name,
        format,
    }
}

/// Whether the owner of `own` reads `content` in an envelope.
pub open spec fn reads(envelope: EnvelopeView, own: Seq<u8>, content: Seq<char>) -> bool {
    opened(envelope, own) matches Ok(text) && text == content
}

/// Whether a message is short enough to be encrypted.
pub open spec fn can_seal(content: Seq<char>) -> bool {
    framed_len(encode_utf8(content).len() as int) <= MAX_PLAINTEXT
}

/// Whether the length of a message fits into its frame.
pub open spec fn has_length(content: Seq<char>) -> bool {
    encode_utf8(content).len() < 0x1_0000_0000
}

/// Whether the fields of an envelope around `content` are base64, and of as many bytes as they should:
/// the key, the nonce, and a ciphertext as long as the frame and the tag.
pub open spec fn has_its_lengths(envelope: EnvelopeView, content: Seq<char>) -> bool {
    &&& holds_bytes(envelope.ephemeral_public_key, KEY_LEN as int)
    &&& holds_bytes(envelope.nonce, NONCE_LEN as int)
    &&& holds_bytes(envelope.ciphertext, framed_len(encode_utf8(content).len() as int) + TAG_LEN)
}

/// Every message whose length fits into its frame is short enough to be encrypted.
pub proof fn law_message_with_length_is_sealed(content: Seq<char>)
    requires
        has_length(content),
    ensures
        can_seal(content),
{
}

/// What was sealed is read by whoever has its key: a ciphertext that opens to the frame around
/// `content` holds `content`.
proof fn lemma_sealed_is_read(
    envelope: EnvelopeView,
    own: Seq<u8>,
    content: Seq<char>,
    their_public: Seq<u8>,
    nonce: Seq<u8>,
    ciphertext: Seq<u8>,
    pad: Seq<u8>,
)
    requires
        has_length(content),
        decodes_to(envelope.ephemeral_public_key, their_public),
        their_public.len() == KEY_LEN,
        decodes_to(envelope.nonce, nonce),
        nonce.len() == NONCE_LEN,
        decodes_to(envelope.ciphertext, ciphertext),
        cipher_answers(ciphertext.len() - TAG_LEN),
        xchacha_opened(message_key(own, their_public), nonce, ciphertext) == Some(framed(encode_utf8(content), pad)),
    ensures
        reads(envelope, own, content),
{
    law_unframe_gives_back(encode_utf8(content), pad);
    encode_utf8_valid_utf8(content);
    encode_utf8_decode_utf8(content);
}

/// Seals `content` under an agreement with the recipient, a nonce and padding, all of them given.
/// Whoever shares the secret of the agreement reads the message.
pub fn seal(
    content: &str,
    agreement: &Agreement,
    nonce: &[u8; 24],
    pad: &[u8],
    sender_id: &str,
    sender_name: &str,
    format: &str,
) -> (r: Result<EncryptedEnvelope, String>)
    requires
        pad@.len() == padding_for(encode_utf8(content@).len() as int),
    ensures
        r is Ok <==> can_seal(content@),
        r matches Ok(envelope) ==> envelope@ == sealed_envelope(
            content@,
            *agreement,
            nonce@,
            pad@,
            sender_id@,
            sender_name@,
            format@,
        ),
        r matches Ok(envelope) ==> (has_length(content@) ==> forall|own: Seq<u8>|
            shares(*agreement, own) ==> #[trigger] reads(envelope@, own, content@)),
        r matches Ok(envelope) ==> decodes_to(envelope@.ephemeral_public_key, agreement.ephemeral_public@),
        r matches Ok(envelope) ==> decodes_to(envelope@.nonce, nonce@),
        r matches Ok(envelope) ==> decodes_to(
            envelope@.ciphertext,
            xchacha_sealed(sha256_of(agreement.shared_secret@), nonce@, framed(encode_utf8(content@), pad@)),
        ),
        r matches Ok(envelope) ==> has_its_lengths(envelope@, content@),
        r matches Err(e) ==> e@ == "Encryption failed: "@ + "aead::Error"@,
{
    let key = derive_key(&agreement.shared_secret);
    let padded = frame(content.as_bytes(), pad);
    proof {
        law_frame_is_whole_blocks(encode_utf8(content@), pad@);
    }
    let ciphertext = match aead_encrypt(&key, nonce, &padded) {
        Ok(c) => c,
        Err(e) => return Err(joined("Encryption failed: ", &e)),
    };
    let envelope = EncryptedEnvelope {
        ephemeral_public_key: base64_encode(&agreement.ephemeral_public),
        nonce: base64_encode(nonce),
        ciphertext: base64_encode(&ciphertext),
        sender_id: sender_id.to_string(),
        sender_name: sender_name.to_string(),
        format: format.to_string(),
    };
    proof {
        if has_length(content@) {
            assert forall|own: Seq<u8>| shares(*agreement, own) implies #[trigger] reads(envelope@, own, content@) by {
                lemma_sealed_is_read(
                    envelope@,
                    own,
                    content@,
                    agreement.ephemeral_public@,
                    nonce@,
                    ciphertext@,
                    pad@,
                );
            }
        }
    }
    Ok(envelope)
}

/// The text of the document of an envelope.
pub open spec fn envelope_text(envelope: EnvelopeView) -> Seq<char> {
    json_text(envelope_json(envelope))
}

/// Whether `payload` is an envelope on its way: the base64 of its document, from which the document
/// can be read again.
pub open spec fn carries(payload: Seq<char>, envelope: EnvelopeView) -> bool {
    let text = envelope_text(envelope);
    &&& payload == base64_text(encode_utf8(text))
    &&& payload.len() == base64_len(encode_utf8(text).len() as int)
    &&& decodes_to(payload, encode_utf8(text))
    &&& spells(text, envelope_json(envelope))
    &&& text == seq!['{'] + members_text(envelope_json(envelope)->Object_0) + seq!['}']
}

impl EncryptedEnvelope {
    /// The envelope as a document.
    fn json(&self) -> (r: Json)
        ensures
            r@ == envelope_json(self@),
            r@.is_text_object(),
    {
        let r = Fields::new().with_text("ephemeral_public_key", &self.ephemeral_public_key).with_text(
            "nonce",
            &self.nonce,
        ).with_text("ciphertext", &self.ciphertext).with_text("sender_id", &self.sender_id).with_text(
            "sender_name",
            &self.sender_name,
        ).with_text("format", &self.format).object();
        proof {
            assert(r@->Object_0 =~= envelope_json(self@)->Object_0);
            lemma_envelope_is_text(self@);
        }
        r
    }

    /// The text under which the envelope is sent.
    pub fn payload(&self) -> (r: String)
        ensures
            carries(r@, self@),
    {
        let document = self.json();
        proof {
            lemma_text_object_is_readable(document@, READABLE_DEPTH as nat);
        }
        let text = render(&document);
        base64_encode(text.as_str().as_bytes())
    }
}

/// Whether `envelope` holds `content` from the given sender for the owner of `recipient`.
pub open spec fn sealed_for(
    envelope: EnvelopeView,
    content: Seq<char>,
    recipient: Seq<u8>,
    sender_id: Seq<char>,
    sender_name: Seq<char>,
    format: Seq<char>,
) -> bool {
    &&& envelope.sender_id == sender_id
    &&& envelope.sender_name == sender_name
    &&& envelope.format == format
    &&& has_its_lengths(envelope, content)
    &&& exists|agreement: Agreement, secret: x25519_dalek::EphemeralSecret, nonce: Seq<u8>, pad: Seq<u8>|
        #![trigger agreed(agreement, secret, recipient), framed(encode_utf8(content), pad), base64_text(nonce)]
        {
            &&& agreed(agreement, secret, recipient)
            &&& nonce.len() == NONCE_LEN
            &&& pad.len() == padding_for(encode_utf8(content).len() as int)
            &&& envelope == sealed_envelope(content, agreement, nonce, pad, sender_id, sender_name, format)
        }
    &&& has_length(content) ==> forall|own: Seq<u8>|
        own.len() == KEY_LEN && x25519_public_of(own) == recipient ==> #[trigger] reads(envelope, own, content)
}

/// Whether `payload` carries an envelope that holds `content` from the given sender for the owner of
/// `recipient`.
pub open spec fn is_message(
    payload: Seq<char>,
    content: Seq<char>,
    recipient: Seq<u8>,
    sender_id: Seq<char>,
    sender_name: Seq<char>,
    format: Seq<char>,
) -> bool {
    exists|envelope: EnvelopeView|
        {
            &&& carries(payload, envelope)
            &&& #[trigger] sealed_for(envelope, content, recipient, sender_id, sender_name, format)
        }
}

/// Encrypts `content` for the owner of a public key, under a key pair and a nonce that are made for
/// this one message, and gives the payload to send. The owner of the public key reads it. A message
/// fails only if it is too long for the cipher.
pub fn encrypt_for_recipient(
    content: &str,
    recipient_public_key: &[u8; 32],
    sender_id: &str,
    sender_name: &str,
    format: &str,
) -> (r: Result<String, String>)
    ensures
        r is Ok <==> can_seal(content@),
        r matches Ok(payload) ==> is_message(
            payload@,
            content@,
            recipient_public_key@,
            sender_id@,
            sender_name@,
            format@,
        ),
        r matches Err(e) ==> e@ == "Encryption failed: "@ + "aead::Error"@,
{
    let agreement = ephemeral_agreement(recipient_public_key);
    let mut nonce_bytes = [0u8; 24];
    fill_random(&mut nonce_bytes);
    let mut pad: Vec<u8> = vec![0u8; pad_len(content.as_bytes().len())];
    fill_random(&mut pad);
    match seal(content, &agreement, &nonce_bytes, &pad, sender_id, sender_name, format) {
        Ok(envelope) => {
            let payload = envelope.payload();
            let ghost secret = choose|secret: x25519_dalek::EphemeralSecret|
                agreed(agreement, secret, recipient_public_key@);
            assert(agreed(agreement, secret, recipient_public_key@));
            assert(envelope@ == sealed_envelope(
                content@,
                agreement,
                nonce_bytes@,
                pad@,
                sender_id@,
                sender_name@,
                format@,
            ));
            assert(sealed_for(
                envelope@,
                content@,
                recipient_public_key@,
                sender_id@,
                sender_name@,
                format@,
            ));
            Ok(payload)
        },
        Err(e) => Err(e),
    }
}

/// The bytes of the document in a payload.
pub fn decode_payload(payload_b64: &str) -> (r: Result<Vec<u8>, String>)
    ensures
        match base64_decoded(payload_b64@) {
            Ok(bytes) => r matches Ok(data) && data@ == bytes,
            Err(words) => r matches Err(e) && e@ == "Base64 decode: "@ + words,
        },
{
    match base64_decode(payload_b64) {
        Ok(data) => Ok(data),
        Err(e) => Err(joined("Base64 decode: ", &e)),
    }
}

/// What the owner of the secret key `own` finds in a payload: the message, or the words that say why
/// there is none. `parsed` is what reading the envelope in the payload gave, or the cause of its
/// failure.
pub open spec fn decrypted(
    payload: Seq<char>,
    parsed: Result<EncryptedEnvelope, String>,
    own: Seq<u8>,
) -> Result<Seq<char>, Seq<char>> {
    match base64_decoded(payload) {
        Err(words) => Err("Base64 decode: "@ + words),
        Ok(_) => match parsed {
            Err(cause) => Err("Envelope parse: "@ + cause@),
            Ok(envelope) => opened(envelope@, own),
        },
    }
}

/// Decrypts a payload with one's own secret key, given what reading the envelope in the bytes of
/// [`decode_payload`] gave.
pub fn decrypt_envelope(
    payload_b64: &str,
    parsed: Result<EncryptedEnvelope, String>,
    own_secret: &[u8; 32],
) -> (r: Result<(EncryptedEnvelope, String), String>)
    ensures
        match decrypted(payload_b64@, parsed, own_secret@) {
            Ok(content) => r matches Ok(found) && parsed == Ok::<EncryptedEnvelope, String>(found.0) && found.1@
                == content,
            Err(words) => r matches Err(e) && e@ == words,
        },
{
    match decode_payload(payload_b64) {
        Ok(_) => match parsed {
            Ok(envelope) => match open_envelope(&envelope, own_secret) {
                Ok(content) => Ok((envelope, content)),
                Err(e) => Err(e),
            },
            Err(cause) => Err(joined("Envelope parse: ", &cause)),
        },
        Err(e) => Err(e),
    }
}

/// Whether `envelope` is the one that `payload` carries.
pub open spec fn is_envelope_in(envelope: EnvelopeView, payload: Seq<char>) -> bool {
    exists|text: Seq<char>|
        {
            &&& #[trigger] decodes_to(payload, encode_utf8(text))
            &&& json_document(text) == Some(envelope_json(envelope))
        }
}

/// The recipient reads what was encrypted for them, and sees who sent it: decrypting the envelope in
/// a message, with the secret key that belongs to the recipient's public key, gives the content back.
pub proof fn law_recipient_reads_the_message(
    payload: Seq<char>,
    content: Seq<char>,
    own: Seq<u8>,
    sender_id: Seq<char>,
    sender_name: Seq<char>,
    format: Seq<char>,
    envelope: EncryptedEnvelope,
)
    requires
        is_message(payload, content, x25519_public_of(own), sender_id, sender_name, format),
        own.len() == KEY_LEN,
        has_length(content),
        is_envelope_in(envelope@, payload),
    ensures
        decrypted(payload, Ok(envelope), own) == Ok::<Seq<char>, Seq<char>>(content),
        envelope@.sender_id == sender_id,
        envelope@.sender_name == sender_name,
        envelope@.format == format,
{
    let sent = choose|sent: EnvelopeView|
        {
            &&& carries(payload, sent)
            &&& #[trigger] sealed_for(sent, content, x25519_public_of(own), sender_id, sender_name, format)
        };
    let text = choose|text: Seq<char>|
        {
            &&& #[trigger] decodes_to(payload, encode_utf8(text))
            &&& json_document(text) == Some(envelope_json(envelope@))
        };
    encode_utf8_decode_utf8(text);
    encode_utf8_decode_utf8(envelope_text(sent));
    law_envelope_is_in_its_document(sent, envelope@);
    assert(reads(sent, own, content));
}

/// Whether the cipher refuses the ciphertext of an envelope under the key of the owner of `own`.
pub open spec fn is_refused(envelope: EnvelopeView, own: Seq<u8>) -> bool {
    plaintext_of(
        message_key(own, base64_decoded(envelope.ephemeral_public_key)->Ok_0),
        base64_decoded(envelope.nonce)->Ok_0,
        base64_decoded(envelope.ciphertext)->Ok_0,
    ) is None
}

/// A message that the cipher refuses under a key tells the owner of that key nothing but that it is not
/// for them. (That the cipher refuses every key but the recipient's is left to the cipher.)
pub proof fn law_refused_message_is_not_read(
    payload: Seq<char>,
    content: Seq<char>,
    recipient: Seq<u8>,
    sender_id: Seq<char>,
    sender_name: Seq<char>,
    format: Seq<char>,
    own: Seq<u8>,
    envelope: EncryptedEnvelope,
)
    requires
        is_message(payload, content, recipient, sender_id, sender_name, format),
        is_envelope_in(envelope@, payload),
        is_refused(envelope@, own),
    ensures
        decrypted(payload, Ok(envelope), own) == Err::<Seq<char>, Seq<char>>(NOT_FOR_US@),
{
    let sent = choose|sent: EnvelopeView|
        {
            &&& carries(payload, sent)
            &&& #[trigger] sealed_for(sent, content, recipient, sender_id, sender_name, format)
        };
    let text = choose|text: Seq<char>|
        {
            &&& #[trigger] decodes_to(payload, encode_utf8(text))
            &&& json_document(text) == Some(envelope_json(envelope@))
        };
    encode_utf8_decode_utf8(text);
    encode_utf8_decode_utf8(envelope_text(sent));
    law_envelope_is_in_its_document(sent, envelope@);
}

/// A document holds one envelope only.
pub proof fn law_envelope_is_in_its_document(first: EnvelopeView, second: EnvelopeView)
    requires
        envelope_json(first) == envelope_json(second),
    ensures
        first == second,
{
    let a = envelope_json(first)->Object_0;
    let b = envelope_json(second)->Object_0;
    assert(a[0].1 == b[0].1 && a[1].1 == b[1].1 && a[2].1 == b[2].1);
    assert(a[3].1 == b[3].1 && a[4].1 == b[4].1 && a[5].1 == b[5].1);
}

/// The number of bytes in a ciphertext: the message with its length, padded up to the next whole number
/// of blocks, and the tag.
pub open spec fn ciphertext_len(content: Seq<char>) -> int {
    PADDING_BLOCK * ((PREFIX_LEN + encode_utf8(content).len()) / PADDING_BLOCK as int + 1) + TAG_LEN
}

/// The ciphertext of a message is padded to whole blocks, the last of them never empty of padding.
pub proof fn law_ciphertext_is_padded(
    envelope: EnvelopeView,
    content: Seq<char>,
    recipient: Seq<u8>,
    sender_id: Seq<char>,
    sender_name: Seq<char>,
    format: Seq<char>,
)
    requires
        sealed_for(envelope, content, recipient, sender_id, sender_name, format),
    ensures
        base64_decoded(envelope.ciphertext) matches Ok(bytes) && bytes.len() == ciphertext_len(content),
{
}

/// The ciphertext shows only in which block the length of a message lies: of two messages whose lengths
/// fall into the same block, the ciphertexts are equally long.
pub proof fn law_similar_messages_look_alike(
    first: EnvelopeView,
    first_content: Seq<char>,
    first_recipient: Seq<u8>,
    second: EnvelopeView,
    second_content: Seq<char>,
    second_recipient: Seq<u8>,
)
    requires
        sealed_for(first, first_content, first_recipient, first.sender_id, first.sender_name, first.format),
        sealed_for(second, second_content, second_recipient, second.sender_id, second.sender_name, second.format),
        (PREFIX_LEN + encode_utf8(first_content).len()) / PADDING_BLOCK as int == (PREFIX_LEN + encode_utf8(
            second_content,
        ).len()) / PADDING_BLOCK as int,
    ensures
        base64_decoded(first.ciphertext) is Ok,
        base64_decoded(second.ciphertext) is Ok,
        base64_decoded(first.ciphertext)->Ok_0.len() == base64_decoded(second.ciphertext)->Ok_0.len(),
{
    law_frame_hides_length(encode_utf8(first_content).len() as int, encode_utf8(second_content).len() as int);
}

/// Nor does the payload show more: of two messages from one sender whose lengths fall into the same
/// block, the payloads are equally long.
pub proof fn law_similar_payloads_look_alike(
    first: Seq<char>,
    first_content: Seq<char>,
    first_recipient: Seq<u8>,
    second: Seq<char>,
    second_content: Seq<char>,
    second_recipient: Seq<u8>,
    sender_id: Seq<char>,
    sender_name: Seq<char>,
    format: Seq<char>,
)
    requires
        is_message(first, first_content, first_recipient, sender_id, sender_name, format),
        is_message(second, second_content, second_recipient, sender_id, sender_name, format),
        (PREFIX_LEN + encode_utf8(first_content).len()) / PADDING_BLOCK as int == (PREFIX_LEN + encode_utf8(
            second_content,
        ).len()) / PADDING_BLOCK as int,
    ensures
        first.len() == second.len(),
{
    let a = choose|e: EnvelopeView|
        {
            &&& carries(first, e)
            &&& #[trigger] sealed_for(e, first_content, first_recipient, sender_id, sender_name, format)
        };
    let b = choose|e: EnvelopeView|
        {
            &&& carries(second, e)
            &&& #[trigger] sealed_for(e, second_content, second_recipient, sender_id, sender_name, format)
        };
    law_frame_hides_length(encode_utf8(first_content).len() as int, encode_utf8(second_content).len() as int);
    lemma_base64_is_equally_wide(a.ephemeral_public_key, b.ephemeral_public_key);
    lemma_base64_is_equally_wide(a.nonce, b.nonce);
    lemma_base64_is_equally_wide(a.ciphertext, b.ciphertext);
    let xs = envelope_json(a)->Object_0;
    let ys = envelope_json(b)->Object_0;
    lemma_members_width(xs, ys);
    lemma_encode_concat(seq!['{'], members_text(xs));
    lemma_encode_concat(seq!['{'], members_text(ys));
    lemma_encode_concat(seq!['{'] + members_text(xs), seq!['}']);
    lemma_encode_concat(seq!['{'] + members_text(ys), seq!['}']);
}

proof fn lemma_base64_is_equally_wide(a: Seq<char>, b: Seq<char>)
    requires
        is_base64_text(a),
        is_base64_text(b),
        a.len() == b.len(),
    ensures
        equally_wide(a, b),
{
}

/// An envelope shows all that it holds.
pub proof fn law_envelope_shows_all(envelope: EncryptedEnvelope)
    ensures
        envelope@.ephemeral_public_key == envelope.ephemeral_public_key@,
        envelope@.nonce == envelope.nonce@,
        envelope@.ciphertext == envelope.ciphertext@,
        envelope@.sender_id == envelope.sender_id@,
        envelope@.sender_name == envelope.sender_name@,
        envelope@.format == envelope.format@,
{
}

/// The document of an envelope has its six strings under their names, and nothing else.
pub proof fn law_document_has_the_envelope(envelope: EnvelopeView)
    ensures
        envelope_json(envelope).text_member("ephemeral_public_key"@) == Some(envelope.ephemeral_public_key),
        envelope_json(envelope).text_member("nonce"@) == Some(envelope.nonce),
        envelope_json(envelope).text_member("ciphertext"@) == Some(envelope.ciphertext),
        envelope_json(envelope).text_member("sender_id"@) == Some(envelope.sender_id),
        envelope_json(envelope).text_member("sender_name"@) == Some(envelope.sender_name),
        envelope_json(envelope).text_member("format"@) == Some(envelope.format),
        envelope_json(envelope)->Object_0.len() == 6,
{
    lemma_envelope_is_text(envelope);
    let members = envelope_json(envelope)->Object_0;
    lemma_found_member(members, 0);
    lemma_found_member(members, 1);
    lemma_found_member(members, 2);
    lemma_found_member(members, 3);
    lemma_found_member(members, 4);
    lemma_found_member(members, 5);
}

/// How long a message may be: up to 2^32 - 1 bytes for its length to fit, and up to what the cipher takes,
/// padding included, to be encrypted at all.
pub proof fn law_message_lengths(content: Seq<char>)
    ensures
        has_length(content) <==> encode_utf8(content).len() < 0x1_0000_0000,
        can_seal(content) <==> 256 * ((4 + encode_utf8(content).len()) / 256 + 1) <= 274_877_906_816,
{
}

/// What travels is a document in base64 that tells the relay and the reader just this: the sender, the
/// format, a key of 32 bytes, a nonce of 24, and a ciphertext that is longer than the message by its
/// length, its padding up to the next block of 256 bytes and the tag.
pub proof fn law_message_is_an_envelope(
    payload: Seq<char>,
    content: Seq<char>,
    recipient: Seq<u8>,
    sender_id: Seq<char>,
    sender_name: Seq<char>,
    format: Seq<char>,
)
    requires
        is_message(payload, content, recipient, sender_id, sender_name, format),
    ensures
        exists|text: Seq<char>, document: JsonView|
            #![trigger encode_utf8(text), document.text_member("format"@)]
            {
                &&& base64_decoded(payload) == Ok::<Seq<u8>, Seq<char>>(encode_utf8(text))
                &&& json_document(text) == Some(document)
                &&& document.text_member("sender_id"@) == Some(sender_id)
                &&& document.text_member("sender_name"@) == Some(sender_name)
                &&& document.text_member("format"@) == Some(format)
                &&& document.text_member("ephemeral_public_key"@) matches Some(key) && base64_decoded(
                    key,
                ) matches Ok(bytes) && bytes.len() == 32
                &&& document.text_member("nonce"@) matches Some(nonce) && base64_decoded(nonce) matches Ok(bytes)
                    && bytes.len() == 24
                &&& document.text_member("ciphertext"@) matches Some(ciphertext) && base64_decoded(
                    ciphertext,
                ) matches Ok(bytes) && bytes.len() == 256 * ((4 + encode_utf8(content).len()) / 256 + 1) + 16
            },
{
    let sent = choose|sent: EnvelopeView|
        {
            &&& carries(payload, sent)
            &&& #[trigger] sealed_for(sent, content, recipient, sender_id, sender_name, format)
        };
    let text = envelope_text(sent);
    let document = envelope_json(sent);
    law_document_has_the_envelope(sent);
    assert(base64_decoded(payload) == Ok::<Seq<u8>, Seq<char>>(encode_utf8(text)));
    assert(document.text_member("format"@) == Some(format));
}

/// Each message has a key of its own: one that can only be drawn at random, whose public half stands in
/// the envelope, and under whose agreement with the recipient the whole message is encrypted.
pub proof fn law_each_message_has_its_own_key(
    envelope: EnvelopeView,
    content: Seq<char>,
    recipient: Seq<u8>,
    sender_id: Seq<char>,
    sender_name: Seq<char>,
    format: Seq<char>,
)
    requires
        sealed_for(envelope, content, recipient, sender_id, sender_name, format),
    ensures
        exists|secret: x25519_dalek::EphemeralSecret, nonce: Seq<u8>, pad: Seq<u8>|
            #![trigger ephemeral_bytes(secret), base64_text(nonce), framed(encode_utf8(content), pad)]
            {
                &&& envelope.ephemeral_public_key == base64_text(x25519_public_of(ephemeral_bytes(secret)))
                &&& envelope.nonce == base64_text(nonce)
                &&& envelope.ciphertext == base64_text(
                    xchacha_sealed(
                        sha256_of(x25519_shared_of(ephemeral_bytes(secret), recipient)),
                        nonce,
                        framed(encode_utf8(content), pad),
                    ),
                )
            },
{
    let (agreement, secret, nonce, pad) = choose|
        agreement: Agreement,
        secret: x25519_dalek::EphemeralSecret,
        nonce: Seq<u8>,
        pad: Seq<u8>,
    |
        #![trigger agreed(agreement, secret, recipient), framed(encode_utf8(content), pad), base64_text(nonce)]
        {
            &&& agreed(agreement, secret, recipient)
            &&& nonce.len() == NONCE_LEN
            &&& pad.len() == padding_for(encode_utf8(content).len() as int)
            &&& envelope == sealed_envelope(content, agreement, nonce, pad, sender_id, sender_name, format)
        };
    assert(agreed(agreement, secret, recipient));
    assert(envelope.nonce == base64_text(nonce));
    assert(envelope.ephemeral_public_key == base64_text(x25519_public_of(ephemeral_bytes(secret))));
}

/// What an envelope is made of is what its sender, its key, its nonce and its frame give, each in its
/// place.
pub proof fn law_sealed_envelope(
    content: Seq<char>,
    agreement: Agreement,
    nonce: Seq<u8>,
    pad: Seq<u8>,
    sender_id: Seq<char>,
    sender_name: Seq<char>,
    format: Seq<char>,
)
    ensures
        ({
            let e = sealed_envelope(content, agreement, nonce, pad, sender_id, sender_name, format);
            &&& e.ephemeral_public_key == base64_text(agreement.ephemeral_public@)
            &&& e.nonce == base64_text(nonce)
            &&& e.ciphertext == base64_text(
                xchacha_sealed(sha256_of(agreement.shared_secret@), nonce, framed(encode_utf8(content), pad)),
            )
            &&& e.sender_id == sender_id
            &&& e.sender_name == sender_name
            &&& e.format == format
        }),
{
}

/// Whatever the cipher opens under the key agreed with the sender is read, however it was padded: the text
/// whose length and bytes stand at the beginning.
pub proof fn law_opened_envelope_is_read(
    envelope: EnvelopeView,
    own: Seq<u8>,
    their_public: Seq<u8>,
    nonce: Seq<u8>,
    ciphertext: Seq<u8>,
    plaintext: Seq<u8>,
    text: Seq<char>,
)
    requires
        base64_decoded(envelope.ephemeral_public_key) == Ok::<Seq<u8>, Seq<char>>(their_public),
        their_public.len() == 32,
        base64_decoded(envelope.nonce) == Ok::<Seq<u8>, Seq<char>>(nonce),
        nonce.len() == 24,
        base64_decoded(envelope.ciphertext) == Ok::<Seq<u8>, Seq<char>>(ciphertext),
        ciphertext.len() <= 274_877_906_832,
        xchacha_opened(sha256_of(x25519_shared_of(own, their_public)), nonce, ciphertext) == Some(plaintext),
        plaintext.len() >= 4 + encode_utf8(text).len(),
        plaintext[0] * 0x1000000 + plaintext[1] * 0x10000 + plaintext[2] * 0x100 + plaintext[3] == encode_utf8(
            text,
        ).len(),
        plaintext.subrange(4, 4 + encode_utf8(text).len() as int) == encode_utf8(text),
    ensures
        opened(envelope, own) == Ok::<Seq<char>, Seq<char>>(text),
{
    law_frame_is_read_as_declared(plaintext, encode_utf8(text).len() as int);
    encode_utf8_valid_utf8(text);
    encode_utf8_decode_utf8(text);
}

/// Nothing is read that the cipher did not open: whatever text comes out stands, with its length, at the
/// beginning of what was encrypted under the key agreed with the owner of the key in the envelope.
pub proof fn law_read_text_was_encrypted(envelope: EnvelopeView, own: Seq<u8>, text: Seq<char>)
    requires
        opened(envelope, own) == Ok::<Seq<char>, Seq<char>>(text),
    ensures
        base64_decoded(envelope.ephemeral_public_key) is Ok,
        base64_decoded(envelope.ephemeral_public_key)->Ok_0.len() == 32,
        base64_decoded(envelope.nonce) is Ok,
        base64_decoded(envelope.nonce)->Ok_0.len() == 24,
        base64_decoded(envelope.ciphertext) is Ok,
        xchacha_opened(
            sha256_of(x25519_shared_of(own, base64_decoded(envelope.ephemeral_public_key)->Ok_0)),
            base64_decoded(envelope.nonce)->Ok_0,
            base64_decoded(envelope.ciphertext)->Ok_0,
        ) matches Some(plaintext) && plaintext.len() >= 4 + encode_utf8(text).len() && plaintext.subrange(
            4,
            4 + encode_utf8(text).len() as int,
        ) == encode_utf8(text) && plaintext[0] * 0x1000000 + plaintext[1] * 0x10000 + plaintext[2] * 0x100
            + plaintext[3] == encode_utf8(text).len(),
{
    let plaintext = xchacha_opened(
        sha256_of(x25519_shared_of(own, base64_decoded(envelope.ephemeral_public_key)->Ok_0)),
        base64_decoded(envelope.nonce)->Ok_0,
        base64_decoded(envelope.ciphertext)->Ok_0,
    )->0;
    decode_utf8_encode_utf8(unframed(plaintext)->Ok_0);
}

/// Each fault of an envelope has its words, and the first one counts: the key, then the nonce, then the
/// ciphertext.
pub proof fn law_faults_of_an_envelope(envelope: EnvelopeView, own: Seq<u8>)
    ensures
        ({
            let key = base64_decoded(envelope.ephemeral_public_key);
            let nonce = base64_decoded(envelope.nonce);
            let ciphertext = base64_decoded(envelope.ciphertext);
            let is_key = key is Ok && key->Ok_0.len() == 32;
            let is_nonce = nonce is Ok && nonce->Ok_0.len() == 24;
            let found = opened(envelope, own);
            &&& key matches Err(words) ==> found == Err::<Seq<char>, Seq<char>>("Ephemeral key decode: "@ + words)
            &&& key is Ok && !is_key ==> found == Err::<Seq<char>, Seq<char>>("Invalid ephemeral public key length"@)
            &&& is_key ==> (nonce matches Err(words) ==> found == Err::<Seq<char>, Seq<char>>(
                "Nonce decode: "@ + words,
            ))
            &&& is_key && nonce is Ok && !is_nonce ==> found == Err::<Seq<char>, Seq<char>>("Invalid nonce length"@)
            &&& is_key && is_nonce ==> (ciphertext matches Err(words) ==> found == Err::<Seq<char>, Seq<char>>(
                "Ciphertext decode: "@ + words,
            ))
            &&& is_key && is_nonce && ciphertext is Ok && xchacha_opened(
                sha256_of(x25519_shared_of(own, key->Ok_0)),
                nonce->Ok_0,
                ciphertext->Ok_0,
            ) is None ==> found == Err::<Seq<char>, Seq<char>>("Decryption failed — message not from a known contact"@)
        }),
{
}

/// Each fault of what was decrypted has its words too.
pub proof fn law_faults_of_a_message(plaintext: Seq<u8>, content: Seq<u8>)
    ensures
        message_in(None) == Err::<Seq<char>, Seq<char>>("Decryption failed — message not from a known contact"@),
        unframed(plaintext) matches Err(words) ==> message_in(Some(plaintext)) == Err::<Seq<char>, Seq<char>>(words),
        unframed(plaintext) == Ok::<Seq<u8>, Seq<char>>(content) && !valid_utf8(content) ==> message_in(Some(plaintext))
            == Err::<Seq<char>, Seq<char>>("UTF-8 decode: "@ + utf8_error_text(content)),
        unframed(plaintext) == Ok::<Seq<u8>, Seq<char>>(content) && valid_utf8(content) ==> message_in(Some(plaintext))
            == Ok::<Seq<char>, Seq<char>>(decode_utf8(content)),
{
}

/// A payload that is no base64, or holds no envelope, is refused with the cause; in any other the envelope
/// decides.
pub proof fn law_faults_of_a_payload(payload: Seq<char>, envelope: EncryptedEnvelope, cause: String, own: Seq<u8>)
    ensures
        base64_decoded(payload) matches Err(words) ==> decrypted(payload, Ok(envelope), own) == Err::<
            Seq<char>,
            Seq<char>,
        >("Base64 decode: "@ + words),
        base64_decoded(payload) matches Err(words) ==> decrypted(payload, Err(cause), own) == Err::<
            Seq<char>,
            Seq<char>,
        >("Base64 decode: "@ + words),
        base64_decoded(payload) is Ok ==> decrypted(payload, Err(cause), own) == Err::<Seq<char>, Seq<char>>(
            "Envelope parse: "@ + cause@,
        ),
        base64_decoded(payload) is Ok ==> decrypted(payload, Ok(envelope), own) == opened(envelope@, own),
{
}

/// The envelope that a payload carries is found in it.
pub proof fn law_carried_envelope_is_in_the_payload(payload: Seq<char>, envelope: EnvelopeView, text: Seq<char>)
    requires
        base64_decoded(payload) == Ok::<Seq<u8>, Seq<char>>(encode_utf8(text)),
        json_document(text) == Some(envelope_json(envelope)),
    ensures
        is_envelope_in(envelope, payload),
{
    assert(decodes_to(payload, encode_utf8(text)));
}

/// What one encrypts for somebody, they read: decrypting what came of encrypting, with the secret key of
/// the recipient and the envelope that the payload carries, gives the content back, and the sender.
pub proof fn law_encrypting_and_decrypting(
    content: &str,
    recipient_public_key: &[u8; 32],
    sender_id: &str,
    sender_name: &str,
    format: &str,
    sent: Result<String, String>,
    payload: &str,
    envelope: EncryptedEnvelope,
    own_secret: &[u8; 32],
    read: Result<(EncryptedEnvelope, String), String>,
)
    requires
        call_ensures(encrypt_for_recipient, (content, recipient_public_key, sender_id, sender_name, format), sent),
        encode_utf8(content@).len() < 0x1_0000_0000,
        sent matches Ok(text) ==> text@ == payload@,
        is_envelope_in(envelope@, payload@),
        x25519_public_of(own_secret@) == recipient_public_key@,
        call_ensures(decrypt_envelope, (payload, Ok(envelope), own_secret), read),
    ensures
        sent is Ok,
        read matches Ok(found) && found.1@ == content@ && found.0.sender_id@ == sender_id@ && found.0.sender_name@
            == sender_name@ && found.0.format@ == format@,
{
    law_message_with_length_is_sealed(content@);
    law_recipient_reads_the_message(
        payload@,
        content@,
        own_secret@,
        sender_id@,
        sender_name@,
        format@,
        envelope,
    );
}

/// Opening an envelope gives the text that the cipher opened, whoever made the envelope, and nothing else.
pub proof fn law_opening_an_envelope(
    envelope: &EncryptedEnvelope,
    own_secret: &[u8; 32],
    r: Result<String, String>,
)
    requires
        call_ensures(open_envelope, (envelope, own_secret), r),
    ensures
        r is Ok <==> opened(envelope@, own_secret@) is Ok,
        r matches Ok(text) ==> (base64_decoded(envelope.ciphertext@) matches Ok(ciphertext) && base64_decoded(
            envelope.nonce@,
        ) matches Ok(nonce) && base64_decoded(envelope.ephemeral_public_key@) matches Ok(key) && xchacha_opened(
            sha256_of(x25519_shared_of(own_secret@, key)),
            nonce,
            ciphertext,
        ) matches Some(plaintext) && plaintext.len() >= 4 + encode_utf8(text@).len() && plaintext.subrange(
            4,
            4 + encode_utf8(text@).len() as int,
        ) == encode_utf8(text@)),
{
    if r is Ok {
        law_read_text_was_encrypted(envelope@, own_secret@, r->Ok_0@);
    }
}

} // verus!

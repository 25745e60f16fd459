use base64::engine::general_purpose::STANDARD as B64;
use base64::Engine;
use chacha20poly1305::aead::OsRng;
use clipygo_plugin_relay::crypto::{derive_key, Agreement};
use clipygo_plugin_relay::envelope::{
    decode_payload, decrypt_envelope, encrypt_for_recipient, open_envelope, read_message, seal, EncryptedEnvelope,
};
use clipygo_plugin_relay::identity::user_id_from_public_key;
use clipygo_plugin_relay::padding::{frame, pad_len, unframe};
use rand::RngCore;
use serde_json::Value;

const ALICE_SECRET: &str = "77076d0a7318a57d3c16c17251b26645df4c2f87ebc0992ac177fba51db92c2a";
const ALICE_PUBLIC: &str = "2953e97dca1229f97c600bec2c17feeaab35ce4bedf66b1d42f16a449dc5c05f";
const BOB_SECRET: &str = "5dab087e624a8a4b79e17f8b83800ee66f3bb1292618b6fd1c2f8b27ff88e0eb";
const SHARED: &str = "03572f4a2e28d9c7131f82cad5f33e4dfe82e0f68eea6e5efc16c1ac75218d3b";
const SEALED: &str = "avJMwjKafqKUtcgdONwKxEmvIH5GkHMgSt3ZRp+fAKvwOjCVfC7zTq7UV3GMdO7LmGL0VbbBQy6Ogg9TtlFP0RqheumdxM7vtoC2h0iQPwg66aJtBkdZzGMLfV+G5Q9cMSyypcxQaAA5liihs9hsnFQ36ndABMhUxgsSMVoR+T9Lj+SITYWimX/q34mBekoYnexj9glJD8VlWxId8Ki4ASa+dkholjRvCIkkhQ/i1IG0mel2KYbX8sfQJkbU1IJGruQ34j+IrHJsAyI8q5WqMeg0cMoQ4Ad6MxRgT3WAxj/sNTv56FOf1WgeKHpIaEixJBWDGHTj5dqUeAm0NyYwXT2ajNF9Lw0xdYrQ3qM23Jw=";
const NONCE: &str = "AAECAwQFBgcICQoLDA0ODxAREhMUFRYX";

fn key(digits: &str) -> [u8; 32] {
    hex::decode(digits).unwrap().try_into().unwrap()
}

fn random_key() -> [u8; 32] {
    let mut bytes = [0u8; 32];
    OsRng.fill_bytes(&mut bytes);
    bytes
}

fn public_of(secret: &[u8; 32]) -> [u8; 32] {
    x25519_dalek::PublicKey::from(&x25519_dalek::StaticSecret::from(*secret)).to_bytes()
}

/// Reads an envelope from its document.
fn parse_envelope(data: &[u8]) -> Result<EncryptedEnvelope, String> {
    let v: Value = serde_json::from_slice(data).map_err(|e| e.to_string())?;
    let field = |name: &str| match v[name].as_str() {
        Some(s) => Ok(s.to_string()),
        None => Err(format!("missing field `{name}`")),
    };
    Ok(EncryptedEnvelope {
        ephemeral_public_key: field("ephemeral_public_key")?,
        nonce: field("nonce")?,
        ciphertext: field("ciphertext")?,
        sender_id: field("sender_id")?,
        sender_name: field("sender_name")?,
        format: field("format")?,
    })
}

/// Decrypts a payload, as the plugin does with one that arrives.
fn decrypt(payload: &str, secret: &[u8; 32]) -> Result<(EncryptedEnvelope, String), String> {
    let parsed = match decode_payload(payload) {
        Ok(bytes) => parse_envelope(&bytes),
        Err(e) => Err(e),
    };
    decrypt_envelope(payload, parsed, secret)
}

fn envelope(ephemeral_public_key: &str, nonce: &str, ciphertext: &str) -> EncryptedEnvelope {
    EncryptedEnvelope {
        ephemeral_public_key: ephemeral_public_key.to_string(),
        nonce: nonce.to_string(),
        ciphertext: ciphertext.to_string(),
        sender_id: "sid".to_string(),
        sender_name: "Alice".to_string(),
        format: "text".to_string(),
    }
}

/// What Bob finds in an envelope from Alice with the given ciphertext.
fn bob_reads(ciphertext: &str) -> Result<String, String> {
    open_envelope(&envelope(&B64.encode(key(ALICE_PUBLIC)), NONCE, ciphertext), &key(BOB_SECRET))
}

#[test]
fn encrypt_decrypt_roundtrip() {
    let recipient_secret = random_key();
    let recipient_public = public_of(&recipient_secret);

    let payload = encrypt_for_recipient("Hello, World!", &recipient_public, "sender123", "Alice", "text").unwrap();

    let (envelope, content) = decrypt(&payload, &recipient_secret).unwrap();
    assert_eq!(content, "Hello, World!");
    assert_eq!(envelope.sender_id, "sender123");
    assert_eq!(envelope.sender_name, "Alice");
    assert_eq!(envelope.format, "text");
}

#[test]
fn decrypt_with_wrong_key_fails() {
    let recipient_secret = random_key();
    let recipient_public = public_of(&recipient_secret);

    let payload = encrypt_for_recipient("secret", &recipient_public, "s", "S", "text").unwrap();

    // Try to decrypt with a different key
    let wrong_secret = random_key();

    assert!(decrypt(&payload, &wrong_secret).is_err());
}

#[test]
fn encrypt_produces_different_ciphertext_each_time() {
    let recipient_public = public_of(&[42u8; 32]);

    let p1 = encrypt_for_recipient("same content", &recipient_public, "s", "S", "text").unwrap();
    let p2 = encrypt_for_recipient("same content", &recipient_public, "s", "S", "text").unwrap();

    // Ephemeral keys + random nonces should produce different payloads
    assert_ne!(p1, p2);
}

#[test]
fn encrypted_envelope_serialization() {
    let envelope = EncryptedEnvelope {
        ephemeral_public_key: "key123".to_string(),
        nonce: "nonce456".to_string(),
        ciphertext: "ct789".to_string(),
        sender_id: "sid".to_string(),
        sender_name: "Alice".to_string(),
        format: "text".to_string(),
    };

    let json = decode_payload(&envelope.payload()).unwrap();
    let parsed = parse_envelope(&json).unwrap();
    assert_eq!(parsed.sender_name, "Alice");
    assert_eq!(parsed.format, "text");
    assert_eq!(parsed, envelope);
    assert_eq!(
        String::from_utf8(json).unwrap(),
        "{\"ephemeral_public_key\":\"key123\",\"nonce\":\"nonce456\",\"ciphertext\":\"ct789\",\"sender_id\":\"sid\",\"sender_name\":\"Alice\",\"format\":\"text\"}"
    );
}

#[test]
fn derive_key_is_deterministic() {
    let shared = [42u8; 32];
    let k1 = derive_key(&shared);
    let k2 = derive_key(&shared);
    assert_eq!(k1, k2);
}

#[test]
fn derive_key_different_inputs_produce_different_keys() {
    let k1 = derive_key(&[1u8; 32]);
    let k2 = derive_key(&[2u8; 32]);
    assert_ne!(k1, k2);
}

#[test]
fn derive_key_exact_value() {
    assert_eq!(
        hex::encode(derive_key(&[42u8; 32])),
        "544e62cee8033709e389e5b2755343d0d0fa8c4850215cfb6331717e80d1aea3"
    );
}

/// Simulate two users: Alice encrypts a message for Bob, Bob decrypts it.
#[test]
fn e2e_alice_sends_to_bob() {
    // Bob's keypair
    let bob_secret = random_key();
    let bob_public = public_of(&bob_secret);
    // Alice's identity
    let alice_secret = random_key();
    let alice_public = public_of(&alice_secret);
    let alice_id = user_id_from_public_key(&alice_public);

    // Alice encrypts for Bob
    let content = "Meeting link: https://meet.example.com/abc-defg-hij";
    let payload = encrypt_for_recipient(content, &bob_public, &alice_id, "Alice", "text").unwrap();

    // Payload is base64 — verify it's not plaintext
    assert!(!payload.contains("Meeting link"));

    // Bob decrypts
    let (envelope, decrypted) = decrypt(&payload, &bob_secret).unwrap();
    assert_eq!(decrypted, content);
    assert_eq!(envelope.sender_id, alice_id);
    assert_eq!(envelope.sender_name, "Alice");
    assert_eq!(envelope.format, "text");

    // Alice cannot decrypt her own message (she used an ephemeral key)
    assert!(decrypt(&payload, &alice_secret).is_err());

    // Random third party cannot decrypt
    let eve_secret = random_key();
    assert!(decrypt(&payload, &eve_secret).is_err());
}

/// Bidirectional: Alice sends to Bob, Bob sends to Alice.
/// Verifies both directions work with the same keypairs.
#[test]
fn e2e_bidirectional_exchange() {
    let alice_secret = random_key();
    let alice_public = public_of(&alice_secret);
    let alice_id = user_id_from_public_key(&alice_public);

    let bob_secret = random_key();
    let bob_public = public_of(&bob_secret);
    let bob_id = user_id_from_public_key(&bob_public);

    // Alice → Bob
    let msg_a = "Hello Bob!";
    let payload_a = encrypt_for_recipient(msg_a, &bob_public, &alice_id, "Alice", "text").unwrap();
    let (env_a, dec_a) = decrypt(&payload_a, &bob_secret).unwrap();
    assert_eq!(dec_a, msg_a);
    assert_eq!(env_a.sender_name, "Alice");

    // Bob → Alice
    let msg_b = "Hey Alice!";
    let payload_b = encrypt_for_recipient(msg_b, &alice_public, &bob_id, "Bob", "text").unwrap();
    let (env_b, dec_b) = decrypt(&payload_b, &alice_secret).unwrap();
    assert_eq!(dec_b, msg_b);
    assert_eq!(env_b.sender_name, "Bob");

    // Cross-decryption fails
    assert!(decrypt(&payload_a, &alice_secret).is_err());
    assert!(decrypt(&payload_b, &bob_secret).is_err());
}

/// Full relay message simulation: encrypt, wrap in a relay message,
/// parse back, and decrypt — mimics what happens over the wire.
#[test]
fn e2e_through_relay_message_format() {
    let recipient_secret = random_key();
    let recipient_public = public_of(&recipient_secret);
    let content = "Sensitive clipboard data 🔐";
    let sender_id = "sender_abc";
    let payload = encrypt_for_recipient(content, &recipient_public, sender_id, "Sender", "text").unwrap();

    // Simulate the JSON the relay server would deliver over WebSocket
    let mut members = serde_json::Map::new();
    members.insert("from".to_string(), Value::from(sender_id));
    members.insert("payload".to_string(), Value::from(payload));
    members.insert("timestamp".to_string(), Value::from(1711900000.0f64));
    let relay_text = Value::Object(members).to_string();

    // Parse as the plugin would
    let relay_msg: Value = serde_json::from_str(&relay_text).unwrap();
    assert_eq!(relay_msg["from"], sender_id);
    assert_eq!(relay_msg["timestamp"].as_f64().unwrap() as u64, 1711900000);

    let (envelope, decrypted) = decrypt(relay_msg["payload"].as_str().unwrap(), &recipient_secret).unwrap();
    assert_eq!(decrypted, content);
    assert_eq!(envelope.sender_id, sender_id);
    assert_eq!(envelope.sender_name, "Sender");
}

/// Verify that corrupted payloads are rejected.
#[test]
fn e2e_corrupted_payload_rejected() {
    let recipient_secret = random_key();
    let recipient_public = public_of(&recipient_secret);

    let payload = encrypt_for_recipient("secret", &recipient_public, "s", "S", "text").unwrap();

    // Decode, flip a byte in the middle, re-encode
    let mut raw = B64.decode(&payload).unwrap();
    if raw.len() > 10 {
        let mid = raw.len() / 2;
        raw[mid] ^= 0xFF;
    }
    let corrupted = B64.encode(&raw);

    assert!(decrypt(&corrupted, &recipient_secret).is_err());
}

#[test]
fn padded_encrypt_decrypt_roundtrip() {
    let recipient_secret = [42u8; 32];
    let recipient_public = public_of(&recipient_secret);

    let content = "Hello, padded world!";
    let payload = encrypt_for_recipient(content, &recipient_public, "s", "Sender", "text").unwrap();

    let (_, decrypted) = decrypt(&payload, &recipient_secret).unwrap();
    assert_eq!(decrypted, content);
}

#[test]
fn padded_ciphertext_is_block_aligned() {
    let recipient_secret = [42u8; 32];
    let recipient_public = public_of(&recipient_secret);

    // Test various content sizes
    for size in [1, 10, 100, 252, 256, 500, 1000] {
        let content: String = "x".repeat(size);
        let payload = encrypt_for_recipient(&content, &recipient_public, "s", "S", "text").unwrap();

        let (envelope, decrypted) = decrypt(&payload, &recipient_secret).unwrap();
        assert_eq!(decrypted, content);
        assert_eq!((B64.decode(&envelope.ciphertext).unwrap().len() - 16) % 256, 0);
    }
}

#[test]
fn padding_obscures_similar_length_messages() {
    let recipient_public = public_of(&[42u8; 32]);

    // Messages of similar but different lengths should produce same-length ciphertexts
    // when they fall in the same block
    let payload_a = encrypt_for_recipient("short", &recipient_public, "s", "S", "text").unwrap();
    let payload_b = encrypt_for_recipient("short!", &recipient_public, "s", "S", "text").unwrap();

    // Decode the envelopes to compare ciphertext sizes
    let env_a = parse_envelope(&B64.decode(&payload_a).unwrap()).unwrap();
    let env_b = parse_envelope(&B64.decode(&payload_b).unwrap()).unwrap();

    let ct_a = B64.decode(&env_a.ciphertext).unwrap();
    let ct_b = B64.decode(&env_b.ciphertext).unwrap();

    // Both "short" (5 bytes) and "short!" (6 bytes) should pad to the same block size
    assert_eq!(ct_a.len(), ct_b.len());
    assert_eq!(ct_a.len(), 272);
}

#[test]
fn empty_content_roundtrips() {
    let recipient_secret = [42u8; 32];
    let recipient_public = public_of(&recipient_secret);

    let payload = encrypt_for_recipient("", &recipient_public, "s", "S", "text").unwrap();
    let (_, decrypted) = decrypt(&payload, &recipient_secret).unwrap();
    assert_eq!(decrypted, "");
}

#[test]
fn sealed_envelope_exact_value() {
    let agreement = Agreement { ephemeral_public: key(ALICE_PUBLIC), shared_secret: key(SHARED) };
    let nonce: [u8; 24] = B64.decode(NONCE).unwrap().try_into().unwrap();
    let pad = vec![7u8; pad_len(7)];
    let sealed = seal("Hi, Bob", &agreement, &nonce, &pad, "sid", "Alice", "text").unwrap();
    assert_eq!(sealed, envelope("KVPpfcoSKfl8YAvsLBf+6qs1zkvt9msdQvFqRJ3FwF8=", NONCE, SEALED));
    assert_eq!(open_envelope(&sealed, &key(BOB_SECRET)).unwrap(), "Hi, Bob");
}

#[test]
fn known_ciphertext_is_opened() {
    assert_eq!(bob_reads(SEALED).unwrap(), "Hi, Bob");
    let not_for_alice = envelope(&B64.encode(key(ALICE_PUBLIC)), NONCE, SEALED);
    assert_eq!(
        open_envelope(&not_for_alice, &key(ALICE_SECRET)).unwrap_err(),
        "Decryption failed — message not from a known contact"
    );
}

#[test]
fn each_fault_has_its_words() {
    let own = key(BOB_SECRET);
    let good_key = B64.encode(key(ALICE_PUBLIC));
    let words = |e: EncryptedEnvelope| open_envelope(&e, &own).unwrap_err();

    assert_eq!(words(envelope("!", NONCE, SEALED)), "Ephemeral key decode: Invalid symbol 33, offset 0.");
    assert_eq!(words(envelope("AAAA", NONCE, SEALED)), "Invalid ephemeral public key length");
    assert_eq!(words(envelope(&good_key, "?", SEALED)), "Nonce decode: Invalid symbol 63, offset 0.");
    assert_eq!(words(envelope(&good_key, "AAAA", SEALED)), "Invalid nonce length");
    assert_eq!(words(envelope(&good_key, NONCE, "*")), "Ciphertext decode: Invalid symbol 42, offset 0.");
    assert_eq!(words(envelope(&good_key, NONCE, "")), "Decryption failed — message not from a known contact");
    assert_eq!(bob_reads("C5AvCuWpFAw5lfIXPUIQoeaiEQ==").unwrap_err(), "Decrypted payload too short");
    assert_eq!(
        bob_reads("avJMzBuRMYG6ETisZw7FvaOf08MaEDQ=").unwrap_err(),
        "Decrypted payload shorter than declared content length"
    );
    assert_eq!(
        bob_reads("avJMx4UNqqp/CAS6wVrq7Cq3NujB0A==").unwrap_err(),
        "UTF-8 decode: invalid utf-8 sequence of 1 bytes from index 0"
    );
}

#[test]
fn the_first_fault_is_told() {
    let own = key(BOB_SECRET);
    let words = |e: EncryptedEnvelope| open_envelope(&e, &own).unwrap_err();
    assert_eq!(words(envelope("AAAA", "?", "*")), "Invalid ephemeral public key length");
    assert_eq!(words(envelope(&B64.encode([0u8; 32]), "AAAA", "*")), "Invalid nonce length");
}

#[test]
fn payload_faults_have_their_words() {
    let own = key(BOB_SECRET);
    assert_eq!(decrypt("!", &own).unwrap_err(), "Base64 decode: Invalid symbol 33, offset 0.");
    let parsed = Err("no envelope".to_string());
    assert_eq!(decrypt_envelope("e30=", parsed, &own).unwrap_err(), "Envelope parse: no envelope");
    let parsed = Ok(envelope("AAAA", NONCE, SEALED));
    assert_eq!(decrypt_envelope("e30=", parsed, &own).unwrap_err(), "Invalid ephemeral public key length");
    assert_eq!(decode_payload("SGk=").unwrap(), b"Hi".to_vec());
}

#[test]
fn message_is_read_from_its_frame() {
    assert_eq!(read_message(Some(vec![0, 0, 0, 2, b'o', b'k', 9, 9])).unwrap(), "ok");
    assert_eq!(read_message(None).unwrap_err(), "Decryption failed — message not from a known contact");
}

#[test]
fn frames_fill_whole_blocks() {
    assert_eq!(pad_len(0), 252);
    assert_eq!(pad_len(7), 245);
    assert_eq!(pad_len(251), 1);
    assert_eq!(pad_len(252), 256);
    assert_eq!(pad_len(253), 255);
    for size in [0usize, 1, 251, 252, 253, 508, 1000] {
        let content = vec![5u8; size];
        let pad = vec![1u8; pad_len(size)];
        let framed = frame(&content, &pad);
        assert_eq!(framed.len() % 256, 0);
        assert_eq!(framed[..4], (size as u32).to_be_bytes());
        assert_eq!(unframe(&framed).unwrap(), content);
    }
}

#[test]
fn short_frames_are_refused() {
    assert_eq!(unframe(&[0, 0, 0]).unwrap_err(), "Decrypted payload too short");
    assert_eq!(unframe(&[0, 0, 0, 0]).unwrap(), Vec::<u8>::new());
    assert_eq!(
        unframe(&[0, 0, 1, 0, 7]).unwrap_err(),
        "Decrypted payload shorter than declared content length"
    );
    assert_eq!(
        unframe(&[255, 255, 255, 255]).unwrap_err(),
        "Decrypted payload shorter than declared content length"
    );
}

#[test]
fn fields_have_their_lengths() {
    let recipient_public = public_of(&[42u8; 32]);
    for (size, expected) in [(0usize, 272usize), (251, 272), (252, 528), (253, 528), (507, 528), (508, 784)] {
        let payload =
            encrypt_for_recipient(&"x".repeat(size), &recipient_public, "\"s\"\n", "", "text").unwrap();
        let envelope = parse_envelope(&B64.decode(&payload).unwrap()).unwrap();
        assert_eq!(B64.decode(&envelope.ephemeral_public_key).unwrap().len(), 32);
        assert_eq!(B64.decode(&envelope.nonce).unwrap().len(), 24);
        assert_eq!(B64.decode(&envelope.ciphertext).unwrap().len(), expected);
        assert_eq!(envelope.sender_id, "\"s\"\n");
        assert_eq!(envelope.sender_name, "");
    }
}

#[test]
fn similar_payloads_are_equally_long() {
    let recipient_public = public_of(&[42u8; 32]);
    let length = |content: &str| {
        encrypt_for_recipient(content, &recipient_public, "s\u{1}é", "S", "text").unwrap().len()
    };
    assert_eq!(length("short"), length("short!"));
    assert_eq!(length(""), length(&"x".repeat(251)));
    assert_ne!(length(""), length(&"x".repeat(252)));
}

use base64::engine::general_purpose::STANDARD as B64;
use base64::Engine;
use clipygo_plugin_relay::config::AppConfig;
use clipygo_plugin_relay::crypto::Agreement;
use clipygo_plugin_relay::envelope::{seal, EncryptedEnvelope};
use clipygo_plugin_relay::json::Fields;
use clipygo_plugin_relay::padding::pad_len;
use clipygo_plugin_relay::session::{
    answer_challenge, answer_text, begin, message_line, plan_session, read_challenge, read_delivery, read_stragglers,
    relay_base, status_line, step, Challenge, Delivery, Happening, IncomingMessageData, Notice, Phase, Status,
};
use clipygo_plugin_relay::token::derive_routing_token;

const ALICE_SECRET: &str = "77076d0a7318a57d3c16c17251b26645df4c2f87ebc0992ac177fba51db92c2a";
const ALICE_PUBLIC: &str = "2953e97dca1229f97c600bec2c17feeaab35ce4bedf66b1d42f16a449dc5c05f";
const BOB_SECRET: &str = "5dab087e624a8a4b79e17f8b83800ee66f3bb1292618b6fd1c2f8b27ff88e0eb";
const BOB_PUBLIC: &str = "de9edb7d7b7dc1b4d35b61c2ece435373f8343c85b78674dadfc7e146f882b4f";
const SHARED: &str = "03572f4a2e28d9c7131f82cad5f33e4dfe82e0f68eea6e5efc16c1ac75218d3b";

/// What Alice answers to a challenge with Bob's public key and the nonce 00ff10.
const ANSWER: &str = "{\"hmac\":\"93ba11b7aa498e20f5b517ed5bfb52d21f047a53253af117df1929f9e1d79a3a\",\"public_key\":\"KVPpfcoSKfl8YAvsLBf+6qs1zkvt9msdQvFqRJ3FwF8=\",\"type\":\"auth\"}";

fn key(digits: &str) -> [u8; 32] {
    hex::decode(digits).unwrap().try_into().unwrap()
}

fn alice() -> Option<[u8; 32]> {
    Some(key(ALICE_SECRET))
}

fn challenge_text(kind: &str, server_public_key: &str, nonce: &str) -> String {
    format!("{{\"type\":\"{kind}\",\"server_public_key\":\"{server_public_key}\",\"nonce\":\"{nonce}\"}}")
}

fn good_challenge() -> String {
    challenge_text("challenge", &B64.encode(key(BOB_PUBLIC)), "00FF10")
}

/// A message from Bob, through an ephemeral key, to Alice.
fn sealed(content: &str) -> EncryptedEnvelope {
    let agreement = Agreement { ephemeral_public: key(BOB_PUBLIC), shared_secret: key(SHARED) };
    let pad = vec![0u8; pad_len(content.len())];
    seal(content, &agreement, &[1u8; 24], &pad, "bob-id", "Bob", "text").unwrap()
}

fn delivery(content: &str) -> Delivery {
    let envelope = sealed(content);
    Delivery { payload: envelope.payload(), parsed: Ok(envelope), timestamp: 1_711_900_000 }
}

fn message(content: &str) -> IncomingMessageData {
    IncomingMessageData {
        from_name: "Bob".to_string(),
        from_id: "bob-id".to_string(),
        content: content.to_string(),
        format: "text".to_string(),
        timestamp: 1_711_900_000,
    }
}

fn over() -> Phase {
    Phase::Over { pause: 5 }
}

fn text(text: &str) -> Happening {
    Happening::Text { text: text.to_string(), delivery: None }
}

fn delivered(delivery: Delivery) -> Happening {
    Happening::Text { text: "{}".to_string(), delivery: Some(delivery) }
}

fn failure(words: &str) -> Notice {
    Notice::Failure { words: words.to_string() }
}

fn told(status: Status) -> Notice {
    Notice::Connection { status }
}

fn config(relay_url: &str) -> AppConfig {
    AppConfig {
        relay_url: relay_url.to_string(),
        display_name: String::new(),
        ignore_tls_errors: false,
        contacts: vec![],
    }
}

#[test]
fn relay_address_loses_its_slashes() {
    assert_eq!(relay_base(&config("")), None);
    assert_eq!(relay_base(&config("https://r")), Some("https://r".to_string()));
    assert_eq!(relay_base(&config("https://r/a//")), Some("https://r/a".to_string()));
    assert_eq!(relay_base(&config("///")), Some(String::new()));
}

#[test]
fn session_is_planned_by_the_time() {
    let plan = plan_session("https://relay.test", &key(ALICE_PUBLIC), 1_700_000_000);
    assert_eq!(plan.ws_url, "wss://relay.test/ws/1fa0a7e1001e6fa4");
    assert_eq!(plan.poll_url, Some("https://relay.test/poll/9dc4eeef26c62cb6".to_string()));
    assert_eq!(plan.lifetime, 100);
}

#[test]
fn first_period_has_none_before_it() {
    let plan = plan_session("http://relay.test:8000", &key(ALICE_PUBLIC), 299);
    assert_eq!(plan.ws_url, "ws://relay.test:8000/ws/c4ff38e4a33dc4c9");
    assert_eq!(plan.poll_url, None);
    assert_eq!(plan.lifetime, 1);
    assert!(plan_session("http://r", &key(ALICE_PUBLIC), 300).poll_url.is_some());
}

#[test]
fn only_http_addresses_are_changed() {
    let url = |base: &str| plan_session(base, &key(ALICE_PUBLIC), 0).ws_url;
    assert_eq!(url("wss://r"), "wss://r/ws/c4ff38e4a33dc4c9");
    assert_eq!(url("HTTP://r"), "HTTP://r/ws/c4ff38e4a33dc4c9");
    assert_eq!(url("http://https://r"), "ws://https://r/ws/c4ff38e4a33dc4c9");
    assert_eq!(url(""), "/ws/c4ff38e4a33dc4c9");
}

#[test]
fn sender_and_reader_meet() {
    let pk = key(BOB_PUBLIC);
    let sent = 1_700_000_099u64;
    let to = derive_routing_token(&pk, sent);
    let same_period = plan_session("http://r", &pk, 1_699_999_800);
    assert_eq!(same_period.ws_url, format!("ws://r/ws/{to}"));
    let next_period = plan_session("http://r", &pk, 1_700_000_399);
    assert_eq!(next_period.poll_url, Some(format!("http://r/poll/{to}")));
}

#[test]
fn challenge_is_read() {
    let document = Fields::new()
        .with_text("nonce", "00Ff10")
        .with_text("server_public_key", &B64.encode(key(BOB_PUBLIC)))
        .with_text("type", "challenge")
        .object();
    assert_eq!(
        read_challenge(&document),
        Some(Challenge { server_key: key(BOB_PUBLIC), nonce: vec![0x00, 0xff, 0x10] })
    );
}

#[test]
fn challenge_is_answered() {
    let challenge = Challenge { server_key: key(BOB_PUBLIC), nonce: vec![0x00, 0xff, 0x10] };
    assert_eq!(answer_challenge(&challenge, &key(ALICE_SECRET)), ANSWER);
    assert_eq!(answer_text(&good_challenge(), &alice()), Some(ANSWER.to_string()));
}

#[test]
fn relay_expects_the_answer() {
    // The relay, with Bob's keys, comes to the same code from Alice's public key.
    let secret = x25519_dalek::StaticSecret::from(key(BOB_SECRET));
    let shared = secret.diffie_hellman(&x25519_dalek::PublicKey::from(key(ALICE_PUBLIC)));
    assert_eq!(shared.to_bytes(), key(SHARED));
}

#[test]
fn what_is_no_challenge_is_not_answered() {
    let good_key = B64.encode(key(BOB_PUBLIC));
    let bad = [
        "not json".to_string(),
        "[]".to_string(),
        "{}".to_string(),
        challenge_text("other", &good_key, "00"),
        challenge_text("challenge", "!", "00"),
        challenge_text("challenge", "AAAA", "00"),
        challenge_text("challenge", &good_key, "0"),
        challenge_text("challenge", &good_key, "0g"),
        format!("{{\"type\":\"challenge\",\"nonce\":\"00\"}}"),
        format!("{{\"type\":\"challenge\",\"server_public_key\":\"{good_key}\"}}"),
        format!("{{\"type\":\"challenge\",\"server_public_key\":\"{good_key}\",\"nonce\":7}}"),
    ];
    for text in &bad {
        assert_eq!(answer_text(text, &alice()), None);
    }
    assert_eq!(answer_text(&good_challenge(), &None), None);
    assert!(answer_text(&challenge_text("challenge", &good_key, ""), &alice()).is_some());
}

#[test]
fn deliveries_are_read() {
    assert_eq!(read_delivery(delivery("Hello 🔐"), &key(ALICE_SECRET)), Ok(message("Hello 🔐")));
    assert_eq!(
        read_delivery(delivery("Hello"), &[9u8; 32]),
        Err("Decryption failed — message not from a known contact".to_string())
    );
}

#[test]
fn stragglers_are_read_in_order() {
    let unreadable = Delivery { payload: "!".to_string(), parsed: Err("x".to_string()), timestamp: 0 };
    let waiting = vec![delivery("one"), unreadable, delivery("two")];
    assert_eq!(read_stragglers(waiting, &alice()), vec![message("one"), message("two")]);
    assert_eq!(read_stragglers(vec![delivery("one")], &None), vec![]);
    assert_eq!(read_stragglers(vec![], &alice()), vec![]);
}

#[test]
fn events_exact_text() {
    assert_eq!(
        status_line(Status::Connecting),
        "{\"event\":\"connection_status\",\"data\":{\"status\":\"connecting\"}}"
    );
    assert_eq!(
        status_line(Status::Connected),
        "{\"event\":\"connection_status\",\"data\":{\"status\":\"connected\"}}"
    );
    assert_eq!(
        status_line(Status::Disconnected),
        "{\"event\":\"connection_status\",\"data\":{\"status\":\"disconnected\"}}"
    );
    assert_eq!(
        message_line(&message("a\nb")),
        "{\"event\":\"incoming_message\",\"data\":{\"from_name\":\"Bob\",\"from_id\":\"bob-id\",\"content\":\"a\\nb\",\"format\":\"text\",\"timestamp\":1711900000}}"
    );
}

#[test]
fn session_runs_its_course() {
    let (mut phase, first) = begin(&Some("https://r".to_string()));
    assert_eq!(first, vec![told(Status::Connecting)]);
    assert_eq!(phase, Phase::Connecting);
    assert_eq!(step(&mut phase, &alice(), Happening::Connected), vec![]);
    assert_eq!(phase, Phase::Challenged);
    assert_eq!(step(&mut phase, &alice(), text(&good_challenge())), vec![]);
    assert_eq!(phase, Phase::Answering { answer: ANSWER.to_string() });
    assert_eq!(step(&mut phase, &alice(), Happening::Sent), vec![told(Status::Connected)]);
    assert_eq!(phase, Phase::Listening);
    assert_eq!(
        step(&mut phase, &alice(), delivered(delivery("hi"))),
        vec![Notice::Incoming { message: message("hi") }]
    );
    assert_eq!(step(&mut phase, &alice(), Happening::OtherFrame), vec![]);
    assert_eq!(step(&mut phase, &alice(), text("noise")), vec![]);
    let broken = Delivery { payload: "!".to_string(), parsed: Err("x".to_string()), timestamp: 0 };
    assert_eq!(
        step(&mut phase, &alice(), delivered(broken)),
        vec![failure("Decrypt failed: Base64 decode: Invalid symbol 33, offset 0.")]
    );
    assert_eq!(phase, Phase::Listening);
    assert_eq!(step(&mut phase, &alice(), Happening::RotationDue), vec![told(Status::Disconnected)]);
    assert_eq!(phase, over());
    assert_eq!(step(&mut phase, &alice(), delivered(delivery("late"))), vec![]);
    assert_eq!(phase, over());
}

#[test]
fn failed_connection_ends_the_session() {
    let mut phase = Phase::Connecting;
    assert_eq!(
        step(&mut phase, &alice(), Happening::ConnectFailed { cause: "refused".to_string() }),
        vec![failure("WebSocket connect failed: refused"), told(Status::Disconnected)]
    );
    assert_eq!(phase, over());
}

#[test]
fn failed_handshake_ends_the_session() {
    let end = || vec![failure("WebSocket auth handshake failed"), told(Status::Disconnected)];
    for happening in [text("{}"), Happening::OtherFrame, Happening::Closed] {
        let mut phase = Phase::Challenged;
        assert_eq!(step(&mut phase, &alice(), happening), end());
        assert_eq!(phase, over());
    }
    let mut phase = Phase::Challenged;
    assert_eq!(step(&mut phase, &None, text(&good_challenge())), end());
    let mut phase = Phase::Answering { answer: ANSWER.to_string() };
    assert_eq!(step(&mut phase, &alice(), Happening::SendFailed), end());
    assert_eq!(phase, over());
}

#[test]
fn closed_connection_ends_the_session() {
    let mut phase = Phase::Listening;
    assert_eq!(step(&mut phase, &alice(), Happening::Closed), vec![told(Status::Disconnected)]);
    assert_eq!(phase, over());
}

#[test]
fn what_does_not_belong_changes_nothing() {
    let mut phase = Phase::Connecting;
    assert_eq!(step(&mut phase, &alice(), Happening::Sent), vec![]);
    assert_eq!(step(&mut phase, &alice(), delivered(delivery("early"))), vec![]);
    assert_eq!(phase, Phase::Connecting);
    let mut phase = Phase::Listening;
    assert_eq!(step(&mut phase, &None, delivered(delivery("no key"))), vec![]);
    assert_eq!(phase, Phase::Listening);
}

#[test]
fn without_a_relay_there_is_only_a_pause() {
    let (phase, notices) = begin(&relay_base(&config("")));
    assert_eq!(phase, over());
    assert_eq!(notices, vec![]);
}

#[test]
fn sessions_are_told_in_order() {
    let mut statuses = Vec::new();
    for happenings in [
        vec![Happening::ConnectFailed { cause: "x".to_string() }],
        vec![Happening::Connected, text(&good_challenge()), Happening::Sent, Happening::Closed],
        vec![Happening::Connected, Happening::Closed],
    ] {
        let (mut phase, mut notices) = begin(&Some("https://r".to_string()));
        for happening in happenings {
            notices.extend(step(&mut phase, &alice(), happening));
        }
        assert_eq!(phase, over());
        for notice in notices {
            if let Notice::Connection { status } = notice {
                statuses.push(status.name());
            }
        }
    }
    assert_eq!(
        statuses.join(" "),
        "connecting disconnected connecting connected disconnected connecting disconnected"
    );
}

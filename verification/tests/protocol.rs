use base64::engine::general_purpose::STANDARD as B64;
use base64::Engine;
use clipygo_plugin_relay::config::{
    apply_settings, config_file_text, config_or_default, AppConfig, Contact, DEFAULT_RELAY_URL,
};
use clipygo_plugin_relay::json::{Fields, Json};
use clipygo_plugin_relay::protocol::{
    find_contact, handle_get_config_schema, handle_get_info, handle_get_targets, handle_request, handle_send,
    handle_set_config, invalid_request_response, relay_body, send_response, set_config_response, AppState, Reply,
    Request, SendOutcome,
};
use clipygo_plugin_relay::token::derive_routing_token;
use serde_json::Value;

const SECRET: &str = "77076d0a7318a57d3c16c17251b26645df4c2f87ebc0992ac177fba51db92c2a";
const PUBLIC: &str = "2953e97dca1229f97c600bec2c17feeaab35ce4bedf66b1d42f16a449dc5c05f";
const BOB_PUBLIC: &str = "de9edb7d7b7dc1b4d35b61c2ece435373f8343c85b78674dadfc7e146f882b4f";

fn key(digits: &str) -> [u8; 32] {
    hex::decode(digits).unwrap().try_into().unwrap()
}

fn contact(name: &str, id: &str, public_key: &str) -> Contact {
    Contact { name: name.to_string(), id: id.to_string(), public_key: public_key.to_string() }
}

fn state_with(relay_url: &str, display_name: &str, ignore_tls_errors: bool, contacts: Vec<Contact>) -> AppState {
    AppState {
        config: AppConfig {
            relay_url: relay_url.to_string(),
            display_name: display_name.to_string(),
            ignore_tls_errors,
            contacts,
        },
        private_key: key(SECRET),
        public_key: key(PUBLIC),
        user_id: "1cc06e33bfc086e7".to_string(),
    }
}

/// A state with the keys that belong to a secret key, and an id.
fn state_of(secret: [u8; 32], user_id: &str, config: AppConfig) -> AppState {
    AppState {
        config,
        private_key: secret,
        public_key: x25519_dalek::PublicKey::from(&x25519_dalek::StaticSecret::from(secret)).to_bytes(),
        user_id: user_id.to_string(),
    }
}

fn config_of(relay_url: &str, display_name: &str, ignore_tls_errors: bool, contacts: Vec<Contact>) -> AppConfig {
    AppConfig { relay_url: relay_url.to_string(), display_name: display_name.to_string(), ignore_tls_errors, contacts }
}

fn error_of(response: &str) -> String {
    let v: Value = serde_json::from_str(response).unwrap();
    assert_eq!(v["success"], false);
    v["error"].as_str().unwrap().to_string()
}

fn refusal(state: &AppState, target_id: &str) -> String {
    match handle_send(state, target_id, "hi", "text") {
        Err(response) => error_of(&response),
        Ok(_) => panic!("the message was taken"),
    }
}

#[test]
fn get_info_returns_valid_json() {
    let response = handle_get_info("1.2.3");
    let v: Value = serde_json::from_str(&response).unwrap();
    assert_eq!(v["name"], "clipygo-plugin-relay");
    assert!(v["version"].is_string());
    assert!(v["link"].is_string());
}

#[test]
fn get_info_exact_text() {
    assert_eq!(
        handle_get_info("1.2.3"),
        "{\"name\":\"clipygo-plugin-relay\",\"version\":\"1.2.3\",\"description\":\"Encrypted clipboard relay — share clipboard content with E2E encryption\",\"author\":\"Georg Nelles\",\"link\":\"https://github.com/it-atelier-gn/clipygo-plugin-relay\"}"
    );
}

#[test]
fn targets_include_contacts() {
    let contacts = vec![contact("Bob", "bob123", &B64.encode([2u8; 32]))];
    let state = state_of([1u8; 32], "me123", config_of("http://localhost", "Me", false, contacts));

    let response = handle_get_targets(&state);
    let v: Value = serde_json::from_str(&response).unwrap();
    let targets = v["targets"].as_array().unwrap();

    assert_eq!(targets.len(), 1);
    assert_eq!(targets[0]["id"], "relay:bob123");
    assert_eq!(targets[0]["title"], "Bob");
}

#[test]
fn targets_exact_text() {
    let state = state_with("", "", false, vec![contact("Bob", "b", "k"), contact("Eve", "e", "k")]);
    assert_eq!(
        handle_get_targets(&state),
        "{\"targets\":[{\"id\":\"relay:b\",\"provider\":\"clipygo-plugin-relay\",\"formats\":[\"text\"],\"title\":\"Bob\",\"description\":\"Send encrypted clipboard to Bob\",\"image\":\"\"},{\"id\":\"relay:e\",\"provider\":\"clipygo-plugin-relay\",\"formats\":[\"text\"],\"title\":\"Eve\",\"description\":\"Send encrypted clipboard to Eve\",\"image\":\"\"}]}"
    );
    assert_eq!(handle_get_targets(&state_with("", "", false, vec![])), "{\"targets\":[]}");
}

#[test]
fn config_schema_returns_current_values() {
    let state = state_of([1u8; 32], "test", config_of("http://my-relay.com", "TestUser", false, vec![]));

    let response = handle_get_config_schema(&state);
    let v: Value = serde_json::from_str(&response).unwrap();
    assert_eq!(v["values"]["relay_url"], "http://my-relay.com");
    assert_eq!(v["values"]["display_name"], "TestUser");
    assert_eq!(v["values"]["user_id"], "test");
    assert!(v["values"]["public_key"].as_str().unwrap().len() > 0);
    assert!(v["values"]["private_key"].as_str().unwrap().len() > 0);
    assert_eq!(v["values"]["contacts"], Value::Array(vec![]));
    assert_eq!(v["schema"]["properties"]["contacts"]["type"], "array");
}

#[test]
fn config_schema_includes_contacts_with_items() {
    let contacts = vec![contact("Alice", "abc123", "dummykey")];
    let state = state_of([2u8; 32], "u1", config_of("", "", false, contacts));

    let response = handle_get_config_schema(&state);
    let v: Value = serde_json::from_str(&response).unwrap();
    let contacts = &v["values"]["contacts"];
    assert_eq!(contacts[0]["name"], "Alice");
    assert_eq!(contacts[0]["id"], "abc123");
}

#[test]
fn config_schema_includes_ignore_tls_errors() {
    let state = state_of([5u8; 32], "tls_test", config_of("https://relay.test", "Tester", true, vec![]));

    let response = handle_get_config_schema(&state);
    let v: Value = serde_json::from_str(&response).unwrap();
    assert_eq!(v["schema"]["properties"]["ignore_tls_errors"]["type"], "boolean");
    assert_eq!(v["values"]["ignore_tls_errors"], true);
}

#[test]
fn config_schema_exact_text() {
    let state = state_with("http://r/", "A \"q\"", false, vec![contact("Bob", "b1", "k")]);
    assert_eq!(handle_get_config_schema(&state), "{\"schema\":{\"properties\":{\"contacts\":{\"description\":\"People you can send clipboard to. Ask them for their Relay ID and Public Key.\",\"items\":{\"properties\":{\"id\":{\"title\":\"Relay ID\",\"type\":\"string\"},\"name\":{\"title\":\"Name\",\"type\":\"string\"},\"public_key\":{\"title\":\"Public Key\",\"type\":\"string\"}},\"required\":[\"name\",\"id\",\"public_key\"],\"type\":\"object\"},\"title\":\"Contacts\",\"type\":\"array\"},\"display_name\":{\"description\":\"Your name shown to message recipients\",\"title\":\"Display Name\",\"type\":\"string\"},\"ignore_tls_errors\":{\"description\":\"Skip TLS certificate validation (useful for self-signed certs)\",\"title\":\"Ignore TLS Certificate Errors\",\"type\":\"boolean\"},\"private_key\":{\"description\":\"Your X25519 private key (backup this to transfer your identity)\",\"format\":\"password\",\"readOnly\":true,\"title\":\"Private Key\",\"type\":\"string\"},\"public_key\":{\"description\":\"Your X25519 public key (share this with contacts)\",\"readOnly\":true,\"title\":\"Public Key\",\"type\":\"string\"},\"relay_url\":{\"description\":\"URL of the relay server (e.g. https://clipygo-relay.return-co.de)\",\"title\":\"Relay Server URL\",\"type\":\"string\"},\"user_id\":{\"description\":\"Your unique relay identity (share this with contacts)\",\"readOnly\":true,\"title\":\"Relay ID\",\"type\":\"string\"}},\"required\":[\"relay_url\",\"display_name\"],\"type\":\"object\"},\"values\":{\"contacts\":[{\"id\":\"b1\",\"name\":\"Bob\",\"public_key\":\"k\"}],\"display_name\":\"A \\\"q\\\"\",\"ignore_tls_errors\":false,\"private_key\":\"dwdtCnMYpX08FsFyUbJmRd9ML4frwJkqwXf7pR25LCo=\",\"public_key\":\"KVPpfcoSKfl8YAvsLBf+6qs1zkvt9msdQvFqRJ3FwF8=\",\"relay_url\":\"http://r/\",\"user_id\":\"1cc06e33bfc086e7\"}}");
}

fn contacts_json() -> Json {
    let item = Fields::new().with_text("name", "Alice").with_text("id", "aaa").with_text("public_key", "key1").object();
    Json::List(vec![item])
}

#[test]
fn set_config_updates_contacts() {
    let mut state = state_of([3u8; 32], "u1", config_of("", "", false, vec![]));

    let values: Value = serde_json::from_str(
        "{\"relay_url\":\"http://relay.test\",\"display_name\":\"Bob\",\"contacts\":[{\"name\":\"Alice\",\"id\":\"aaa\",\"public_key\":\"key1\"}]}",
    )
    .unwrap();
    handle_set_config(&mut state, &Json::from_value(values));
    assert_eq!(state.config.contacts.len(), 1);
    assert_eq!(state.config.contacts[0].name, "Alice");
    assert_eq!(state.config.contacts[0].id, "aaa");
    assert_eq!(state.config.contacts[0].public_key, "key1");
    assert_eq!(state.config.relay_url, "http://relay.test");
    assert_eq!(state.config.display_name, "Bob");
    assert!(!state.config.ignore_tls_errors);
    assert_eq!(state.user_id, "u1");
    assert_eq!(state.private_key, [3u8; 32]);
}

#[test]
fn set_config_writes_what_it_set() {
    let mut state = state_with("http://old", "Old", false, vec![]);
    let values = Fields::new().with("ignore_tls_errors", Json::Bool(true)).with("contacts", contacts_json()).object();
    assert_eq!(
        handle_set_config(&mut state, &values),
        "{\n  \"relay_url\": \"http://old\",\n  \"display_name\": \"Old\",\n  \"ignore_tls_errors\": true,\n  \"contacts\": [\n    {\n      \"name\": \"Alice\",\n      \"id\": \"aaa\",\n      \"public_key\": \"key1\"\n    }\n  ]\n}"
    );
}

#[test]
fn set_config_answers_how_writing_went() {
    assert_eq!(set_config_response(Ok(())), "{\"success\":true}");
    assert_eq!(
        set_config_response(Err("disk full".to_string())),
        "{\"success\":false,\"error\":\"Failed to write config: disk full\"}"
    );
}

#[test]
fn settings_of_another_kind_change_nothing() {
    let before = || AppConfig {
        relay_url: "r".to_string(),
        display_name: "d".to_string(),
        ignore_tls_errors: true,
        contacts: vec![contact("n", "i", "k")],
    };
    let wrong = [
        Json::Null,
        Json::Bool(false),
        Json::text("relay_url"),
        Json::List(vec![]),
        Fields::new().object(),
        Fields::new().with("relay_url", Json::Bool(true)).with("display_name", Json::Null).object(),
        Fields::new().with_text("ignore_tls_errors", "false").object(),
        Fields::new().with_text("contacts", "none").object(),
        Fields::new().with("contacts", Json::List(vec![Json::Null])).object(),
        Fields::new()
            .with("contacts", Json::List(vec![Fields::new().with_text("name", "n").with_text("id", "i").object()]))
            .object(),
        Fields::new().with("contacts", Json::List(vec![Json::text_list(&["a", "b"])])).object(),
        Fields::new().with_text("other", "x").object(),
    ];
    for values in &wrong {
        let mut config = before();
        apply_settings(&mut config, values);
        assert_eq!(config, before());
    }
}

#[test]
fn contacts_may_be_lists_of_three() {
    let mut config = AppConfig::default();
    let values = Fields::new().with("contacts", Json::List(vec![Json::text_list(&["n", "i", "k"])])).object();
    apply_settings(&mut config, &values);
    assert_eq!(config.contacts, vec![contact("n", "i", "k")]);
    // An empty list removes them all.
    apply_settings(&mut config, &Fields::new().with("contacts", Json::List(vec![])).object());
    assert_eq!(config.contacts, vec![]);
}

#[test]
fn same_settings_twice_are_the_same_settings() {
    let values = Fields::new().with_text("relay_url", "x").with("contacts", contacts_json()).object();
    let mut once = AppConfig::default();
    apply_settings(&mut once, &values);
    let mut twice = AppConfig::default();
    apply_settings(&mut twice, &values);
    apply_settings(&mut twice, &values);
    assert_eq!(once, twice);
}

#[test]
fn load_config_returns_default_when_missing() {
    let config = config_or_default(None);
    assert_eq!(config.relay_url, "https://clipygo-relay.return-co.de");
    assert_eq!(config.display_name, "");
    assert!(!config.ignore_tls_errors);
    assert!(config.contacts.is_empty());
    assert_eq!(config.relay_url, DEFAULT_RELAY_URL);
}

#[test]
fn stored_config_is_taken() {
    let stored = AppConfig {
        relay_url: String::new(),
        display_name: "Alice".to_string(),
        ignore_tls_errors: true,
        contacts: vec![],
    };
    assert_eq!(config_or_default(Some(stored)).display_name, "Alice");
}

#[test]
fn written_config_is_read_as_settings() {
    let config = AppConfig {
        relay_url: "http://localhost:8000".to_string(),
        display_name: "Alice".to_string(),
        ignore_tls_errors: true,
        contacts: vec![contact("Bob", "bob123", &B64.encode([99u8; 32]))],
    };
    let v: Value = serde_json::from_str(&config_file_text(&config)).unwrap();
    assert_eq!(v["relay_url"], "http://localhost:8000");
    assert_eq!(v["display_name"], "Alice");
    assert_eq!(v["ignore_tls_errors"], true);
    assert_eq!(v["contacts"][0]["name"], "Bob");

    let bob = Fields::new()
        .with_text("name", v["contacts"][0]["name"].as_str().unwrap())
        .with_text("id", v["contacts"][0]["id"].as_str().unwrap())
        .with_text("public_key", v["contacts"][0]["public_key"].as_str().unwrap())
        .object();
    let document = Fields::new()
        .with_text("relay_url", v["relay_url"].as_str().unwrap())
        .with_text("display_name", v["display_name"].as_str().unwrap())
        .with("ignore_tls_errors", Json::Bool(true))
        .with("contacts", Json::List(vec![bob]))
        .object();
    let mut read = AppConfig::default();
    apply_settings(&mut read, &document);
    assert_eq!(read, config);
}

#[test]
fn first_contact_with_an_id_is_found() {
    let state = state_with("", "", false, vec![contact("A", "x", "1"), contact("B", "y", "2"), contact("C", "x", "3")]);
    assert_eq!(find_contact(&state.config, "x").unwrap().name, "A");
    assert_eq!(find_contact(&state.config, "y").unwrap().name, "B");
    assert!(find_contact(&state.config, "z").is_none());
}

#[test]
fn listed_targets_can_be_sent_to() {
    let bob = contact("Bob", "bob123", &B64.encode(key(BOB_PUBLIC)));
    let state = state_with("http://relay//", "Me", false, vec![bob]);
    let targets: Value = serde_json::from_str(&handle_get_targets(&state)).unwrap();
    let target_id = targets["targets"][0]["id"].as_str().unwrap().to_string();
    for id in [target_id.as_str(), "bob123"] {
        match handle_send(&state, id, "hi", "text") {
            Ok(out) => {
                assert_eq!(out.url, "http://relay/send");
                assert_eq!(out.recipient_key, key(BOB_PUBLIC));
            }
            Err(response) => panic!("{response}"),
        }
    }
}

#[test]
fn sending_can_be_refused() {
    let good = B64.encode(key(BOB_PUBLIC));
    let contacts = vec![contact("Bob", "bob", &good), contact("Bad", "bad", "!"), contact("Short", "short", "AAAA")];
    let state = state_with("//", "Me", false, contacts);
    assert_eq!(refusal(&state, "relay:eve"), "Contact not found: eve");
    // The prefix is taken off once.
    assert_eq!(refusal(&state, "relay:relay:bob"), "Contact not found: relay:bob");
    assert_eq!(refusal(&state, "relay:bad"), "Invalid contact public key");
    assert_eq!(refusal(&state, "relay:short"), "Invalid contact public key");
    assert_eq!(refusal(&state, "relay:bob"), "Relay URL not configured");
    // An unknown contact is told of before a missing relay.
    assert_eq!(refusal(&state, "eve"), "Contact not found: eve");
}

#[test]
fn relay_body_goes_by_the_tokens() {
    let state = state_with("http://relay", "Me", false, vec![contact("Bob", "bob", &B64.encode(key(BOB_PUBLIC)))]);
    let out = match handle_send(&state, "relay:bob", "hi", "text") {
        Ok(out) => out,
        Err(response) => panic!("{response}"),
    };
    let now = 1_700_000_000u64;
    let body = relay_body(&out, &state.public_key, now);
    let expected = format!(
        "{{\"to\":\"c2d332e58b3c3474\",\"from_id\":\"1fa0a7e1001e6fa4\",\"payload\":\"{}\"}}",
        out.payload
    );
    assert_eq!(body, expected);
    assert_eq!(derive_routing_token(&key(BOB_PUBLIC), now), "c2d332e58b3c3474");
}

#[test]
fn what_became_of_a_message_is_answered() {
    let words = || "words".to_string();
    assert_eq!(send_response(&SendOutcome::Answered { success: true, status: words() }), "{\"success\":true}");
    assert_eq!(
        send_response(&SendOutcome::Answered { success: false, status: "404 Not Found".to_string() }),
        "{\"success\":false,\"error\":\"Relay returned 404 Not Found\"}"
    );
    assert_eq!(
        send_response(&SendOutcome::Unreachable { cause: words() }),
        "{\"success\":false,\"error\":\"Relay request failed: words\"}"
    );
    assert_eq!(
        send_response(&SendOutcome::NoClient { cause: words() }),
        "{\"success\":false,\"error\":\"HTTP client init failed: words\"}"
    );
}

#[test]
fn what_is_no_request_is_refused() {
    assert_eq!(
        invalid_request_response("line \"1\""),
        "{\"success\":false,\"error\":\"Invalid request: line \\\"1\\\"\"}"
    );
}

#[test]
fn requests_are_answered() {
    let contacts = || vec![contact("Bob", "bob", &B64.encode(key(BOB_PUBLIC)))];
    let mut state = state_with("http://relay", "Me", false, contacts());

    match handle_request(&mut state, &Request::GetInfo, "9.9") {
        Reply::Answer { text } => assert_eq!(text, handle_get_info("9.9")),
        _ => panic!("no answer"),
    }
    match handle_request(&mut state, &Request::GetTargets, "9.9") {
        Reply::Answer { text } => assert_eq!(text, handle_get_targets(&state)),
        _ => panic!("no answer"),
    }
    match handle_request(&mut state, &Request::GetConfigSchema, "9.9") {
        Reply::Answer { text } => assert_eq!(text, handle_get_config_schema(&state)),
        _ => panic!("no answer"),
    }
    let send = Request::Send {
        target_id: "relay:bob".to_string(),
        content: "hi".to_string(),
        format: "text".to_string(),
    };
    match handle_request(&mut state, &send, "9.9") {
        Reply::Post { message } => assert_eq!(message.url, "http://relay/send"),
        _ => panic!("no message"),
    }
    assert_eq!(state, state_with("http://relay", "Me", false, contacts()));

    let set = Request::SetConfig { values: Fields::new().with_text("relay_url", "").object() };
    match handle_request(&mut state, &set, "9.9") {
        Reply::Save { text } => assert_eq!(text, config_file_text(&state.config)),
        _ => panic!("nothing to save"),
    }
    assert_eq!(state, state_with("", "Me", false, contacts()));
    match handle_request(&mut state, &send, "9.9") {
        Reply::Answer { text } => assert_eq!(error_of(&text), "Relay URL not configured"),
        _ => panic!("no answer"),
    }
}

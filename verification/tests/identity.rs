use base64::engine::general_purpose::STANDARD as B64;
use base64::Engine;
use clipygo_plugin_relay::identity::{
    file_of, identity_of, keypair_file_text, load_or_create_keypair, secret_in, user_id_from_public_key, KeypairFile,
};
use clipygo_plugin_relay::paths::{config_path, data_dir, keypair_path};
use std::path::{Path, PathBuf};

const SECRET: &str = "77076d0a7318a57d3c16c17251b26645df4c2f87ebc0992ac177fba51db92c2a";
const PUBLIC: &str = "2953e97dca1229f97c600bec2c17feeaab35ce4bedf66b1d42f16a449dc5c05f";

fn key(digits: &str) -> [u8; 32] {
    hex::decode(digits).unwrap().try_into().unwrap()
}

fn stored(private_key: &str) -> Option<KeypairFile> {
    Some(KeypairFile {
        private_key: private_key.to_string(),
        public_key: "ignored".to_string(),
        user_id: "ignored".to_string(),
    })
}

#[test]
fn user_id_is_deterministic() {
    let mut bytes = [0u8; 32];
    bytes[0] = 42;
    let id1 = user_id_from_public_key(&bytes);
    let id2 = user_id_from_public_key(&bytes);
    assert_eq!(id1, id2);
    assert_eq!(id1.len(), 16); // 8 bytes = 16 hex chars
}

#[test]
fn different_keys_produce_different_ids() {
    assert_ne!(user_id_from_public_key(&[1u8; 32]), user_id_from_public_key(&[2u8; 32]));
}

#[test]
fn identity_follows_from_the_secret_key() {
    let identity = identity_of(key(SECRET));
    assert_eq!(identity.private_key, key(SECRET));
    assert_eq!(identity.public_key, key(PUBLIC));
    assert_eq!(identity.user_id, "1cc06e33bfc086e7");
}

#[test]
fn stored_identity_is_loaded() {
    let (identity, to_store) = load_or_create_keypair(&stored(&B64.encode(key(SECRET))));
    assert_eq!(identity, identity_of(key(SECRET)));
    assert_eq!(to_store, None);
}

#[test]
fn new_identity_is_loaded_again() {
    let (created, to_store) = load_or_create_keypair(&None);
    assert!(to_store.is_some());
    let (loaded, nothing) = load_or_create_keypair(&to_store);
    assert_eq!(loaded, created);
    assert_eq!(nothing, None);
}

#[test]
fn each_new_identity_is_another() {
    let (first, _) = load_or_create_keypair(&None);
    let (second, _) = load_or_create_keypair(&None);
    assert_ne!(first.private_key, second.private_key);
    assert_ne!(first.user_id, second.user_id);
    assert_ne!(first.private_key, [0u8; 32]);
}

#[test]
fn file_without_a_key_is_replaced() {
    for private_key in ["not base64!", "", "AAAA", &B64.encode([1u8; 31]), &B64.encode([1u8; 33])] {
        assert_eq!(secret_in(&stored(private_key)), None);
        let (identity, to_store) = load_or_create_keypair(&stored(private_key));
        assert_eq!(secret_in(&to_store), Some(identity.private_key));
    }
}

#[test]
fn keypair_file_exact_text() {
    let file = file_of(&identity_of(key(SECRET)));
    assert_eq!(
        keypair_file_text(&file),
        "{\n  \"private_key\": \"dwdtCnMYpX08FsFyUbJmRd9ML4frwJkqwXf7pR25LCo=\",\n  \"public_key\": \"KVPpfcoSKfl8YAvsLBf+6qs1zkvt9msdQvFqRJ3FwF8=\",\n  \"user_id\": \"1cc06e33bfc086e7\"\n}"
    );
}

#[test]
fn files_stand_in_the_data_directory() {
    let dir = Path::new("some").join("place");
    assert_eq!(config_path(&dir), dir.join("config.json"));
    assert_eq!(keypair_path(&dir), dir.join("keypair.json"));
    assert_eq!(config_path(Path::new("")), PathBuf::from("config.json"));
    assert_ne!(config_path(&dir), keypair_path(&dir));
    assert_eq!(keypair_path(&dir).parent(), Some(dir.as_path()));
    assert_eq!(keypair_path(&dir).file_name().unwrap(), "keypair.json");
}

#[test]
fn one_separator_stands_before_the_name() {
    let text = |path: PathBuf| path.to_str().unwrap().replace('\\', "/");
    assert_eq!(text(config_path(Path::new("/a"))), "/a/config.json");
    assert_eq!(text(config_path(Path::new("/a/"))), "/a/config.json");
    assert_eq!(
        text(config_path(Path::new("/home/u/.local/share/clipygo-plugin-relay"))),
        "/home/u/.local/share/clipygo-plugin-relay/config.json"
    );
    assert_eq!(text(data_dir(None)), "./clipygo-plugin-relay");
}

#[test]
fn data_directory_has_the_name_of_the_plugin() {
    assert_eq!(data_dir(Some(PathBuf::from("base"))), Path::new("base").join("clipygo-plugin-relay"));
    assert_eq!(data_dir(None), Path::new(".").join("clipygo-plugin-relay"));
}

#[test]
fn the_name_is_one_component_more() {
    for dir in ["", ".", "/", "a", "a/", "a/./b//", "../a", "/home/u/.local/share/clipygo-plugin-relay"] {
        let dir = Path::new(dir);
        for (path, name) in [(config_path(dir), "config.json"), (keypair_path(dir), "keypair.json")] {
            let mut components: Vec<_> = dir.components().map(|c| c.as_os_str().to_owned()).collect();
            components.push(name.into());
            let found: Vec<_> = path.components().map(|c| c.as_os_str().to_owned()).collect();
            assert_eq!(found, components);
        }
    }
    let found: Vec<_> = data_dir(None).components().map(|c| c.as_os_str().to_owned()).collect();
    assert_eq!(found, [".", "clipygo-plugin-relay"]);
}

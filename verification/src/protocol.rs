//! The plugin protocol: what clipygo asks, and what it is answered.
use vstd::prelude::*;
use vstd::utf8::*;

use crate::config::{
    apply_settings, config_file_text, config_json, with_settings, AppConfig, ConfigView, Contact, ContactView,
};
use crate::crypto::{array_of, x25519_public_of};
use crate::encoding::{base64_decode, base64_decoded, base64_text};
use crate::envelope::{
    can_seal, decrypted, encrypt_for_recipient, has_length, is_envelope_in, is_message,
    law_message_with_length_is_sealed, law_recipient_reads_the_message, EncryptedEnvelope,
};
use crate::identity::KEY_LEN;
use crate::json::{
    distinct_names, found_member, item_views, json_document, lemma_found_member, lemma_text_object_is_readable,
    render, spells, spells_out, Fields, Json, JsonView, READABLE_DEPTH,
};
use crate::schema::{
    law_values_show_each_contact, law_values_show_the_user, lemma_schema_is_readable, lemma_values_are_readable,
    schema_document, schema_json, values_document, values_json,
};
use crate::text::{
    joined, law_only_slashes_are_cut, strip_prefix, trim_end_slashes, without_trailing_slashes,
};
use crate::token::{derive_routing_token, routing_token};

verus! {

/// The name of the plugin.
pub const PLUGIN_NAME: &'static str = "clipygo-plugin-relay";

/// What the plugin says of itself.
pub const PLUGIN_DESCRIPTION: &'static str =
    "Encrypted clipboard relay — share clipboard content with E2E encryption";

/// Who wrote the plugin.
pub const PLUGIN_AUTHOR: &'static str = "Georg Nelles";

/// Where the plugin lives.
pub const PLUGIN_LINK: &'static str = "https://github.com/it-atelier-gn/clipygo-plugin-relay";

/// What stands before the id of a contact in the id of a target.
pub const TARGET_PREFIX: &'static str = "relay:";

/// What the plugin works with: the configuration and the user's own keys.
#[derive(Debug, PartialEq, Eq)]
pub struct AppState {
    pub config: AppConfig,
    pub private_key: [u8; 32],
    pub public_key: [u8; 32],
    pub user_id: String,
}

/// A request of clipygo.
#[derive(Debug, PartialEq)]
pub enum Request {
    GetInfo,
    GetTargets,
    GetConfigSchema,
    SetConfig { values: Json },
    Send { target_id: String, content: String, format: String },
}

/// The answer to a request that was carried out.
pub open spec fn success_json() -> JsonView {
    JsonView::Object(seq![("success"@, JsonView::Bool(true))])
}

/// The answer to a request that was carried out can be read.
proof fn lemma_success_is_readable()
    ensures
        success_json().is_readable(READABLE_DEPTH as nat),
{
    reveal_with_fuel(JsonView::is_readable, 2);
}

/// The answer to a request that failed.
pub open spec fn failure_json(error: Seq<char>) -> JsonView {
    JsonView::Object(seq![("success"@, JsonView::Bool(false)), ("error"@, JsonView::Text(error))])
}

/// The answer to a request that failed can be read.
proof fn lemma_failure_is_readable(error: Seq<char>)
    ensures
        failure_json(error).is_readable(READABLE_DEPTH as nat),
{
    reveal_with_fuel(JsonView::is_readable, 2);
    let members = failure_json(error)->Object_0;
    reveal_strlit("success");
    reveal_strlit("error");
    assert(members[0].0.len() == 7 && members[1].0.len() == 5);
    assert(distinct_names(members));
}

/// The answer to a request that was carried out.
pub fn success_response() -> (r: String)
    ensures
        spells(r@, success_json()),
{
    let tree = Fields::new().with("success", Json::Bool(true)).object();
    assert(tree@->Object_0 =~= success_json()->Object_0);
    proof {
        lemma_success_is_readable();
    }
    render(&tree)
}

/// The answer to a request that failed.
pub fn failure_response(error: &str) -> (r: String)
    ensures
        spells(r@, failure_json(error@)),
{
    let tree = Fields::new().with("success", Json::Bool(false)).with_text("error", error).object();
    assert(tree@->Object_0 =~= failure_json(error@)->Object_0);
    proof {
        lemma_failure_is_readable(error@);
    }
    render(&tree)
}

/// The answer to a line that is no request.
pub fn invalid_request_response(cause: &str) -> (r: String)
    ensures
        spells(r@, failure_json("Invalid request: "@ + cause@)),
{
    failure_response(&joined("Invalid request: ", cause))
}

/// What the plugin says of itself.
pub open spec fn info_json(version: Seq<char>) -> JsonView {
    JsonView::Object(
        seq![
            ("name"@, JsonView::Text(PLUGIN_NAME@)),
            ("version"@, JsonView::Text(version)),
            ("description"@, JsonView::Text(PLUGIN_DESCRIPTION@)),
            ("author"@, JsonView::Text(PLUGIN_AUTHOR@)),
            ("link"@, JsonView::Text(PLUGIN_LINK@)),
        ],
    )
}

/// What the plugin says of itself is all strings.
proof fn lemma_info_is_text(version: Seq<char>)
    ensures
        info_json(version).is_text_object(),
{
    let members = info_json(version)->Object_0;
    reveal_strlit("name");
    reveal_strlit("version");
    reveal_strlit("description");
    reveal_strlit("author");
    reveal_strlit("link");
    assert(members[0].0.len() == 4 && members[1].0.len() == 7 && members[2].0.len() == 11);
    assert(members[3].0.len() == 6 && members[4].0.len() == 4);
    assert(members[0].0[0] != members[4].0[0]);
    assert(distinct_names(members));
}

/// Answers who the plugin is.
pub fn handle_get_info(version: &str) -> (r: String)
    ensures
        spells(r@, info_json(version@)),
{
    let tree = Fields::new().with_text("name", PLUGIN_NAME).with_text("version", version).with_text(
        "description",
        PLUGIN_DESCRIPTION,
    ).with_text("author", PLUGIN_AUTHOR).with_text("link", PLUGIN_LINK).object();
    assert(tree@->Object_0 =~= info_json(version@)->Object_0);
    proof {
        lemma_info_is_text(version@);
        lemma_text_object_is_readable(tree@, READABLE_DEPTH as nat);
    }
    render(&tree)
}

/// The id of the target that stands for a contact.
pub open spec fn target_id_of(contact_id: Seq<char>) -> Seq<char> {
    TARGET_PREFIX@ + contact_id
}

/// The target that stands for a contact.
pub open spec fn target_json(c: ContactView) -> JsonView {
    JsonView::Object(
        seq![
            ("id"@, JsonView::Text(target_id_of(c.id))),
            ("provider"@, JsonView::Text(PLUGIN_NAME@)),
            ("formats"@, JsonView::List(seq![JsonView::Text("text"@)])),
            ("title"@, JsonView::Text(c.name)),
            ("description"@, JsonView::Text("Send encrypted clipboard to "@ + c.name)),
            ("image"@, JsonView::Text(Seq::empty())),
        ],
    )
}

/// A target can be read.
proof fn lemma_target_is_readable(c: ContactView, depth: nat)
    requires
        depth >= 2,
    ensures
        target_json(c).is_readable(depth),
{
    reveal_with_fuel(JsonView::is_readable, 3);
    let members = target_json(c)->Object_0;
    reveal_strlit("id");
    reveal_strlit("provider");
    reveal_strlit("formats");
    reveal_strlit("title");
    reveal_strlit("description");
    reveal_strlit("image");
    assert(members[0].0.len() == 2 && members[1].0.len() == 8 && members[2].0.len() == 7);
    assert(members[3].0.len() == 5 && members[4].0.len() == 11 && members[5].0.len() == 5);
    assert(members[3].0[0] != members[5].0[0]);
    assert(distinct_names(members));
}

/// The targets: one for each contact, in the same order.
pub open spec fn targets_json(contacts: Seq<ContactView>) -> JsonView {
    JsonView::Object(
        seq![("targets"@, JsonView::List(contacts.map_values(|c: ContactView| target_json(c))))],
    )
}

/// The targets can be read.
proof fn lemma_targets_are_readable(contacts: Seq<ContactView>)
    ensures
        targets_json(contacts).is_readable(READABLE_DEPTH as nat),
{
    reveal_with_fuel(JsonView::is_readable, 3);
    let list = targets_json(contacts)->Object_0[0].1;
    let items = list->List_0;
    assert forall|i: int| 0 <= i < items.len() implies (#[trigger] items[i]).is_readable(
        (READABLE_DEPTH - 2) as nat,
    ) by {
        lemma_target_is_readable(contacts[i], (READABLE_DEPTH - 2) as nat);
    }
    assert(list.is_readable((READABLE_DEPTH - 1) as nat));
}

fn target(c: &Contact) -> (r: Json)
    ensures
        r@ == target_json(c@),
{
    let formats = Json::text_list(&["text"]);
    assert(formats@->List_0 =~= seq![JsonView::Text("text"@)]);
    let image = String::new();
    let r = Fields::new().with_text("id", &joined(TARGET_PREFIX, &c.id)).with_text("provider", PLUGIN_NAME).with(
        "formats",
        formats,
    ).with_text("title", &c.name).with_text("description", &joined("Send encrypted clipboard to ", &c.name)).with_text(
        "image",
        &image,
    ).object();
    assert(r@->Object_0 =~= target_json(c@)->Object_0);
    r
}

/// The targets: one for each contact, in the same order.
pub fn targets_document(config: &AppConfig) -> (r: Json)
    ensures
        r@ == targets_json(config@.contacts),
{
    let mut items: Vec<Json> = Vec::new();
    for i in 0..config.contacts.len()
        invariant
            items@.len() == i,
            forall|j: int| 0 <= j < i ==> (#[trigger] items@[j])@ == target_json(config.contacts@[j]@),
    {
        items.push(target(&config.contacts[i]));
    }
    assert(item_views(items@) =~= config@.contacts.map_values(|c: ContactView| target_json(c)));
    let r = Fields::new().with("targets", Json::list(items)).object();
    assert(r@->Object_0 =~= targets_json(config@.contacts)->Object_0);
    r
}

/// Answers whom one can send to.
pub fn handle_get_targets(state: &AppState) -> (r: String)
    ensures
        spells(r@, targets_json(state.config@.contacts)),
{
    proof {
        lemma_targets_are_readable(state.config@.contacts);
    }
    render(&targets_document(&state.config))
}

/// The settings page: the form and the values in it.
pub open spec fn config_schema_json(state: AppState) -> JsonView {
    JsonView::Object(
        seq![
            ("schema"@, schema_json()),
            ("values"@, values_json(state.config@, state.private_key@, state.public_key@, state.user_id@)),
        ],
    )
}

/// The settings page can be read.
proof fn lemma_config_schema_is_readable(state: AppState)
    ensures
        config_schema_json(state).is_readable(READABLE_DEPTH as nat),
{
    lemma_schema_is_readable((READABLE_DEPTH - 1) as nat);
    lemma_values_are_readable(
        state.config@,
        state.private_key@,
        state.public_key@,
        state.user_id@,
        (READABLE_DEPTH - 1) as nat,
    );
    let members = config_schema_json(state)->Object_0;
    reveal_strlit("schema");
    reveal_strlit("values");
    assert(members[0].0.len() == 6 && members[1].0.len() == 6);
    assert(members[0].0[0] != members[1].0[0]);
    assert(distinct_names(members));
}

/// Answers what the settings page shows.
pub fn handle_get_config_schema(state: &AppState) -> (r: String)
    ensures
        spells(r@, config_schema_json(*state)),
{
    let tree = Fields::new().with("schema", schema_document()).with(
        "values",
        values_document(&state.config, &state.private_key, &state.public_key, &state.user_id),
    ).object();
    assert(tree@->Object_0 =~= config_schema_json(*state)->Object_0);
    proof {
        lemma_config_schema_is_readable(*state);
    }
    render(&tree)
}

/// Whether two states differ in the configuration at most.
pub open spec fn same_user(a: AppState, b: AppState) -> bool {
    a.private_key == b.private_key && a.public_key == b.public_key && a.user_id == b.user_id
}

/// Takes over the settings in `values`, and gives the text to write to the configuration file.
pub fn handle_set_config(state: &mut AppState, values: &Json) -> (r: String)
    ensures
        final(state).config@ == with_settings(old(state).config@, values@),
        same_user(*old(state), *final(state)),
        spells_out(r@, config_json(final(state).config@)),
{
    apply_settings(&mut state.config, values);
    config_file_text(&state.config)
}

/// Answers how writing the configuration file went.
pub fn set_config_response(written: Result<(), String>) -> (r: String)
    ensures
        written is Ok ==> spells(r@, success_json()),
        written matches Err(cause) ==> spells(r@, failure_json("Failed to write config: "@ + cause@)),
{
    match written {
        Ok(()) => success_response(),
        Err(cause) => failure_response(&joined("Failed to write config: ", &cause)),
    }
}

/// The id of the contact that a target id means: what follows the prefix, or all of it where there
/// is none.
pub open spec fn addressed_id(target_id: Seq<char>) -> Seq<char> {
    if TARGET_PREFIX@.is_prefix_of(target_id) {
        target_id.skip(TARGET_PREFIX@.len() as int)
    } else {
        target_id
    }
}

/// The first contact with an id.
pub open spec fn found_contact(contacts: Seq<ContactView>, id: Seq<char>) -> Option<ContactView>
    decreases contacts.len(),
{
    if contacts.len() == 0 {
        None
    } else if contacts[0].id == id {
        Some(contacts[0])
    } else {
        found_contact(contacts.drop_first(), id)
    }
}

fn contact_id_of(target_id: &str) -> (r: &str)
    ensures
        r@ == addressed_id(target_id@),
{
    match strip_prefix(target_id, TARGET_PREFIX) {
        Some(rest) => {
            assert(rest@ =~= target_id@.skip(TARGET_PREFIX@.len() as int));
            rest
        },
        None => target_id,
    }
}

/// The first contact with an id.
pub fn find_contact<'a>(config: &'a AppConfig, id: &str) -> (r: Option<&'a Contact>)
    ensures
        r is Some <==> found_contact(config@.contacts, id@) is Some,
        r matches Some(c) ==> found_contact(config@.contacts, id@) == Some(c@),
        r matches Some(c) ==> c.id@ == id@ && config.contacts@.contains(*c),
        r is None ==> forall|i: int| 0 <= i < config.contacts@.len() ==> (#[trigger] config.contacts@[i]).id@ != id@,
{
    proof {
        law_found_contact_has_the_id(config@.contacts, id@);
        assert forall|i: int| 0 <= i < config.contacts@.len() && found_contact(
            config@.contacts,
            id@,
        ) is None implies (#[trigger] config.contacts@[i]).id@ != id@ by {
            assert(config@.contacts[i].id != id@);
        }
    }
    let wanted = id.to_string();
    let ghost views = config@.contacts;
    assert(views.skip(0) =~= views);
    for i in 0..config.contacts.len()
        invariant
            wanted@ == id@,
            views == config@.contacts,
            found_contact(views, id@) == found_contact(views.skip(i as int), id@),
    {
        assert(views.skip(i as int)[0] == config.contacts@[i as int]@);
        if config.contacts[i].id == wanted {
            return Some(&config.contacts[i]);
        }
        assert(views.skip(i as int).drop_first() =~= views.skip(i + 1));
    }
    None
}

/// The public key of a contact, if it is one.
pub open spec fn contact_key(c: ContactView) -> Option<Seq<u8>> {
    match base64_decoded(c.public_key) {
        Ok(bytes) if bytes.len() == KEY_LEN => Some(bytes),
        _ => None,
    }
}

fn key_of(c: &Contact) -> (r: Option<[u8; 32]>)
    ensures
        r is Some <==> contact_key(c@) is Some,
        r matches Some(key) ==> contact_key(c@) == Some(key@),
{
    match base64_decode(&c.public_key) {
        Ok(bytes) => if bytes.len() == KEY_LEN {
            Some(array_of::<32>(&bytes))
        } else {
            None
        },
        Err(_) => None,
    }
}

/// Why a message cannot be sent; `None` if it can. The contact is looked for first; the relay comes
/// last.
pub open spec fn send_refusal(config: ConfigView, target_id: Seq<char>, content: Seq<char>) -> Option<Seq<char>> {
    match found_contact(config.contacts, addressed_id(target_id)) {
        None => Some("Contact not found: "@ + addressed_id(target_id)),
        Some(contact) => if contact_key(contact) is None {
            Some("Invalid contact public key"@)
        } else if !can_seal(content) {
            Some("Encryption failed: "@ + ("Encryption failed: "@ + "aead::Error"@))
        } else if without_trailing_slashes(config.relay_url).len() == 0 {
            Some("Relay URL not configured"@)
        } else {
            None
        },
    }
}

/// A message that is ready for the relay.
pub struct Outgoing {
    /// Where to send it.
    pub url: String,
    /// Whose it is.
    pub recipient_key: [u8; 32],
    /// The encrypted message.
    pub payload: String,
}

/// Whether `out` carries a message from the user of `state` to the contact with the given target.
pub open spec fn is_outgoing(
    out: Outgoing,
    state: AppState,
    target_id: Seq<char>,
    content: Seq<char>,
    format: Seq<char>,
) -> bool {
    &&& out.url@ == without_trailing_slashes(state.config@.relay_url) + "/send"@
    &&& found_contact(state.config@.contacts, addressed_id(target_id)) matches Some(contact) && contact_key(contact)
        == Some(out.recipient_key@)
    &&& is_message(
        out.payload@,
        content,
        out.recipient_key@,
        state.user_id@,
        state.config@.display_name,
        format,
    )
}

/// Encrypts a message for a contact. What comes back is the message to post, or the answer that
/// says why there is none.
pub fn handle_send(state: &AppState, target_id: &str, content: &str, format: &str) -> (r: Result<Outgoing, String>)
    ensures
        match send_refusal(state.config@, target_id@, content@) {
            Some(words) => r matches Err(answer) && spells(answer@, failure_json(words)),
            None => r matches Ok(out) && is_outgoing(out, *state, target_id@, content@, format@),
        },
{
    let contact_id = contact_id_of(target_id);
    let contact = match find_contact(&state.config, contact_id) {
        Some(c) => c,
        None => return Err(failure_response(&joined("Contact not found: ", contact_id))),
    };
    let recipient_key = match key_of(contact) {
        Some(key) => key,
        None => return Err(failure_response("Invalid contact public key")),
    };
    let payload = match encrypt_for_recipient(
        content,
        &recipient_key,
        &state.user_id,
        &state.config.display_name,
        format,
    ) {
        Ok(p) => p,
        Err(e) => return Err(failure_response(&joined("Encryption failed: ", &e))),
    };
    let relay_url = trim_end_slashes(&state.config.relay_url);
    if relay_url.is_empty() {
        return Err(failure_response("Relay URL not configured"));
    }
    Ok(Outgoing { url: joined(relay_url, "/send"), recipient_key, payload })
}

/// What is posted to the relay: the message, under the token of the recipient and with that of the
/// sender.
pub open spec fn relay_send_json(to: Seq<char>, from_id: Seq<char>, payload: Seq<char>) -> JsonView {
    JsonView::Object(
        seq![
            ("to"@, JsonView::Text(to)),
            ("from_id"@, JsonView::Text(from_id)),
            ("payload"@, JsonView::Text(payload)),
        ],
    )
}

/// What is posted to the relay is all strings.
proof fn lemma_relay_send_is_text(to: Seq<char>, from_id: Seq<char>, payload: Seq<char>)
    ensures
        relay_send_json(to, from_id, payload).is_text_object(),
{
    let members = relay_send_json(to, from_id, payload)->Object_0;
    reveal_strlit("to");
    reveal_strlit("from_id");
    reveal_strlit("payload");
    assert(members[0].0.len() == 2 && members[1].0.len() == 7 && members[2].0.len() == 7);
    assert(members[1].0[0] != members[2].0[0]);
    assert(distinct_names(members));
}

/// The body to post to the relay at the given time.
pub fn relay_body(out: &Outgoing, own_public_key: &[u8; 32], now: u64) -> (r: String)
    ensures
        spells(
            r@,
            relay_send_json(
                routing_token(out.recipient_key@, now as int),
                routing_token(own_public_key@, now as int),
                out.payload@,
            ),
        ),
        json_document(r@) matches Some(body) && {
            &&& body.text_member("to"@) == Some(routing_token(out.recipient_key@, now as int))
            &&& body.text_member("from_id"@) == Some(routing_token(own_public_key@, now as int))
            &&& body.text_member("payload"@) == Some(out.payload@)
        },
{
    let to = derive_routing_token(&out.recipient_key, now);
    let from_id = derive_routing_token(own_public_key, now);
    let tree = Fields::new().with_text("to", &to).with_text("from_id", &from_id).with_text(
        "payload",
        &out.payload,
    ).object();
    assert(tree@->Object_0 =~= relay_send_json(to@, from_id@, out.payload@)->Object_0);
    proof {
        law_posted_body(to@, from_id@, out.payload@);
        lemma_relay_send_is_text(to@, from_id@, out.payload@);
        lemma_text_object_is_readable(tree@, READABLE_DEPTH as nat);
    }
    render(&tree)
}

/// What became of a message that was posted.
#[derive(Debug, PartialEq, Eq)]
pub enum SendOutcome {
    /// There was no HTTP client to post it with.
    NoClient { cause: String },
    /// The relay could not be reached.
    Unreachable { cause: String },
    /// The relay answered.
    Answered { success: bool, status: String },
}

/// The answer to clipygo for what became of a message.
pub open spec fn send_outcome_json(outcome: SendOutcome) -> JsonView {
    match outcome {
        SendOutcome::NoClient { cause } => failure_json("HTTP client init failed: "@ + cause@),
        SendOutcome::Unreachable { cause } => failure_json("Relay request failed: "@ + cause@),
        SendOutcome::Answered { success, status } => if success {
            success_json()
        } else {
            failure_json("Relay returned "@ + status@)
        },
    }
}

/// Answers what became of a message.
pub fn send_response(outcome: &SendOutcome) -> (r: String)
    ensures
        spells(r@, send_outcome_json(*outcome)),
{
    match outcome {
        SendOutcome::NoClient { cause } => failure_response(&joined("HTTP client init failed: ", cause)),
        SendOutcome::Unreachable { cause } => failure_response(&joined("Relay request failed: ", cause)),
        SendOutcome::Answered { success, status } => if *success {
            success_response()
        } else {
            failure_response(&joined("Relay returned ", status))
        },
    }
}

/// What to do about a request.
pub enum Reply {
    /// Give this answer.
    Answer { text: String },
    /// Write this text to the configuration file, and answer with [`set_config_response`].
    Save { text: String },
    /// Post this message, and answer with [`send_response`].
    Post { message: Outgoing },
}

/// Decides what to do about a request. Only a request for settings changes the state.
pub fn handle_request(state: &mut AppState, request: &Request, version: &str) -> (r: Reply)
    ensures
        same_user(*old(state), *final(state)),
        match *request {
            Request::SetConfig { values } => final(state).config@ == with_settings(old(state).config@, values@),
            _ => *final(state) == *old(state),
        },
        match *request {
            Request::GetInfo => r matches Reply::Answer { text } && spells(text@, info_json(version@)),
            Request::GetTargets => r matches Reply::Answer { text } && spells(
                text@,
                targets_json(old(state).config@.contacts),
            ),
            Request::GetConfigSchema => r matches Reply::Answer { text } && spells(
                text@,
                config_schema_json(*old(state)),
            ),
            Request::SetConfig { values } => r matches Reply::Save { text } && spells_out(
                text@,
                config_json(with_settings(old(state).config@, values@)),
            ),
            Request::Send { target_id, content, format } => match send_refusal(
                old(state).config@,
                target_id@,
                content@,
            ) {
                Some(words) => r matches Reply::Answer { text } && spells(text@, failure_json(words)),
                None => r matches Reply::Post { message } && is_outgoing(
                    message,
                    *old(state),
                    target_id@,
                    content@,
                    format@,
                ),
            },
        },
{
    match request {
        Request::GetInfo => Reply::Answer { text: handle_get_info(version) },
        Request::GetTargets => Reply::Answer { text: handle_get_targets(state) },
        Request::GetConfigSchema => Reply::Answer { text: handle_get_config_schema(state) },
        Request::SetConfig { values } => Reply::Save { text: handle_set_config(state, values) },
        Request::Send { target_id, content, format } => match handle_send(state, target_id, content, format) {
            Ok(message) => Reply::Post { message },
            Err(text) => Reply::Answer { text },
        },
    }
}

/// The id of a target means the contact that the target stands for.
pub proof fn law_target_means_its_contact(contact_id: Seq<char>)
    ensures
        addressed_id(target_id_of(contact_id)) == contact_id,
{
    assert(target_id_of(contact_id).skip(TARGET_PREFIX@.len() as int) =~= contact_id);
}

/// Each listed target can be sent to: it leads to a contact with the id of the one that it stands
/// for.
pub proof fn law_listed_targets_are_found(contacts: Seq<ContactView>, i: int)
    requires
        0 <= i < contacts.len(),
    ensures
        found_contact(contacts, addressed_id(target_id_of(contacts[i].id))) matches Some(c) && c.id == contacts[i].id,
    decreases contacts.len(),
{
    law_target_means_its_contact(contacts[i].id);
    if contacts[0].id != contacts[i].id {
        law_listed_targets_are_found(contacts.drop_first(), i - 1);
        law_target_means_its_contact(contacts.drop_first()[i - 1].id);
    }
}

/// Each contact is a target, in its place, and there are no others.
pub proof fn law_each_contact_is_a_target(contacts: Seq<ContactView>, i: int)
    requires
        0 <= i < contacts.len(),
    ensures
        targets_json(contacts).member("targets"@) matches Some(list) && list is List && list->List_0.len()
            == contacts.len() && list->List_0[i] == target_json(contacts[i]),
{
    lemma_found_member(targets_json(contacts)->Object_0, 0);
}

/// What is sent to a contact, the contact reads, and sees who sent it.
pub proof fn law_sent_message_is_read(
    out: Outgoing,
    state: AppState,
    target_id: Seq<char>,
    content: Seq<char>,
    format: Seq<char>,
    own: Seq<u8>,
    envelope: EncryptedEnvelope,
)
    requires
        is_outgoing(out, state, target_id, content, format),
        own.len() == KEY_LEN,
        found_contact(state.config@.contacts, addressed_id(target_id)) matches Some(contact) && contact_key(contact)
            == Some(x25519_public_of(own)),
        has_length(content),
        is_envelope_in(envelope@, out.payload@),
    ensures
        decrypted(out.payload@, Ok(envelope), own) == Ok::<Seq<char>, Seq<char>>(content),
        envelope@.sender_id == state.user_id@,
        envelope@.sender_name == state.config@.display_name,
        envelope@.format == format,
{
    law_recipient_reads_the_message(
        out.payload@,
        content,
        own,
        state.user_id@,
        state.config@.display_name,
        format,
        envelope,
    );
}

/// Success and failure are told apart: success says so and gives no error, failure says so and gives the
/// error as it is.
pub proof fn law_success_and_failure_are_told_apart(error: Seq<char>)
    ensures
        success_json().bool_member("success"@) == Some(true),
        success_json().member("error"@) is None,
        failure_json(error).bool_member("success"@) == Some(false),
        failure_json(error).text_member("error"@) == Some(error),
{
    reveal_with_fuel(found_member, 2);
    reveal_strlit("success");
    reveal_strlit("error");
    assert("success"@.len() != "error"@.len());
    lemma_failure_is_readable(error);
    lemma_found_member(success_json()->Object_0, 0);
    lemma_found_member(failure_json(error)->Object_0, 0);
    lemma_found_member(failure_json(error)->Object_0, 1);
}

/// The plugin says who it is, and gives its version as it is.
pub proof fn law_info_tells_the_version(version: Seq<char>)
    ensures
        info_json(version).text_member("name"@) == Some("clipygo-plugin-relay"@),
        info_json(version).text_member("version"@) == Some(version),
        info_json(version).text_member("description"@) == Some(
            "Encrypted clipboard relay — share clipboard content with E2E encryption"@,
        ),
        info_json(version).text_member("author"@) == Some("Georg Nelles"@),
        info_json(version).text_member("link"@) == Some("https://github.com/it-atelier-gn/clipygo-plugin-relay"@),
{
    lemma_info_is_text(version);
    let members = info_json(version)->Object_0;
    lemma_found_member(members, 0);
    lemma_found_member(members, 1);
    lemma_found_member(members, 2);
    lemma_found_member(members, 3);
    lemma_found_member(members, 4);
}

/// A target shows its contact: under the contact's id, by the contact's name, for text.
pub proof fn law_target_shows_its_contact(c: ContactView)
    ensures
        target_json(c).text_member("id"@) == Some("relay:"@ + c.id),
        target_json(c).text_member("title"@) == Some(c.name),
        target_json(c).text_member("description"@) == Some("Send encrypted clipboard to "@ + c.name),
        target_json(c).text_member("provider"@) == Some("clipygo-plugin-relay"@),
        target_json(c).text_member("image"@) == Some(Seq::<char>::empty()),
        target_json(c).member("formats"@) matches Some(JsonView::List(formats)) && formats.len() == 1 && formats[0]
            == JsonView::Text("text"@),
{
    lemma_target_is_readable(c, 2);
    let members = target_json(c)->Object_0;
    lemma_found_member(members, 0);
    lemma_found_member(members, 1);
    lemma_found_member(members, 2);
    lemma_found_member(members, 3);
    lemma_found_member(members, 4);
    lemma_found_member(members, 5);
}

/// The settings page has the form and the values of the state.
pub proof fn law_settings_page_has_form_and_values(state: AppState)
    ensures
        config_schema_json(state).member("schema"@) == Some(schema_json()),
        config_schema_json(state).member("values"@) == Some(
            values_json(state.config@, state.private_key@, state.public_key@, state.user_id@),
        ),
{
    lemma_config_schema_is_readable(state);
    lemma_found_member(config_schema_json(state)->Object_0, 0);
    lemma_found_member(config_schema_json(state)->Object_0, 1);
}

/// Settings never touch the user: the keys and the id stay.
pub proof fn law_same_user_has_the_same_keys(before: AppState, after: AppState)
    requires
        same_user(before, after),
    ensures
        before.private_key@ == after.private_key@,
        before.public_key@ == after.public_key@,
        before.user_id@ == after.user_id@,
{
}

/// A target id means what follows its prefix, which is taken off once, or all of it.
pub proof fn law_prefix_is_taken_off_once(id: Seq<char>)
    ensures
        addressed_id("relay:"@ + id) == id,
        (forall|rest: Seq<char>| id != #[trigger] ("relay:"@ + rest)) ==> addressed_id(id) == id,
{
    law_target_means_its_contact(id);
    if "relay:"@.is_prefix_of(id) {
        let rest = id.skip("relay:"@.len() as int);
        assert(id =~= "relay:"@ + rest);
    }
}

/// Whether the contact at `i` is the first with an id.
pub open spec fn is_first_with(contacts: Seq<ContactView>, id: Seq<char>, i: int) -> bool {
    &&& 0 <= i < contacts.len()
    &&& contacts[i].id == id
    &&& forall|j: int| 0 <= j < i ==> (#[trigger] contacts[j]).id != id
}

/// The contact that is found has the id that was looked for, and is the first of the contacts that has
/// it. Nobody is found exactly if no contact has it.
pub proof fn law_found_contact_has_the_id(contacts: Seq<ContactView>, id: Seq<char>)
    ensures
        found_contact(contacts, id) matches Some(c) ==> c.id == id && contacts.contains(c) && exists|i: int| #[trigger]
            is_first_with(contacts, id, i) && contacts[i] == c,
        found_contact(contacts, id) is None <==> forall|i: int|
            0 <= i < contacts.len() ==> (#[trigger] contacts[i]).id != id,
    decreases contacts.len(),
{
    if contacts.len() > 0 {
        if contacts[0].id == id {
            assert(is_first_with(contacts, id, 0));
        } else {
            let rest = contacts.drop_first();
            law_found_contact_has_the_id(rest, id);
            if found_contact(rest, id) is Some {
                let i = choose|i: int| #[trigger]
                    is_first_with(rest, id, i) && rest[i] == found_contact(rest, id)->0;
                assert(contacts[i + 1] == rest[i]);
                assert forall|j: int| 0 <= j < i + 1 implies (#[trigger] contacts[j]).id != id by {
                    if j > 0 {
                        assert(contacts[j] == rest[j - 1]);
                    }
                }
                assert(is_first_with(contacts, id, i + 1));
            } else {
                assert forall|i: int| 0 <= i < contacts.len() implies (#[trigger] contacts[i]).id != id by {
                    if i > 0 {
                        assert(contacts[i] == rest[i - 1]);
                    }
                }
            }
        }
    }
}

/// The key of a contact is what its base64 holds, as long as that is 32 bytes.
pub proof fn law_contact_key_is_decoded(c: ContactView, key: Seq<u8>)
    ensures
        contact_key(c) == Some(key) <==> base64_decoded(c.public_key) == Ok::<Seq<u8>, Seq<char>>(key) && key.len()
            == 32,
{
}

/// A message to somebody who is no contact is refused.
pub proof fn law_strangers_get_nothing(config: ConfigView, target_id: Seq<char>, content: Seq<char>)
    requires
        forall|i: int| 0 <= i < config.contacts.len() ==> (#[trigger] config.contacts[i]).id != addressed_id(target_id),
    ensures
        send_refusal(config, target_id, content) == Some("Contact not found: "@ + addressed_id(target_id)),
{
    law_found_contact_has_the_id(config.contacts, addressed_id(target_id));
}

/// A message to a contact is refused for three reasons only, in this order: the contact's key is none,
/// the message is too long for the cipher, or the address of the relay is nothing but slashes.
pub proof fn law_message_is_refused_for_a_reason(
    config: ConfigView,
    target_id: Seq<char>,
    content: Seq<char>,
    i: int,
)
    requires
        is_first_with(config.contacts, addressed_id(target_id), i),
    ensures
        ({
            let decoded = base64_decoded(config.contacts[i].public_key);
            let is_key = decoded is Ok && decoded->Ok_0.len() == 32;
            let has_address = exists|k: int| 0 <= k < config.relay_url.len() && #[trigger] config.relay_url[k] != '/';
            &&& !is_key ==> send_refusal(config, target_id, content) == Some("Invalid contact public key"@)
            &&& is_key && !can_seal(content) ==> send_refusal(config, target_id, content) == Some(
                "Encryption failed: "@ + ("Encryption failed: "@ + "aead::Error"@),
            )
            &&& is_key && can_seal(content) && !has_address ==> send_refusal(config, target_id, content) == Some(
                "Relay URL not configured"@,
            )
            &&& is_key && can_seal(content) && has_address ==> send_refusal(config, target_id, content) is None
        }),
{
    let id = addressed_id(target_id);
    law_found_contact_has_the_id(config.contacts, id);
    let k = choose|k: int| #[trigger]
        is_first_with(config.contacts, id, k) && config.contacts[k] == found_contact(config.contacts, id)->0;
    assert(is_first_with(config.contacts, id, i));
    if k < i {
        assert(config.contacts[k].id != id);
    }
    if i < k {
        assert(config.contacts[i].id != id);
    }
    law_only_slashes_are_cut(config.relay_url);
    let base = without_trailing_slashes(config.relay_url);
    if base.len() > 0 {
        assert(config.relay_url[base.len() - 1] == base.last());
    }
}

/// What goes out goes to the contact that was addressed and to nobody else: encrypted for the key of the
/// first contact with the addressed id, in the user's name, to the relay of the configuration.
pub proof fn law_message_goes_to_the_addressed(
    out: Outgoing,
    state: AppState,
    target_id: Seq<char>,
    content: Seq<char>,
    format: Seq<char>,
)
    requires
        is_outgoing(out, state, target_id, content, format),
    ensures
        exists|i: int| #[trigger]
            is_first_with(state.config@.contacts, addressed_id(target_id), i) && base64_decoded(
                state.config@.contacts[i].public_key,
            ) == Ok::<Seq<u8>, Seq<char>>(out.recipient_key@),
        is_message(
            out.payload@,
            content,
            out.recipient_key@,
            state.user_id@,
            state.config@.display_name,
            format,
        ),
        out.url@ == without_trailing_slashes(state.config@.relay_url) + "/send"@,
{
    law_found_contact_has_the_id(state.config@.contacts, addressed_id(target_id));
}

/// What is posted names the token of the reader, the token of the sender and the payload, each in its
/// place.
pub proof fn law_posted_body(to: Seq<char>, from_id: Seq<char>, payload: Seq<char>)
    ensures
        relay_send_json(to, from_id, payload).text_member("to"@) == Some(to),
        relay_send_json(to, from_id, payload).text_member("from_id"@) == Some(from_id),
        relay_send_json(to, from_id, payload).text_member("payload"@) == Some(payload),
        relay_send_json(to, from_id, payload)->Object_0.len() == 3,
{
    lemma_relay_send_is_text(to, from_id, payload);
    let members = relay_send_json(to, from_id, payload)->Object_0;
    lemma_found_member(members, 0);
    lemma_found_member(members, 1);
    lemma_found_member(members, 2);
}

/// Sending succeeded exactly if the relay answered and said so; otherwise the answer says what went wrong.
pub proof fn law_outcome_is_told(cause: String, status: String)
    ensures
        send_outcome_json(SendOutcome::Answered { success: true, status }).bool_member("success"@) == Some(true),
        send_outcome_json(SendOutcome::Answered { success: false, status }).bool_member("success"@) == Some(false),
        send_outcome_json(SendOutcome::Answered { success: false, status }).text_member("error"@) == Some(
            "Relay returned "@ + status@,
        ),
        send_outcome_json(SendOutcome::Unreachable { cause }).bool_member("success"@) == Some(false),
        send_outcome_json(SendOutcome::Unreachable { cause }).text_member("error"@) == Some(
            "Relay request failed: "@ + cause@,
        ),
        send_outcome_json(SendOutcome::NoClient { cause }).bool_member("success"@) == Some(false),
        send_outcome_json(SendOutcome::NoClient { cause }).text_member("error"@) == Some(
            "HTTP client init failed: "@ + cause@,
        ),
{
    law_success_and_failure_are_told_apart("Relay returned "@ + status@);
    law_success_and_failure_are_told_apart("Relay request failed: "@ + cause@);
    law_success_and_failure_are_told_apart("HTTP client init failed: "@ + cause@);
}

/// A message to somebody who is no contact is answered with an error, and nothing goes out.
pub proof fn law_sending_to_a_stranger_fails(
    state: &AppState,
    target_id: &str,
    content: &str,
    format: &str,
    r: Result<Outgoing, String>,
)
    requires
        call_ensures(handle_send, (state, target_id, content, format), r),
        forall|i: int|
            0 <= i < state.config.contacts@.len() ==> (#[trigger] state.config.contacts@[i]).id@ != addressed_id(
                target_id@,
            ),
    ensures
        r is Err,
        r matches Err(answer) ==> (json_document(answer@) matches Some(d) && d.text_member("error"@) == Some(
            "Contact not found: "@ + addressed_id(target_id@),
        ) && d.bool_member("success"@) == Some(false)),
{
    assert forall|i: int| 0 <= i < state.config@.contacts.len() implies (#[trigger] state.config@.contacts[i]).id
        != addressed_id(target_id@) by {
        assert(state.config.contacts@[i].id@ != addressed_id(target_id@));
    }
    law_strangers_get_nothing(state.config@, target_id@, content@);
    law_success_and_failure_are_told_apart("Contact not found: "@ + addressed_id(target_id@));
}

/// A message to a contact goes out to that contact: to the first one with the addressed id, under the key
/// that its base64 holds, to the relay. Nothing but the key, a message of 2^32 bytes or more, or a missing
/// relay can stop it.
pub proof fn law_sending_to_a_contact_succeeds(
    state: &AppState,
    target_id: &str,
    content: &str,
    format: &str,
    r: Result<Outgoing, String>,
    i: int,
    key: Seq<u8>,
    k: int,
)
    requires
        call_ensures(handle_send, (state, target_id, content, format), r),
        0 <= i < state.config.contacts@.len(),
        state.config.contacts@[i].id@ == addressed_id(target_id@),
        forall|j: int| 0 <= j < i ==> (#[trigger] state.config.contacts@[j]).id@ != addressed_id(target_id@),
        base64_decoded(state.config.contacts@[i].public_key@) == Ok::<Seq<u8>, Seq<char>>(key),
        key.len() == 32,
        encode_utf8(content@).len() < 0x1_0000_0000,
        0 <= k < state.config.relay_url@.len(),
        state.config.relay_url@[k] != '/',
    ensures
        r matches Ok(out) && out.recipient_key@ == key && out.url@ == without_trailing_slashes(
            state.config.relay_url@,
        ) + "/send"@ && is_message(
            out.payload@,
            content@,
            key,
            state.user_id@,
            state.config.display_name@,
            format@,
        ),
{
    let contacts = state.config@.contacts;
    let id = addressed_id(target_id@);
    assert(contacts[i].id == id);
    assert forall|j: int| 0 <= j < i implies (#[trigger] contacts[j]).id != id by {
        assert(state.config.contacts@[j].id@ != id);
    }
    assert(is_first_with(contacts, id, i));
    law_message_is_refused_for_a_reason(state.config@, target_id@, content@, i);
    law_message_with_length_is_sealed(content@);
    assert(state.config@.relay_url[k] != '/');
    law_message_goes_to_the_addressed(r->Ok_0, *state, target_id@, content@, format@);
    let first = choose|n: int| #[trigger]
        is_first_with(contacts, id, n) && base64_decoded(contacts[n].public_key) == Ok::<Seq<u8>, Seq<char>>(
            r->Ok_0.recipient_key@,
        );
    if first < i {
        assert(contacts[first].id != id);
    }
    if i < first {
        assert(contacts[i].id != id);
    }
}

/// The answer with the targets has one for each contact, in the same order, with its id and its name.
pub proof fn law_targets_answer(state: &AppState, r: String)
    requires
        call_ensures(handle_get_targets, (state,), r),
    ensures
        json_document(r@) matches Some(answer) && answer.member("targets"@) matches Some(JsonView::List(targets))
            && targets.len() == state.config.contacts@.len() && forall|i: int|
            0 <= i < targets.len() ==> {
                &&& (#[trigger] targets[i]).text_member("id"@) == Some("relay:"@ + state.config.contacts@[i].id@)
                &&& targets[i].text_member("title"@) == Some(state.config.contacts@[i].name@)
            },
{
    let contacts = state.config@.contacts;
    lemma_found_member(targets_json(contacts)->Object_0, 0);
    assert forall|i: int| 0 <= i < contacts.len() implies {
        &&& target_json(#[trigger] contacts[i]).text_member("id"@) == Some(
            "relay:"@ + state.config.contacts@[i].id@,
        )
        &&& target_json(contacts[i]).text_member("title"@) == Some(state.config.contacts@[i].name@)
    } by {
        law_target_shows_its_contact(contacts[i]);
    }
}

/// The answer that says who the plugin is gives the version as it is.
pub proof fn law_info_answer(version: &str, r: String)
    requires
        call_ensures(handle_get_info, (version,), r),
    ensures
        json_document(r@) matches Some(answer) && answer.text_member("name"@) == Some("clipygo-plugin-relay"@)
            && answer.text_member("version"@) == Some(version@),
{
    law_info_tells_the_version(version@);
}

/// The answer with the settings page shows what is set, the user's keys and the user's id.
pub proof fn law_settings_page_answer(state: &AppState, r: String)
    requires
        call_ensures(handle_get_config_schema, (state,), r),
    ensures
        json_document(r@) matches Some(answer) && answer.member("schema"@) == Some(schema_json()),
        json_document(r@) matches Some(answer) && answer.member("values"@) matches Some(values) && {
            &&& values.text_member("relay_url"@) == Some(state.config.relay_url@)
            &&& values.text_member("display_name"@) == Some(state.config.display_name@)
            &&& values.bool_member("ignore_tls_errors"@) == Some(state.config.ignore_tls_errors)
            &&& values.text_member("user_id"@) == Some(state.user_id@)
            &&& values.text_member("public_key"@) == Some(base64_text(state.public_key@))
            &&& values.text_member("private_key"@) == Some(base64_text(state.private_key@))
            &&& values.member("contacts"@) matches Some(JsonView::List(items)) && items.len()
                == state.config.contacts@.len() && forall|i: int|
                0 <= i < items.len() ==> {
                    &&& (#[trigger] items[i]).text_member("name"@) == Some(state.config.contacts@[i].name@)
                    &&& items[i].text_member("id"@) == Some(state.config.contacts@[i].id@)
                    &&& items[i].text_member("public_key"@) == Some(state.config.contacts@[i].public_key@)
                }
        },
{
    law_settings_page_has_form_and_values(*state);
    law_values_show_the_user(state.config@, state.private_key@, state.public_key@, state.user_id@);
    law_values_show_each_contact(state.config@, state.private_key@, state.public_key@, state.user_id@);
}

/// What is posted reaches its reader: it goes under the token under which the reader listens at that time,
/// and gives the token of the sender.
pub proof fn law_posted_message_reaches_its_reader(out: &Outgoing, own_public_key: &[u8; 32], now: u64, r: String)
    requires
        call_ensures(relay_body, (out, own_public_key, now), r),
    ensures
        json_document(r@) matches Some(body) && {
            &&& body.text_member("to"@) == Some(routing_token(out.recipient_key@, now as int))
            &&& body.text_member("from_id"@) == Some(routing_token(own_public_key@, now as int))
            &&& body.text_member("payload"@) == Some(out.payload@)
        },
{
}

/// Writing the configuration, sending a message and reading a request are each answered with success, or
/// with the failure and its cause.
pub proof fn law_answers(
    written: Result<(), String>,
    saved: String,
    outcome: &SendOutcome,
    sent: String,
    cause: &str,
    invalid: String,
)
    requires
        call_ensures(set_config_response, (written,), saved),
        call_ensures(send_response, (outcome,), sent),
        call_ensures(invalid_request_response, (cause,), invalid),
    ensures
        json_document(saved@) matches Some(answer) && answer.bool_member("success"@) == Some(written is Ok),
        written matches Err(e) ==> (json_document(saved@) matches Some(answer) && answer.text_member("error"@) == Some(
            "Failed to write config: "@ + e@,
        )),
        json_document(sent@) matches Some(answer) && answer.bool_member("success"@) == Some(
            (*outcome matches SendOutcome::Answered { success, status: _ } && success),
        ),
        json_document(invalid@) matches Some(answer) && answer.bool_member("success"@) == Some(false)
            && answer.text_member("error"@) == Some("Invalid request: "@ + cause@),
{
    law_success_and_failure_are_told_apart("Invalid request: "@ + cause@);
    if written is Err {
        law_success_and_failure_are_told_apart("Failed to write config: "@ + written->Err_0@);
    }
    match *outcome {
        SendOutcome::NoClient { cause } => {
            law_outcome_is_told(cause, cause);
        },
        SendOutcome::Unreachable { cause } => {
            law_outcome_is_told(cause, cause);
        },
        SendOutcome::Answered { success, status } => {
            law_outcome_is_told(status, status);
        },
    }
}

/// Who is looked for is found: the first contact with the id, and nobody else.
pub proof fn law_looking_for_a_contact(config: &AppConfig, id: &str, r: Option<&Contact>)
    requires
        call_ensures(find_contact, (config, id), r),
    ensures
        r matches Some(c) ==> c.id@ == id@ && config.contacts@.contains(*c),
        r is None <==> forall|i: int| 0 <= i < config.contacts@.len() ==> (#[trigger] config.contacts@[i]).id@ != id@,
{
    if r is Some {
        let i = choose|i: int| 0 <= i < config.contacts@.len() && config.contacts@[i] == *r->0;
        assert(config.contacts@[i].id@ == id@);
    }
}

} // verus!

//! A session with the relay: where to connect, how to answer its challenge, and what to tell the
//! user of what comes in.
use vstd::prelude::*;

use crate::config::AppConfig;
use crate::crypto::{
    array_of, hmac_sha256, hmac_sha256_of, x25519_public, x25519_public_of, x25519_shared, x25519_shared_of,
};
use crate::encoding::{
    base64_decode, base64_decoded, base64_encode, base64_text, hex_bytes, hex_decode, hex_encode, hex_text,
    is_hex, law_hex_is_read,
};
use crate::envelope::{
    decrypt_envelope, decrypted, has_length, is_envelope_in, is_message, law_recipient_reads_the_message,
    EncryptedEnvelope,
};
use crate::identity::KEY_LEN;
use crate::json::{
    distinct_names, is_integer, json_document, json_number, json_text, lemma_found_member,
    lemma_text_object_is_readable, number, parse, render, spells, Fields, Json, JsonView, READABLE_DEPTH,
};
use crate::text::{joined, strip_prefix, trim_end_slashes, without_trailing_slashes};
use crate::token::{
    derive_routing_token, law_previous_token, law_token_is_stable, law_token_lasts_five_minutes, period_of,
    routing_token, secs_until_rotation, TOKEN_PERIOD,
};

verus! {

/// The number of seconds between two sessions.
pub const RECONNECT_SECS: u64 = 5;

/// The address of the relay, without slashes at its end. There is none where the configuration names
/// no relay at all.
pub fn relay_base(config: &AppConfig) -> (r: Option<String>)
    ensures
        r is Some <==> config@.relay_url.len() > 0,
        r matches Some(base) ==> base@ == without_trailing_slashes(config@.relay_url),
{
    if config.relay_url.as_str().is_empty() {
        None
    } else {
        Some(trim_end_slashes(&config.relay_url).to_string())
    }
}

/// The WebSocket address for an HTTP address. Any other address stays as it is.
pub open spec fn websocket_base(base: Seq<char>) -> Seq<char> {
    if "https://"@.is_prefix_of(base) {
        "wss://"@ + base.skip("https://"@.len() as int)
    } else if "http://"@.is_prefix_of(base) {
        "ws://"@ + base.skip("http://"@.len() as int)
    } else {
        base
    }
}

fn to_websocket(base: &str) -> (r: String)
    ensures
        r@ == websocket_base(base@),
{
    match strip_prefix(base, "https://") {
        Some(rest) => {
            assert(rest@ =~= base@.skip("https://"@.len() as int));
            joined("wss://", rest)
        },
        None => match strip_prefix(base, "http://") {
            Some(rest) => {
                assert(rest@ =~= base@.skip("http://"@.len() as int));
                joined("ws://", rest)
            },
            None => base.to_string(),
        },
    }
}

/// The token under which the user listens at the given time.
pub open spec fn listening_token(public_key: Seq<u8>, now: int) -> Seq<char> {
    routing_token(public_key, now)
}

/// The token of the period before, under which messages may still wait. In the very first period it
/// is that of the period itself.
pub open spec fn straggler_token(public_key: Seq<u8>, now: int) -> Seq<char> {
    routing_token(
        public_key,
        if now < TOKEN_PERIOD {
            0
        } else {
            now - TOKEN_PERIOD
        },
    )
}

/// Where a session leads, and for how long.
#[derive(Debug, PartialEq, Eq)]
pub struct Plan {
    /// The address to connect to.
    pub ws_url: String,
    /// The address to ask for the messages of the period before, if its token is another one.
    pub poll_url: Option<String>,
    /// The number of seconds for which to listen, until the token changes.
    pub lifetime: u64,
}

/// Plans a session at the relay with address `base`, beginning at the given time.
pub fn plan_session(base: &str, public_key: &[u8; 32], now: u64) -> (r: Plan)
    ensures
        r.ws_url@ == websocket_base(base@) + "/ws/"@ + listening_token(public_key@, now as int),
        r.poll_url is Some <==> straggler_token(public_key@, now as int) != listening_token(public_key@, now as int),
        r.poll_url matches Some(url) ==> url@ == base@ + "/poll/"@ + straggler_token(public_key@, now as int),
        r.lifetime == TOKEN_PERIOD - now % TOKEN_PERIOD,
{
    let current_token = derive_routing_token(public_key, now);
    let prev_token = derive_routing_token(public_key, now.saturating_sub(TOKEN_PERIOD));
    let ws_url = joined(&joined(&to_websocket(base), "/ws/"), &current_token);
    let poll_url = if prev_token == current_token {
        None
    } else {
        Some(joined(&joined(base, "/poll/"), &prev_token))
    };
    Plan { ws_url, poll_url, lifetime: secs_until_rotation(now) }
}

/// A message meets its reader: sent under the token of their public key, it is found by them in the
/// same period, where they listen, and in the one after, where they listen or ask for stragglers.
pub proof fn law_message_meets_its_reader(public_key: Seq<u8>, sent: int, read: int)
    requires
        0 <= sent <= read,
        period_of(read) <= period_of(sent) + 1,
    ensures
        period_of(read) == period_of(sent) ==> routing_token(public_key, sent) == listening_token(public_key, read),
        period_of(read) == period_of(sent) + 1 ==> routing_token(public_key, sent) == straggler_token(
            public_key,
            read,
        ),
{
    if period_of(read) == period_of(sent) {
        law_token_is_stable(public_key, sent, read);
    } else {
        law_previous_token(public_key, sent, read);
    }
}

/// What the relay asks of whoever connects: a code over `nonce`, under the secret shared with the
/// owner of `server_key`.
#[derive(Debug, PartialEq, Eq)]
pub struct Challenge {
    pub server_key: [u8; 32],
    pub nonce: Vec<u8>,
}

/// What a [`Challenge`] holds.
pub struct ChallengeView {
    pub server_key: Seq<u8>,
    pub nonce: Seq<u8>,
}

impl View for Challenge {
    type V = ChallengeView;

    open spec fn view(&self) -> ChallengeView {
        ChallengeView { server_key: self.server_key@, nonce: self.nonce@ }
    }
}

/// The challenge in a document, if it is one: it says so, its key is the base64 of a key, and its
/// nonce is hexadecimal.
pub open spec fn challenge_in(document: JsonView) -> Option<ChallengeView> {
    match (document.text_member("server_public_key"@), document.text_member("nonce"@)) {
        (Some(key_text), Some(nonce_text)) => match base64_decoded(key_text) {
            Ok(server_key) => if document.text_member("type"@) == Some("challenge"@) && server_key.len() == KEY_LEN
                && is_hex(nonce_text) {
                Some(ChallengeView { server_key, nonce: hex_bytes(nonce_text) })
            } else {
                None
            },
            Err(_) => None,
        },
        _ => None,
    }
}

/// The challenge in a document.
pub fn read_challenge(document: &Json) -> (r: Option<Challenge>)
    ensures
        r is Some <==> challenge_in(document@) is Some,
        r matches Some(c) ==> challenge_in(document@) == Some(c@),
        r matches Some(c) ==> forall|nonce: Seq<u8>|
            document@.text_member("nonce"@) == Some(#[trigger] hex_text(nonce)) ==> c.nonce@ == nonce,
{
    proof {
        assert forall|nonce: Seq<u8>| true implies hex_bytes(#[trigger] hex_text(nonce)) == nonce by {
            law_hex_is_read(nonce);
        }
    }
    match document.text_member("type") {
        Some(kind) => if kind != "challenge".to_string() {
            return None;
        },
        None => return None,
    }
    let key_text = match document.text_member("server_public_key") {
        Some(s) => s,
        None => return None,
    };
    let nonce_text = match document.text_member("nonce") {
        Some(s) => s,
        None => return None,
    };
    let key_bytes = match base64_decode(&key_text) {
        Ok(bytes) => bytes,
        Err(_) => return None,
    };
    if key_bytes.len() != KEY_LEN {
        return None;
    }
    match hex_decode(&nonce_text) {
        Some(nonce) => Some(Challenge { server_key: array_of::<32>(&key_bytes), nonce }),
        None => None,
    }
}

/// The answer to a challenge: a code, and the public key whose owner made it.
pub open spec fn auth_json(code: Seq<u8>, public_key: Seq<u8>) -> JsonView {
    JsonView::Object(
        seq![
            ("hmac"@, JsonView::Text(hex_text(code))),
            ("public_key"@, JsonView::Text(base64_text(public_key))),
            ("type"@, JsonView::Text("auth"@)),
        ],
    )
}

/// The answer to a challenge is all strings.
proof fn lemma_auth_is_text(code: Seq<u8>, public_key: Seq<u8>)
    ensures
        auth_json(code, public_key).is_text_object(),
{
    let members = auth_json(code, public_key)->Object_0;
    reveal_strlit("hmac");
    reveal_strlit("public_key");
    reveal_strlit("type");
    assert(members[0].0.len() == 4 && members[1].0.len() == 10 && members[2].0.len() == 4);
    assert(members[0].0[0] != members[2].0[0]);
    assert(distinct_names(members));
}

/// The answer of the owner of `own` to a challenge.
pub open spec fn answer_of(own: Seq<u8>, challenge: ChallengeView) -> JsonView {
    auth_json(
        hmac_sha256_of(x25519_shared_of(own, challenge.server_key), challenge.nonce),
        x25519_public_of(own),
    )
}

/// The answer that a relay with the secret key `server_secret` expects of the owner of `client_key`.
pub open spec fn expected_answer(server_secret: Seq<u8>, client_key: Seq<u8>, nonce: Seq<u8>) -> JsonView {
    auth_json(hmac_sha256_of(x25519_shared_of(server_secret, client_key), nonce), client_key)
}

/// Answers a challenge with one's own secret key. The relay that holds the secret key of the
/// challenge expects just this answer.
pub fn answer_challenge(challenge: &Challenge, own_secret: &[u8; 32]) -> (r: String)
    ensures
        spells(r@, answer_of(own_secret@, challenge@)),
        forall|server_secret: Seq<u8>|
            server_secret.len() == KEY_LEN && x25519_public_of(server_secret) == challenge@.server_key ==> spells(
                r@,
                #[trigger] expected_answer(server_secret, x25519_public_of(own_secret@), challenge@.nonce),
            ),
{
    let shared_secret = x25519_shared(own_secret, &challenge.server_key);
    let code = hmac_sha256(&shared_secret, &challenge.nonce);
    let public_key = x25519_public(own_secret);
    let tree = Fields::new().with_text("hmac", &hex_encode(&code)).with_text(
        "public_key",
        &base64_encode(&public_key),
    ).with_text("type", "auth").object();
    assert(tree@->Object_0 =~= answer_of(own_secret@, challenge@)->Object_0);
    proof {
        lemma_auth_is_text(code@, public_key@);
        lemma_text_object_is_readable(tree@, READABLE_DEPTH as nat);
    }
    render(&tree)
}

/// The answer to the first text of the relay, if that is a challenge and there is a key to answer
/// it with.
pub open spec fn answer_to(text: Seq<char>, own: Option<Seq<u8>>) -> Option<Seq<char>> {
    match (json_document(text), own) {
        (Some(document), Some(own)) => match challenge_in(document) {
            Some(challenge) => Some(json_text(answer_of(own, challenge))),
            None => None,
        },
        _ => None,
    }
}

/// A secret key by its bytes.
pub open spec fn key_view(secret: Option<[u8; 32]>) -> Option<Seq<u8>> {
    match secret {
        Some(key) => Some(key@),
        None => None,
    }
}

/// Answers the first text of the relay.
pub fn answer_text(text: &str, secret: &Option<[u8; 32]>) -> (r: Option<String>)
    ensures
        r is Some <==> answer_to(text@, key_view(*secret)) is Some,
        r matches Some(answer) ==> answer_to(text@, key_view(*secret)) == Some(answer@),
{
    match parse(text) {
        Some(document) => match read_challenge(&document) {
            Some(challenge) => match secret {
                Some(own_secret) => Some(answer_challenge(&challenge, own_secret)),
                None => None,
            },
            None => None,
        },
        None => None,
    }
}

/// A message that the relay delivered: the payload, what reading the envelope in it gave, and when it
/// was sent.
#[derive(Debug, PartialEq, Eq)]
pub struct Delivery {
    pub payload: String,
    pub parsed: Result<EncryptedEnvelope, String>,
    pub timestamp: u64,
}

/// A message that was received and decrypted.
#[derive(Debug, PartialEq, Eq)]
pub struct IncomingMessageData {
    pub from_name: String,
    pub from_id: String,
    pub content: String,
    pub format: String,
    pub timestamp: u64,
}

/// What an [`IncomingMessageData`] holds.
pub struct MessageView {
    pub from_name: Seq<char>,
    pub from_id: Seq<char>,
    pub content: Seq<char>,
    pub format: Seq<char>,
    pub timestamp: u64,
}

impl View for IncomingMessageData {
    type V = MessageView;

    open spec fn view(&self) -> MessageView {
        MessageView {
            from_name: self.from_name@,
            from_id: self.from_id@,
            content: self.content@,
            format: self.format@,
            timestamp: self.timestamp,
        }
    }
}

/// What the owner of `own` reads in a delivery, or the words that say why that is nothing.
pub open spec fn read_of(delivery: Delivery, own: Seq<u8>) -> Result<MessageView, Seq<char>> {
    match decrypted(delivery.payload@, delivery.parsed, own) {
        Ok(content) => Ok(
            MessageView {
                from_name: delivery.parsed->Ok_0@.sender_name,
                from_id: delivery.parsed->Ok_0@.sender_id,
                content,
                format: delivery.parsed->Ok_0@.format,
                timestamp: delivery.timestamp,
            },
        ),
        Err(words) => Err(words),
    }
}

/// Decrypts a delivery.
pub fn read_delivery(delivery: Delivery, own_secret: &[u8; 32]) -> (r: Result<IncomingMessageData, String>)
    ensures
        match read_of(delivery, own_secret@) {
            Ok(message) => r matches Ok(m) && m@ == message,
            Err(words) => r matches Err(e) && e@ == words,
        },
{
    match decrypt_envelope(&delivery.payload, delivery.parsed, own_secret) {
        Ok((envelope, content)) => Ok(
            IncomingMessageData {
                from_name: envelope.sender_name,
                from_id: envelope.sender_id,
                content,
                format: envelope.format,
                timestamp: delivery.timestamp,
            },
        ),
        Err(e) => Err(e),
    }
}

/// How the connection to the relay stands.
#[derive(Debug, PartialEq, Eq, Clone, Copy)]
pub enum Status {
    Connecting,
    Connected,
    Disconnected,
}

impl Status {
    /// The word for a status.
    pub open spec fn word(self) -> Seq<char> {
        match self {
            Status::Connecting => "connecting"@,
            Status::Connected => "connected"@,
            Status::Disconnected => "disconnected"@,
        }
    }

    /// The word for a status.
    pub fn name(self) -> (r: &'static str)
        ensures
            r@ == self.word(),
    {
        match self {
            Status::Connecting => "connecting",
            Status::Connected => "connected",
            Status::Disconnected => "disconnected",
        }
    }
}

/// An event as clipygo reads it.
pub open spec fn event_json(event: Seq<char>, data: JsonView) -> JsonView {
    JsonView::Object(seq![("event"@, JsonView::Text(event)), ("data"@, data)])
}

proof fn lemma_event_names(event: Seq<char>, data: JsonView)
    ensures
        distinct_names(event_json(event, data)->Object_0),
{
    let members = event_json(event, data)->Object_0;
    reveal_strlit("event");
    reveal_strlit("data");
    assert(members[0].0.len() == 5 && members[1].0.len() == 4);
    assert(distinct_names(members));
}

/// An event can be read if its data can.
proof fn lemma_event_is_readable(event: Seq<char>, data: JsonView)
    requires
        data.is_readable((READABLE_DEPTH - 1) as nat),
    ensures
        event_json(event, data).is_readable(READABLE_DEPTH as nat),
{
    reveal_with_fuel(JsonView::is_readable, 2);
    lemma_event_names(event, data);
}

/// A status as the data of an event.
pub open spec fn status_json(status: Status) -> JsonView {
    JsonView::Object(seq![("status"@, JsonView::Text(status.word()))])
}

/// A message as the data of an event.
pub open spec fn message_json(m: MessageView) -> JsonView {
    JsonView::Object(
        seq![
            ("from_name"@, JsonView::Text(m.from_name)),
            ("from_id"@, JsonView::Text(m.from_id)),
            ("content"@, JsonView::Text(m.content)),
            ("format"@, JsonView::Text(m.format)),
            ("timestamp"@, JsonView::Number(json_number(m.timestamp))),
        ],
    )
}

/// A message can be read.
proof fn lemma_message_is_readable(m: MessageView)
    ensures
        message_json(m).is_readable((READABLE_DEPTH - 1) as nat),
{
    reveal_with_fuel(JsonView::is_readable, 2);
    assert(is_integer(json_number(m.timestamp)));
    let members = message_json(m)->Object_0;
    reveal_strlit("from_name");
    reveal_strlit("from_id");
    reveal_strlit("content");
    reveal_strlit("format");
    reveal_strlit("timestamp");
    assert(members[0].0.len() == 9 && members[1].0.len() == 7 && members[2].0.len() == 7);
    assert(members[3].0.len() == 6 && members[4].0.len() == 9);
    assert(members[0].0[0] != members[4].0[0]);
    assert(members[1].0[0] != members[2].0[0]);
    assert(distinct_names(members));
}

/// The line that tells clipygo of an event.
pub fn event_line(event: &str, data: Json) -> (r: String)
    ensures
        r@ == json_text(event_json(event@, data@)),
        data@.is_readable((READABLE_DEPTH - 1) as nat) ==> spells(r@, event_json(event@, data@)),
{
    let tree = Fields::new().with_text("event", event).with("data", data).object();
    assert(tree@->Object_0 =~= event_json(event@, data@)->Object_0);
    proof {
        if data@.is_readable((READABLE_DEPTH - 1) as nat) {
            lemma_event_is_readable(event@, data@);
        }
    }
    render(&tree)
}

/// Something to tell: clipygo of the connection or of a message, or the log of a failure.
#[derive(Debug, PartialEq, Eq)]
pub enum Notice {
    Connection { status: Status },
    Incoming { message: IncomingMessageData },
    Failure { words: String },
}

/// What a [`Notice`] holds.
pub enum NoticeView {
    Connection(Status),
    Incoming(MessageView),
    Failure(Seq<char>),
}

impl View for Notice {
    type V = NoticeView;

    open spec fn view(&self) -> NoticeView {
        match self {
            Notice::Connection { status } => NoticeView::Connection(*status),
            Notice::Incoming { message } => NoticeView::Incoming(message@),
            Notice::Failure { words } => NoticeView::Failure(words@),
        }
    }
}

/// The line that tells clipygo of a status.
pub fn status_line(status: Status) -> (r: String)
    ensures
        spells(r@, event_json("connection_status"@, status_json(status))),
{
    let data = Fields::new().with_text("status", status.name()).object();
    assert(data@->Object_0 =~= status_json(status)->Object_0);
    proof {
        reveal_with_fuel(JsonView::is_readable, 2);
    }
    event_line("connection_status", data)
}

/// The line that tells clipygo of a message.
pub fn message_line(message: &IncomingMessageData) -> (r: String)
    ensures
        spells(r@, event_json("incoming_message"@, message_json(message@))),
        json_document(r@) matches Some(event) && event.member("data"@) matches Some(data) && {
            &&& data.text_member("from_name"@) == Some(message.from_name@)
            &&& data.text_member("from_id"@) == Some(message.from_id@)
            &&& data.text_member("content"@) == Some(message.content@)
            &&& data.text_member("format"@) == Some(message.format@)
            &&& data.member("timestamp"@) == Some(JsonView::Number(json_number(message.timestamp)))
        },
{
    let data = Fields::new().with_text("from_name", &message.from_name).with_text("from_id", &message.from_id).with_text(
        "content",
        &message.content,
    ).with_text("format", &message.format).with("timestamp", Json::Number(number(message.timestamp))).object();
    assert(data@->Object_0 =~= message_json(message@)->Object_0);
    proof {
        lemma_message_is_readable(message@);
        law_message_is_told_whole(*message);
        law_event_has_name_and_data("incoming_message"@, data@);
    }
    event_line("incoming_message", data)
}

/// The messages among some deliveries that the owner of `own` can read, in the same order.
pub open spec fn readable(deliveries: Seq<Delivery>, own: Seq<u8>) -> Seq<MessageView>
    decreases deliveries.len(),
{
    if deliveries.len() == 0 {
        Seq::empty()
    } else {
        let before = readable(deliveries.drop_last(), own);
        match read_of(deliveries.last(), own) {
            Ok(message) => before.push(message),
            Err(_) => before,
        }
    }
}

/// Messages by their views.
pub open spec fn message_views(messages: Seq<IncomingMessageData>) -> Seq<MessageView> {
    messages.map_values(|m: IncomingMessageData| m@)
}

/// The messages that were waiting under an old token. What cannot be read is passed over, and without
/// a key nothing can.
pub fn read_stragglers(deliveries: Vec<Delivery>, secret: &Option<[u8; 32]>) -> (r: Vec<IncomingMessageData>)
    ensures
        secret matches Some(own) ==> message_views(r@) == readable(deliveries@, own@),
        secret is None ==> r@.len() == 0,
{
    match secret {
        Some(own) => read_all(deliveries, own),
        None => Vec::new(),
    }
}

fn read_all(deliveries: Vec<Delivery>, own: &[u8; 32]) -> (r: Vec<IncomingMessageData>)
    ensures
        message_views(r@) == readable(deliveries@, own@),
{
    let mut messages: Vec<IncomingMessageData> = Vec::new();
    assert(message_views(messages@) =~= readable(deliveries@.take(0), own@));
    for delivery in it: deliveries
        invariant
            it.seq() == deliveries@,
            message_views(messages@) == readable(deliveries@.take(it.index()), own@),
    {
        let ghost before = message_views(messages@);
        assert(deliveries@.take(it.index() + 1).drop_last() =~= deliveries@.take(it.index()));
        assert(deliveries@.take(it.index() + 1).last() == delivery);
        match read_delivery(delivery, own) {
            Ok(message) => {
                messages.push(message);
                assert(message_views(messages@) =~= before.push(message@));
            },
            Err(_) => {},
        }
    }
    assert(deliveries@.take(deliveries@.len() as int) =~= deliveries@);
    messages
}

/// Where a session stands, which says what to do next.
#[derive(Debug, PartialEq, Eq)]
pub enum Phase {
    /// Connect to the relay.
    Connecting,
    /// Wait for the challenge.
    Challenged,
    /// Send this answer.
    Answering { answer: String },
    /// Wait for what comes in, until the token changes.
    Listening,
    /// Wait this many seconds, and begin another session.
    Over { pause: u64 },
}

/// What a [`Phase`] holds.
pub enum PhaseView {
    Connecting,
    Challenged,
    Answering(Seq<char>),
    Listening,
    Over(u64),
}

impl View for Phase {
    type V = PhaseView;

    open spec fn view(&self) -> PhaseView {
        match self {
            Phase::Connecting => PhaseView::Connecting,
            Phase::Challenged => PhaseView::Challenged,
            Phase::Answering { answer } => PhaseView::Answering(answer@),
            Phase::Listening => PhaseView::Listening,
            Phase::Over { pause } => PhaseView::Over(*pause),
        }
    }
}

/// What can happen in a session.
#[derive(Debug, PartialEq, Eq)]
pub enum Happening {
    Connected,
    ConnectFailed { cause: String },
    /// A text came in. It may deliver a message.
    Text { text: String, delivery: Option<Delivery> },
    /// Something else came in.
    OtherFrame,
    /// The connection broke or ended.
    Closed,
    Sent,
    SendFailed,
    /// The token is about to change.
    RotationDue,
}

/// The end of a session for the given reason.
pub open spec fn ended(words: Seq<char>) -> (PhaseView, Seq<NoticeView>) {
    (PhaseView::Over(RECONNECT_SECS), seq![NoticeView::Failure(words), NoticeView::Connection(Status::Disconnected)])
}

/// The end of a session in which the relay could not be answered.
pub open spec fn handshake_failed() -> (PhaseView, Seq<NoticeView>) {
    ended("WebSocket auth handshake failed"@)
}

/// What there is to tell of a text that came in while listening.
pub open spec fn delivery_notices(delivery: Option<Delivery>, own: Option<Seq<u8>>) -> Seq<NoticeView> {
    match (delivery, own) {
        (Some(delivery), Some(own)) => match read_of(delivery, own) {
            Ok(message) => seq![NoticeView::Incoming(message)],
            Err(words) => seq![NoticeView::Failure("Decrypt failed: "@ + words)],
        },
        _ => Seq::empty(),
    }
}

/// The next phase of a session and what there is to tell, when something happens. What does not
/// belong to a phase changes nothing in it.
pub open spec fn step_of(phase: PhaseView, own: Option<Seq<u8>>, happening: Happening) -> (PhaseView, Seq<NoticeView>) {
    match phase {
        PhaseView::Connecting => match happening {
            Happening::Connected => (PhaseView::Challenged, Seq::empty()),
            Happening::ConnectFailed { cause } => ended("WebSocket connect failed: "@ + cause@),
            _ => (phase, Seq::empty()),
        },
        PhaseView::Challenged => match happening {
            Happening::Text { text, delivery: _ } => match answer_to(text@, own) {
                Some(answer) => (PhaseView::Answering(answer), Seq::empty()),
                None => handshake_failed(),
            },
            Happening::OtherFrame | Happening::Closed => handshake_failed(),
            _ => (phase, Seq::empty()),
        },
        PhaseView::Answering(_) => match happening {
            Happening::Sent => (PhaseView::Listening, seq![NoticeView::Connection(Status::Connected)]),
            Happening::SendFailed => handshake_failed(),
            _ => (phase, Seq::empty()),
        },
        PhaseView::Listening => match happening {
            Happening::Text { text: _, delivery } => (phase, delivery_notices(delivery, own)),
            Happening::Closed | Happening::RotationDue => (
                PhaseView::Over(RECONNECT_SECS),
                seq![NoticeView::Connection(Status::Disconnected)],
            ),
            _ => (phase, Seq::empty()),
        },
        PhaseView::Over(_) => (phase, Seq::empty()),
    }
}

/// The first phase of a session and what there is to tell. Where there is no relay, there is nothing to
/// do but wait.
pub open spec fn begun(has_relay: bool) -> (PhaseView, Seq<NoticeView>) {
    if has_relay {
        (PhaseView::Connecting, seq![NoticeView::Connection(Status::Connecting)])
    } else {
        (PhaseView::Over(RECONNECT_SECS), Seq::empty())
    }
}

/// Notices by their views.
pub open spec fn notice_views(notices: Seq<Notice>) -> Seq<NoticeView> {
    notices.map_values(|n: Notice| n@)
}

/// Begins a session with the relay that [`relay_base`] gave, and gives what there is to tell.
pub fn begin(base: &Option<String>) -> (r: (Phase, Vec<Notice>))
    ensures
        (r.0@, notice_views(r.1@)) == begun(base is Some),
{
    let mut notices: Vec<Notice> = Vec::new();
    match base {
        Some(_) => {
            notices.push(Notice::Connection { status: Status::Connecting });
            assert(notice_views(notices@) =~= begun(true).1);
            (Phase::Connecting, notices)
        },
        None => {
            assert(notice_views(notices@) =~= begun(false).1);
            (Phase::Over { pause: RECONNECT_SECS }, notices)
        },
    }
}

fn end(phase: &mut Phase, words: String) -> (r: Vec<Notice>)
    ensures
        (final(phase)@, notice_views(r@)) == ended(words@),
{
    *phase = Phase::Over { pause: RECONNECT_SECS };
    let mut notices: Vec<Notice> = Vec::new();
    notices.push(Notice::Failure { words });
    notices.push(Notice::Connection { status: Status::Disconnected });
    assert(notice_views(notices@) =~= ended(words@).1);
    notices
}

fn receive(delivery: Option<Delivery>, secret: &Option<[u8; 32]>) -> (r: Vec<Notice>)
    ensures
        notice_views(r@) == delivery_notices(delivery, key_view(*secret)),
{
    let mut notices: Vec<Notice> = Vec::new();
    match delivery {
        Some(delivery) => match secret {
            Some(own_secret) => match read_delivery(delivery, own_secret) {
                Ok(message) => notices.push(Notice::Incoming { message }),
                Err(e) => notices.push(Notice::Failure { words: joined("Decrypt failed: ", &e) }),
            },
            None => {},
        },
        None => {},
    }
    assert(notice_views(notices@) =~= delivery_notices(delivery, key_view(*secret)));
    notices
}

/// Takes a session one step further when something happens, and gives what there is to tell.
pub fn step(phase: &mut Phase, secret: &Option<[u8; 32]>, happening: Happening) -> (r: Vec<Notice>)
    ensures
        (final(phase)@, notice_views(r@)) == step_of(old(phase)@, key_view(*secret), happening),
{
    let mut notices: Vec<Notice> = Vec::new();
    assert(notice_views(notices@) =~= Seq::<NoticeView>::empty());
    match phase {
        Phase::Connecting => match happening {
            Happening::Connected => {
                *phase = Phase::Challenged;
                notices
            },
            Happening::ConnectFailed { cause } => end(phase, joined("WebSocket connect failed: ", &cause)),
            _ => notices,
        },
        Phase::Challenged => match happening {
            Happening::Text { text, delivery: _ } => match answer_text(&text, secret) {
                Some(answer) => {
                    *phase = Phase::Answering { answer };
                    notices
                },
                None => end(phase, "WebSocket auth handshake failed".to_string()),
            },
            Happening::OtherFrame | Happening::Closed => end(phase, "WebSocket auth handshake failed".to_string()),
            _ => notices,
        },
        Phase::Answering { answer: _ } => match happening {
            Happening::Sent => {
                *phase = Phase::Listening;
                notices.push(Notice::Connection { status: Status::Connected });
                assert(notice_views(notices@) =~= seq![NoticeView::Connection(Status::Connected)]);
                notices
            },
            Happening::SendFailed => end(phase, "WebSocket auth handshake failed".to_string()),
            _ => notices,
        },
        Phase::Listening => match happening {
            Happening::Text { text: _, delivery } => receive(delivery, secret),
            Happening::Closed | Happening::RotationDue => {
                *phase = Phase::Over { pause: RECONNECT_SECS };
                notices.push(Notice::Connection { status: Status::Disconnected });
                assert(notice_views(notices@) =~= seq![NoticeView::Connection(Status::Disconnected)]);
                notices
            },
            _ => notices,
        },
        Phase::Over { pause: _ } => notices,
    }
}

/// A session: whether there was a relay, the key that the user had, and what happened.
pub ghost struct Round {
    pub has_relay: bool,
    pub own: Option<Seq<u8>>,
    pub happenings: Seq<Happening>,
}

impl Round {
    /// The session before the last thing that happened in it.
    pub open spec fn before(self) -> Round {
        Round { happenings: self.happenings.drop_last(), ..self }
    }
}

/// Where a session stands after all that happened in it, and everything that there was to tell.
pub open spec fn run(round: Round) -> (PhaseView, Seq<NoticeView>)
    decreases round.happenings.len(),
{
    if round.happenings.len() == 0 {
        begun(round.has_relay)
    } else {
        let before = run(round.before());
        let last = step_of(before.0, round.own, round.happenings.last());
        (last.0, before.1 + last.1)
    }
}

/// The changes of the connection among some notices.
pub open spec fn statuses(notices: Seq<NoticeView>) -> Seq<Status>
    decreases notices.len(),
{
    if notices.len() == 0 {
        Seq::empty()
    } else {
        let before = statuses(notices.drop_last());
        match notices.last() {
            NoticeView::Connection(status) => before.push(status),
            _ => before,
        }
    }
}

proof fn lemma_statuses_add(first: Seq<NoticeView>, second: Seq<NoticeView>)
    ensures
        statuses(first + second) == statuses(first) + statuses(second),
    decreases second.len(),
{
    if second.len() == 0 {
        assert(first + second =~= first);
        assert(statuses(first) + statuses(second) =~= statuses(first));
    } else {
        lemma_statuses_add(first, second.drop_last());
        assert((first + second).drop_last() =~= first + second.drop_last());
        assert((first + second).last() == second.last());
        assert(statuses(first + second) =~= statuses(first) + statuses(second));
    }
}

/// Whether what happened was a challenge, and there was a key to answer it with.
pub open spec fn is_answerable(own: Option<Seq<u8>>, happening: Happening) -> bool {
    happening matches Happening::Text { text, delivery: _ } && answer_to(text@, own) is Some
}

/// A session with a relay tells of its connection in good order: that it connects, first; that it is
/// connected, once and if at all; that it is disconnected, once and last, when it is over, and only
/// then. The next session follows after a pause.
pub proof fn law_connection_is_told_in_order(round: Round)
    ensures
        match run(round).0 {
            PhaseView::Listening => statuses(run(round).1) == seq![Status::Connecting, Status::Connected],
            PhaseView::Over(pause) => pause == RECONNECT_SECS && if round.has_relay {
                ||| statuses(run(round).1) == seq![Status::Connecting, Status::Disconnected]
                ||| statuses(run(round).1) == seq![Status::Connecting, Status::Connected, Status::Disconnected]
            } else {
                run(round).1 == Seq::<NoticeView>::empty()
            },
            _ => round.has_relay && statuses(run(round).1) == seq![Status::Connecting],
        },
        run(round).0 is Listening ==> round.has_relay,
    decreases round.happenings.len(),
{
    reveal_with_fuel(statuses, 3);
    if round.happenings.len() > 0 {
        let before = run(round.before());
        let last = step_of(before.0, round.own, round.happenings.last());
        law_connection_is_told_in_order(round.before());
        lemma_statuses_add(before.1, last.1);
        if last.1.len() == 0 {
            assert(before.1 + last.1 =~= before.1);
        }
    }
}

/// How far the telling of a connection has come.
pub enum Stage {
    Idle,
    Connecting,
    Connected,
}

/// How far the telling has come after one status more; `None` if that status is out of place.
pub open spec fn next_stage(stage: Stage, status: Status) -> Option<Stage> {
    match (stage, status) {
        (Stage::Idle, Status::Connecting) => Some(Stage::Connecting),
        (Stage::Connecting, Status::Connected) => Some(Stage::Connected),
        (Stage::Connecting, Status::Disconnected) => Some(Stage::Idle),
        (Stage::Connected, Status::Disconnected) => Some(Stage::Idle),
        _ => None,
    }
}

/// How far some statuses bring the telling; `None` unless they are in order: over and over, connecting,
/// then perhaps connected, then disconnected.
pub open spec fn telling(from: Stage, told: Seq<Status>) -> Option<Stage>
    decreases told.len(),
{
    if told.len() == 0 {
        Some(from)
    } else {
        match telling(from, told.drop_last()) {
            Some(stage) => next_stage(stage, told.last()),
            None => None,
        }
    }
}

proof fn lemma_telling_add(from: Stage, first: Seq<Status>, second: Seq<Status>)
    requires
        telling(from, first) is Some,
    ensures
        telling(from, first + second) == telling(telling(from, first)->0, second),
    decreases second.len(),
{
    if second.len() == 0 {
        assert(first + second =~= first);
    } else {
        lemma_telling_add(from, first, second.drop_last());
        assert((first + second).drop_last() =~= first + second.drop_last());
        assert((first + second).last() == second.last());
    }
}

/// Everything that there was to tell in some sessions, one after the other.
pub open spec fn told_in(rounds: Seq<Round>) -> Seq<NoticeView>
    decreases rounds.len(),
{
    if rounds.len() == 0 {
        Seq::empty()
    } else {
        told_in(rounds.drop_last()) + run(rounds.last()).1
    }
}

/// However many sessions follow one another, each beginning when the one before is over, the connection
/// is told in order throughout: connecting, then perhaps connected, then disconnected, and again.
pub proof fn law_sessions_are_told_in_order(rounds: Seq<Round>)
    requires
        forall|i: int| 0 <= i < rounds.len() - 1 ==> run(#[trigger] rounds[i]).0 is Over,
    ensures
        telling(Stage::Idle, statuses(told_in(rounds))) is Some,
        rounds.len() > 0 && run(rounds.last()).0 is Over ==> telling(Stage::Idle, statuses(told_in(rounds))) == Some(
            Stage::Idle,
        ),
    decreases rounds.len(),
{
    reveal_with_fuel(telling, 4);
    if rounds.len() > 0 {
        let before = rounds.drop_last();
        assert forall|i: int| 0 <= i < before.len() - 1 implies run(#[trigger] before[i]).0 is Over by {
            assert(before[i] == rounds[i]);
        }
        law_sessions_are_told_in_order(before);
        if before.len() > 0 {
            assert(run(rounds[before.len() - 1]).0 is Over);
        }
        assert(telling(Stage::Idle, statuses(told_in(before))) == Some(Stage::Idle));
        law_connection_is_told_in_order(rounds.last());
        let told = statuses(run(rounds.last()).1);
        lemma_statuses_add(told_in(before), run(rounds.last()).1);
        lemma_telling_add(Stage::Idle, statuses(told_in(before)), told);
        lemma_round_is_told_in_order(told);
    }
}

/// The statuses of one session are in order.
proof fn lemma_round_is_told_in_order(told: Seq<Status>)
    ensures
        told.len() == 0 ==> telling(Stage::Idle, told) == Some(Stage::Idle),
        told == seq![Status::Connecting] ==> telling(Stage::Idle, told) == Some(Stage::Connecting),
        told == seq![Status::Connecting, Status::Connected] ==> telling(Stage::Idle, told) == Some(Stage::Connected),
        told == seq![Status::Connecting, Status::Disconnected] ==> telling(Stage::Idle, told) == Some(Stage::Idle),
        told == seq![Status::Connecting, Status::Connected, Status::Disconnected] ==> telling(Stage::Idle, told)
            == Some(Stage::Idle),
{
    reveal_with_fuel(telling, 4);
    if told.len() > 0 {
        assert(told.drop_last().len() == told.len() - 1);
    }
}

/// Nobody is connected who has not answered a challenge.
pub proof fn law_connected_is_challenged(round: Round)
    requires
        statuses(run(round).1).contains(Status::Connected),
    ensures
        exists|i: int| 0 <= i < round.happenings.len() && is_answerable(round.own, #[trigger] round.happenings[i]),
{
    lemma_answered_was_challenged(round);
}

/// Whether a session has got as far as an answer.
spec fn has_answered(reached: (PhaseView, Seq<NoticeView>)) -> bool {
    ||| reached.0 is Answering
    ||| reached.0 is Listening
    ||| statuses(reached.1).contains(Status::Connected)
}

proof fn lemma_answered_was_challenged(round: Round)
    requires
        has_answered(run(round)),
    ensures
        exists|i: int| 0 <= i < round.happenings.len() && is_answerable(round.own, #[trigger] round.happenings[i]),
    decreases round.happenings.len(),
{
    reveal_with_fuel(statuses, 3);
    if round.happenings.len() > 0 {
        let before = run(round.before());
        let last = step_of(before.0, round.own, round.happenings.last());
        lemma_statuses_add(before.1, last.1);
        if has_answered(before) {
            lemma_answered_was_challenged(round.before());
            let i = choose|i: int|
                0 <= i < round.before().happenings.len() && is_answerable(
                    round.own,
                    #[trigger] round.before().happenings[i],
                );
            assert(is_answerable(round.own, round.happenings[i]));
        } else {
            assert(!statuses(before.1).contains(Status::Connected));
            assert(before.0 is Challenged);
            assert(is_answerable(round.own, round.happenings[round.happenings.len() - 1]));
        }
    }
}

/// Messages are told only while connected.
pub proof fn law_messages_come_while_connected(round: Round, i: int)
    requires
        0 <= i < run(round).1.len(),
        run(round).1[i] is Incoming,
    ensures
        statuses(run(round).1.take(i)) == seq![Status::Connecting, Status::Connected],
    decreases round.happenings.len(),
{
    if round.happenings.len() > 0 {
        let before = run(round.before());
        let last = step_of(before.0, round.own, round.happenings.last());
        let all = run(round).1;
        if i < before.1.len() {
            law_messages_come_while_connected(round.before(), i);
            assert(all.take(i) =~= before.1.take(i));
        } else {
            law_connection_is_told_in_order(round.before());
            assert(last.1[i - before.1.len()] is Incoming);
            assert(all.take(i) =~= before.1);
        }
    }
}

/// A session that is over stays so, and tells nothing more.
pub proof fn law_over_is_over(pause: u64, own: Option<Seq<u8>>, happening: Happening)
    ensures
        step_of(PhaseView::Over(pause), own, happening) == (PhaseView::Over(pause), Seq::<NoticeView>::empty()),
{
}

/// What was encrypted for the user arrives: delivered while a session listens, it is told with its
/// content and its sender.
pub proof fn law_message_arrives(
    own: Seq<u8>,
    text: String,
    delivery: Delivery,
    envelope: EncryptedEnvelope,
    sent: MessageView,
)
    requires
        is_message(
            delivery.payload@,
            sent.content,
            x25519_public_of(own),
            sent.from_id,
            sent.from_name,
            sent.format,
        ),
        own.len() == KEY_LEN,
        has_length(sent.content),
        is_envelope_in(envelope@, delivery.payload@),
        delivery.parsed == Ok::<EncryptedEnvelope, String>(envelope),
        delivery.timestamp == sent.timestamp,
    ensures
        step_of(
            PhaseView::Listening,
            Some(own),
            Happening::Text { text, delivery: Some(delivery) },
        ) == (PhaseView::Listening, seq![NoticeView::Incoming(sent)]),
{
    law_recipient_reads_the_message(
        delivery.payload@,
        sent.content,
        own,
        sent.from_id,
        sent.from_name,
        sent.format,
        envelope,
    );
}

/// What is shown of messages, notices, phases, challenges and keys is all that they hold: every character
/// and every byte, as many of them, in the same order.
pub proof fn law_session_shows_all(
    message: IncomingMessageData,
    messages: Seq<IncomingMessageData>,
    notices: Seq<Notice>,
    words: String,
    pause: u64,
    challenge: Challenge,
    key: [u8; 32],
)
    ensures
        message@.from_name == message.from_name@,
        message@.from_id == message.from_id@,
        message@.content == message.content@,
        message@.format == message.format@,
        message@.timestamp == message.timestamp,
        message_views(messages).len() == messages.len(),
        forall|i: int| 0 <= i < messages.len() ==> #[trigger] message_views(messages)[i] == messages[i]@,
        notice_views(notices).len() == notices.len(),
        forall|i: int| 0 <= i < notices.len() ==> #[trigger] notice_views(notices)[i] == notices[i]@,
        (Notice::Incoming { message })@ == NoticeView::Incoming(message@),
        (Notice::Failure { words })@ == NoticeView::Failure(words@),
        (Notice::Connection { status: Status::Connecting })@ == NoticeView::Connection(Status::Connecting),
        (Notice::Connection { status: Status::Connected })@ == NoticeView::Connection(Status::Connected),
        (Notice::Connection { status: Status::Disconnected })@ == NoticeView::Connection(Status::Disconnected),
        Phase::Connecting@ == PhaseView::Connecting,
        Phase::Challenged@ == PhaseView::Challenged,
        (Phase::Answering { answer: words })@ == PhaseView::Answering(words@),
        Phase::Listening@ == PhaseView::Listening,
        (Phase::Over { pause })@ == PhaseView::Over(pause),
        challenge@.server_key == challenge.server_key@,
        challenge@.nonce == challenge.nonce@,
        key_view(Some(key)) == Some(key@),
        key_view(None) is None,
{
}

/// A secure address stays secure and a plain one stays plain when it becomes that of a WebSocket, and
/// what follows stays the same. Any other address stays as it is.
pub proof fn law_websocket_keeps_the_address(base: Seq<char>, rest: Seq<char>)
    ensures
        websocket_base("https://"@ + rest) == "wss://"@ + rest,
        websocket_base("http://"@ + rest) == "ws://"@ + rest,
        (forall|r: Seq<char>| base != #[trigger] ("https://"@ + r)) && (forall|r: Seq<char>|
            base != #[trigger] ("http://"@ + r)) ==> websocket_base(base) == base,
{
    reveal_strlit("https://");
    reveal_strlit("http://");
    let secure = "https://"@ + rest;
    let plain = "http://"@ + rest;
    assert("https://"@.is_prefix_of(secure));
    assert(secure.skip("https://"@.len() as int) =~= rest);
    assert(plain[4] == ':' && "https://"@[4] == 's');
    assert(!"https://"@.is_prefix_of(plain));
    assert("http://"@.is_prefix_of(plain));
    assert(plain.skip("http://"@.len() as int) =~= rest);
    if "https://"@.is_prefix_of(base) {
        assert(base =~= "https://"@ + base.skip("https://"@.len() as int));
    }
    if "http://"@.is_prefix_of(base) {
        assert(base =~= "http://"@ + base.skip("http://"@.len() as int));
    }
}

/// The user listens under the token of the present, and asks for stragglers under that of five minutes
/// ago. In the first five minutes of all these are one.
pub proof fn law_stragglers_are_five_minutes_late(public_key: Seq<u8>, now: int)
    requires
        0 <= now,
    ensures
        listening_token(public_key, now) == routing_token(public_key, now),
        now >= 300 ==> straggler_token(public_key, now) == routing_token(public_key, now - 300),
        now < 300 ==> straggler_token(public_key, now) == listening_token(public_key, now),
{
    law_token_lasts_five_minutes(public_key, now / 300, now, now);
    if now < 300 {
        law_token_lasts_five_minutes(public_key, 0, 0, now);
    }
}

/// A challenge is read whole: the key that it holds, and every byte that the relay wrote in hexadecimal,
/// however many they are.
pub proof fn law_challenge_is_read_whole(document: JsonView, key_text: Seq<char>, server_key: Seq<u8>, nonce: Seq<u8>)
    requires
        document.text_member("type"@) == Some("challenge"@),
        document.text_member("server_public_key"@) == Some(key_text),
        base64_decoded(key_text) == Ok::<Seq<u8>, Seq<char>>(server_key),
        server_key.len() == 32,
        document.text_member("nonce"@) == Some(hex_text(nonce)),
    ensures
        challenge_in(document) matches Some(c) && c.server_key == server_key && c.nonce == nonce,
{
    law_hex_is_read(nonce);
}

/// Nothing but a challenge is read as one: it says that it is one, its key is one, and its nonce is
/// hexadecimal, two digits for each byte. All that is so is read.
pub proof fn law_only_challenges_are_read(document: JsonView)
    ensures
        challenge_in(document) matches Some(c) ==> {
            &&& document.text_member("type"@) == Some("challenge"@)
            &&& document.text_member("server_public_key"@) matches Some(key_text) && base64_decoded(key_text) == Ok::<
                Seq<u8>,
                Seq<char>,
            >(c.server_key)
            &&& c.server_key.len() == 32
            &&& document.text_member("nonce"@) matches Some(nonce_text) && is_hex(nonce_text) && c.nonce == hex_bytes(
                nonce_text,
            ) && 2 * c.nonce.len() == nonce_text.len()
        },
        challenge_in(document) is None ==> {
            ||| document.text_member("type"@) != Some("challenge"@)
            ||| document.text_member("server_public_key"@) is None
            ||| base64_decoded(document.text_member("server_public_key"@)->0) is Err
            ||| base64_decoded(document.text_member("server_public_key"@)->0)->Ok_0.len() != 32
            ||| document.text_member("nonce"@) is None
            ||| !is_hex(document.text_member("nonce"@)->0)
        },
{
}

/// An answer tells the relay three things: the code in hexadecimal, the public key in base64, and that it
/// is an answer.
pub proof fn law_answer_tells_code_and_key(code: Seq<u8>, public_key: Seq<u8>)
    ensures
        auth_json(code, public_key).text_member("hmac"@) == Some(hex_text(code)),
        auth_json(code, public_key).text_member("public_key"@) == Some(base64_text(public_key)),
        auth_json(code, public_key).text_member("type"@) == Some("auth"@),
        auth_json(code, public_key)->Object_0.len() == 3,
{
    lemma_auth_is_text(code, public_key);
    let members = auth_json(code, public_key)->Object_0;
    lemma_found_member(members, 0);
    lemma_found_member(members, 1);
    lemma_found_member(members, 2);
}

/// The relay gets the answer that it asked for: a code over all the bytes of its nonce, under the secret
/// shared with its key, from the owner of the public key that stands beside it.
pub proof fn law_relay_gets_its_answer(
    text: Seq<char>,
    document: JsonView,
    key_text: Seq<char>,
    server_key: Seq<u8>,
    nonce: Seq<u8>,
    own: Seq<u8>,
)
    requires
        json_document(text) == Some(document),
        document.text_member("type"@) == Some("challenge"@),
        document.text_member("server_public_key"@) == Some(key_text),
        base64_decoded(key_text) == Ok::<Seq<u8>, Seq<char>>(server_key),
        server_key.len() == 32,
        document.text_member("nonce"@) == Some(hex_text(nonce)),
    ensures
        exists|answer: JsonView|
            {
                &&& answer_to(text, Some(own)) == Some(#[trigger] json_text(answer))
                &&& answer.text_member("hmac"@) == Some(
                    hex_text(hmac_sha256_of(x25519_shared_of(own, server_key), nonce)),
                )
                &&& answer.text_member("public_key"@) == Some(base64_text(x25519_public_of(own)))
                &&& answer.text_member("type"@) == Some("auth"@)
            },
{
    law_challenge_is_read_whole(document, key_text, server_key, nonce);
    let challenge = challenge_in(document)->0;
    law_answer_tells_code_and_key(
        hmac_sha256_of(x25519_shared_of(own, server_key), nonce),
        x25519_public_of(own),
    );
    assert(answer_to(text, Some(own)) == Some(json_text(answer_of(own, challenge))));
}

/// The answer that a relay expects is made with its own secret and the public key of the user.
pub proof fn law_expected_answer(server_secret: Seq<u8>, client_key: Seq<u8>, nonce: Seq<u8>)
    ensures
        expected_answer(server_secret, client_key, nonce).text_member("hmac"@) == Some(
            hex_text(hmac_sha256_of(x25519_shared_of(server_secret, client_key), nonce)),
        ),
        expected_answer(server_secret, client_key, nonce).text_member("public_key"@) == Some(base64_text(client_key)),
{
    law_answer_tells_code_and_key(hmac_sha256_of(x25519_shared_of(server_secret, client_key), nonce), client_key);
}

/// Only a challenge is answered, and only by who has a key.
pub proof fn law_only_challenges_are_answered(text: Seq<char>, own: Option<Seq<u8>>)
    ensures
        own is None ==> answer_to(text, own) is None,
        json_document(text) is None ==> answer_to(text, own) is None,
        json_document(text) matches Some(document) ==> (challenge_in(document) is None ==> answer_to(text, own) is None),
{
}

/// A delivery is read whole: who sent it, as the envelope has it, the content that was decrypted, and when
/// it was sent. What cannot be decrypted is told as it is.
pub proof fn law_delivery_is_read_whole(delivery: Delivery, own: Seq<u8>)
    ensures
        decrypted(delivery.payload@, delivery.parsed, own) matches Ok(content) ==> (delivery.parsed matches Ok(envelope)
            && {
            &&& read_of(delivery, own) matches Ok(m)
            &&& m.content == content
            &&& m.from_name == envelope.sender_name@
            &&& m.from_id == envelope.sender_id@
            &&& m.format == envelope.format@
            &&& m.timestamp == delivery.timestamp
        }),
        decrypted(delivery.payload@, delivery.parsed, own) matches Err(words) ==> read_of(delivery, own) == Err::<
            MessageView,
            Seq<char>,
        >(words),
{
}

/// Stragglers are read one by one: what is read of some and then of others is what is read of all of
/// them. One that can be read is one message, and one that cannot is none.
pub proof fn law_stragglers_are_read_one_by_one(first: Seq<Delivery>, second: Seq<Delivery>, one: Delivery, own: Seq<u8>)
    ensures
        readable(first + second, own) == readable(first, own) + readable(second, own),
        read_of(one, own) matches Ok(message) ==> readable(seq![one], own) == seq![message],
        read_of(one, own) is Err ==> readable(seq![one], own) == Seq::<MessageView>::empty(),
        readable(Seq::empty(), own) == Seq::<MessageView>::empty(),
    decreases second.len(),
{
    reveal_with_fuel(readable, 2);
    assert(seq![one].drop_last() =~= Seq::<Delivery>::empty());
    if second.len() == 0 {
        assert(first + second =~= first);
        assert(readable(first, own) + readable(second, own) =~= readable(first, own));
    } else {
        law_stragglers_are_read_one_by_one(first, second.drop_last(), one, own);
        assert((first + second).drop_last() =~= first + second.drop_last());
        assert((first + second).last() == second.last());
        assert(readable(first + second, own) =~= readable(first, own) + readable(second, own));
    }
}

/// No straggler is lost: where each can be read, there are as many messages as deliveries, each in its
/// place.
pub proof fn law_no_straggler_is_lost(deliveries: Seq<Delivery>, own: Seq<u8>)
    requires
        forall|i: int| 0 <= i < deliveries.len() ==> read_of(#[trigger] deliveries[i], own) is Ok,
    ensures
        readable(deliveries, own).len() == deliveries.len(),
        forall|i: int|
            0 <= i < deliveries.len() ==> read_of(deliveries[i], own) == Ok::<MessageView, Seq<char>>(
                #[trigger] readable(deliveries, own)[i],
            ),
    decreases deliveries.len(),
{
    if deliveries.len() > 0 {
        let before = deliveries.drop_last();
        assert forall|i: int| 0 <= i < before.len() implies read_of(#[trigger] before[i], own) is Ok by {
            assert(before[i] == deliveries[i]);
        }
        law_no_straggler_is_lost(before, own);
        assert(read_of(deliveries[deliveries.len() - 1], own) is Ok);
        assert forall|i: int| 0 <= i < deliveries.len() implies read_of(deliveries[i], own) == Ok::<
            MessageView,
            Seq<char>,
        >(#[trigger] readable(deliveries, own)[i]) by {
            if i < before.len() {
                assert(before[i] == deliveries[i]);
                assert(readable(before, own)[i] == readable(deliveries, own)[i]);
            }
        }
    }
}

/// clipygo is told the whole message: every character of the content, who it is from, its format and its
/// time.
pub proof fn law_message_is_told_whole(m: IncomingMessageData)
    ensures
        message_json(m@).text_member("from_name"@) == Some(m.from_name@),
        message_json(m@).text_member("from_id"@) == Some(m.from_id@),
        message_json(m@).text_member("content"@) == Some(m.content@),
        message_json(m@).text_member("format"@) == Some(m.format@),
        message_json(m@).member("timestamp"@) == Some(JsonView::Number(json_number(m.timestamp))),
        message_json(m@)->Object_0.len() == 5,
{
    lemma_message_is_readable(m@);
    let members = message_json(m@)->Object_0;
    lemma_found_member(members, 0);
    lemma_found_member(members, 1);
    lemma_found_member(members, 2);
    lemma_found_member(members, 3);
    lemma_found_member(members, 4);
}

/// An event has its name and its data.
pub proof fn law_event_has_name_and_data(event: Seq<char>, data: JsonView)
    ensures
        event_json(event, data).text_member("event"@) == Some(event),
        event_json(event, data).member("data"@) == Some(data),
        event_json(event, data)->Object_0.len() == 2,
{
    lemma_event_names(event, data);
    lemma_found_member(event_json(event, data)->Object_0, 0);
    lemma_found_member(event_json(event, data)->Object_0, 1);
}

/// Each status has a word of its own.
pub proof fn law_status_is_told()
    ensures
        status_json(Status::Connecting).text_member("status"@) == Some("connecting"@),
        status_json(Status::Connected).text_member("status"@) == Some("connected"@),
        status_json(Status::Disconnected).text_member("status"@) == Some("disconnected"@),
{
    lemma_found_member(status_json(Status::Connecting)->Object_0, 0);
    lemma_found_member(status_json(Status::Connected)->Object_0, 0);
    lemma_found_member(status_json(Status::Disconnected)->Object_0, 0);
}

/// Two messages with one line are one: all of a message can be read from the line that tells it.
pub proof fn law_line_tells_the_message(line: Seq<char>, first: MessageView, second: MessageView)
    requires
        spells(line, event_json("incoming_message"@, message_json(first))),
        spells(line, event_json("incoming_message"@, message_json(second))),
    ensures
        first.from_name == second.from_name,
        first.from_id == second.from_id,
        first.content == second.content,
        first.format == second.format,
        json_number(first.timestamp) == json_number(second.timestamp),
{
    law_event_has_name_and_data("incoming_message"@, message_json(first));
    law_event_has_name_and_data("incoming_message"@, message_json(second));
    let a = message_json(first)->Object_0;
    let b = message_json(second)->Object_0;
    assert(a[0].1 == b[0].1 && a[1].1 == b[1].1 && a[2].1 == b[2].1 && a[3].1 == b[3].1 && a[4].1 == b[4].1);
}

/// Whoever is connected waits for the challenge; whoever is not says why, and tries again.
pub proof fn law_connecting(own: Option<Seq<u8>>, cause: String)
    ensures
        step_of(PhaseView::Connecting, own, Happening::Connected) == (
            PhaseView::Challenged,
            Seq::<NoticeView>::empty(),
        ),
        step_of(PhaseView::Connecting, own, Happening::ConnectFailed { cause }) == (
            PhaseView::Over(5),
            seq![
                NoticeView::Failure("WebSocket connect failed: "@ + cause@),
                NoticeView::Connection(Status::Disconnected),
            ],
        ),
{
}

/// A challenge is answered with the answer to it, and anything else ends the session, as does an answer
/// that cannot be sent. Once it is sent, the session listens.
pub proof fn law_handshake(own: Option<Seq<u8>>, text: String, delivery: Option<Delivery>, answer: Seq<char>)
    ensures
        ({
            let failed = (
                PhaseView::Over(5),
                seq![
                    NoticeView::Failure("WebSocket auth handshake failed"@),
                    NoticeView::Connection(Status::Disconnected),
                ],
            );
            &&& answer_to(text@, own) matches Some(reply) ==> step_of(
                PhaseView::Challenged,
                own,
                Happening::Text { text, delivery },
            ) == (PhaseView::Answering(reply), Seq::<NoticeView>::empty())
            &&& answer_to(text@, own) is None ==> step_of(
                PhaseView::Challenged,
                own,
                Happening::Text { text, delivery },
            ) == failed
            &&& step_of(PhaseView::Challenged, own, Happening::OtherFrame) == failed
            &&& step_of(PhaseView::Challenged, own, Happening::Closed) == failed
            &&& step_of(PhaseView::Answering(answer), own, Happening::SendFailed) == failed
            &&& step_of(PhaseView::Answering(answer), own, Happening::Sent) == (
                PhaseView::Listening,
                seq![NoticeView::Connection(Status::Connected)],
            )
        }),
{
}

/// A session that listens tells each message that it can read, and the failure of each that it cannot, and
/// goes on listening until the connection ends or the token changes.
pub proof fn law_listening(own: Seq<u8>, key: Option<Seq<u8>>, text: String, delivery: Delivery)
    ensures
        read_of(delivery, own) matches Ok(message) ==> step_of(
            PhaseView::Listening,
            Some(own),
            Happening::Text { text, delivery: Some(delivery) },
        ) == (PhaseView::Listening, seq![NoticeView::Incoming(message)]),
        read_of(delivery, own) matches Err(words) ==> step_of(
            PhaseView::Listening,
            Some(own),
            Happening::Text { text, delivery: Some(delivery) },
        ) == (PhaseView::Listening, seq![NoticeView::Failure("Decrypt failed: "@ + words)]),
        step_of(PhaseView::Listening, key, Happening::Text { text, delivery: None }) == (
            PhaseView::Listening,
            Seq::<NoticeView>::empty(),
        ),
        step_of(PhaseView::Listening, None, Happening::Text { text, delivery: Some(delivery) }) == (
            PhaseView::Listening,
            Seq::<NoticeView>::empty(),
        ),
        step_of(PhaseView::Listening, key, Happening::OtherFrame) == (
            PhaseView::Listening,
            Seq::<NoticeView>::empty(),
        ),
        step_of(PhaseView::Listening, key, Happening::Closed) == (
            PhaseView::Over(5),
            seq![NoticeView::Connection(Status::Disconnected)],
        ),
        step_of(PhaseView::Listening, key, Happening::RotationDue) == (
            PhaseView::Over(5),
            seq![NoticeView::Connection(Status::Disconnected)],
        ),
{
}

/// What does not belong to a phase changes nothing in it, and is not told.
pub proof fn law_what_does_not_belong_is_ignored(
    own: Option<Seq<u8>>,
    happening: Happening,
    answer: Seq<char>,
)
    ensures
        !(happening is Connected) && !(happening is ConnectFailed) ==> step_of(PhaseView::Connecting, own, happening)
            == (PhaseView::Connecting, Seq::<NoticeView>::empty()),
        !(happening is Text) && !(happening is OtherFrame) && !(happening is Closed) ==> step_of(
            PhaseView::Challenged,
            own,
            happening,
        ) == (PhaseView::Challenged, Seq::<NoticeView>::empty()),
        !(happening is Sent) && !(happening is SendFailed) ==> step_of(PhaseView::Answering(answer), own, happening)
            == (PhaseView::Answering(answer), Seq::<NoticeView>::empty()),
        !(happening is Text) && !(happening is Closed) && !(happening is RotationDue) ==> step_of(
            PhaseView::Listening,
            own,
            happening,
        ) == (PhaseView::Listening, Seq::<NoticeView>::empty()),
{
}

/// A session begins by telling that it connects, if there is a relay, and is only a pause if there is none.
pub proof fn law_beginning()
    ensures
        begun(true) == (PhaseView::Connecting, seq![NoticeView::Connection(Status::Connecting)]),
        begun(false) == (PhaseView::Over(5), Seq::<NoticeView>::empty()),
{
}

/// The relay that sent a challenge gets the answer that it works out for itself, from its own secret, the
/// user's public key and all the bytes that it sent.
pub proof fn law_reading_and_answering_a_challenge(
    document: &Json,
    read: Option<Challenge>,
    own_secret: &[u8; 32],
    answer: String,
    key_text: Seq<char>,
    server_secret: Seq<u8>,
    nonce: Seq<u8>,
)
    requires
        call_ensures(read_challenge, (document,), read),
        read matches Some(challenge) ==> call_ensures(answer_challenge, (&challenge, own_secret), answer),
        document@.text_member("type"@) == Some("challenge"@),
        document@.text_member("server_public_key"@) == Some(key_text),
        base64_decoded(key_text) == Ok::<Seq<u8>, Seq<char>>(x25519_public_of(server_secret)),
        x25519_public_of(server_secret).len() == 32,
        server_secret.len() == 32,
        document@.text_member("nonce"@) == Some(hex_text(nonce)),
    ensures
        read matches Some(challenge) && challenge.server_key@ == x25519_public_of(server_secret) && challenge.nonce@
            == nonce,
        json_document(answer@) matches Some(reply) && {
            &&& reply.text_member("hmac"@) == Some(
                hex_text(hmac_sha256_of(x25519_shared_of(server_secret, x25519_public_of(own_secret@)), nonce)),
            )
            &&& reply.text_member("hmac"@) == Some(
                hex_text(hmac_sha256_of(x25519_shared_of(own_secret@, x25519_public_of(server_secret)), nonce)),
            )
            &&& reply.text_member("public_key"@) == Some(base64_text(x25519_public_of(own_secret@)))
            &&& reply.text_member("type"@) == Some("auth"@)
        },
{
    law_challenge_is_read_whole(document@, key_text, x25519_public_of(server_secret), nonce);
    let challenge = read->0;
    let own_key = x25519_public_of(own_secret@);
    law_answer_tells_code_and_key(
        hmac_sha256_of(x25519_shared_of(own_secret@, challenge@.server_key), nonce),
        own_key,
    );
    law_expected_answer(server_secret, own_key, nonce);
    assert(spells(answer@, expected_answer(server_secret, own_key, challenge@.nonce)));
}

/// The first text of the relay is answered if it is a challenge and there is a key, and not otherwise.
pub proof fn law_answering_the_first_text(text: &str, secret: &Option<[u8; 32]>, r: Option<String>)
    requires
        call_ensures(answer_text, (text, secret), r),
    ensures
        r is Some <==> secret is Some && (json_document(text@) matches Some(document) && challenge_in(document) is Some),
        r matches Some(answer) ==> answer_to(text@, Some(secret->0@)) == Some(answer@),
{
}

/// No straggler is lost and none is made up: each delivery that can be read is one message, in the same
/// order, and without a key there is none.
pub proof fn law_reading_stragglers(
    deliveries: Vec<Delivery>,
    secret: &Option<[u8; 32]>,
    r: Vec<IncomingMessageData>,
)
    requires
        call_ensures(read_stragglers, (deliveries, secret), r),
    ensures
        secret is None ==> r@.len() == 0,
        secret matches Some(own) ==> ((forall|i: int|
            0 <= i < deliveries@.len() ==> read_of(#[trigger] deliveries@[i], own@) is Ok) ==> {
            &&& r@.len() == deliveries@.len()
            &&& forall|i: int|
                0 <= i < deliveries@.len() ==> read_of(deliveries@[i], own@) == Ok::<MessageView, Seq<char>>(
                    (#[trigger] r@[i])@,
                )
        }),
        secret matches Some(own) ==> r@.len() == readable(deliveries@, own@).len(),
{
    if let Some(own) = *secret {
        let shown = message_views(r@);
        assert(shown.len() == r@.len());
        if forall|i: int| 0 <= i < deliveries@.len() ==> read_of(#[trigger] deliveries@[i], own@) is Ok {
            law_no_straggler_is_lost(deliveries@, own@);
            assert forall|i: int| 0 <= i < deliveries@.len() implies read_of(deliveries@[i], own@) == Ok::<
                MessageView,
                Seq<char>,
            >((#[trigger] r@[i])@) by {
                assert(shown[i] == r@[i]@);
                assert(readable(deliveries@, own@)[i] == shown[i]);
            }
        }
    }
}

/// A delivery that can be decrypted is read with its whole content, its sender, its format and its time.
pub proof fn law_reading_a_delivery(
    delivery: Delivery,
    own_secret: &[u8; 32],
    r: Result<IncomingMessageData, String>,
    envelope: EncryptedEnvelope,
)
    requires
        call_ensures(read_delivery, (delivery, own_secret), r),
        delivery.parsed == Ok::<EncryptedEnvelope, String>(envelope),
    ensures
        decrypted(delivery.payload@, delivery.parsed, own_secret@) matches Ok(content) ==> (r matches Ok(m) && {
            &&& m.content@ == content
            &&& m.from_name@ == envelope.sender_name@
            &&& m.from_id@ == envelope.sender_id@
            &&& m.format@ == envelope.format@
            &&& m.timestamp == delivery.timestamp
        }),
        decrypted(delivery.payload@, delivery.parsed, own_secret@) matches Err(words) ==> (r matches Err(e) && e@
            == words),
{
    law_delivery_is_read_whole(delivery, own_secret@);
}

/// The lines for clipygo: a message whole, under its name, and a status by its word.
pub proof fn law_telling(message: &IncomingMessageData, line: String, status: Status, status_text: String)
    requires
        call_ensures(message_line, (message,), line),
        call_ensures(status_line, (status,), status_text),
    ensures
        json_document(line@) matches Some(event) && event.text_member("event"@) == Some("incoming_message"@),
        json_document(line@) matches Some(event) && event.member("data"@) matches Some(data) && {
            &&& data.text_member("from_name"@) == Some(message.from_name@)
            &&& data.text_member("from_id"@) == Some(message.from_id@)
            &&& data.text_member("content"@) == Some(message.content@)
            &&& data.text_member("format"@) == Some(message.format@)
            &&& data.member("timestamp"@) == Some(JsonView::Number(json_number(message.timestamp)))
        },
        json_document(status_text@) matches Some(event) && event.text_member("event"@) == Some("connection_status"@),
        json_document(status_text@) matches Some(event) && event.member("data"@) matches Some(data)
            && data.text_member("status"@) == Some(
            match status {
                Status::Connecting => "connecting"@,
                Status::Connected => "connected"@,
                Status::Disconnected => "disconnected"@,
            },
        ),
{
    law_event_has_name_and_data("incoming_message"@, message_json(message@));
    law_message_is_told_whole(*message);
    law_event_has_name_and_data("connection_status"@, status_json(status));
    law_status_is_told();
}

/// A session is planned for the relay of the configuration, and for now: there it listens under the present
/// token until that changes, and asks under the one of five minutes ago, if that is another.
pub proof fn law_planning_a_session(
    config: &AppConfig,
    base: Option<String>,
    address: &str,
    public_key: &[u8; 32],
    now: u64,
    plan: Plan,
)
    requires
        call_ensures(relay_base, (config,), base),
        base matches Some(b) ==> b@ == address@,
        call_ensures(plan_session, (address, public_key, now), plan),
    ensures
        base is None <==> config.relay_url@.len() == 0,
        base is Some ==> address@ == without_trailing_slashes(config.relay_url@),
        plan.ws_url@ == websocket_base(address@) + "/ws/"@ + routing_token(public_key@, now as int),
        now < 300 ==> plan.poll_url is None,
        now >= 300 ==> (plan.poll_url is None <==> routing_token(public_key@, now - 300) == routing_token(
            public_key@,
            now as int,
        )),
        plan.poll_url matches Some(url) ==> url@ == address@ + "/poll/"@ + routing_token(public_key@, now - 300),
        now + plan.lifetime == 300 * (now as int / 300 + 1),
{
    law_stragglers_are_five_minutes_late(public_key@, now as int);
}

/// A session begins by connecting if there is a relay, and says so; without one it is a pause.
pub proof fn law_beginning_a_session(base: &Option<String>, r: (Phase, Vec<Notice>))
    requires
        call_ensures(begin, (base,), r),
    ensures
        base is Some ==> r.0 is Connecting && r.1@.len() == 1 && r.1@[0] is Connection && r.1@[0]->status
            == Status::Connecting,
        base is None ==> r.0 == (Phase::Over { pause: 5 }) && r.1@.len() == 0,
{
    let shown = notice_views(r.1@);
    assert(shown.len() == r.1@.len());
    if base is Some {
        assert(shown[0] == r.1@[0]@);
    }
}

} // verus!

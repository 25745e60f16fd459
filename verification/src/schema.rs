//! What the settings page shows: the form, and the values in it.
use vstd::prelude::*;

use crate::config::{
    contact_of, contacts_of, is_contact_list, with_settings, AppConfig, ConfigView, Contact, ContactView,
};
use crate::encoding::{base64_encode, base64_text};
use crate::json::{distinct_names, item_views, lemma_found_member, Fields, Json, JsonView};

verus! {

/// A string in a document.
pub open spec fn text_json(s: &str) -> JsonView {
    JsonView::Text(s@)
}

/// A field of the form that the user can fill in.
pub open spec fn field_json(kind: &str, title: &str, description: &str) -> JsonView {
    JsonView::Object(
        seq![("description"@, text_json(description)), ("title"@, text_json(title)), ("type"@, text_json(kind))],
    )
}

/// A field can be read.
proof fn lemma_field_is_readable(kind: &str, title: &str, description: &str, depth: nat)
    requires
        depth >= 1,
    ensures
        field_json(kind, title, description).is_readable(depth),
{
    reveal_with_fuel(JsonView::is_readable, 2);
    let members = field_json(kind, title, description)->Object_0;
    reveal_strlit("description");
    reveal_strlit("title");
    reveal_strlit("type");
    assert(members[0].0.len() == 11 && members[1].0.len() == 5 && members[2].0.len() == 4);
    assert(distinct_names(members));
}

/// A string of the form that the user can only read.
pub open spec fn read_only_json(title: &str, description: &str) -> JsonView {
    JsonView::Object(
        seq![
            ("description"@, text_json(description)),
            ("readOnly"@, JsonView::Bool(true)),
            ("title"@, text_json(title)),
            ("type"@, text_json("string")),
        ],
    )
}

/// A string that the user can only read can be read.
proof fn lemma_read_only_is_readable(title: &str, description: &str, depth: nat)
    requires
        depth >= 1,
    ensures
        read_only_json(title, description).is_readable(depth),
{
    reveal_with_fuel(JsonView::is_readable, 2);
    let members = read_only_json(title, description)->Object_0;
    reveal_strlit("description");
    reveal_strlit("readOnly");
    reveal_strlit("title");
    reveal_strlit("type");
    assert(members[0].0.len() == 11 && members[1].0.len() == 8);
    assert(members[2].0.len() == 5 && members[3].0.len() == 4);
    assert(distinct_names(members));
}

/// A string of the form that the user can only read, and that is not shown in the open.
pub open spec fn secret_json(title: &str, description: &str) -> JsonView {
    JsonView::Object(
        seq![
            ("description"@, text_json(description)),
            ("format"@, text_json("password")),
            ("readOnly"@, JsonView::Bool(true)),
            ("title"@, text_json(title)),
            ("type"@, text_json("string")),
        ],
    )
}

/// A string that is not shown in the open can be read.
proof fn lemma_secret_is_readable(title: &str, description: &str, depth: nat)
    requires
        depth >= 1,
    ensures
        secret_json(title, description).is_readable(depth),
{
    reveal_with_fuel(JsonView::is_readable, 2);
    let members = secret_json(title, description)->Object_0;
    reveal_strlit("description");
    reveal_strlit("format");
    reveal_strlit("readOnly");
    reveal_strlit("title");
    reveal_strlit("type");
    assert(members[0].0.len() == 11 && members[1].0.len() == 6 && members[2].0.len() == 8);
    assert(members[3].0.len() == 5 && members[4].0.len() == 4);
    assert(distinct_names(members));
}

/// A string that needs no description.
pub open spec fn plain_json(title: &str) -> JsonView {
    JsonView::Object(seq![("title"@, text_json(title)), ("type"@, text_json("string"))])
}

/// A string that needs no description can be read.
proof fn lemma_plain_is_readable(title: &str, depth: nat)
    requires
        depth >= 1,
    ensures
        plain_json(title).is_readable(depth),
{
    reveal_with_fuel(JsonView::is_readable, 2);
    let members = plain_json(title)->Object_0;
    reveal_strlit("title");
    reveal_strlit("type");
    assert(members[0].0.len() == 5 && members[1].0.len() == 4);
    assert(distinct_names(members));
}

/// The form for one contact.
pub open spec fn contact_form_json() -> JsonView {
    JsonView::Object(
        seq![
            (
                "properties"@,
                JsonView::Object(
                    seq![
                        ("id"@, plain_json("Relay ID")),
                        ("name"@, plain_json("Name")),
                        ("public_key"@, plain_json("Public Key")),
                    ],
                ),
            ),
            ("required"@, JsonView::List(seq![text_json("name"), text_json("id"), text_json("public_key")])),
            ("type"@, text_json("object")),
        ],
    )
}

/// The form for one contact can be read.
proof fn lemma_contact_form_is_readable(depth: nat)
    requires
        depth >= 3,
    ensures
        contact_form_json().is_readable(depth),
{
    reveal_with_fuel(JsonView::is_readable, 3);
    lemma_plain_is_readable("Relay ID", (depth - 2) as nat);
    lemma_plain_is_readable("Name", (depth - 2) as nat);
    lemma_plain_is_readable("Public Key", (depth - 2) as nat);
    let fields = contact_form_json()->Object_0[0].1;
    let inner = fields->Object_0;
    reveal_strlit("id");
    reveal_strlit("name");
    reveal_strlit("public_key");
    assert(inner[0].0.len() == 2 && inner[1].0.len() == 4 && inner[2].0.len() == 10);
    assert(distinct_names(inner));
    let members = contact_form_json()->Object_0;
    reveal_strlit("properties");
    reveal_strlit("required");
    reveal_strlit("type");
    assert(members[0].0.len() == 10 && members[1].0.len() == 8 && members[2].0.len() == 4);
    assert(distinct_names(members));
}

/// The form for the contacts.
pub open spec fn contacts_form_json() -> JsonView {
    JsonView::Object(
        seq![
            (
                "description"@,
                text_json("People you can send clipboard to. Ask them for their Relay ID and Public Key."),
            ),
            ("items"@, contact_form_json()),
            ("title"@, text_json("Contacts")),
            ("type"@, text_json("array")),
        ],
    )
}

/// The form for the contacts can be read.
proof fn lemma_contacts_form_is_readable(depth: nat)
    requires
        depth >= 4,
    ensures
        contacts_form_json().is_readable(depth),
{
    reveal_with_fuel(JsonView::is_readable, 2);
    lemma_contact_form_is_readable((depth - 1) as nat);
    let members = contacts_form_json()->Object_0;
    reveal_strlit("description");
    reveal_strlit("items");
    reveal_strlit("title");
    reveal_strlit("type");
    assert(members[0].0.len() == 11 && members[1].0.len() == 5);
    assert(members[2].0.len() == 5 && members[3].0.len() == 4);
    assert(members[1].0[0] != members[2].0[0]);
    assert(distinct_names(members));
}

/// The fields of the form.
pub open spec fn fields_json() -> JsonView {
    JsonView::Object(
        seq![
            ("contacts"@, contacts_form_json()),
            ("display_name"@, field_json("string", "Display Name", "Your name shown to message recipients")),
            (
                "ignore_tls_errors"@,
                field_json(
                    "boolean",
                    "Ignore TLS Certificate Errors",
                    "Skip TLS certificate validation (useful for self-signed certs)",
                ),
            ),
            (
                "private_key"@,
                secret_json("Private Key", "Your X25519 private key (backup this to transfer your identity)"),
            ),
            ("public_key"@, read_only_json("Public Key", "Your X25519 public key (share this with contacts)")),
            (
                "relay_url"@,
                field_json(
                    "string",
                    "Relay Server URL",
                    "URL of the relay server (e.g. https://clipygo-relay.return-co.de)",
                ),
            ),
            ("user_id"@, read_only_json("Relay ID", "Your unique relay identity (share this with contacts)")),
        ],
    )
}

/// The fields of the form can be read.
proof fn lemma_fields_are_readable(depth: nat)
    requires
        depth >= 5,
    ensures
        fields_json().is_readable(depth),
{
    let below = (depth - 1) as nat;
    lemma_contacts_form_is_readable(below);
    lemma_field_is_readable("string", "Display Name", "Your name shown to message recipients", below);
    lemma_field_is_readable(
        "boolean",
        "Ignore TLS Certificate Errors",
        "Skip TLS certificate validation (useful for self-signed certs)",
        below,
    );
    lemma_secret_is_readable("Private Key", "Your X25519 private key (backup this to transfer your identity)", below);
    lemma_read_only_is_readable("Public Key", "Your X25519 public key (share this with contacts)", below);
    lemma_field_is_readable(
        "string",
        "Relay Server URL",
        "URL of the relay server (e.g. https://clipygo-relay.return-co.de)",
        below,
    );
    lemma_read_only_is_readable("Relay ID", "Your unique relay identity (share this with contacts)", below);
    let members = fields_json()->Object_0;
    reveal_strlit("contacts");
    reveal_strlit("display_name");
    reveal_strlit("ignore_tls_errors");
    reveal_strlit("private_key");
    reveal_strlit("public_key");
    reveal_strlit("relay_url");
    reveal_strlit("user_id");
    assert(members[0].0.len() == 8 && members[1].0.len() == 12 && members[2].0.len() == 17 && members[3].0.len() == 11);
    assert(members[4].0.len() == 10 && members[5].0.len() == 9 && members[6].0.len() == 7);
    assert(distinct_names(members));
}

/// The form of the settings page.
pub open spec fn schema_json() -> JsonView {
    JsonView::Object(
        seq![
            ("properties"@, fields_json()),
            ("required"@, JsonView::List(seq![text_json("relay_url"), text_json("display_name")])),
            ("type"@, text_json("object")),
        ],
    )
}

/// The form of the settings page can be read.
pub proof fn lemma_schema_is_readable(depth: nat)
    requires
        depth >= 6,
    ensures
        schema_json().is_readable(depth),
{
    reveal_with_fuel(JsonView::is_readable, 3);
    lemma_fields_are_readable((depth - 1) as nat);
    let members = schema_json()->Object_0;
    reveal_strlit("properties");
    reveal_strlit("required");
    reveal_strlit("type");
    assert(members[0].0.len() == 10 && members[1].0.len() == 8 && members[2].0.len() == 4);
    assert(distinct_names(members));
}

fn field(kind: &str, title: &str, description: &str) -> (r: Json)
    ensures
        r@ == field_json(kind, title, description),
{
    let r = Fields::new().with_text("description", description).with_text("title", title).with_text(
        "type",
        kind,
    ).object();
    assert(r@->Object_0 =~= field_json(kind, title, description)->Object_0);
    r
}

fn read_only(title: &str, description: &str) -> (r: Json)
    ensures
        r@ == read_only_json(title, description),
{
    let r = Fields::new().with_text("description", description).with("readOnly", Json::Bool(true)).with_text(
        "title",
        title,
    ).with_text("type", "string").object();
    assert(r@->Object_0 =~= read_only_json(title, description)->Object_0);
    r
}

fn secret(title: &str, description: &str) -> (r: Json)
    ensures
        r@ == secret_json(title, description),
{
    let r = Fields::new().with_text("description", description).with_text("format", "password").with(
        "readOnly",
        Json::Bool(true),
    ).with_text("title", title).with_text("type", "string").object();
    assert(r@->Object_0 =~= secret_json(title, description)->Object_0);
    r
}

fn plain(title: &str) -> (r: Json)
    ensures
        r@ == plain_json(title),
{
    let r = Fields::new().with_text("title", title).with_text("type", "string").object();
    assert(r@->Object_0 =~= plain_json(title)->Object_0);
    r
}

fn contact_form() -> (r: Json)
    ensures
        r@ == contact_form_json(),
{
    let properties = Fields::new().with("id", plain("Relay ID")).with("name", plain("Name")).with(
        "public_key",
        plain("Public Key"),
    ).object();
    assert(properties@->Object_0 =~= contact_form_json()->Object_0[0].1->Object_0);
    let required = Json::text_list(&["name", "id", "public_key"]);
    assert(required@->List_0 =~= contact_form_json()->Object_0[1].1->List_0);
    let r = Fields::new().with("properties", properties).with("required", required).with_text(
        "type",
        "object",
    ).object();
    assert(r@->Object_0 =~= contact_form_json()->Object_0);
    r
}

fn contacts_form() -> (r: Json)
    ensures
        r@ == contacts_form_json(),
{
    let r = Fields::new().with_text(
        "description",
        "People you can send clipboard to. Ask them for their Relay ID and Public Key.",
    ).with("items", contact_form()).with_text("title", "Contacts").with_text("type", "array").object();
    assert(r@->Object_0 =~= contacts_form_json()->Object_0);
    r
}

fn fields() -> (r: Json)
    ensures
        r@ == fields_json(),
{
    let r = Fields::new().with("contacts", contacts_form()).with(
        "display_name",
        field("string", "Display Name", "Your name shown to message recipients"),
    ).with(
        "ignore_tls_errors",
        field(
            "boolean",
            "Ignore TLS Certificate Errors",
            "Skip TLS certificate validation (useful for self-signed certs)",
        ),
    ).with(
        "private_key",
        secret("Private Key", "Your X25519 private key (backup this to transfer your identity)"),
    ).with("public_key", read_only("Public Key", "Your X25519 public key (share this with contacts)")).with(
        "relay_url",
        field("string", "Relay Server URL", "URL of the relay server (e.g. https://clipygo-relay.return-co.de)"),
    ).with("user_id", read_only("Relay ID", "Your unique relay identity (share this with contacts)")).object();
    assert(r@->Object_0 =~= fields_json()->Object_0);
    r
}

/// The form of the settings page.
pub fn schema_document() -> (r: Json)
    ensures
        r@ == schema_json(),
{
    let required = Json::text_list(&["relay_url", "display_name"]);
    assert(required@->List_0 =~= schema_json()->Object_0[1].1->List_0);
    let r = Fields::new().with("properties", fields()).with("required", required).with_text("type", "object").object();
    assert(r@->Object_0 =~= schema_json()->Object_0);
    r
}

/// A contact on the settings page.
pub open spec fn contact_value_json(c: ContactView) -> JsonView {
    JsonView::Object(
        seq![
            ("id"@, JsonView::Text(c.id)),
            ("name"@, JsonView::Text(c.name)),
            ("public_key"@, JsonView::Text(c.public_key)),
        ],
    )
}

proof fn lemma_contact_value_names(c: ContactView)
    ensures
        distinct_names(contact_value_json(c)->Object_0),
{
    let members = contact_value_json(c)->Object_0;
    reveal_strlit("id");
    reveal_strlit("name");
    reveal_strlit("public_key");
    assert(members[0].0.len() == 2 && members[1].0.len() == 4 && members[2].0.len() == 10);
}

/// A contact on the settings page can be read.
proof fn lemma_contact_value_is_readable(c: ContactView, depth: nat)
    requires
        depth >= 1,
    ensures
        contact_value_json(c).is_readable(depth),
{
    reveal_with_fuel(JsonView::is_readable, 2);
    lemma_contact_value_names(c);
}

/// The values on the settings page.
pub open spec fn values_json(
    config: ConfigView,
    private_key: Seq<u8>,
    public_key: Seq<u8>,
    user_id: Seq<char>,
) -> JsonView {
    JsonView::Object(
        seq![
            ("contacts"@, JsonView::List(config.contacts.map_values(|c: ContactView| contact_value_json(c)))),
            ("display_name"@, JsonView::Text(config.display_name)),
            ("ignore_tls_errors"@, JsonView::Bool(config.ignore_tls_errors)),
            ("private_key"@, JsonView::Text(base64_text(private_key))),
            ("public_key"@, JsonView::Text(base64_text(public_key))),
            ("relay_url"@, JsonView::Text(config.relay_url)),
            ("user_id"@, JsonView::Text(user_id)),
        ],
    )
}

proof fn lemma_values_names(config: ConfigView, private_key: Seq<u8>, public_key: Seq<u8>, user_id: Seq<char>)
    ensures
        distinct_names(values_json(config, private_key, public_key, user_id)->Object_0),
{
    let members = values_json(config, private_key, public_key, user_id)->Object_0;
    reveal_strlit("contacts");
    reveal_strlit("display_name");
    reveal_strlit("ignore_tls_errors");
    reveal_strlit("private_key");
    reveal_strlit("public_key");
    reveal_strlit("relay_url");
    reveal_strlit("user_id");
    assert(members[0].0.len() == 8 && members[1].0.len() == 12 && members[2].0.len() == 17 && members[3].0.len() == 11);
    assert(members[4].0.len() == 10 && members[5].0.len() == 9 && members[6].0.len() == 7);
}

/// The values on the settings page can be read.
pub proof fn lemma_values_are_readable(
    config: ConfigView,
    private_key: Seq<u8>,
    public_key: Seq<u8>,
    user_id: Seq<char>,
    depth: nat,
)
    requires
        depth >= 3,
    ensures
        values_json(config, private_key, public_key, user_id).is_readable(depth),
{
    reveal_with_fuel(JsonView::is_readable, 3);
    let members = values_json(config, private_key, public_key, user_id)->Object_0;
    lemma_values_names(config, private_key, public_key, user_id);
    let items = members[0].1->List_0;
    assert forall|i: int| 0 <= i < items.len() implies (#[trigger] items[i]).is_readable((depth - 2) as nat) by {
        lemma_contact_value_is_readable(config.contacts[i], (depth - 2) as nat);
    }
    assert(members[0].1.is_readable((depth - 1) as nat));
}

fn contact_value(c: &Contact) -> (r: Json)
    ensures
        r@ == contact_value_json(c@),
{
    let r = Fields::new().with_text("id", &c.id).with_text("name", &c.name).with_text(
        "public_key",
        &c.public_key,
    ).object();
    assert(r@->Object_0 =~= contact_value_json(c@)->Object_0);
    r
}

/// The values on the settings page.
pub fn values_document(config: &AppConfig, private_key: &[u8; 32], public_key: &[u8; 32], user_id: &str) -> (r: Json)
    ensures
        r@ == values_json(config@, private_key@, public_key@, user_id@),
{
    let mut items: Vec<Json> = Vec::new();
    for i in 0..config.contacts.len()
        invariant
            items@.len() == i,
            forall|j: int| 0 <= j < i ==> (#[trigger] items@[j])@ == contact_value_json(config.contacts@[j]@),
    {
        items.push(contact_value(&config.contacts[i]));
    }
    assert(item_views(items@) =~= config@.contacts.map_values(|c: ContactView| contact_value_json(c)));
    let r = Fields::new().with("contacts", Json::list(items)).with_text("display_name", &config.display_name).with(
        "ignore_tls_errors",
        Json::Bool(config.ignore_tls_errors),
    ).with_text("private_key", &base64_encode(private_key)).with_text("public_key", &base64_encode(public_key)).with_text(
        "relay_url",
        &config.relay_url,
    ).with_text("user_id", user_id).object();
    assert(r@->Object_0 =~= values_json(config@, private_key@, public_key@, user_id@)->Object_0);
    r
}

/// A contact on the settings page is read as the contact that it shows.
pub proof fn law_shown_contact_is_read(c: ContactView)
    ensures
        contact_of(contact_value_json(c)) == Some(c),
{
    lemma_contact_value_names(c);
    let members = contact_value_json(c)->Object_0;
    lemma_found_member(members, 0);
    lemma_found_member(members, 1);
    lemma_found_member(members, 2);
}

/// Handing back the values of the settings page unchanged sets the configuration that they show,
/// whatever was set before.
pub proof fn law_shown_values_are_taken_over(
    before: ConfigView,
    config: ConfigView,
    private_key: Seq<u8>,
    public_key: Seq<u8>,
    user_id: Seq<char>,
)
    ensures
        with_settings(before, values_json(config, private_key, public_key, user_id)) == config,
{
    let values = values_json(config, private_key, public_key, user_id);
    let members = values->Object_0;
    lemma_values_names(config, private_key, public_key, user_id);
    lemma_found_member(members, 0);
    lemma_found_member(members, 1);
    lemma_found_member(members, 2);
    lemma_found_member(members, 5);
    let list = members[0].1;
    let items = list->List_0;
    assert forall|i: int| 0 <= i < items.len() implies contact_of(#[trigger] items[i]) == Some(
        config.contacts[i],
    ) by {
        law_shown_contact_is_read(config.contacts[i]);
    }
    assert(is_contact_list(list));
    assert(contacts_of(list)->0 =~= config.contacts);
}

/// The settings page shows what is set, and whose it is: the keys in base64, and the id.
pub proof fn law_values_show_the_user(
    config: ConfigView,
    private_key: Seq<u8>,
    public_key: Seq<u8>,
    user_id: Seq<char>,
)
    ensures
        values_json(config, private_key, public_key, user_id).text_member("relay_url"@) == Some(config.relay_url),
        values_json(config, private_key, public_key, user_id).text_member("display_name"@) == Some(
            config.display_name,
        ),
        values_json(config, private_key, public_key, user_id).bool_member("ignore_tls_errors"@) == Some(
            config.ignore_tls_errors,
        ),
        values_json(config, private_key, public_key, user_id).text_member("private_key"@) == Some(
            base64_text(private_key),
        ),
        values_json(config, private_key, public_key, user_id).text_member("public_key"@) == Some(
            base64_text(public_key),
        ),
        values_json(config, private_key, public_key, user_id).text_member("user_id"@) == Some(user_id),
{
    lemma_values_names(config, private_key, public_key, user_id);
    let members = values_json(config, private_key, public_key, user_id)->Object_0;
    lemma_found_member(members, 1);
    lemma_found_member(members, 2);
    lemma_found_member(members, 3);
    lemma_found_member(members, 4);
    lemma_found_member(members, 5);
    lemma_found_member(members, 6);
}

/// The settings page shows each contact in its place, with its name, its id and its key.
pub proof fn law_values_show_each_contact(
    config: ConfigView,
    private_key: Seq<u8>,
    public_key: Seq<u8>,
    user_id: Seq<char>,
)
    ensures
        values_json(config, private_key, public_key, user_id).member("contacts"@) matches Some(JsonView::List(items))
            && items.len() == config.contacts.len() && forall|i: int|
            0 <= i < items.len() ==> {
                &&& (#[trigger] items[i]).text_member("name"@) == Some(config.contacts[i].name)
                &&& items[i].text_member("id"@) == Some(config.contacts[i].id)
                &&& items[i].text_member("public_key"@) == Some(config.contacts[i].public_key)
            },
{
    lemma_values_names(config, private_key, public_key, user_id);
    let members = values_json(config, private_key, public_key, user_id)->Object_0;
    lemma_found_member(members, 0);
    let items = members[0].1->List_0;
    assert forall|i: int| 0 <= i < items.len() implies {
        &&& (#[trigger] items[i]).text_member("name"@) == Some(config.contacts[i].name)
        &&& items[i].text_member("id"@) == Some(config.contacts[i].id)
        &&& items[i].text_member("public_key"@) == Some(config.contacts[i].public_key)
    } by {
        let c = config.contacts[i];
        lemma_contact_value_names(c);
        lemma_found_member(contact_value_json(c)->Object_0, 0);
        lemma_found_member(contact_value_json(c)->Object_0, 1);
        lemma_found_member(contact_value_json(c)->Object_0, 2);
    }
}

} // verus!

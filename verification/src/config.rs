//! The configuration: the relay, the user's name, and the people to send to.
use vstd::prelude::*;

use crate::json::{
    distinct_names, item_views, json_document, lemma_found_member, render_pretty, spells_out, Fields, Json,
    JsonView, READABLE_DEPTH,
};

verus! {

/// The relay that a fresh configuration names.
pub const DEFAULT_RELAY_URL: &'static str = "https://clipygo-relay.return-co.de";

/// Somebody to send to.
#[derive(Debug, PartialEq, Eq)]
pub struct Contact {
    pub name: String,
    pub id: String,
    /// The base64 of 32 bytes.
    pub public_key: String,
}

/// What a [`Contact`] holds.
pub struct ContactView {
    pub name: Seq<char>,
    pub id: Seq<char>,
    pub public_key: Seq<char>,
}

impl View for Contact {
    type V = ContactView;

    open spec fn view(&self) -> ContactView {
        ContactView { name: self.name@, id: self.id@, public_key: self.public_key@ }
    }
}

/// What the user can set.
#[derive(Debug, PartialEq, Eq)]
pub struct AppConfig {
    pub relay_url: String,
    pub display_name: String,
    pub ignore_tls_errors: bool,
    pub contacts: Vec<Contact>,
}

/// What an [`AppConfig`] holds.
#[verifier::ext_equal]
pub struct ConfigView {
    pub relay_url: Seq<char>,
    pub display_name: Seq<char>,
    pub ignore_tls_errors: bool,
    pub contacts: Seq<ContactView>,
}

/// Contacts by their views.
pub open spec fn contact_views(contacts: Seq<Contact>) -> Seq<ContactView> {
    contacts.map_values(|c: Contact| c@)
}

impl View for AppConfig {
    type V = ConfigView;

    open spec fn view(&self) -> ConfigView {
        ConfigView {
            relay_url: self.relay_url@,
            display_name: self.display_name@,
            ignore_tls_errors: self.ignore_tls_errors,
            contacts: contact_views(self.contacts@),
        }
    }
}

/// The configuration of a user who has set nothing.
pub open spec fn default_config() -> ConfigView {
    ConfigView {
        relay_url: DEFAULT_RELAY_URL@,
        display_name: Seq::empty(),
        ignore_tls_errors: false,
        contacts: Seq::empty(),
    }
}

impl Default for AppConfig {
    fn default() -> (r: Self)
        ensures
            r@ == default_config(),
    {
        let r = AppConfig {
            relay_url: DEFAULT_RELAY_URL.to_string(),
            display_name: String::new(),
            ignore_tls_errors: false,
            contacts: Vec::new(),
        };
        assert(r@ =~= default_config());
        r
    }
}

/// The stored configuration, or the default one where none could be read.
pub fn config_or_default(stored: Option<AppConfig>) -> (r: AppConfig)
    ensures
        stored matches Some(config) ==> r == config,
        stored is None ==> r@ == default_config(),
{
    match stored {
        Some(config) => config,
        None => AppConfig::default(),
    }
}

/// A contact as the configuration file has it.
pub open spec fn contact_json(c: ContactView) -> JsonView {
    JsonView::Object(
        seq![
            ("name"@, JsonView::Text(c.name)),
            ("id"@, JsonView::Text(c.id)),
            ("public_key"@, JsonView::Text(c.public_key)),
        ],
    )
}

proof fn lemma_contact_names(c: ContactView)
    ensures
        distinct_names(contact_json(c)->Object_0),
{
    let members = contact_json(c)->Object_0;
    reveal_strlit("name");
    reveal_strlit("id");
    reveal_strlit("public_key");
    assert(members[0].0.len() == 4 && members[1].0.len() == 2 && members[2].0.len() == 10);
}

/// A contact in the configuration file can be read.
proof fn lemma_contact_is_readable(c: ContactView, depth: nat)
    requires
        depth >= 1,
    ensures
        contact_json(c).is_readable(depth),
{
    reveal_with_fuel(JsonView::is_readable, 2);
    lemma_contact_names(c);
}

/// A configuration as its file has it.
pub open spec fn config_json(config: ConfigView) -> JsonView {
    JsonView::Object(
        seq![
            ("relay_url"@, JsonView::Text(config.relay_url)),
            ("display_name"@, JsonView::Text(config.display_name)),
            ("ignore_tls_errors"@, JsonView::Bool(config.ignore_tls_errors)),
            ("contacts"@, JsonView::List(config.contacts.map_values(|c: ContactView| contact_json(c)))),
        ],
    )
}

proof fn lemma_config_names(config: ConfigView)
    ensures
        distinct_names(config_json(config)->Object_0),
{
    let members = config_json(config)->Object_0;
    reveal_strlit("relay_url");
    reveal_strlit("display_name");
    reveal_strlit("ignore_tls_errors");
    reveal_strlit("contacts");
    assert(members[0].0.len() == 9 && members[1].0.len() == 12 && members[2].0.len() == 17 && members[3].0.len() == 8);
}

/// A configuration can be read.
proof fn lemma_config_is_readable(config: ConfigView, depth: nat)
    requires
        depth >= 3,
    ensures
        config_json(config).is_readable(depth),
{
    reveal_with_fuel(JsonView::is_readable, 3);
    let members = config_json(config)->Object_0;
    lemma_config_names(config);
    let items = members[3].1->List_0;
    assert forall|i: int| 0 <= i < items.len() implies (#[trigger] items[i]).is_readable((depth - 2) as nat) by {
        lemma_contact_is_readable(config.contacts[i], (depth - 2) as nat);
    }
    assert(members[3].1.is_readable((depth - 1) as nat));
}

impl Contact {
    /// The contact as the configuration file has it.
    fn json(&self) -> (r: Json)
        ensures
            r@ == contact_json(self@),
    {
        let r = Fields::new().with_text("name", &self.name).with_text("id", &self.id).with_text(
            "public_key",
            &self.public_key,
        ).object();
        assert(r@->Object_0 =~= contact_json(self@)->Object_0);
        r
    }
}

/// The text to write to the configuration file.
pub fn config_file_text(config: &AppConfig) -> (r: String)
    ensures
        spells_out(r@, config_json(config@)),
{
    let mut items: Vec<Json> = Vec::new();
    for i in 0..config.contacts.len()
        invariant
            items@.len() == i,
            forall|j: int| 0 <= j < i ==> (#[trigger] items@[j])@ == contact_json(config.contacts@[j]@),
    {
        items.push(config.contacts[i].json());
    }
    assert(item_views(items@) =~= config@.contacts.map_values(|c: ContactView| contact_json(c)));
    let tree = Fields::new().with_text("relay_url", &config.relay_url).with_text(
        "display_name",
        &config.display_name,
    ).with("ignore_tls_errors", Json::Bool(config.ignore_tls_errors)).with("contacts", Json::list(items)).object();
    assert(tree@->Object_0 =~= config_json(config@)->Object_0);
    proof {
        lemma_config_is_readable(config@, READABLE_DEPTH as nat);
    }
    render_pretty(&tree)
}

/// The contact that a document stands for: an object with three strings under their names, or a
/// list of just those three strings. Other members of the object do not matter.
pub open spec fn contact_of(v: JsonView) -> Option<ContactView> {
    match v {
        JsonView::Object(_) => match (v.text_member("name"@), v.text_member("id"@), v.text_member("public_key"@)) {
            (Some(name), Some(id), Some(public_key)) => Some(ContactView { name, id, public_key }),
            _ => None,
        },
        JsonView::List(items) => if items.len() == 3 {
            match (items[0].as_text(), items[1].as_text(), items[2].as_text()) {
                (Some(name), Some(id), Some(public_key)) => Some(ContactView { name, id, public_key }),
                _ => None,
            }
        } else {
            None
        },
        _ => None,
    }
}

/// Whether a document is a list of contacts.
pub open spec fn is_contact_list(v: JsonView) -> bool {
    v matches JsonView::List(items) && forall|i: int|
        0 <= i < items.len() ==> contact_of(#[trigger] items[i]) is Some
}

/// The contacts that a document lists; `None` unless every item is one.
pub open spec fn contacts_of(v: JsonView) -> Option<Seq<ContactView>> {
    if is_contact_list(v) {
        Some(v->List_0.map_values(|item: JsonView| contact_of(item)->0))
    } else {
        None
    }
}

/// The configuration after the settings in `values`: a member of the right kind replaces what was
/// set, and anything else changes nothing.
pub open spec fn with_settings(config: ConfigView, values: JsonView) -> ConfigView {
    ConfigView {
        relay_url: match values.text_member("relay_url"@) {
            Some(url) => url,
            None => config.relay_url,
        },
        display_name: match values.text_member("display_name"@) {
            Some(name) => name,
            None => config.display_name,
        },
        ignore_tls_errors: match values.bool_member("ignore_tls_errors"@) {
            Some(ignore) => ignore,
            None => config.ignore_tls_errors,
        },
        contacts: match values.member("contacts"@) {
            Some(v) => match contacts_of(v) {
                Some(contacts) => contacts,
                None => config.contacts,
            },
            None => config.contacts,
        },
    }
}

/// The contact that a document stands for.
fn contact_from(v: &Json) -> (r: Option<Contact>)
    ensures
        r is Some <==> contact_of(v@) is Some,
        r matches Some(c) ==> contact_of(v@) == Some(c@),
{
    match v {
        Json::Object(_) => {
            match (v.text_member("name"), v.text_member("id"), v.text_member("public_key")) {
                (Some(name), Some(id), Some(public_key)) => Some(Contact { name, id, public_key }),
                _ => None,
            }
        },
        Json::List(items) => {
            if items.len() != 3 {
                return None;
            }
            assert(v@->List_0[0] == items@[0]@ && v@->List_0[1] == items@[1]@ && v@->List_0[2] == items@[2]@);
            match (&items[0], &items[1], &items[2]) {
                (Json::Text(name), Json::Text(id), Json::Text(public_key)) => Some(
                    Contact { name: name.clone(), id: id.clone(), public_key: public_key.clone() },
                ),
                _ => None,
            }
        },
        _ => None,
    }
}

/// The contacts that a document lists.
fn contacts_from(v: &Json) -> (r: Option<Vec<Contact>>)
    ensures
        r is Some <==> contacts_of(v@) is Some,
        r matches Some(contacts) ==> contacts_of(v@) == Some(contact_views(contacts@)),
{
    match v {
        Json::List(items) => {
            let mut contacts: Vec<Contact> = Vec::new();
            for i in 0..items.len()
                invariant
                    v@ is List,
                    v@->List_0.len() == items@.len(),
                    forall|k: int| 0 <= k < items@.len() ==> #[trigger] v@->List_0[k] == items@[k]@,
                    contacts@.len() == i,
                    forall|j: int| 0 <= j < i ==> contact_of(v@->List_0[j]) == Some((#[trigger] contacts@[j])@),
            {
                match contact_from(&items[i]) {
                    Some(contact) => contacts.push(contact),
                    None => {
                        assert(contact_of(v@->List_0[i as int]) is None);
                        return None;
                    },
                }
            }
            assert forall|i: int| 0 <= i < items@.len() implies contact_of(#[trigger] v@->List_0[i]) is Some by {
                assert(contact_of(v@->List_0[i]) == Some(contacts@[i]@));
            }
            assert(contact_views(contacts@) =~= contacts_of(v@)->0);
            Some(contacts)
        },
        _ => None,
    }
}

/// Takes over the settings in `values`.
pub fn apply_settings(config: &mut AppConfig, values: &Json)
    ensures
        final(config)@ == with_settings(old(config)@, values@),
        values@.member("relay_url"@) is None ==> final(config).relay_url == old(config).relay_url,
        values@.member("display_name"@) is None ==> final(config).display_name == old(config).display_name,
        values@.member("ignore_tls_errors"@) is None ==> final(config).ignore_tls_errors == old(
            config,
        ).ignore_tls_errors,
        values@.member("contacts"@) is None ==> final(config).contacts == old(config).contacts,
{
    if let Some(url) = values.text_member("relay_url") {
        config.relay_url = url;
    }
    if let Some(name) = values.text_member("display_name") {
        config.display_name = name;
    }
    if let Some(ignore) = values.bool_member("ignore_tls_errors") {
        config.ignore_tls_errors = ignore;
    }
    if let Some(v) = values.member("contacts") {
        if let Some(contacts) = contacts_from(v) {
            config.contacts = contacts;
        }
    }
}

/// The configuration file holds all that there is to set: read as settings, it gives the
/// configuration that was written, whatever was set before.
pub proof fn law_file_holds_the_configuration(before: ConfigView, config: ConfigView)
    ensures
        with_settings(before, config_json(config)) == config,
{
    let members = config_json(config)->Object_0;
    lemma_config_names(config);
    lemma_found_member(members, 0);
    lemma_found_member(members, 1);
    lemma_found_member(members, 2);
    lemma_found_member(members, 3);
    let list = members[3].1;
    let items = list->List_0;
    assert forall|i: int| 0 <= i < items.len() implies contact_of(#[trigger] items[i]) == Some(
        config.contacts[i],
    ) by {
        law_written_contact_is_read(config.contacts[i]);
    }
    assert(is_contact_list(list));
    assert(contacts_of(list)->0 =~= config.contacts);
}

/// What was saved is loaded: of a file with the text of a configuration, no other configuration has the
/// document.
pub proof fn law_saved_configuration_is_loaded(text: Seq<char>, saved: ConfigView, loaded: ConfigView)
    requires
        spells_out(text, config_json(saved)),
        json_document(text) == Some(config_json(loaded)),
    ensures
        loaded == saved,
{
    law_file_holds_the_configuration(default_config(), saved);
    law_file_holds_the_configuration(default_config(), loaded);
}

/// A contact in the configuration file is read as the contact that was written.
pub proof fn law_written_contact_is_read(c: ContactView)
    ensures
        contact_of(contact_json(c)) == Some(c),
{
    lemma_contact_names(c);
    let members = contact_json(c)->Object_0;
    lemma_found_member(members, 0);
    lemma_found_member(members, 1);
    lemma_found_member(members, 2);
}

/// Taking over the same settings twice is taking them over once.
pub proof fn law_settings_are_idempotent(config: ConfigView, values: JsonView)
    ensures
        with_settings(with_settings(config, values), values) == with_settings(config, values),
{
}

/// Settings that name none of the four members change nothing.
pub proof fn law_other_settings_change_nothing(config: ConfigView, values: JsonView)
    requires
        values.member("relay_url"@) is None,
        values.member("display_name"@) is None,
        values.member("ignore_tls_errors"@) is None,
        values.member("contacts"@) is None,
    ensures
        with_settings(config, values) == config,
{
}

/// A configuration shows all that it holds: as many contacts, in the same order, and every character.
pub proof fn law_configuration_shows_all(config: AppConfig)
    ensures
        config@.relay_url == config.relay_url@,
        config@.display_name == config.display_name@,
        config@.ignore_tls_errors == config.ignore_tls_errors,
        config@.contacts.len() == config.contacts@.len(),
        forall|i: int|
            0 <= i < config.contacts@.len() ==> {
                &&& (#[trigger] config@.contacts[i]).name == config.contacts@[i].name@
                &&& config@.contacts[i].id == config.contacts@[i].id@
                &&& config@.contacts[i].public_key == config.contacts@[i].public_key@
            },
{
}

/// Whoever has set nothing uses the public relay, has no name, trusts no bad certificate and knows nobody.
pub proof fn law_default_configuration()
    ensures
        default_config().relay_url == "https://clipygo-relay.return-co.de"@,
        default_config().display_name.len() == 0,
        !default_config().ignore_tls_errors,
        default_config().contacts.len() == 0,
{
}

/// A contact is an object with three strings, or a list of three strings, and nothing else is.
pub proof fn law_contact_is_three_strings(v: JsonView)
    ensures
        v is Object ==> (contact_of(v) matches Some(c) ==> {
            &&& v.text_member("name"@) == Some(c.name)
            &&& v.text_member("id"@) == Some(c.id)
            &&& v.text_member("public_key"@) == Some(c.public_key)
        }),
        v is Object && v.text_member("name"@) is Some && v.text_member("id"@) is Some && v.text_member(
            "public_key"@,
        ) is Some ==> contact_of(v) is Some,
        v matches JsonView::List(items) ==> (contact_of(v) matches Some(c) ==> {
            &&& items.len() == 3
            &&& items[0] == JsonView::Text(c.name)
            &&& items[1] == JsonView::Text(c.id)
            &&& items[2] == JsonView::Text(c.public_key)
        }),
        v matches JsonView::List(items) ==> (items.len() == 3 && items[0] is Text && items[1] is Text
            && items[2] is Text ==> contact_of(v) is Some),
        !(v is Object) && !(v is List) ==> contact_of(v) is None,
{
}

/// A setting of the right kind is taken over as it is given.
pub proof fn law_given_settings_are_set(config: ConfigView, values: JsonView)
    ensures
        values.member("relay_url"@) matches Some(JsonView::Text(url)) ==> with_settings(config, values).relay_url
            == url,
        values.member("display_name"@) matches Some(JsonView::Text(name)) ==> with_settings(
            config,
            values,
        ).display_name == name,
        values.member("ignore_tls_errors"@) matches Some(JsonView::Bool(ignore)) ==> with_settings(
            config,
            values,
        ).ignore_tls_errors == ignore,
        values.member("contacts"@) matches Some(JsonView::List(items)) ==> ((forall|i: int|
            0 <= i < items.len() ==> contact_of(#[trigger] items[i]) is Some) ==> {
            &&& with_settings(config, values).contacts.len() == items.len()
            &&& forall|i: int|
                0 <= i < items.len() ==> contact_of(#[trigger] items[i]) == Some(with_settings(config, values).contacts[i])
        }),
{
}

/// A setting that is not given, or is not of the right kind, stays as it was, whatever else is set.
pub proof fn law_other_settings_stay(config: ConfigView, values: JsonView)
    ensures
        !(values.member("relay_url"@) matches Some(JsonView::Text(_))) ==> with_settings(config, values).relay_url
            == config.relay_url,
        !(values.member("display_name"@) matches Some(JsonView::Text(_))) ==> with_settings(
            config,
            values,
        ).display_name == config.display_name,
        !(values.member("ignore_tls_errors"@) matches Some(JsonView::Bool(_))) ==> with_settings(
            config,
            values,
        ).ignore_tls_errors == config.ignore_tls_errors,
        !(values.member("contacts"@) matches Some(JsonView::List(_))) ==> with_settings(config, values).contacts
            == config.contacts,
        values.member("contacts"@) matches Some(JsonView::List(items)) ==> ((exists|i: int|
            0 <= i < items.len() && contact_of(#[trigger] items[i]) is None) ==> with_settings(config, values).contacts
            == config.contacts),
{
}

/// Each setting depends on its own member and on what was set before, and on nothing else.
pub proof fn law_settings_are_independent(
    config: ConfigView,
    other_config: ConfigView,
    values: JsonView,
    other_values: JsonView,
)
    ensures
        config.relay_url == other_config.relay_url && values.member("relay_url"@) == other_values.member("relay_url"@)
            ==> with_settings(config, values).relay_url == with_settings(other_config, other_values).relay_url,
        config.display_name == other_config.display_name && values.member("display_name"@) == other_values.member(
            "display_name"@,
        ) ==> with_settings(config, values).display_name == with_settings(other_config, other_values).display_name,
        config.ignore_tls_errors == other_config.ignore_tls_errors && values.member("ignore_tls_errors"@)
            == other_values.member("ignore_tls_errors"@) ==> with_settings(config, values).ignore_tls_errors
            == with_settings(other_config, other_values).ignore_tls_errors,
        config.contacts == other_config.contacts && values.member("contacts"@) == other_values.member("contacts"@)
            ==> with_settings(config, values).contacts == with_settings(other_config, other_values).contacts,
{
}

/// What is saved is what is loaded: the text for the file has all four settings, as they are, and the
/// configuration with that document is the one that was saved. Without a file there is the default.
pub proof fn law_saving_and_loading(
    config: &AppConfig,
    text: String,
    stored: Option<AppConfig>,
    loaded: AppConfig,
)
    requires
        call_ensures(config_file_text, (config,), text),
        call_ensures(config_or_default, (stored,), loaded),
        stored matches Some(read) ==> json_document(text@) == Some(config_json(read@)),
    ensures
        json_document(text@) matches Some(document) && with_settings(default_config(), document) == config@,
        stored is Some ==> loaded@ == config@,
        stored is None ==> loaded@ == default_config(),
{
    law_file_holds_the_configuration(default_config(), config@);
    if stored is Some {
        law_saved_configuration_is_loaded(text@, config@, stored->0@);
    }
}

} // verus!

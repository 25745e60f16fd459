//! JSON documents: building them, looking into them, and their text.
use vstd::prelude::*;
use vstd::utf8::*;

verus! {

/// `serde_json::Number`, carried through unread.
#[verifier::external_type_specification]
#[verifier::external_body]
pub struct ExJsonNumber(serde_json::Number);

/// `serde_json::Value`, which is converted from and to a [`Json`].
#[verifier::external_type_specification]
#[verifier::external_body]
pub struct ExJsonValue(serde_json::Value);

/// A JSON document. Object members keep their order.
#[derive(Debug, PartialEq)]
pub enum Json {
    Null,
    Bool(bool),
    /// A number, which the library never looks into.
    Number(serde_json::Number),
    Text(String),
    List(Vec<Json>),
    Object(Vec<(String, Json)>),
}

/// What a [`Json`] stands for.
#[verifier::ext_equal]
pub enum JsonView {
    Null,
    Bool(bool),
    Number(serde_json::Number),
    Text(Seq<char>),
    List(Seq<JsonView>),
    Object(Seq<(Seq<char>, JsonView)>),
}

/// The members of an object, by their views.
pub open spec fn member_views(members: Seq<(String, Json)>) -> Seq<(Seq<char>, JsonView)> {
    members.map_values(|m: (String, Json)| (m.0@, m.1@))
}

/// The items of a list, by their views.
pub open spec fn item_views(items: Seq<Json>) -> Seq<JsonView> {
    items.map_values(|v: Json| v@)
}

impl View for Json {
    type V = JsonView;

    open spec fn view(&self) -> JsonView {
        self.tree()
    }
}

impl Json {
    /// The document that this value stands for.
    pub open spec fn tree(self) -> JsonView
        decreases self,
    {
        match self {
            Json::Null => JsonView::Null,
            Json::Bool(b) => JsonView::Bool(b),
            Json::Number(n) => JsonView::Number(n),
            Json::Text(s) => JsonView::Text(s@),
            Json::List(items) => JsonView::List(
                Seq::new(
                    items@.len(),
                    |i: int|
                        if 0 <= i < items@.len() {
                            items@[i].tree()
                        } else {
                            JsonView::Null
                        },
                ),
            ),
            Json::Object(members) => JsonView::Object(
                Seq::new(
                    members@.len(),
                    |i: int|
                        if 0 <= i < members@.len() {
                            (members@[i].0@, members@[i].1.tree())
                        } else {
                            (Seq::empty(), JsonView::Null)
                        },
                ),
            ),
        }
    }
}

impl Json {
    /// A string value.
    pub fn text(s: &str) -> (r: Json)
        ensures
            r@ == JsonView::Text(s@),
    {
        Json::Text(s.to_string())
    }

    /// A list of the given values.
    pub fn list(items: Vec<Json>) -> (r: Json)
        ensures
            r@ == JsonView::List(item_views(items@)),
    {
        let r = Json::List(items);
        assert(r@->List_0 =~= item_views(items@));
        r
    }
}

impl Json {
    /// A list of strings.
    pub fn text_list(items: &[&str]) -> (r: Json)
        ensures
            r@ == JsonView::List(items@.map_values(|s: &str| JsonView::Text(s@))),
    {
        let mut list: Vec<Json> = Vec::new();
        for i in 0..items.len()
            invariant
                list@.len() == i,
                forall|j: int| 0 <= j < i ==> (#[trigger] list@[j])@ == JsonView::Text(items@[j]@),
        {
            list.push(Json::text(items[i]));
        }
        assert(item_views(list@) =~= items@.map_values(|s: &str| JsonView::Text(s@)));
        Json::list(list)
    }
}

/// An object under construction.
pub struct Fields {
    members: Vec<(String, Json)>,
}

impl View for Fields {
    type V = Seq<(Seq<char>, JsonView)>;

    closed spec fn view(&self) -> Seq<(Seq<char>, JsonView)> {
        member_views(self.members@)
    }
}

impl Fields {
    /// No members yet.
    pub fn new() -> (r: Fields)
        ensures
            r@ == Seq::<(Seq<char>, JsonView)>::empty(),
    {
        let r = Fields { members: Vec::new() };
        assert(r@ =~= Seq::<(Seq<char>, JsonView)>::empty());
        r
    }

    /// The same members and one more behind them.
    pub fn with(self, name: &str, value: Json) -> (r: Fields)
        ensures
            r@ == self@.push((name@, value@)),
    {
        let mut members = self.members;
        members.push((name.to_string(), value));
        let r = Fields { members };
        assert(r@ =~= self@.push((name@, value@)));
        r
    }

    /// The same members and a string behind them.
    pub fn with_text(self, name: &str, value: &str) -> (r: Fields)
        ensures
            r@ == self@.push((name@, JsonView::Text(value@))),
    {
        self.with(name, Json::text(value))
    }

    /// The object made of these members.
    pub fn object(self) -> (r: Json)
        ensures
            r@ == JsonView::Object(self@),
    {
        let r = Json::Object(self.members);
        assert(r@->Object_0 =~= self@);
        r
    }
}

/// The value of the first member called `name`.
pub open spec fn found_member(members: Seq<(Seq<char>, JsonView)>, name: Seq<char>) -> Option<JsonView>
    decreases members.len(),
{
    if members.len() == 0 {
        None
    } else if members[0].0 == name {
        Some(members[0].1)
    } else {
        found_member(members.drop_first(), name)
    }
}

/// A member is found under its name, wherever it stands, if no member before it has that name.
pub proof fn lemma_found_member(members: Seq<(Seq<char>, JsonView)>, k: int)
    requires
        0 <= k < members.len(),
        forall|i: int| 0 <= i < k ==> (#[trigger] members[i]).0 != members[k].0,
    ensures
        found_member(members, members[k].0) == Some(members[k].1),
    decreases k,
{
    if k > 0 {
        let rest = members.drop_first();
        assert forall|i: int| 0 <= i < k - 1 implies (#[trigger] rest[i]).0 != rest[k - 1].0 by {
            assert(rest[i] == members[i + 1]);
        }
        lemma_found_member(rest, k - 1);
    }
}

impl JsonView {
    /// The member of an object called `name`. A value of another kind has no members.
    pub open spec fn member(self, name: Seq<char>) -> Option<JsonView> {
        match self {
            JsonView::Object(members) => found_member(members, name),
            _ => None,
        }
    }

    /// The characters of a string.
    pub open spec fn as_text(self) -> Option<Seq<char>> {
        match self {
            JsonView::Text(s) => Some(s),
            _ => None,
        }
    }

    /// The truth value of a boolean.
    pub open spec fn as_bool(self) -> Option<bool> {
        match self {
            JsonView::Bool(b) => Some(b),
            _ => None,
        }
    }

    /// The characters of the member called `name`, if it is there and is a string.
    pub open spec fn text_member(self, name: Seq<char>) -> Option<Seq<char>> {
        match self.member(name) {
            Some(v) => v.as_text(),
            None => None,
        }
    }

    /// The truth value of the member called `name`, if it is there and is a boolean.
    pub open spec fn bool_member(self, name: Seq<char>) -> Option<bool> {
        match self.member(name) {
            Some(v) => v.as_bool(),
            None => None,
        }
    }

    /// Whether this is an object of strings, each under a name of its own.
    pub open spec fn is_text_object(self) -> bool {
        self matches JsonView::Object(members) && distinct_names(members) && forall|i: int|
            0 <= i < members.len() ==> (#[trigger] members[i]).1 is Text
    }

    /// Whether the text of this document is read as this document again: in every object each member
    /// has a name of its own, each number is an unsigned integer, and no list or object stands inside
    /// more than `depth - 1` others.
    pub open spec fn is_readable(self, depth: nat) -> bool
        decreases depth,
    {
        match self {
            JsonView::Number(number) => is_integer(number),
            JsonView::List(items) => if depth == 0 {
                false
            } else {
                forall|i: int| 0 <= i < items.len() ==> (#[trigger] items[i]).is_readable((depth - 1) as nat)
            },
            JsonView::Object(members) => if depth == 0 {
                false
            } else {
                &&& distinct_names(members)
                &&& forall|i: int|
                    0 <= i < members.len() ==> (#[trigger] members[i]).1.is_readable((depth - 1) as nat)
            },
            _ => true,
        }
    }
}

/// Whether each member has a name of its own.
pub open spec fn distinct_names(members: Seq<(Seq<char>, JsonView)>) -> bool {
    forall|i: int, j: int| 0 <= i < j < members.len() ==> (#[trigger] members[i]).0 != (#[trigger] members[j]).0
}

/// Whether a number stands for an unsigned integer.
pub open spec fn is_integer(number: serde_json::Number) -> bool {
    exists|n: u64| number == #[trigger] json_number(n)
}

/// An object of strings is readable.
pub proof fn lemma_text_object_is_readable(v: JsonView, depth: nat)
    requires
        v.is_text_object(),
        depth >= 1,
    ensures
        v.is_readable(depth),
{
    reveal_with_fuel(JsonView::is_readable, 2);
}

/// Reading goes this many lists and objects deep.
pub const READABLE_DEPTH: u64 = 127;

impl Json {
    /// The member of an object called `name`.
    pub fn member(&self, name: &str) -> (r: Option<&Json>)
        ensures
            r is Some <==> self@.member(name@) is Some,
            r matches Some(v) ==> self@.member(name@) == Some(v@),
    {
        match self {
            Json::Object(members) => {
                let wanted = name.to_string();
                let ghost views = self@->Object_0;
                assert(views.skip(0) =~= views);
                for i in 0..members.len()
                    invariant
                        wanted@ == name@,
                        views == self@->Object_0,
                        self@ is Object,
                        views.len() == members@.len(),
                        forall|k: int|
                            0 <= k < members@.len() ==> #[trigger] views[k] == (members@[k].0@, members@[k].1@),
                        found_member(views, name@) == found_member(views.skip(i as int), name@),
                {
                    assert(views.skip(i as int)[0] == views[i as int]);
                    if members[i].0 == wanted {
                        return Some(&members[i].1);
                    }
                    assert(views.skip(i as int).drop_first() =~= views.skip(i + 1));
                }
                None
            },
            _ => None,
        }
    }

    /// The string under `name`, if there is one.
    pub fn text_member(&self, name: &str) -> (r: Option<String>)
        ensures
            r is Some <==> self@.text_member(name@) is Some,
            r matches Some(s) ==> self@.text_member(name@) == Some(s@),
    {
        match self.member(name) {
            Some(Json::Text(s)) => Some(s.clone()),
            _ => None,
        }
    }

    /// The boolean under `name`, if there is one.
    pub fn bool_member(&self, name: &str) -> (r: Option<bool>)
        ensures
            r == self@.bool_member(name@),
    {
        match self.member(name) {
            Some(Json::Bool(b)) => Some(*b),
            _ => None,
        }
    }
}

/// The number that stands for an unsigned integer.
pub uninterp spec fn json_number(n: u64) -> serde_json::Number;

/// Calls `serde_json::Number::from` on a `u64`.
#[verifier::external_body]
pub(crate) fn number(n: u64) -> (r: serde_json::Number)
    ensures
        r == json_number(n),
{
    serde_json::Number::from(n)
}

/// The `serde_json::Value` of a document.
pub uninterp spec fn json_value(v: JsonView) -> serde_json::Value;

/// The document that a `serde_json::Value` holds.
pub uninterp spec fn value_tree(value: serde_json::Value) -> JsonView;

/// Converts a document to a `serde_json::Value`, kind by kind and in the same order. Members of one
/// name become one, with the last value. Where each member has a name of its own, nothing is lost.
#[verifier::external_body]
fn value_of(v: &Json) -> (r: serde_json::Value)
    ensures
        r == json_value(v@),
        v@.is_readable(READABLE_DEPTH as nat) ==> value_tree(r) == v@,
{
    match v {
        Json::Null => serde_json::Value::Null,
        Json::Bool(b) => serde_json::Value::Bool(*b),
        Json::Number(n) => serde_json::Value::Number(n.clone()),
        Json::Text(s) => serde_json::Value::String(s.clone()),
        Json::List(items) => serde_json::Value::Array(items.iter().map(value_of).collect()),
        Json::Object(members) => serde_json::Value::Object(
            members.iter().map(|(name, value)| (name.clone(), value_of(value))).collect(),
        ),
    }
}

/// Converts a `serde_json::Value` to the document that it holds, kind by kind and in the same order.
#[verifier::external_body]
fn json_of(value: serde_json::Value) -> (r: Json)
    ensures
        r@ == value_tree(value),
{
    match value {
        serde_json::Value::Null => Json::Null,
        serde_json::Value::Bool(b) => Json::Bool(b),
        serde_json::Value::Number(n) => Json::Number(n),
        serde_json::Value::String(s) => Json::Text(s),
        serde_json::Value::Array(items) => Json::List(items.into_iter().map(json_of).collect()),
        serde_json::Value::Object(members) => Json::Object(
            members.into_iter().map(|(name, value)| (name, json_of(value))).collect(),
        ),
    }
}

impl Json {
    /// The document that a `serde_json::Value` holds.
    pub fn from_value(value: serde_json::Value) -> (r: Json)
        ensures
            r@ == value_tree(value),
    {
        json_of(value)
    }
}

/// The compact text of a `serde_json::Value`.
pub uninterp spec fn value_text(value: serde_json::Value) -> Seq<char>;

/// The text of a `serde_json::Value`, with line breaks and indentation.
pub uninterp spec fn value_pretty_text(value: serde_json::Value) -> Seq<char>;

/// The `serde_json::Value` that a text spells; `None` if it is not JSON.
pub uninterp spec fn parsed_value(text: Seq<char>) -> Option<serde_json::Value>;

/// Whether a string is written as it is: nothing in it needs an escape.
pub open spec fn is_unescaped(s: Seq<char>) -> bool {
    forall|i: int| 0 <= i < s.len() ==> ' ' <= (#[trigger] s[i]) && s[i] != '"' && s[i] != '\\'
}

/// The text of a string.
pub open spec fn quoted(s: Seq<char>) -> Seq<char> {
    if is_unescaped(s) {
        seq!['"'] + s + seq!['"']
    } else {
        json_text(JsonView::Text(s))
    }
}

/// The text of members that are strings, with commas between them.
pub open spec fn members_text(members: Seq<(Seq<char>, JsonView)>) -> Seq<char>
    decreases members.len(),
{
    if members.len() == 0 {
        Seq::empty()
    } else {
        let last = quoted(members.last().0) + seq![':'] + quoted(members.last().1->Text_0);
        if members.len() == 1 {
            last
        } else {
            members_text(members.drop_last()) + seq![','] + last
        }
    }
}

/// Calls `serde_json::to_string`, which does not fail on a value. What it wrote of a document without
/// fractions and without two members of one name, reading gives back. An object of strings is written
/// member by member, in braces and without spaces.
#[verifier::external_body]
fn compact_text(value: &serde_json::Value) -> (r: String)
    ensures
        r@ == value_text(*value),
        value_tree(*value).is_readable(READABLE_DEPTH as nat) ==> parsed_value(r@) == Some(*value),
        value_tree(*value).is_text_object() ==> r@ == seq!['{'] + members_text(value_tree(*value)->Object_0)
            + seq!['}'],
{
    serde_json::to_string(value).expect("a value has a text")
}

/// Calls `serde_json::to_string_pretty`, which does not fail on a value. What it wrote of a document
/// without fractions and without two members of one name, reading gives back.
#[verifier::external_body]
fn pretty_text(value: &serde_json::Value) -> (r: String)
    ensures
        r@ == value_pretty_text(*value),
        value_tree(*value).is_readable(READABLE_DEPTH as nat) ==> parsed_value(r@) == Some(*value),
{
    serde_json::to_string_pretty(value).expect("a value has a text")
}

/// Calls `serde_json::from_str` for a `serde_json::Value`.
#[verifier::external_body]
fn value_in(text: &str) -> (r: Option<serde_json::Value>)
    ensures
        r == parsed_value(text@),
{
    serde_json::from_str(text).ok()
}

/// The compact text of a document.
pub open spec fn json_text(v: JsonView) -> Seq<char> {
    value_text(json_value(v))
}

/// The text of a document, with line breaks and indentation.
pub open spec fn json_pretty_text(v: JsonView) -> Seq<char> {
    value_pretty_text(json_value(v))
}

/// The document that a text spells; `None` if it is not JSON.
pub open spec fn json_document(text: Seq<char>) -> Option<JsonView> {
    match parsed_value(text) {
        Some(value) => Some(value_tree(value)),
        None => None,
    }
}

/// Whether two strings take equally many bytes in a text: they are one and the same, or are as long as
/// each other and written as they are, in ASCII.
pub open spec fn equally_wide(a: Seq<char>, b: Seq<char>) -> bool {
    ||| a == b
    ||| {
        &&& a.len() == b.len()
        &&& is_unescaped(a) && is_ascii_chars(a)
        &&& is_unescaped(b) && is_ascii_chars(b)
    }
}

/// The bytes of two texts, one behind the other.
pub proof fn lemma_encode_concat(a: Seq<char>, b: Seq<char>)
    ensures
        encode_utf8(a + b) == encode_utf8(a) + encode_utf8(b),
    decreases a.len(),
{
    if a.len() == 0 {
        assert(a + b =~= b);
        assert(encode_utf8(a) + encode_utf8(b) =~= encode_utf8(b));
    } else {
        assert((a + b).drop_first() =~= a.drop_first() + b);
        lemma_encode_concat(a.drop_first(), b);
        assert(encode_utf8(a + b) =~= encode_utf8(a) + encode_utf8(b));
    }
}

proof fn lemma_quoted_width(a: Seq<char>, b: Seq<char>)
    requires
        equally_wide(a, b),
    ensures
        encode_utf8(quoted(a)).len() == encode_utf8(quoted(b)).len(),
{
    if a != b {
        assert(is_ascii_chars(quoted(a)));
        assert(is_ascii_chars(quoted(b)));
        is_ascii_chars_encode_utf8(quoted(a));
        is_ascii_chars_encode_utf8(quoted(b));
    }
}

/// Members under the same names, with equally wide strings, take equally many bytes.
pub proof fn lemma_members_width(a: Seq<(Seq<char>, JsonView)>, b: Seq<(Seq<char>, JsonView)>)
    requires
        a.len() == b.len(),
        forall|i: int|
            0 <= i < a.len() ==> (#[trigger] a[i]).0 == (#[trigger] b[i]).0 && equally_wide(
                a[i].1->Text_0,
                b[i].1->Text_0,
            ),
    ensures
        encode_utf8(members_text(a)).len() == encode_utf8(members_text(b)).len(),
    decreases a.len(),
{
    if a.len() > 0 {
        let n = a.len() - 1;
        assert(a[n].0 == b[n].0);
        let x = quoted(a[n].1->Text_0);
        let y = quoted(b[n].1->Text_0);
        let name = quoted(a[n].0) + seq![':'];
        lemma_quoted_width(a[n].1->Text_0, b[n].1->Text_0);
        lemma_encode_concat(name, x);
        lemma_encode_concat(name, y);
        if n > 0 {
            assert forall|i: int| 0 <= i < n implies (#[trigger] a.drop_last()[i]).0 == (#[trigger] b.drop_last()[i]).0
                && equally_wide(a.drop_last()[i].1->Text_0, b.drop_last()[i].1->Text_0) by {
                assert(a[i].0 == b[i].0);
            }
            lemma_members_width(a.drop_last(), b.drop_last());
            let before_a = members_text(a.drop_last());
            let before_b = members_text(b.drop_last());
            lemma_encode_concat(before_a, seq![',']);
            lemma_encode_concat(before_b, seq![',']);
            lemma_encode_concat(before_a + seq![','], name + x);
            lemma_encode_concat(before_b + seq![','], name + y);
        }
    }
}

/// Whether `text` is the compact text of a document, and is read as that document.
pub open spec fn spells(text: Seq<char>, v: JsonView) -> bool {
    text == json_text(v) && json_document(text) == Some(v)
}

/// Whether `text` is the text of a document with line breaks and indentation, and is read as that
/// document.
pub open spec fn spells_out(text: Seq<char>, v: JsonView) -> bool {
    text == json_pretty_text(v) && json_document(text) == Some(v)
}

/// The compact text of a document.
pub fn render(v: &Json) -> (r: String)
    ensures
        r@ == json_text(v@),
        v@.is_readable(READABLE_DEPTH as nat) ==> spells(r@, v@),
        v@.is_text_object() ==> r@ == seq!['{'] + members_text(v@->Object_0) + seq!['}'],
{
    proof {
        if v@.is_text_object() {
            lemma_text_object_is_readable(v@, READABLE_DEPTH as nat);
        }
    }
    compact_text(&value_of(v))
}

/// The text of a document, with line breaks and indentation.
pub fn render_pretty(v: &Json) -> (r: String)
    ensures
        r@ == json_pretty_text(v@),
        v@.is_readable(READABLE_DEPTH as nat) ==> spells_out(r@, v@),
{
    pretty_text(&value_of(v))
}

/// The document that a text spells.
pub fn parse(text: &str) -> (r: Option<Json>)
    ensures
        r is Some <==> json_document(text@) is Some,
        r matches Some(v) ==> json_document(text@) == Some(v@),
{
    match value_in(text) {
        Some(value) => Some(Json::from_value(value)),
        None => None,
    }
}

/// A member that is found is the first of its name, and one that is not found is not there.
pub proof fn law_first_of_its_name_is_found(members: Seq<(Seq<char>, JsonView)>, name: Seq<char>)
    ensures
        JsonView::Object(members).member(name) matches Some(v) ==> exists|i: int|
            0 <= i < members.len() && (#[trigger] members[i]).0 == name && members[i].1 == v && forall|j: int|
                0 <= j < i ==> (#[trigger] members[j]).0 != name,
        JsonView::Object(members).member(name) is None ==> forall|i: int|
            0 <= i < members.len() ==> (#[trigger] members[i]).0 != name,
    decreases members.len(),
{
    if members.len() > 0 {
        if members[0].0 == name {
            assert(members[0].1 == found_member(members, name)->0);
        } else {
            let rest = members.drop_first();
            law_first_of_its_name_is_found(rest, name);
            if found_member(members, name) is Some {
                let i = choose|i: int|
                    0 <= i < rest.len() && (#[trigger] rest[i]).0 == name && rest[i].1 == found_member(rest, name)->0
                        && forall|j: int| 0 <= j < i ==> (#[trigger] rest[j]).0 != name;
                assert(members[i + 1] == rest[i]);
                assert forall|j: int| 0 <= j < i + 1 implies (#[trigger] members[j]).0 != name by {
                    if j > 0 {
                        assert(members[j] == rest[j - 1]);
                    }
                }
            } else {
                assert forall|i: int| 0 <= i < members.len() implies (#[trigger] members[i]).0 != name by {
                    if i > 0 {
                        assert(members[i] == rest[i - 1]);
                    }
                }
            }
        }
    }
}

/// Only an object has members, and a member is a string or a boolean only if it is one.
pub proof fn law_members_keep_their_kind(v: JsonView, name: Seq<char>)
    ensures
        !(v is Object) ==> v.member(name) is None,
        v.member(name) matches Some(JsonView::Text(s)) ==> v.text_member(name) == Some(s),
        v.text_member(name) matches Some(s) ==> v.member(name) == Some(JsonView::Text(s)),
        v.member(name) matches Some(JsonView::Bool(b)) ==> v.bool_member(name) == Some(b),
        v.bool_member(name) matches Some(b) ==> v.member(name) == Some(JsonView::Bool(b)),
{
}

/// A document stands for what it is made of: the same kind, the same characters, and as many parts in
/// the same order.
pub proof fn law_document_stands_for_its_parts(text: String, flag: bool, items: Vec<Json>, members: Vec<(String, Json)>)
    ensures
        Json::Null@ == JsonView::Null,
        Json::Bool(flag)@ == JsonView::Bool(flag),
        Json::Text(text)@ == JsonView::Text(text@),
        Json::List(items)@ matches JsonView::List(views) && views.len() == items@.len() && forall|i: int|
            0 <= i < items@.len() ==> #[trigger] views[i] == items@[i]@,
        Json::Object(members)@ matches JsonView::Object(views) && views.len() == members@.len() && forall|i: int|
            0 <= i < members@.len() ==> #[trigger] views[i] == (members@[i].0@, members@[i].1@),
        item_views(items@).len() == items@.len(),
        forall|i: int| 0 <= i < items@.len() ==> #[trigger] item_views(items@)[i] == items@[i]@,
{
    reveal_with_fuel(Json::tree, 2);
}

/// A text that spells a document is read as that document, so two documents with one text are one, and
/// the text is the one without line breaks, or the one with them.
pub proof fn law_spelled_document_is_read(text: Seq<char>, v: JsonView, w: JsonView)
    ensures
        spells(text, v) ==> text == value_text(json_value(v)),
        spells_out(text, v) ==> text == value_pretty_text(json_value(v)),
        spells(text, v) || spells_out(text, v) ==> (parsed_value(text) matches Some(value) && value_tree(value) == v),
        (spells(text, v) || spells_out(text, v)) && (spells(text, w) || spells_out(text, w)) ==> v == w,
{
}

/// Documents of strings, booleans and unsigned integers, in lists and in objects without two members of
/// one name, can be read.
pub proof fn law_plain_documents_are_readable(
    s: Seq<char>,
    flag: bool,
    n: u64,
    items: Seq<JsonView>,
    members: Seq<(Seq<char>, JsonView)>,
    depth: nat,
)
    requires
        forall|i: int| 0 <= i < items.len() ==> (#[trigger] items[i]).is_readable(depth),
        forall|i: int| 0 <= i < members.len() ==> (#[trigger] members[i]).1.is_readable(depth),
        forall|i: int, j: int| 0 <= i < j < members.len() ==> (#[trigger] members[i]).0 != (#[trigger] members[j]).0,
    ensures
        JsonView::Null.is_readable(depth),
        JsonView::Bool(flag).is_readable(depth),
        JsonView::Text(s).is_readable(depth),
        JsonView::Number(json_number(n)).is_readable(depth),
        JsonView::List(items).is_readable(depth + 1),
        JsonView::Object(members).is_readable(depth + 1),
{
    assert(is_integer(json_number(n)));
}

} // verus!

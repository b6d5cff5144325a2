//! JSON documents: the tree the renders are written in and the imports are
//! read from.
//!
//! A [`Json`] is a plain value. Its meaning is a [`JsonView`], in which an
//! object is the map from its member names to their values: member order
//! carries no information. The text form is `serde_json`'s.
use vstd::prelude::*;

use crate::text::{
    comes_before, lemma_before_is_transitive, lemma_not_before_itself, same, Text,
};

verus! {

/// A JSON document.
#[derive(Debug, PartialEq)]
pub enum Json {
    Null,
    Bool(bool),
    /// A number that is an unsigned integer.
    Unsigned(u64),
    /// Any other number, as it was read.
    Number(OtherNumber),
    /// The quotient of two integers, written out as a decimal fraction where
    /// the document leaves the service.
    Ratio(u64, u64),
    Text(String),
    Array(Vec<Json>),
    /// Members by name; of two members with one name the later one counts.
    Object(Vec<(String, Json)>),
}

/// A number that is not an unsigned integer. Only reading a text makes one.
#[derive(Debug, PartialEq)]
pub struct OtherNumber {
    number: serde_json::Number,
}

impl OtherNumber {
    /// The number is no unsigned integer.
    #[verifier::type_invariant]
    spec fn is_other(&self) -> bool {
        number_u64(self.number) is None
    }

    /// The number as it was read.
    pub closed spec fn spec_number(&self) -> serde_json::Number {
        self.number
    }

    /// The number as it was read.
    pub fn number(&self) -> (n: &serde_json::Number)
        ensures
            *n == self.spec_number(),
    {
        &self.number
    }
}

/// What a JSON document says.
pub enum JsonView {
    Null,
    Bool(bool),
    Unsigned(u64),
    Number(OtherNumber),
    Ratio(u64, u64),
    Text(Seq<char>),
    Array(Seq<JsonView>),
    Object(Map<Seq<char>, JsonView>),
}

impl Json {
    /// What the document says.
    pub open spec fn view(&self) -> JsonView
        decreases self,
    {
        match self {
            Json::Null => JsonView::Null,
            Json::Bool(b) => JsonView::Bool(*b),
            Json::Unsigned(n) => JsonView::Unsigned(*n),
            Json::Number(n) => JsonView::Number(*n),
            Json::Ratio(a, b) => JsonView::Ratio(*a, *b),
            Json::Text(s) => JsonView::Text(s@),
            Json::Array(items) => JsonView::Array(
                Seq::new(
                    items@.len(),
                    |i: int|
                        if 0 <= i < items@.len() {
                            items@[i].view()
                        } else {
                            JsonView::Null
                        },
                ),
            ),
            Json::Object(members) => JsonView::Object(members_view(members@)),
        }
    }

    /// Whether the document holds no quotient, so that its text form is
    /// `serde_json`'s alone.
    pub open spec fn plain(&self) -> bool
        decreases self,
    {
        match self {
            Json::Ratio(..) => false,
            Json::Array(items) => forall|i: int|
                0 <= i < items@.len() ==> (#[trigger] items@[i]).plain(),
            Json::Object(members) => forall|i: int|
                0 <= i < members@.len() ==> (#[trigger] members@[i]).1.plain(),
            _ => true,
        }
    }
}

/// Whether the members stand in the order of their names, each name once.
pub open spec fn names_rise(members: Seq<(String, Json)>) -> bool {
    forall|i: int, j: int|
        0 <= i < j < members.len() ==> comes_before(
            (#[trigger] members[i]).0@,
            (#[trigger] members[j]).0@,
        )
}

impl Json {
    /// Whether every object of the document has its members in the order of
    /// their names, each name once.
    pub open spec fn sorted(&self) -> bool
        decreases self,
    {
        match self {
            Json::Array(items) => forall|i: int|
                0 <= i < items@.len() ==> (#[trigger] items@[i]).sorted(),
            Json::Object(members) => names_rise(members@) && forall|i: int|
                0 <= i < members@.len() ==> (#[trigger] members@[i]).1.sorted(),
            _ => true,
        }
    }
}

/// The members of an object by name, the later of two with one name.
pub open spec fn members_view(members: Seq<(String, Json)>) -> Map<Seq<char>, JsonView>
    decreases members,
{
    if members.len() == 0 {
        Map::empty()
    } else {
        members_view(members.drop_last()).insert(members.last().0@, members.last().1.view())
    }
}

/// What each of a list of documents says.
pub open spec fn views(items: Seq<Json>) -> Seq<JsonView> {
    items.map_values(|j: Json| j.view())
}

/// An array says what its items say, in order.
pub broadcast proof fn lemma_array_view(items: Vec<Json>)
    ensures
        #[trigger] Json::Array(items).view() == JsonView::Array(views(items@)),
{
    let v = Json::Array(items).view();
    assert(v->Array_0 =~= views(items@));
}

/// What an optional document says.
pub open spec fn opt_view(j: Option<&Json>) -> Option<JsonView> {
    match j {
        Some(j) => Some(j.view()),
        None => None,
    }
}

// ---------------------------------------------------------------------------
// Reading
// ---------------------------------------------------------------------------

impl JsonView {
    /// The member of that name, where the document is an object that has one.
    pub open spec fn member(self, key: Text) -> Option<JsonView> {
        match self {
            JsonView::Object(m) => if m.contains_key(key) {
                Some(m[key])
            } else {
                None
            },
            _ => None,
        }
    }

    /// The text, where the document is one.
    pub open spec fn as_text(self) -> Option<Text> {
        match self {
            JsonView::Text(s) => Some(s),
            _ => None,
        }
    }

    /// The items, where the document is an array.
    pub open spec fn as_items(self) -> Option<Seq<JsonView>> {
        match self {
            JsonView::Array(items) => Some(items),
            _ => None,
        }
    }

    /// The text of the member of that name.
    pub open spec fn text_at(self, key: Text) -> Option<Text> {
        match self.member(key) {
            Some(v) => v.as_text(),
            None => None,
        }
    }

    /// The items of the member of that name.
    pub open spec fn items_at(self, key: Text) -> Option<Seq<JsonView>> {
        match self.member(key) {
            Some(v) => v.as_items(),
            None => None,
        }
    }
}

impl Json {
    /// The member of that name, where the document is an object that has one.
    pub fn get(&self, key: &str) -> (r: Option<&Json>)
        ensures
            opt_view(r) == self.view().member(key@),
            r matches Some(j) ==> (self.plain() ==> j.plain()) && (self.sorted() ==> j.sorted()),
    {
        match self {
            Json::Object(members) => {
                let mut i: usize = members.len();
                assert(members@.take(i as int) =~= members@);
                while i > 0
                    invariant
                        i <= members@.len(),
                        *self == Json::Object(*members),
                        self.view().member(key@) == JsonView::Object(
                            members_view(members@.take(i as int)),
                        ).member(key@),
                    decreases i,
                {
                    let ghost prefix = members@.take(i as int);
                    assert(prefix.drop_last() =~= members@.take(i - 1));
                    assert(prefix.last() == members@[i - 1]);
                    if same(members[i - 1].0.as_str(), key) {
                        return Some(&members[i - 1].1);
                    }
                    i = i - 1;
                }
                None
            },
            _ => None,
        }
    }

    /// The text, where the document is one.
    pub fn as_str(&self) -> (r: Option<&str>)
        ensures
            match r {
                Some(s) => self.view().as_text() == Some(s@),
                None => self.view().as_text() is None,
            },
    {
        match self {
            Json::Text(s) => Some(s.as_str()),
            _ => None,
        }
    }

    /// The items, where the document is an array.
    pub fn as_array(&self) -> (r: Option<&Vec<Json>>)
        ensures
            match r {
                Some(items) => self.view().as_items() == Some(views(items@)) && *self == Json::Array(
                    *items,
                ),
                None => self.view().as_items() is None,
            },
    {
        broadcast use lemma_array_view;

        match self {
            Json::Array(items) => Some(items),
            _ => None,
        }
    }

    /// Whether the document is an object.
    pub fn is_object(&self) -> (r: bool)
        ensures
            r == (self.view() is Object),
    {
        match self {
            Json::Object(_) => true,
            _ => false,
        }
    }

    /// The unsigned integer, where the document is one.
    pub fn as_u64(&self) -> (r: Option<u64>)
        ensures
            r == (match self.view() {
                JsonView::Unsigned(n) => Some(n),
                _ => None::<u64>,
            }),
    {
        match self {
            Json::Unsigned(n) => Some(*n),
            _ => None,
        }
    }

    /// The text of the member of that name.
    pub fn str_at(&self, key: &str) -> (r: Option<&str>)
        ensures
            match r {
                Some(s) => self.view().text_at(key@) == Some(s@),
                None => self.view().text_at(key@) is None,
            },
    {
        match self.get(key) {
            Some(v) => v.as_str(),
            None => None,
        }
    }

    /// The items of the member of that name.
    pub fn array_at(&self, key: &str) -> (r: Option<&Vec<Json>>)
        ensures
            match r {
                Some(items) => self.view().items_at(key@) == Some(views(items@)) && (self.plain() ==> (
                forall|i: int| 0 <= i < items@.len() ==> (#[trigger] items@[i]).plain())),
                None => self.view().items_at(key@) is None,
            },
    {
        match self.get(key) {
            Some(v) => v.as_array(),
            None => None,
        }
    }
}

// ---------------------------------------------------------------------------
// Copying
// ---------------------------------------------------------------------------

/// `serde_json::Number`'s `Clone`: the same number.
#[verifier::external_body]
fn copy_number(number: &serde_json::Number) -> (r: serde_json::Number)
    ensures
        r == *number,
{
    number.clone()
}

impl Json {
    /// A copy of the document.
    pub fn copy(&self) -> (r: Json)
        ensures
            r.view() == self.view(),
            self.plain() ==> r.plain(),
        decreases self,
    {
        broadcast use lemma_array_view;

        match self {
            Json::Null => Json::Null,
            Json::Bool(b) => Json::Bool(*b),
            Json::Unsigned(n) => Json::Unsigned(*n),
            Json::Number(n) => {
                proof {
                    use_type_invariant(n);
                }
                Json::Number(OtherNumber { number: copy_number(&n.number) })
            },
            Json::Ratio(a, b) => Json::Ratio(*a, *b),
            Json::Text(s) => Json::Text(s.clone()),
            Json::Array(items) => {
                let n: usize = items.len();
                let mut copy: Vec<Json> = Vec::new();
                let mut i: usize = 0;
                while i < n
                    invariant
                        i <= n == items@.len(),
                        *self == Json::Array(*items),
                        copy@.len() == i,
                        forall|k: int|
                            0 <= k < i ==> (#[trigger] copy@[k]).view() == items@[k].view() && (
                            items@[k].plain() ==> copy@[k].plain()),
                    decreases n - i,
                {
                    assert(decreases_to!(self => self->Array_0@[i as int]));
                    copy.push(items[i].copy());
                    i = i + 1;
                }
                assert(views(copy@) =~= views(items@));
                Json::Array(copy)
            },
            Json::Object(members) => {
                let n: usize = members.len();
                let mut copy: Vec<(String, Json)> = Vec::new();
                let mut i: usize = 0;
                assert(members@.take(0) =~= Seq::empty());
                while i < n
                    invariant
                        i <= n == members@.len(),
                        *self == Json::Object(*members),
                        copy@.len() == i,
                        members_view(copy@) == members_view(members@.take(i as int)),
                        forall|k: int|
                            0 <= k < i ==> (members@[k].1.plain() ==> (
                            #[trigger] copy@[k]).1.plain()),
                    decreases n - i,
                {
                    let ghost before = copy@;
                    assert(decreases_to!(self => self->Object_0@[i as int].1));
                    let member = (members[i].0.clone(), members[i].1.copy());
                    copy.push(member);
                    assert(copy@.drop_last() =~= before);
                    assert(members@.take(i + 1).drop_last() =~= members@.take(i as int));
                    i = i + 1;
                }
                assert(members@.take(n as int) =~= members@);
                Json::Object(copy)
            },
        }
    }
}

// ---------------------------------------------------------------------------
// Building
// ---------------------------------------------------------------------------

/// A text document.
pub fn text(s: &str) -> (j: Json)
    ensures
        j.view() == JsonView::Text(s@),
        j.plain(),
{
    Json::Text(s.to_owned())
}

/// A text document where there is a text, `null` where there is none.
pub fn text_or_null(s: &Option<String>) -> (j: Json)
    ensures
        j.view() == (match s {
            Some(s) => JsonView::Text(s@),
            None => JsonView::Null,
        }),
        j.plain(),
{
    match s {
        Some(s) => text(s.as_str()),
        None => Json::Null,
    }
}

/// Whether every member's value is plain.
pub open spec fn plain_members(members: Seq<(String, Json)>) -> bool {
    forall|i: int| 0 <= i < members.len() ==> (#[trigger] members[i]).1.plain()
}

/// Sets the member of that name.
pub fn put(members: &mut Vec<(String, Json)>, key: &str, value: Json)
    ensures
        members_view(final(members)@) == members_view(old(members)@).insert(key@, value.view()),
        plain_members(old(members)@) && value.plain() ==> plain_members(final(members)@),
{
    let ghost before = members@;
    members.push((key.to_owned(), value));
    assert(members@.drop_last() =~= before);
}

/// Sets the member of that name to a text.
pub fn put_text(members: &mut Vec<(String, Json)>, key: &str, value: &str)
    ensures
        members_view(final(members)@) == members_view(old(members)@).insert(
            key@,
            JsonView::Text(value@),
        ),
        plain_members(old(members)@) ==> plain_members(final(members)@),
{
    put(members, key, text(value));
}

// ---------------------------------------------------------------------------
// The text form
// ---------------------------------------------------------------------------

/// `serde_json`'s numbers.
#[verifier::external_type_specification]
#[verifier::external_body]
pub struct ExNumber(serde_json::Number);

/// `serde_json`'s document tree.
#[verifier::external_type_specification]
#[verifier::external_body]
pub struct ExValue(serde_json::Value);

/// `serde_json`'s object members.
#[verifier::external_type_specification]
#[verifier::external_body]
#[verifier::reject_recursive_types(K)]
#[verifier::reject_recursive_types(V)]
pub struct ExMembers<K, V>(serde_json::Map<K, V>);

/// The unsigned integer that a number is, where it is one.
pub uninterp spec fn number_u64(number: serde_json::Number) -> Option<u64>;

/// What a `serde_json` tree says.
pub uninterp spec fn value_json(value: serde_json::Value) -> JsonView;

/// What the members of a `serde_json` object say, by name.
pub uninterp spec fn map_json(map: serde_json::Map<String, serde_json::Value>) -> Map<
    Seq<char>,
    JsonView,
>;

/// The compact text of a document.
pub uninterp spec fn compact_json(json: JsonView) -> Seq<char>;

/// The document that a text denotes, or the reader's complaint.
pub uninterp spec fn read_json(text: Seq<char>) -> Result<JsonView, Seq<char>>;

/// Whether the text denotes the document.
pub open spec fn reads_as(text: Text, json: JsonView) -> bool {
    read_json(text) matches Ok(v) && v == json
}

/// The member name that `serde_json`'s reader keeps to itself: an object that
/// opens with it reads as what the member's text denotes.
pub open spec fn reserved_name() -> Text {
    "$serde_json::private::RawValue"@
}

/// Whether the document is one object of texts, integers, booleans and nulls
/// that leaves the reserved name alone.
pub open spec fn is_flat(json: JsonView) -> bool {
    match json {
        JsonView::Object(m) => !m.contains_key(reserved_name()) && forall|k: Text| #[trigger]
            m.contains_key(k) ==> (m[k] is Null || m[k] is Bool || m[k] is Unsigned || m[k] is Text),
        _ => false,
    }
}

/// What a number says.
spec fn number_json(number: serde_json::Number) -> JsonView {
    match number_u64(number) {
        Some(n) => JsonView::Unsigned(n),
        None => JsonView::Number(OtherNumber { number }),
    }
}

/// What the trees of a list say.
spec fn values_json(values: Seq<serde_json::Value>) -> Seq<JsonView> {
    values.map_values(|v: serde_json::Value| value_json(v))
}

/// `Number::as_u64`: the unsigned integer that the number is, where it is one.
pub assume_specification[ serde_json::Number::as_u64 ](number: &serde_json::Number) -> (r: Option<
    u64,
>)
    ensures
        r == number_u64(*number),
;

/// `Number::from` of an unsigned integer: that integer.
#[verifier::external_body]
fn number_of(n: u64) -> (r: serde_json::Number)
    ensures
        number_u64(r) == Some(n),
{
    serde_json::Number::from(n)
}

/// `Map::new`: no member.
#[verifier::external_body]
fn no_members() -> (map: serde_json::Map<String, serde_json::Value>)
    ensures
        map_json(map) == members_view(Seq::empty()),
{
    serde_json::Map::new()
}

/// `Map::insert`: sets the member of that name.
#[verifier::external_body]
fn set_member(
    map: &mut serde_json::Map<String, serde_json::Value>,
    name: String,
    value: serde_json::Value,
)
    ensures
        map_json(*final(map)) == map_json(*old(map)).insert(name@, value_json(value)),
{
    map.insert(name, value);
}

/// `Map::iter`, collected: every member once, with its name, in the order of
/// the names.
#[verifier::external_body]
fn list_members(map: &serde_json::Map<String, serde_json::Value>) -> (r: Vec<
    (&String, &serde_json::Value),
>)
    ensures
        forall|i: int|
            0 <= i < r@.len() ==> map_json(*map).contains_key((#[trigger] r@[i]).0@) && map_json(
                *map,
            )[r@[i].0@] == value_json(*r@[i].1),
        forall|name: Text|
            map_json(*map).contains_key(name) ==> exists|i: int|
                0 <= i < r@.len() && (#[trigger] r@[i]).0@ == name,
        forall|i: int, j: int|
            0 <= i < j < r@.len() ==> comes_before((#[trigger] r@[i]).0@, (#[trigger] r@[j]).0@),
{
    map.iter().collect()
}

/// A node to build a `serde_json` tree of.
enum Node {
    Null,
    Bool(bool),
    Number(serde_json::Number),
    Text(String),
    Array(Vec<serde_json::Value>),
    Object(serde_json::Map<String, serde_json::Value>),
}

/// What a node says.
spec fn node_json(node: Node) -> JsonView {
    match node {
        Node::Null => JsonView::Null,
        Node::Bool(b) => JsonView::Bool(b),
        Node::Number(n) => number_json(n),
        Node::Text(s) => JsonView::Text(s@),
        Node::Array(items) => JsonView::Array(values_json(items@)),
        Node::Object(map) => JsonView::Object(map_json(map)),
    }
}

/// The variants of `serde_json::Value`, built: the tree says what the node
/// says.
#[verifier::external_body]
fn build(node: Node) -> (value: serde_json::Value)
    ensures
        value_json(value) == node_json(node),
{
    match node {
        Node::Null => serde_json::Value::Null,
        Node::Bool(b) => serde_json::Value::Bool(b),
        Node::Number(n) => serde_json::Value::Number(n),
        Node::Text(s) => serde_json::Value::String(s),
        Node::Array(items) => serde_json::Value::Array(items),
        Node::Object(map) => serde_json::Value::Object(map),
    }
}

/// A node of a `serde_json` tree.
enum NodeRef<'a> {
    Null,
    Bool(bool),
    Number(&'a serde_json::Number),
    Text(&'a String),
    Array(&'a Vec<serde_json::Value>),
    Object(&'a serde_json::Map<String, serde_json::Value>),
}

/// What a node says.
spec fn node_ref_json(node: NodeRef) -> JsonView {
    match node {
        NodeRef::Null => JsonView::Null,
        NodeRef::Bool(b) => JsonView::Bool(b),
        NodeRef::Number(n) => number_json(*n),
        NodeRef::Text(s) => JsonView::Text(s@),
        NodeRef::Array(items) => JsonView::Array(values_json(items@)),
        NodeRef::Object(map) => JsonView::Object(map_json(*map)),
    }
}

/// The variants of `serde_json::Value`, told apart: the node says what the
/// tree says.
#[verifier::external_body]
fn open(value: &serde_json::Value) -> (node: NodeRef<'_>)
    ensures
        node_ref_json(node) == value_json(*value),
{
    match value {
        serde_json::Value::Null => NodeRef::Null,
        serde_json::Value::Bool(b) => NodeRef::Bool(*b),
        serde_json::Value::Number(n) => NodeRef::Number(n),
        serde_json::Value::String(s) => NodeRef::Text(s),
        serde_json::Value::Array(items) => NodeRef::Array(items),
        serde_json::Value::Object(map) => NodeRef::Object(map),
    }
}

/// The tree that says what the document says.
fn value_of(json: &Json) -> (value: serde_json::Value)
    requires
        json.plain(),
    ensures
        value_json(value) == json.view(),
    decreases json,
{
    broadcast use lemma_array_view;

    match json {
        Json::Bool(b) => build(Node::Bool(*b)),
        Json::Unsigned(n) => build(Node::Number(number_of(*n))),
        Json::Number(n) => {
            proof {
                use_type_invariant(n);
            }
            build(Node::Number(copy_number(&n.number)))
        },
        Json::Text(s) => build(Node::Text(s.clone())),
        Json::Array(items) => {
            let n: usize = items.len();
            let mut values: Vec<serde_json::Value> = Vec::new();
            let mut i: usize = 0;
            while i < n
                invariant
                    i <= n == items@.len(),
                    *json == Json::Array(*items),
                    json.plain(),
                    values@.len() == i,
                    forall|k: int|
                        0 <= k < i ==> value_json(#[trigger] values@[k]) == items@[k].view(),
                decreases n - i,
            {
                assert(decreases_to!(json => json->Array_0@[i as int]));
                values.push(value_of(&items[i]));
                i = i + 1;
            }
            assert(values_json(values@) =~= views(items@));
            build(Node::Array(values))
        },
        Json::Object(members) => {
            let n: usize = members.len();
            let mut map = no_members();
            let mut i: usize = 0;
            assert(members@.take(0) =~= Seq::empty());
            while i < n
                invariant
                    i <= n == members@.len(),
                    *json == Json::Object(*members),
                    json.plain(),
                    map_json(map) == members_view(members@.take(i as int)),
                decreases n - i,
            {
                assert(decreases_to!(json => json->Object_0@[i as int].1));
                assert(members@.take(i + 1).drop_last() =~= members@.take(i as int));
                set_member(&mut map, members[i].0.clone(), value_of(&members[i].1));
                i = i + 1;
            }
            assert(members@.take(n as int) =~= members@);
            build(Node::Object(map))
        },
        _ => build(Node::Null),
    }
}

/// Members that agree with a map and name all of it say what the map says.
proof fn lemma_members_say(members: Seq<(String, Json)>, m: Map<Text, JsonView>)
    requires
        forall|i: int|
            0 <= i < members.len() ==> m.contains_key((#[trigger] members[i]).0@)
                && m[members[i].0@] == members[i].1.view(),
    ensures
        forall|name: Text| #[trigger]
            members_view(members).contains_key(name) ==> m.contains_key(name) && m[name]
                == members_view(members)[name],
        forall|i: int|
            0 <= i < members.len() ==> members_view(members).contains_key(
                (#[trigger] members[i]).0@,
            ),
    decreases members.len(),
{
    if members.len() > 0 {
        let init = members.drop_last();
        assert forall|i: int| 0 <= i < init.len() implies m.contains_key((#[trigger] init[i]).0@)
            && m[init[i].0@] == init[i].1.view() by {
            assert(init[i] == members[i]);
        }
        lemma_members_say(init, m);
        let last = members[members.len() - 1];
        assert(m.contains_key(last.0@) && m[last.0@] == last.1.view());
        assert forall|name: Text| #[trigger]
            members_view(members).contains_key(name) implies m.contains_key(name) && m[name]
            == members_view(members)[name] by {
            if name != last.0@ {
                assert(members_view(init).contains_key(name));
            }
        }
        assert forall|i: int| 0 <= i < members.len() implies members_view(members).contains_key(
            (#[trigger] members[i]).0@,
        ) by {
            if i < init.len() {
                assert(init[i] == members[i]);
            }
        }
    }
}

/// The document that says what the tree says.
fn json_of(value: &serde_json::Value) -> (json: Json)
    ensures
        json.view() == value_json(*value),
        json.plain(),
        json.sorted(),
    decreases value_json(*value),
{
    broadcast use lemma_array_view;

    let ghost said = value_json(*value);
    match open(value) {
        NodeRef::Null => Json::Null,
        NodeRef::Bool(b) => Json::Bool(b),
        NodeRef::Number(n) => match n.as_u64() {
            Some(n) => Json::Unsigned(n),
            None => Json::Number(OtherNumber { number: copy_number(n) }),
        },
        NodeRef::Text(s) => Json::Text(s.clone()),
        NodeRef::Array(values) => {
            let n: usize = values.len();
            let mut items: Vec<Json> = Vec::new();
            let mut i: usize = 0;
            while i < n
                invariant
                    i <= n == values@.len(),
                    said == value_json(*value),
                    said == JsonView::Array(values_json(values@)),
                    items@.len() == i,
                    forall|k: int|
                        0 <= k < i ==> (#[trigger] items@[k]).view() == value_json(values@[k])
                            && items@[k].plain() && items@[k].sorted(),
                decreases n - i,
            {
                assert(said->Array_0[i as int] == value_json(values@[i as int]));
                assert(decreases_to!(said => said->Array_0[i as int]));
                items.push(json_of(&values[i]));
                i = i + 1;
            }
            assert(views(items@) =~= values_json(values@));
            Json::Array(items)
        },
        NodeRef::Object(map) => {
            let listed = list_members(map);
            let ghost m = map_json(*map);
            let n: usize = listed.len();
            let mut members: Vec<(String, Json)> = Vec::new();
            let mut i: usize = 0;
            while i < n
                invariant
                    i <= n == listed@.len(),
                    said == value_json(*value),
                    said == JsonView::Object(m),
                    forall|k: int|
                        0 <= k < n ==> m.contains_key((#[trigger] listed@[k]).0@)
                            && m[listed@[k].0@] == value_json(*listed@[k].1),
                    members@.len() == i,
                    forall|k: int|
                        0 <= k < i ==> (#[trigger] members@[k]).0@ == listed@[k].0@
                            && members@[k].1.view() == value_json(*listed@[k].1)
                            && members@[k].1.plain() && members@[k].1.sorted(),
                decreases n - i,
            {
                assert(decreases_to!(said => said->Object_0[listed@[i as int].0@]));
                let member = (listed[i].0.clone(), json_of(listed[i].1));
                members.push(member);
                i = i + 1;
            }
            proof {
                lemma_members_say(members@, m);
                assert forall|name: Text| m.contains_key(name) implies members_view(
                    members@,
                ).contains_key(name) by {
                    let k = choose|k: int|
                        0 <= k < listed@.len() && (#[trigger] listed@[k]).0@ == name;
                    assert(members@[k].0@ == name);
                }
                assert(members_view(members@) =~= m);
                assert forall|i: int, j: int| 0 <= i < j < members@.len() implies comes_before(
                    (#[trigger] members@[i]).0@,
                    (#[trigger] members@[j]).0@,
                ) by {
                    assert(comes_before(listed@[i].0@, listed@[j].0@));
                }
            }
            Json::Object(members)
        },
    }
}

/// `serde_json::Value`'s `Display`, which is its compact text: members in
/// the order of their names, no white space, control characters escaped, so
/// that the text is a single line; an object opens with a brace. Read back,
/// the text of a flat document denotes that document; of other documents the
/// reading is not stated.
#[verifier::external_body]
fn value_text(value: &serde_json::Value) -> (s: String)
    ensures
        s@ == compact_json(value_json(*value)),
        !s@.contains('\n'),
        value_json(*value) is Object ==> s@.len() > 0 && s@[0] == '{',
        is_flat(value_json(*value)) ==> reads_as(s@, value_json(*value)),
{
    value.to_string()
}

/// `serde_json::from_str` into a `Value`: the tree that the text denotes, or
/// the text of the error.
#[verifier::external_body]
fn read_value(s: &str) -> (r: Result<serde_json::Value, String>)
    ensures
        match r {
            Ok(value) => read_json(s@) matches Ok(v) && v == value_json(value),
            Err(e) => read_json(s@) matches Err(m) && m == e@,
        },
{
    serde_json::from_str(s).map_err(|e| e.to_string())
}

/// The compact text of a document.
pub fn compact_text(json: &Json) -> (s: String)
    requires
        json.plain(),
    ensures
        s@ == compact_json(json.view()),
        !s@.contains('\n'),
        json.view() is Object ==> s@.len() > 0 && s@[0] == '{',
        is_flat(json.view()) ==> reads_as(s@, json.view()),
{
    value_text(&value_of(json))
}

/// The document that a text denotes, or the reader's complaint.
pub fn parse_json(s: &str) -> (r: Result<Json, String>)
    ensures
        match r {
            Ok(json) => reads_as(s@, json.view()) && json.plain() && json.sorted(),
            Err(e) => read_json(s@) matches Err(m) && m == e@,
        },
{
    match read_value(s) {
        Ok(value) => Ok(json_of(&value)),
        Err(e) => Err(e),
    }
}

/// The name of a member stands in the view of the members.
proof fn lemma_member_named(members: Seq<(String, Json)>)
    ensures
        forall|i: int|
            0 <= i < members.len() ==> members_view(members).contains_key(
                (#[trigger] members[i]).0@,
            ),
        forall|name: Text| #[trigger]
            members_view(members).contains_key(name) ==> exists|i: int|
                0 <= i < members.len() && (#[trigger] members[i]).0@ == name,
    decreases members.len(),
{
    if members.len() > 0 {
        let init = members.drop_last();
        let n = members.len() - 1;
        lemma_member_named(init);
        assert forall|i: int| 0 <= i < members.len() implies members_view(members).contains_key(
            (#[trigger] members[i]).0@,
        ) by {
            if i < n {
                assert(init[i] == members[i]);
            }
        }
        assert forall|name: Text| #[trigger]
            members_view(members).contains_key(name) implies exists|i: int|
            0 <= i < members.len() && (#[trigger] members[i]).0@ == name by {
            if members[n].0@ != name {
                assert(members_view(init).contains_key(name));
                let i = choose|i: int| 0 <= i < init.len() && (#[trigger] init[i]).0@ == name;
                assert(members[i].0@ == name);
            }
        }
    }
}

/// Without its last member, an object in the order of its names says all but
/// that member.
proof fn lemma_last_name(members: Seq<(String, Json)>)
    requires
        names_rise(members),
        members.len() > 0,
    ensures
        names_rise(members.drop_last()),
        members_view(members.drop_last()) == members_view(members).remove(members.last().0@),
        forall|name: Text| #[trigger]
            members_view(members).contains_key(name) ==> name == members.last().0@ || comes_before(
                name,
                members.last().0@,
            ),
{
    let init = members.drop_last();
    let last = members.last().0@;
    let n = members.len() - 1;
    assert forall|i: int, j: int| 0 <= i < j < init.len() implies comes_before(
        (#[trigger] init[i]).0@,
        (#[trigger] init[j]).0@,
    ) by {
        assert(comes_before(members[i].0@, members[j].0@));
    }
    lemma_member_named(members);
    lemma_member_named(init);
    if members_view(init).contains_key(last) {
        let i = choose|i: int| 0 <= i < init.len() && (#[trigger] init[i]).0@ == last;
        assert(comes_before(members[i].0@, members[n].0@));
        lemma_not_before_itself(last);
    }
    assert(members_view(init) =~= members_view(members).remove(last));
    assert forall|name: Text| #[trigger] members_view(members).contains_key(name) implies name
        == last || comes_before(name, last) by {
        let i = choose|i: int| 0 <= i < members.len() && (#[trigger] members[i]).0@ == name;
        if i < n {
            assert(comes_before(members[i].0@, members[n].0@));
        }
    }
}

/// Objects that say the same and have their members in the order of their
/// names list the same members: what an object says fixes the list.
pub proof fn law_sorted_members_are_fixed(a: Seq<(String, Json)>, b: Seq<(String, Json)>)
    requires
        names_rise(a),
        names_rise(b),
        members_view(a) == members_view(b),
    ensures
        a.len() == b.len(),
        forall|i: int|
            0 <= i < a.len() ==> (#[trigger] a[i]).0@ == b[i].0@ && a[i].1.view() == b[i].1.view(),
    decreases a.len(),
{
    lemma_member_named(a);
    lemma_member_named(b);
    if a.len() == 0 {
        if b.len() > 0 {
            assert(members_view(b).contains_key(b[0].0@));
        }
    } else if b.len() == 0 {
        assert(members_view(a).contains_key(a[0].0@));
    } else {
        let m = members_view(a);
        let x = a.last();
        let y = b.last();
        assert(a[a.len() - 1] == x && b[b.len() - 1] == y);
        assert(m.contains_key(x.0@) && m.contains_key(y.0@));
        lemma_last_name(a);
        lemma_last_name(b);
        if x.0@ != y.0@ {
            lemma_before_is_transitive(x.0@, y.0@, x.0@);
            lemma_not_before_itself(x.0@);
        }
        assert(m[x.0@] == x.1.view() && m[y.0@] == y.1.view());
        law_sorted_members_are_fixed(a.drop_last(), b.drop_last());
        assert forall|i: int| 0 <= i < a.len() implies (#[trigger] a[i]).0@ == b[i].0@
            && a[i].1.view() == b[i].1.view() by {
            if i < a.len() - 1 {
                assert(a.drop_last()[i] == a[i] && b.drop_last()[i] == b[i]);
            }
        }
    }
}

/// An object has the members that were put into it, and of two with one name the
/// later one.
pub proof fn law_later_members_count(
    members: Seq<(String, Json)>,
    name: String,
    value: Json,
    other: Text,
)
    ensures
        JsonView::Object(members_view(members.push((name, value)))).member(name@) == Some(
            value.view(),
        ),
        other != name@ ==> JsonView::Object(members_view(members.push((name, value)))).member(other)
            == JsonView::Object(members_view(members)).member(other),
        JsonView::Object(members_view(Seq::empty())).member(other) is None,
{
    assert(members.push((name, value)).drop_last() =~= members);
}

} // verus!

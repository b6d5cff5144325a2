//! The data source: the seeded fixture set, and the issuer service as
//! upstream where one is configured.
//!
//! The gateway renders; it never mints. Every rendered passport carries a
//! `source` marker so that a consumer sees whether the render is live. What
//! is asked of the issuer and what is made of its answers is decided here;
//! the service performs the requests.
use vstd::prelude::*;

use crate::json::{
    law_sorted_members_are_fixed, members_view, names_rise, parse_json, put_text, read_json,
    views, Json, JsonView,
};
use crate::model::{IdScheme, Passport, Timestamp};
use crate::text::{
    after_first, before_first, blank, is_blank, law_splitting, same, split_once, strip_trailing, trim, trimmed,
    without_trailing, Text,
};
use crate::verdict::{PublicKeyMaterial, TrustAnchors};

verus! {

/// Where a rendered passport came from.
#[derive(Debug, Clone, Copy, PartialEq, Eq, Structural)]
pub enum Origin {
    Fixture,
    Issuer,
}

impl Origin {
    /// The wire token.
    pub open spec fn token(self) -> Text {
        match self {
            Origin::Fixture => "fixture"@,
            Origin::Issuer => "issuer"@,
        }
    }

    /// The wire token.
    pub fn as_str(self) -> (r: &'static str)
        ensures
            r@ == self.token(),
    {
        match self {
            Origin::Fixture => "fixture",
            Origin::Issuer => "issuer",
        }
    }
}

/// A profile bound to a passport: its id and version, and since when.
#[derive(Debug, PartialEq)]
pub struct ProfileRef {
    pub id: String,
    pub version: String,
    pub effective_from: Option<Timestamp>,
}

/// What a profile binding pins: the profile and its version.
pub struct ProfilePin {
    pub id: Text,
    pub version: Text,
}

impl Clone for ProfileRef {
    fn clone(&self) -> (r: Self)
        ensures
            r == *self,
    {
        ProfileRef {
            id: self.id.clone(),
            version: self.version.clone(),
            effective_from: match &self.effective_from {
                Some(t) => Some(t.clone()),
                None => None,
            },
        }
    }
}

impl ProfileRef {
    /// What the binding pins.
    pub open spec fn pin(&self) -> ProfilePin {
        ProfilePin { id: self.id@, version: self.version@ }
    }
}

/// A passport ready to render: the document, the profile layer and the
/// pinned anchors.
pub struct GatewayPassport {
    pub document: Passport,
    pub profiles: Vec<ProfileRef>,
    pub origin: Origin,
    /// Trust anchors by key id; none for fixtures, whose documents carry no
    /// event signatures.
    pub anchors: TrustAnchors,
}

impl GatewayPassport {
    /// A fixture-backed passport.
    pub fn fixture(document: Passport, profiles: Vec<ProfileRef>) -> (r: GatewayPassport)
        ensures
            r.document == document,
            r.profiles == profiles,
            r.origin is Fixture,
            r.anchors.view() == Map::<Text, Seq<u8>>::empty(),
    {
        GatewayPassport { document, profiles, origin: Origin::Fixture, anchors: TrustAnchors::new() }
    }

    /// The GTIN key, where the subject identity is keyed by one.
    pub open spec fn gtin(&self) -> Option<Text> {
        if self.document.product_id.gs1_keyed() {
            Some(self.document.product_id.key@)
        } else {
            None
        }
    }

    /// The GTIN key, where the subject identity is keyed by one.
    pub fn gtin_key(&self) -> (r: Option<&str>)
        ensures
            match r {
                Some(key) => self.gtin() == Some(key@),
                None => self.gtin() is None,
            },
    {
        match self.document.product_id.scheme {
            IdScheme::Gtin => Some(self.document.product_id.key.as_str()),
            IdScheme::Sgtin => Some(self.document.product_id.key.as_str()),
            _ => None,
        }
    }

    /// Whether the passport goes by that id: its passport id, its product
    /// identity or its GTIN.
    pub open spec fn answers_to(&self, id: Text) -> bool {
        ||| self.document.passport_id@ == id
        ||| self.document.product_id.display@ == id
        ||| self.gtin() == Some(id)
    }

    /// Whether the GTIN is that one.
    pub fn has_gtin(&self, id: &str) -> (r: bool)
        ensures
            r == (self.gtin() == Some(id@)),
    {
        match self.gtin_key() {
            Some(key) => same(key, id),
            None => false,
        }
    }

    /// The entry of the discovery document.
    pub open spec fn index_entry(&self) -> JsonView {
        let base = map![
            "passport_id"@ => JsonView::Text(self.document.passport_id@),
            "product_id"@ => JsonView::Text(self.document.product_id.display@),
        ];
        JsonView::Object(
            match self.gtin() {
                Some(gtin) => base.insert("gtin"@, JsonView::Text(gtin)),
                None => base,
            },
        )
    }

    /// The entry of the discovery document.
    fn to_index_entry(&self) -> (j: Json)
        ensures
            j.view() == self.index_entry(),
    {
        let mut members: Vec<(String, Json)> = Vec::new();
        put_text(&mut members, "passport_id", self.document.passport_id.as_str());
        put_text(&mut members, "product_id", self.document.product_id.display.as_str());
        match self.gtin_key() {
            Some(gtin) => put_text(&mut members, "gtin", gtin),
            None => {},
        }
        Json::Object(members)
    }
}

/// What a lookup decides: the fixture it found, the issuer to ask, or that
/// nobody knows.
pub enum Lookup<'a> {
    Found(&'a GatewayPassport),
    /// Ask the issuer at that base URL.
    Issuer(&'a str),
    Missing,
}

impl<'a> Lookup<'a> {
    /// What a lookup yields, given what the issuer served where it was asked.
    pub open spec fn yields(self, issued: Option<&'a GatewayPassport>) -> Option<
        &'a GatewayPassport,
    > {
        match self {
            Lookup::Found(p) => Some(p),
            Lookup::Issuer(_) => issued,
            Lookup::Missing => None,
        }
    }

    /// The passport that the lookup yields, given what the issuer served where
    /// it was asked; its silence is a miss.
    pub fn answered(self, issued: Option<&'a GatewayPassport>) -> (r: Option<&'a GatewayPassport>)
        ensures
            r == self.yields(issued),
    {
        match self {
            Lookup::Found(p) => Some(p),
            Lookup::Issuer(_) => issued,
            Lookup::Missing => None,
        }
    }
}

/// The first fixture that satisfies the test, by position.
pub open spec fn first_match(
    fixtures: Seq<GatewayPassport>,
    id: Text,
    by_gtin: bool,
) -> Option<GatewayPassport>
    decreases fixtures.len(),
{
    if fixtures.len() == 0 {
        None
    } else if if by_gtin {
        fixtures[0].gtin() == Some(id)
    } else {
        fixtures[0].answers_to(id)
    } {
        Some(fixtures[0])
    } else {
        first_match(fixtures.skip(1), id, by_gtin)
    }
}

/// The issuer base URL that a setting denotes: white space and trailing
/// slashes dropped, none where nothing is left.
pub open spec fn issuer_base(setting: Option<String>) -> Option<Text> {
    match setting {
        Some(s) => {
            let base = without_trailing(trimmed(s@), '/');
            if base.len() == 0 {
                None
            } else {
                Some(base)
            }
        },
        None => None,
    }
}

/// The passport data source.
pub struct PassportSource {
    pub fixtures: Vec<GatewayPassport>,
    pub issuer_url: Option<String>,
}

impl PassportSource {
    /// The issuer base URL, where one is configured.
    pub open spec fn issuer(&self) -> Option<Text> {
        match self.issuer_url {
            Some(s) => Some(s@),
            None => None,
        }
    }

    /// Assembles the source: the seeded fixtures and an optional issuer
    /// upstream base URL (`http://host:port`, no trailing path).
    pub fn new(fixtures: Vec<GatewayPassport>, issuer_url: Option<String>) -> (r: PassportSource)
        ensures
            r.fixtures == fixtures,
            r.issuer() == issuer_base(issuer_url),
    {
        let issuer_url: Option<String> = match issuer_url {
            Some(setting) => {
                let base = strip_trailing(trim(setting.as_str()), '/');
                if base.is_empty() {
                    None
                } else {
                    Some(base.to_owned())
                }
            },
            None => None,
        };
        PassportSource { fixtures, issuer_url }
    }

    /// The issuer base URL, where one is configured.
    pub fn issuer_url(&self) -> (r: Option<&str>)
        ensures
            match r {
                Some(s) => self.issuer() == Some(s@),
                None => self.issuer() is None,
            },
    {
        match &self.issuer_url {
            Some(s) => Some(s.as_str()),
            None => None,
        }
    }

    /// The fixture index for the discovery document.
    pub fn fixture_index(&self) -> (r: Vec<Json>)
        ensures
            views(r@) == self.fixtures@.map_values(|p: GatewayPassport| p.index_entry()),
    {
        let n: usize = self.fixtures.len();
        let mut index: Vec<Json> = Vec::new();
        let mut i: usize = 0;
        while i < n
            invariant
                i <= n == self.fixtures@.len(),
                index@.len() == i,
                forall|k: int|
                    0 <= k < i ==> (#[trigger] index@[k]).view() == self.fixtures@[k].index_entry(),
            decreases n - i,
        {
            index.push(self.fixtures[i].to_index_entry());
            i = i + 1;
        }
        assert(views(index@) =~= self.fixtures@.map_values(
            |p: GatewayPassport| p.index_entry(),
        ));
        index
    }

    /// The first fixture that goes by that id.
    pub fn fixture_match(&self, id: &str) -> (r: Option<&GatewayPassport>)
        ensures
            match r {
                Some(p) => first_match(self.fixtures@, id@, false) == Some(*p),
                None => first_match(self.fixtures@, id@, false) is None,
            },
    {
        self.find(id, false)
    }

    /// The first fixture that goes by that id, or has that GTIN.
    fn find(&self, id: &str, by_gtin: bool) -> (r: Option<&GatewayPassport>)
        ensures
            match r {
                Some(p) => first_match(self.fixtures@, id@, by_gtin) == Some(*p),
                None => first_match(self.fixtures@, id@, by_gtin) is None,
            },
    {
        let n: usize = self.fixtures.len();
        let mut i: usize = 0;
        assert(self.fixtures@.skip(0) =~= self.fixtures@);
        while i < n
            invariant
                i <= n == self.fixtures@.len(),
                first_match(self.fixtures@, id@, by_gtin) == first_match(
                    self.fixtures@.skip(i as int),
                    id@,
                    by_gtin,
                ),
            decreases n - i,
        {
            let p = &self.fixtures[i];
            assert(self.fixtures@.skip(i as int).skip(1) =~= self.fixtures@.skip(i + 1));
            assert(self.fixtures@.skip(i as int)[0] == *p);
            if p.has_gtin(id) || (!by_gtin && (same(p.document.passport_id.as_str(), id) || same(
                p.document.product_id.display.as_str(),
                id,
            ))) {
                return Some(p);
            }
            i = i + 1;
        }
        None
    }

    /// What a lookup decides.
    pub open spec fn decides(&self, id: Text, by_gtin: bool, r: Lookup) -> bool {
        match first_match(self.fixtures@, id, by_gtin) {
            Some(p) => r matches Lookup::Found(found) && *found == p,
            None => match self.issuer() {
                Some(base) => r matches Lookup::Issuer(url) && url@ == base,
                None => r is Missing,
            },
        }
    }

    /// Resolves by passport id or product identity: fixtures first, then the
    /// issuer upstream.
    pub fn resolve(&self, id: &str) -> (r: Lookup<'_>)
        ensures
            self.decides(id@, false, r),
    {
        self.lookup(id, false)
    }

    /// Resolves by GTIN: fixture GTINs first, then the issuer (whose store
    /// keys passports by passport id, so that a bare GTIN resolves only
    /// where the issuer knows it under that key).
    pub fn resolve_gtin(&self, gtin: &str) -> (r: Lookup<'_>)
        ensures
            self.decides(gtin@, true, r),
    {
        self.lookup(gtin, true)
    }

    fn lookup(&self, id: &str, by_gtin: bool) -> (r: Lookup<'_>)
        ensures
            self.decides(id@, by_gtin, r),
    {
        match self.find(id, by_gtin) {
            Some(p) => Lookup::Found(p),
            None => match self.issuer_url() {
                Some(base) => Lookup::Issuer(base),
                None => Lookup::Missing,
            },
        }
    }
}

// ---------------------------------------------------------------------------
// The issuer's answers
// ---------------------------------------------------------------------------

/// The document that an answer of the issuer carries; any other status and
/// any malformed body is a miss.
pub fn issuer_view(status: u16, body: &str) -> (r: Option<Json>)
    ensures
        match r {
            Some(view) => status == 200 && (read_json(body@) matches Ok(v) && v == view.view())
                && view.plain() && view.sorted(),
            None => status != 200 || read_json(body@) is Err,
        },
{
    if status != 200 {
        return None;
    }
    match parse_json(body) {
        Ok(view) => Some(view),
        Err(_) => None,
    }
}

/// The passport that the issuer served.
pub fn issuer_passport(view: &Json, document: Passport, anchors: TrustAnchors) -> (r:
    GatewayPassport)
    ensures
        r.document == document,
        r.profiles@.map_values(|p: ProfileRef| p.pin()) == config_pins(view.view()),
        forall|i: int| 0 <= i < r.profiles@.len() ==> (#[trigger] r.profiles@[i]).effective_from is None,
        r.origin is Issuer,
        r.anchors == anchors,
{
    GatewayPassport {
        document,
        profiles: parse_config_profiles(view),
        origin: Origin::Issuer,
        anchors,
    }
}

/// The profile that an entry of the config vector pins: an id, optionally
/// with `@version`; a bare id pins version `0`.
pub open spec fn config_pin(entry: Text) -> ProfilePin {
    if entry.contains('@') {
        ProfilePin {
            id: trimmed(before_first(entry, '@')),
            version: trimmed(after_first(entry, '@')),
        }
    } else {
        ProfilePin { id: trimmed(entry), version: "0"@ }
    }
}

/// The profiles that entries of a config vector pin; blank entries and
/// entries that are no text are skipped.
pub open spec fn entry_pins(entries: Seq<JsonView>) -> Seq<ProfilePin>
    decreases entries.len(),
{
    if entries.len() == 0 {
        Seq::empty()
    } else {
        let before = entry_pins(entries.drop_last());
        match entries.last() {
            JsonView::Text(entry) => if is_blank(entry) {
                before
            } else {
                before.push(config_pin(entry))
            },
            _ => before,
        }
    }
}

/// The profiles that an issuer view pins.
pub open spec fn config_pins(view: JsonView) -> Seq<ProfilePin> {
    match view.items_at("config"@) {
        Some(entries) => entry_pins(entries),
        None => Seq::empty(),
    }
}

/// The issuer view's config vector: profile ids, optionally `id@version`.
pub fn parse_config_profiles(view: &Json) -> (r: Vec<ProfileRef>)
    ensures
        r@.map_values(|p: ProfileRef| p.pin()) == config_pins(view.view()),
        forall|i: int| 0 <= i < r@.len() ==> (#[trigger] r@[i]).effective_from is None,
{
    let mut profiles: Vec<ProfileRef> = Vec::new();
    let ghost pin = |p: ProfileRef| p.pin();
    let entries = match view.array_at("config") {
        Some(entries) => entries,
        None => {
            assert(profiles@.map_values(pin) =~= Seq::empty());
            return profiles;
        },
    };
    let n: usize = entries.len();
    let ghost all = views(entries@);
    assert(all.take(0) =~= Seq::empty());
    assert(profiles@.map_values(pin) =~= Seq::empty());
    let mut i: usize = 0;
    while i < n
        invariant
            i <= n == entries@.len(),
            all == views(entries@),
            pin == (|p: ProfileRef| p.pin()),
            profiles@.map_values(pin) == entry_pins(all.take(i as int)),
            forall|k: int|
                0 <= k < profiles@.len() ==> (#[trigger] profiles@[k]).effective_from is None,
        decreases n - i,
    {
        let ghost before = profiles@;
        assert(all.take(i + 1).drop_last() =~= all.take(i as int));
        assert(all.take(i + 1).last() == entries@[i as int].view());
        match entries[i].as_str() {
            Some(entry) => if !blank(entry) {
                let profile = match split_once(entry, '@') {
                    Some((id, version)) => ProfileRef {
                        id: trim(id.as_str()).to_owned(),
                        version: trim(version.as_str()).to_owned(),
                        effective_from: None,
                    },
                    None => ProfileRef {
                        id: trim(entry).to_owned(),
                        version: "0".to_owned(),
                        effective_from: None,
                    },
                };
                profiles.push(profile);
                assert(profiles@.map_values(pin) =~= before.map_values(pin).push(profile.pin()));
            },
            None => {},
        }
        i = i + 1;
    }
    assert(all.take(n as int) =~= all);
    profiles
}

/// A key that the issuer's keyring publishes: its id and its public key in
/// hexadecimal.
#[derive(Debug, PartialEq)]
pub struct KeyringEntry {
    pub key_id: String,
    pub public_hex: String,
}

/// The key that a role of the keyring publishes, where it is an Ed25519 one.
pub open spec fn role_key(role: JsonView) -> Option<(Text, Text)> {
    match (role.text_at("key_id"@), role.text_at("public"@), role.text_at("suite"@)) {
        (Some(key_id), Some(public), Some(suite)) => if suite == "ed25519"@ {
            Some((key_id, public))
        } else {
            None
        },
        _ => None,
    }
}

/// The keys that roles of the keyring publish, in their order.
pub open spec fn role_keys(roles: Seq<(String, Json)>) -> Seq<(Text, Text)>
    decreases roles.len(),
{
    if roles.len() == 0 {
        Seq::empty()
    } else {
        let before = role_keys(roles.drop_last());
        match role_key(roles.last().1.view()) {
            Some(key) => before.push(key),
            None => before,
        }
    }
}

/// The roles of a keyring, in their order: that of their names, where the
/// keyring was read from a text.
pub fn keyring_roles(keyring: &Json) -> (r: Option<&Vec<(String, Json)>>)
    ensures
        match r {
            Some(roles) => keyring.view().member("roles"@) == Some(Json::Object(*roles).view())
                && (keyring.sorted() ==> names_rise(roles@)),
            None => !(keyring.view().member("roles"@) matches Some(JsonView::Object(_))),
        },
{
    match keyring.get("roles") {
        Some(Json::Object(roles)) => Some(roles),
        _ => None,
    }
}

/// The Ed25519 keys that the keyring publishes, in the order of its roles.
/// Keys of other suites have no slot that would verify with them.
pub fn keyring_keys(roles: &Vec<(String, Json)>) -> (r: Vec<KeyringEntry>)
    ensures
        r@.map_values(|e: KeyringEntry| (e.key_id@, e.public_hex@)) == role_keys(roles@),
{
    let mut keys: Vec<KeyringEntry> = Vec::new();
    let ghost pair = |e: KeyringEntry| (e.key_id@, e.public_hex@);
    let n: usize = roles.len();
    assert(roles@.take(0) =~= Seq::empty());
    assert(keys@.map_values(pair) =~= Seq::empty());
    let mut i: usize = 0;
    while i < n
        invariant
            i <= n == roles@.len(),
            pair == (|e: KeyringEntry| (e.key_id@, e.public_hex@)),
            keys@.map_values(pair) == role_keys(roles@.take(i as int)),
        decreases n - i,
    {
        let ghost before = keys@;
        assert(roles@.take(i + 1).drop_last() =~= roles@.take(i as int));
        let role = &roles[i].1;
        match (role.str_at("key_id"), role.str_at("public"), role.str_at("suite")) {
            (Some(key_id), Some(public), Some(suite)) => if same(suite, "ed25519") {
                let entry = KeyringEntry {
                    key_id: key_id.to_owned(),
                    public_hex: public.to_owned(),
                };
                keys.push(entry);
                assert(keys@.map_values(pair) =~= before.map_values(pair).push(pair(entry)));
            },
            _ => {},
        }
        i = i + 1;
    }
    assert(roles@.take(n as int) =~= roles@);
    keys
}

/// The anchors that decoded keys make: a key whose text is not hexadecimal is
/// skipped, of two keys under one id the later one counts.
pub open spec fn anchored(
    keys: Seq<KeyringEntry>,
    decoded: Seq<Option<Vec<u8>>>,
) -> Map<Text, Seq<u8>>
    decreases keys.len(),
{
    if keys.len() == 0 {
        Map::empty()
    } else {
        let before = anchored(keys.drop_last(), decoded);
        match decoded[keys.len() - 1] {
            Some(bytes) => before.insert(keys.last().key_id@, bytes@),
            None => before,
        }
    }
}

/// The trust anchors that the keyring's keys make, each with its decoded
/// bytes where its text is hexadecimal.
pub fn collect_anchors(keys: &Vec<KeyringEntry>, decoded: Vec<Option<Vec<u8>>>) -> (r: TrustAnchors)
    requires
        decoded@.len() == keys@.len(),
    ensures
        r.view() == anchored(keys@, decoded@),
{
    let mut anchors = TrustAnchors::new();
    let n: usize = keys.len();
    assert(keys@.take(0) =~= Seq::empty());
    let mut i: usize = 0;
    while i < n
        invariant
            i <= n == keys@.len(),
            decoded@.len() == keys@.len(),
            anchors.view() == anchored(keys@.take(i as int), decoded@),
        decreases n - i,
    {
        assert(keys@.take(i + 1).drop_last() =~= keys@.take(i as int));
        match &decoded[i] {
            Some(bytes) => {
                let copy = bytes.clone();
                assert(copy@ =~= bytes@);
                anchors.insert(keys[i].key_id.clone(), PublicKeyMaterial { bytes: copy });
            },
            None => {},
        }
        i = i + 1;
    }
    assert(keys@.take(n as int) =~= keys@);
    anchors
}

// ---------------------------------------------------------------------------
// Laws
// ---------------------------------------------------------------------------

/// A lookup finds only a fixture that goes by the id, and misses only where
/// none does: every fixture resolves by its passport id, by its product
/// identity and by its GTIN.
pub proof fn law_fixtures_resolve(fixtures: Seq<GatewayPassport>, id: Text)
    ensures
        match first_match(fixtures, id, false) {
            Some(p) => fixtures.contains(p) && p.answers_to(id),
            None => forall|i: int|
                0 <= i < fixtures.len() ==> !(#[trigger] fixtures[i]).answers_to(id),
        },
        match first_match(fixtures, id, true) {
            Some(p) => fixtures.contains(p) && p.gtin() == Some(id),
            None => forall|i: int|
                0 <= i < fixtures.len() ==> (#[trigger] fixtures[i]).gtin() != Some(id),
        },
    decreases fixtures.len(),
{
    if fixtures.len() > 0 {
        let rest = fixtures.skip(1);
        law_fixtures_resolve(rest, id);
        assert(fixtures.contains(fixtures[0]));
        assert forall|p: GatewayPassport| rest.contains(p) implies fixtures.contains(p) by {
            let k = choose|k: int| 0 <= k < rest.len() && rest[k] == p;
            assert(fixtures[k + 1] == p);
        }
        assert forall|i: int| 0 < i < fixtures.len() implies rest[i - 1] == #[trigger] fixtures[i] by {}
    }
}

/// A keyring that was read from a text publishes its keys in the order of its
/// roles' names: what the document says fixes the keys, and which of two under
/// one key id is the later.
pub proof fn law_keyring_fixes_its_keys(a: Seq<(String, Json)>, b: Seq<(String, Json)>)
    requires
        names_rise(a),
        names_rise(b),
        members_view(a) == members_view(b),
    ensures
        role_keys(a) == role_keys(b),
{
    law_sorted_members_are_fixed(a, b);
    lemma_same_roles(a, b);
}

/// Roles that say the same publish the same keys.
proof fn lemma_same_roles(a: Seq<(String, Json)>, b: Seq<(String, Json)>)
    requires
        a.len() == b.len(),
        forall|i: int| 0 <= i < a.len() ==> (#[trigger] a[i]).1.view() == b[i].1.view(),
    ensures
        role_keys(a) == role_keys(b),
    decreases a.len(),
{
    if a.len() > 0 {
        let x = a.drop_last();
        let y = b.drop_last();
        assert forall|i: int| 0 <= i < x.len() implies (#[trigger] x[i]).1.view()
            == y[i].1.view() by {
            assert(a[i] == x[i]);
        }
        assert(a[a.len() - 1].1.view() == b[b.len() - 1].1.view());
        lemma_same_roles(x, y);
    }
}

/// A passport goes by its passport id, by its product identity and, where a GTIN
/// keys it, by that; in the GTIN's own space by that alone.
pub proof fn law_passport_ids(p: &GatewayPassport, id: Text)
    ensures
        p.answers_to(id) <==> p.document.passport_id@ == id || p.document.product_id.display@ == id
            || ((p.document.product_id.scheme is Gtin || p.document.product_id.scheme is Sgtin)
            && p.document.product_id.key@ == id),
        p.gtin() == Some(id) <==> (p.document.product_id.scheme is Gtin
            || p.document.product_id.scheme is Sgtin) && p.document.product_id.key@ == id,
{
}

/// Of several fixtures that go by an id the first one is found.
pub proof fn law_the_first_fixture_is_found(fixtures: Seq<GatewayPassport>, id: Text, i: int)
    requires
        0 <= i < fixtures.len(),
    ensures
        fixtures[i].answers_to(id) && (forall|j: int|
            0 <= j < i ==> !(#[trigger] fixtures[j]).answers_to(id)) ==> first_match(
            fixtures,
            id,
            false,
        ) == Some(fixtures[i]),
        fixtures[i].gtin() == Some(id) && (forall|j: int|
            0 <= j < i ==> (#[trigger] fixtures[j]).gtin() != Some(id)) ==> first_match(
            fixtures,
            id,
            true,
        ) == Some(fixtures[i]),
    decreases fixtures.len(),
{
    if i > 0 {
        let rest = fixtures.skip(1);
        law_the_first_fixture_is_found(rest, id, i - 1);
        assert(forall|j: int| 0 <= j < rest.len() ==> #[trigger] rest[j] == fixtures[j + 1]);
        if forall|j: int| 0 <= j < i ==> !(#[trigger] fixtures[j]).answers_to(id) {
            assert(!fixtures[0].answers_to(id));
        }
        if forall|j: int| 0 <= j < i ==> (#[trigger] fixtures[j]).gtin() != Some(id) {
            assert(fixtures[0].gtin() != Some(id));
        }
    }
}

/// A lookup goes to the fixtures first and asks the configured issuer only where
/// none of them goes by the id; without an issuer the id is missing. A lookup by
/// GTIN goes by GTINs alone.
pub proof fn law_lookups<'a>(source: &'a PassportSource, id: &str, by_id: Lookup<'a>, by_gtin: Lookup<'a>)
    requires
        call_ensures(PassportSource::resolve, (source, id), by_id),
        call_ensures(PassportSource::resolve_gtin, (source, id), by_gtin),
    ensures
        match by_id {
            Lookup::Found(p) => source.fixtures@.contains(*p) && p.answers_to(id@),
            Lookup::Issuer(url) => source.issuer() == Some(url@) && forall|i: int|
                0 <= i < source.fixtures@.len() ==> !(#[trigger] source.fixtures@[i]).answers_to(
                    id@,
                ),
            Lookup::Missing => source.issuer() is None && forall|i: int|
                0 <= i < source.fixtures@.len() ==> !(#[trigger] source.fixtures@[i]).answers_to(
                    id@,
                ),
        },
        match by_gtin {
            Lookup::Found(p) => source.fixtures@.contains(*p) && p.gtin() == Some(id@),
            Lookup::Issuer(url) => source.issuer() == Some(url@) && forall|i: int|
                0 <= i < source.fixtures@.len() ==> (#[trigger] source.fixtures@[i]).gtin() != Some(
                    id@,
                ),
            Lookup::Missing => source.issuer() is None && forall|i: int|
                0 <= i < source.fixtures@.len() ==> (#[trigger] source.fixtures@[i]).gtin() != Some(
                    id@,
                ),
        },
{
    law_fixtures_resolve(source.fixtures@, id@);
}

/// The issuer base URL is the setting without white space around it and slashes
/// behind it; none where nothing is left.
pub proof fn law_issuer_base(fixtures: Vec<GatewayPassport>, setting: Option<String>, r: PassportSource)
    requires
        call_ensures(PassportSource::new, (fixtures, setting), r),
    ensures
        r.fixtures == fixtures,
        setting is None ==> r.issuer() is None,
        setting matches Some(s) ==> r.issuer() == (if without_trailing(trimmed(s@), '/').len() == 0 {
            None
        } else {
            Some(without_trailing(trimmed(s@), '/'))
        }),
{
}

/// The member names of an index entry, told apart.
proof fn lemma_index_names()
    ensures
        "passport_id"@.len() == 11,
        "product_id"@.len() == 10,
        "gtin"@.len() == 4,
{
    reveal_strlit("passport_id");
    reveal_strlit("product_id");
    reveal_strlit("gtin");
}

/// The index lists every fixture in its place, by the ids that it goes by.
pub proof fn law_fixtures_are_listed(source: &PassportSource, index: Vec<Json>, i: int)
    requires
        call_ensures(PassportSource::fixture_index, (source,), index),
    ensures
        index@.len() == source.fixtures@.len(),
        0 <= i < index@.len() ==> {
            let p = source.fixtures@[i];
            &&& index@[i].view().text_at("passport_id"@) == Some(p.document.passport_id@)
            &&& index@[i].view().text_at("product_id"@) == Some(p.document.product_id.display@)
            &&& index@[i].view().text_at("gtin"@) == (if p.document.product_id.scheme is Gtin
                || p.document.product_id.scheme is Sgtin {
                Some(p.document.product_id.key@)
            } else {
                None
            })
        },
{
    lemma_index_names();
    let entries = source.fixtures@.map_values(|p: GatewayPassport| p.index_entry());
    assert(views(index@) == entries);
    assert(views(index@).len() == entries.len());
    if 0 <= i < index@.len() {
        assert(views(index@)[i] == entries[i]);
    }
}

/// What one more entry of an issuer's config pins: of a text that is not blank
/// the profile before its first `@` in the version behind it, or in version `0`
/// where it has none, both trimmed, behind the pins of the entries before it;
/// of anything else nothing.
pub proof fn law_config_pins(entries: Seq<JsonView>, entry: JsonView)
    ensures
        entry_pins(Seq::empty()).len() == 0,
        entry_pins(entries.push(entry)) == (match entry {
            JsonView::Text(s) => if is_blank(s) {
                entry_pins(entries)
            } else {
                entry_pins(entries).push(
                    ProfilePin {
                        id: trimmed(before_first(s, '@')),
                        version: if s.contains('@') {
                            trimmed(after_first(s, '@'))
                        } else {
                            "0"@
                        },
                    },
                )
            },
            _ => entry_pins(entries),
        }),
{
    assert(entries.push(entry).drop_last() =~= entries);
    if let JsonView::Text(s) = entry {
        if !s.contains('@') {
            law_splitting(Seq::empty(), '@', s);
        }
    }
}

/// The passport that an issuer served is the document it sent, marked as issued,
/// with the anchors of its keyring and the profiles that its config pins.
pub proof fn law_issuer_passports(
    view: &Json,
    document: Passport,
    anchors: TrustAnchors,
    p: GatewayPassport,
    i: int,
)
    requires
        call_ensures(issuer_passport, (view, document, anchors), p),
    ensures
        p.document == document,
        p.anchors == anchors,
        p.origin is Issuer,
        view.view().items_at("config"@) is None ==> p.profiles@.len() == 0,
        view.view().items_at("config"@) matches Some(entries) ==> p.profiles@.len() == entry_pins(
            entries,
        ).len() && (0 <= i < p.profiles@.len() ==> p.profiles@[i].id@ == entry_pins(entries)[i].id
            && p.profiles@[i].version@ == entry_pins(entries)[i].version),
        0 <= i < p.profiles@.len() ==> p.profiles@[i].effective_from is None,
{
    let pins = p.profiles@.map_values(|q: ProfileRef| q.pin());
    assert(pins.len() == p.profiles@.len());
    if 0 <= i < p.profiles@.len() {
        assert(pins[i] == p.profiles@[i].pin());
    }
}

/// An answer of the issuer is its document exactly where it came with 200 and
/// reads as one.
pub proof fn law_issuer_views(status: u16, body: &str, r: Option<Json>)
    requires
        call_ensures(issuer_view, (status, body), r),
    ensures
        r is Some <==> status == 200 && read_json(body@) is Ok,
        r matches Some(j) ==> read_json(body@) == Ok::<JsonView, Text>(j.view()),
{
}

/// What one more role of a keyring publishes: the id and the public key of a
/// role that names both and whose suite is Ed25519, behind the keys of the roles
/// before it; of any other nothing.
pub proof fn law_keyring_roles(roles: Seq<(String, Json)>, role: (String, Json))
    ensures
        role_keys(Seq::empty()).len() == 0,
        ({
            let j = role.1.view();
            let usable = j.text_at("suite"@) == Some("ed25519"@) && j.text_at("key_id"@) is Some
                && j.text_at("public"@) is Some;
            role_keys(roles.push(role)) == (if usable {
                role_keys(roles).push(
                    (j.text_at("key_id"@).unwrap(), j.text_at("public"@).unwrap()),
                )
            } else {
                role_keys(roles)
            })
        }),
{
    assert(roles.push(role).drop_last() =~= roles);
}

/// What one more key anchors: where its text was decoded, those bytes under its
/// id, in place of an earlier key of that id; otherwise nothing.
pub proof fn law_anchors(
    keys: Seq<KeyringEntry>,
    key: KeyringEntry,
    decoded: Seq<Option<Vec<u8>>>,
    id: Text,
)
    requires
        decoded.len() == keys.len() + 1,
    ensures
        ({
            let before = anchored(keys, decoded);
            let after = anchored(keys.push(key), decoded);
            match decoded.last() {
                Some(bytes) => {
                    &&& after.contains_key(key.key_id@)
                    &&& after[key.key_id@] == bytes@
                    &&& id != key.key_id@ ==> after.contains_key(id) == before.contains_key(id) && (
                    after.contains_key(id) ==> after[id] == before[id])
                },
                None => after == before,
            }
        }),
        anchored(Seq::empty(), decoded) == Map::<Text, Seq<u8>>::empty(),
{
    assert(keys.push(key).drop_last() =~= keys);
}

/// A fixture is the document and the profiles it is made of, marked as a
/// fixture, with nothing anchored.
pub proof fn law_fixture_passports(document: Passport, profiles: Vec<ProfileRef>, p: GatewayPassport)
    requires
        call_ensures(GatewayPassport::fixture, (document, profiles), p),
    ensures
        p.document == document,
        p.profiles == profiles,
        p.origin is Fixture,
        p.anchors.view() == Map::<Text, Seq<u8>>::empty(),
        Origin::Fixture.token() == "fixture"@,
        Origin::Issuer.token() == "issuer"@,
{
}

} // verus!

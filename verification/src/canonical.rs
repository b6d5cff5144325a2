//! Canonical serialization and the material of salted commitments.
//!
//! Canonical JSON has sorted member names and no white space; over
//! `serde_json` documents it is the compact text. A commitment is the digest
//! of the salt, a colon and the canonical JSON; the digest is the core's.
use vstd::prelude::*;

use crate::json::{compact_json, compact_text, members_view, Json, JsonView};
use crate::text::Text;

verus! {

/// Canonical JSON: sorted member names, no white space.
pub fn canonical_json(value: &Json) -> (r: String)
    requires
        value.plain(),
    ensures
        r@ == compact_json(value.view()),
{
    compact_text(value)
}

/// What a salted commitment over a document digests.
pub open spec fn material(value: JsonView, salt: Text) -> Text {
    salt + ":"@ + compact_json(value)
}

/// What a salted commitment over a document digests.
pub fn commitment_material(value: &Json, salt: &str) -> (r: String)
    requires
        value.plain(),
    ensures
        r@ == material(value.view(), salt@),
{
    salt.to_owned().concat(":").concat(canonical_json(value).as_str())
}

/// Documents that say the same have one canonical form: in particular, the
/// order in which an object's members were written does not show.
pub proof fn law_canonical_form_ignores_member_order(
    members: Seq<(String, Json)>,
    a: (String, Json),
    b: (String, Json),
)
    requires
        a.0@ != b.0@,
    ensures
        members_view(members.push(a).push(b)) == members_view(members.push(b).push(a)),
        compact_json(JsonView::Object(members_view(members.push(a).push(b)))) == compact_json(
            JsonView::Object(members_view(members.push(b).push(a))),
        ),
{
    let ab = members.push(a).push(b);
    let ba = members.push(b).push(a);
    assert(ab.drop_last() =~= members.push(a));
    assert(ba.drop_last() =~= members.push(b));
    assert(members.push(a).drop_last() =~= members);
    assert(members.push(b).drop_last() =~= members);
    let m = members_view(members);
    assert(members_view(members.push(a)) == m.insert(a.0@, a.1.view()));
    assert(members_view(members.push(b)) == m.insert(b.0@, b.1.view()));
    assert(members_view(ab) =~= members_view(ba));
}

/// Commitments over one document digest different material exactly when their
/// salts differ.
pub proof fn law_salts_separate(value: JsonView, a: Text, b: Text)
    ensures
        material(value, a) == material(value, b) <==> a == b,
{
    let tail = ":"@ + compact_json(value);
    assert(material(value, a) =~= a + tail);
    assert(material(value, b) =~= b + tail);
    if material(value, a) == material(value, b) {
        assert(a.len() + tail.len() == b.len() + tail.len());
        assert(a =~= (a + tail).take(a.len() as int));
        assert(b =~= (b + tail).take(b.len() as int));
    }
}

/// A commitment digests the salt, a colon and the canonical form of the
/// document, which is its compact text.
pub proof fn law_commitments(value: &Json, salt: &str, canonical: String, r: String)
    requires
        call_ensures(canonical_json, (value,), canonical),
        call_ensures(commitment_material, (value, salt), r),
    ensures
        canonical@ == compact_json(value.view()),
        r@ == salt@ + ":"@ + canonical@,
{
}

} // verus!

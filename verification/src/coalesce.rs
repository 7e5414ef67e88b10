//! The key under which calls of a coalescable command share a throttle: the
//! command and the payload's identity members (an `id`, an `..._id`, or a
//! member naming a target, device, player, output or sink), serialized as
//! compact JSON.
use vstd::prelude::*;
use crate::json::{JsonNumber, JsonValue, JsonView, lemma_members_view};
use crate::text;

verus! {

#[verifier::external_type_specification]
#[verifier::external_body]
pub struct ExSerdeJsonValue(serde_json::Value);

/// What `serde_json::to_string` makes of a JSON value: its compact text,
/// object members ordered by key.
pub uninterp spec fn json_text(v: JsonView) -> Seq<char>;

/// The same value as a `serde_json::Value`; a number with a fraction or an
/// exponent is read back from its decimal text.
#[verifier::external_body]
fn serde_value_of(v: &JsonValue) -> serde_json::Value {
    match v {
        JsonValue::Null => serde_json::Value::Null,
        JsonValue::Bool(b) => serde_json::Value::Bool(*b),
        JsonValue::Number(JsonNumber::PosInt(n)) => serde_json::Value::from(*n),
        JsonValue::Number(JsonNumber::NegInt(n)) => serde_json::Value::from(*n),
        JsonValue::Number(JsonNumber::Float(t)) => serde_json::from_str(t).unwrap_or(serde_json::Value::Null),
        JsonValue::Str(s) => serde_json::Value::String(s.clone()),
        JsonValue::Array(items) => serde_json::Value::Array(items.iter().map(serde_value_of).collect()),
        JsonValue::Object(members) => serde_json::Value::Object(
            members.iter().map(|(k, m)| (k.clone(), serde_value_of(m))).collect(),
        ),
    }
}

/// `serde_json::to_string` on the value: its compact JSON text. Serializing
/// a `serde_json::Value` cannot fail, its object keys being strings.
#[verifier::external_body]
fn compact_json_text(v: &JsonValue) -> (r: String)
    ensures
        r@ == json_text(v@),
{
    serde_json::to_string(&serde_value_of(v)).unwrap_or_default()
}

/// Whether a payload member names the target of a command.
pub open spec fn identity_field(name: Seq<char>) -> bool {
    ||| name == "id"@
    ||| text::has_suffix(name, "_id"@)
    ||| text::has_infix(name, "target"@)
    ||| text::has_infix(name, "device"@)
    ||| text::has_infix(name, "player"@)
    ||| text::has_infix(name, "output"@)
    ||| text::has_infix(name, "sink"@)
}

/// The identity members among `members`, in order.
pub open spec fn identity_members(members: Seq<(Seq<char>, JsonView)>) -> Seq<(Seq<char>, JsonView)>
    decreases members.len(),
{
    if members.len() == 0 {
        seq![]
    } else {
        let rest = identity_members(members.drop_last());
        if identity_field(members.last().0) {
            rest.push(members.last())
        } else {
            rest
        }
    }
}

/// The identity of a payload: an object of its identity members; empty for
/// a payload that is not an object.
pub open spec fn identity_of(payload: JsonView) -> JsonView {
    match payload {
        JsonView::Object(members) => JsonView::Object(identity_members(members)),
        _ => JsonView::Object(seq![]),
    }
}

/// `command:identity`.
pub open spec fn coalescing_key(command: Seq<char>, payload: JsonView) -> Seq<char> {
    command + ":"@ + json_text(identity_of(payload))
}

fn is_identity_field(name: &str) -> (r: bool)
    ensures
        r == identity_field(name@),
{
    text::str_eq(name, "id") || text::ends_with(name, "_id") || text::contains(name, "target")
        || text::contains(name, "device") || text::contains(name, "player") || text::contains(name, "output")
        || text::contains(name, "sink")
}

/// The identity members of a payload as an object.
pub fn payload_identity(payload: &JsonValue) -> (r: JsonValue)
    ensures
        r@ == identity_of(payload@),
{
    match payload {
        JsonValue::Object(members) => {
            proof {
                lemma_members_view(members@);
            }
            let mut kept: Vec<(String, JsonValue)> = Vec::new();
            let mut i: usize = 0;
            while i < members.len()
                invariant
                    i <= members@.len(),
                    members_view_of(kept@) == identity_members(members_view_of(members@).subrange(0, i as int)),
                    members_view_of(members@).len() == members@.len(),
                    forall|j: int| 0 <= j < members@.len() ==> #[trigger] members_view_of(members@)[j] == (
                        members@[j].0@,
                        members@[j].1@,
                    ),
                decreases members.len() - i,
            {
                let ghost all = members_view_of(members@);
                let ghost before = kept@;
                proof {
                    assert(all.subrange(0, i + 1).drop_last() =~= all.subrange(0, i as int));
                    assert(all.subrange(0, i + 1).last() == all[i as int]);
                }
                if is_identity_field(members[i].0.as_str()) {
                    kept.push((members[i].0.clone(), members[i].1.duplicate()));
                    proof {
                        crate::json::lemma_members_view(kept@);
                        crate::json::lemma_members_view(before);
                        assert(members_view_of(kept@) =~= members_view_of(before).push(all[i as int]));
                    }
                }
                i = i + 1;
            }
            proof {
                assert(members_view_of(members@).subrange(0, members@.len() as int) =~= members_view_of(members@));
            }
            JsonValue::Object(kept)
        },
        _ => {
            let r = JsonValue::Object(Vec::new());
            proof {
                assert(r@ =~= JsonView::Object(seq![]));
            }
            r
        },
    }
}

pub open spec fn members_view_of(members: Seq<(String, JsonValue)>) -> Seq<(Seq<char>, JsonView)> {
    crate::json::members_view(members)
}

/// The throttle key of a coalescable command call: the command, a colon,
/// and the compact JSON of the payload's identity members.
pub fn command_coalescing_key(command: &str, payload: &JsonValue) -> (r: String)
    ensures
        r@ == coalescing_key(command@, payload@),
{
    let identity = payload_identity(payload);
    let text = compact_json_text(&identity);
    text::concat3(command, ":", text.as_str())
}

/// Calls whose payloads agree on their identity members share a key,
/// whatever else their payloads hold.
pub proof fn law_same_identity_same_key(command: Seq<char>, a: JsonView, b: JsonView)
    requires
        identity_of(a) == identity_of(b),
    ensures
        coalescing_key(command, a) == coalescing_key(command, b),
{
}

/// Whether a payload member's name marks it as naming the command's
/// target, written out for the law below: `id`, a name ending in `_id`, or
/// one that contains `target`, `device`, `player`, `output` or `sink`.
pub open spec fn names_a_target(name: Seq<char>) -> bool {
    name == "id"@ || text::has_suffix(name, "_id"@) || text::has_infix(name, "target"@) || text::has_infix(
        name,
        "device"@,
    ) || text::has_infix(name, "player"@) || text::has_infix(name, "output"@) || text::has_infix(name, "sink"@)
}

/// The coalescing key keeps exactly the members that name a command's
/// target: the key is the command and the serialized identity, and the
/// identity holds every member of the payload whose name marks a target
/// (so payloads that differ there have different identities), and nothing
/// else, in the payload's order.
pub proof fn law_target_members_are_kept_in_the_key(command: Seq<char>, members: Seq<(Seq<char>, JsonView)>)
    ensures
        coalescing_key(command, JsonView::Object(members)) == command + ":"@ + json_text(
            JsonView::Object(identity_members(members)),
        ),
        forall|i: int| 0 <= i < members.len() && names_a_target(members[i].0) ==> identity_members(members).contains(
            #[trigger] members[i],
        ),
        forall|x: (Seq<char>, JsonView)| #[trigger] identity_members(members).contains(x) ==> members.contains(x)
            && names_a_target(x.0),
    decreases members.len(),
{
    if members.len() > 0 {
        let init = members.drop_last();
        law_target_members_are_kept_in_the_key(command, init);
        let rest = identity_members(init);
        let last = members.last();
        assert forall|i: int| 0 <= i < members.len() && names_a_target(members[i].0) implies identity_members(
            members,
        ).contains(#[trigger] members[i]) by {
            if i < members.len() - 1 {
                assert(init[i] == members[i]);
                let k = choose|k: int| 0 <= k < rest.len() && rest[k] == init[i];
                if identity_field(last.0) {
                    assert(identity_members(members)[k] == rest[k]);
                }
            } else {
                assert(identity_members(members) == rest.push(last));
                assert(identity_members(members)[rest.len() as int] == last);
            }
        }
        assert forall|x: (Seq<char>, JsonView)| #[trigger] identity_members(members).contains(x) implies members.contains(x)
            && names_a_target(x.0) by {
            let k = choose|k: int| 0 <= k < identity_members(members).len() && identity_members(members)[k] == x;
            if identity_field(last.0) && k == rest.len() {
                assert(members[members.len() - 1] == x);
            } else {
                assert(rest[k] == x);
                assert(rest.contains(x));
                let j = choose|j: int| 0 <= j < init.len() && init[j] == x;
                assert(members[j] == x);
            }
        }
    }
}

} // verus!

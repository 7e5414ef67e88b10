//! What a component's script state holds of the services it reads: the
//! latest state of each service under the service's name, and the trace of
//! which service last delivered an update. A component that may not read a
//! service learns nothing of it, not even that it updated.
use vstd::prelude::*;
use crate::json::{JsonValue, JsonView};
use crate::routing::{service_name, service_name_from_interface};
use crate::services::{metadata_hash, service_update_metadata, service_update_metadata_fingerprint, update_metadata};
use crate::text;

verus! {

/// The name under which the update trace is kept.
pub const LAST_SERVICE_UPDATE: &'static str = "last_service_update";

/// The values a component's scripts read, by name.
#[derive(Debug)]
pub struct ScriptState {
    pub values: Vec<(String, JsonValue)>,
}

/// The value under `name` among the first `n` entries: the last one set.
pub open spec fn value_among(values: Seq<(String, JsonValue)>, name: Seq<char>, n: int) -> Option<JsonView>
    decreases n,
{
    if n <= 0 {
        None
    } else if values[n - 1].0@ == name {
        Some(values[n - 1].1@)
    } else {
        value_among(values, name, n - 1)
    }
}

impl ScriptState {
    pub open spec fn value(&self, name: Seq<char>) -> Option<JsonView> {
        value_among(self.values@, name, self.values@.len() as int)
    }

    pub fn new() -> (r: ScriptState)
        ensures
            forall|name: Seq<char>| r.value(name) is None,
    {
        ScriptState { values: Vec::new() }
    }

    /// The value under `name`.
    pub fn get(&self, name: &str) -> (r: Option<&JsonValue>)
        ensures
            match r {
                Some(v) => self.value(name@) == Some(v@),
                None => self.value(name@) is None,
            },
    {
        let mut i = self.values.len();
        while i > 0
            invariant
                i <= self.values@.len(),
                self.value(name@) == value_among(self.values@, name@, i as int),
            decreases i,
        {
            if text::str_eq(self.values[i - 1].0.as_str(), name) {
                return Some(&self.values[i - 1].1);
            }
            i = i - 1;
        }
        None
    }

    /// Sets the value under `name`; the others stay.
    pub fn set(&mut self, name: &str, value: JsonValue)
        ensures
            final(self).value(name@) == Some(value@),
            forall|other: Seq<char>| other != name@ ==> #[trigger] final(self).value(other) == old(self).value(other),
    {
        let ghost before = self.values@;
        self.values.push((String::from_str(name), value));
        proof {
            assert forall|other: Seq<char>| other != name@ implies #[trigger] self.value(other) == value_among(
                before,
                other,
                before.len() as int,
            ) by {
                assert(self.values@.len() == before.len() + 1);
                lemma_value_among_prefix(self.values@, before, other, before.len() as int);
            }
            assert(self.values@[before.len() as int].0@ == name@);
        }
    }
}

proof fn lemma_value_among_prefix(longer: Seq<(String, JsonValue)>, shorter: Seq<(String, JsonValue)>, name: Seq<char>, n: int)
    requires
        0 <= n <= shorter.len() <= longer.len(),
        forall|i: int| 0 <= i < shorter.len() ==> longer[i] == shorter[i],
    ensures
        value_among(longer, name, n) == value_among(shorter, name, n),
    decreases n,
{
    if n > 0 {
        lemma_value_among_prefix(longer, shorter, name, n - 1);
    }
}

/// Gives a component's script state the empty update trace it reads before
/// any service updated.
pub fn seed_service_state(state: &mut ScriptState)
    ensures
        final(state).value(LAST_SERVICE_UPDATE@) == Some(update_metadata(""@, ""@)),
        forall|other: Seq<char>| other != LAST_SERVICE_UPDATE@ ==> #[trigger] final(state).value(other) == old(state).value(
            other,
        ),
{
    state.set(LAST_SERVICE_UPDATE, service_update_metadata("", ""));
}

/// Applies an update of service `service_name` from `source_module` to a
/// component's script state: when the component may read the service
/// (`has_read`), the state is kept under the service's name and the trace
/// names the service and its source; otherwise nothing changes.
pub fn apply_service_update_with_name(
    state: &mut ScriptState,
    has_read: bool,
    service_name: &str,
    source_module: &str,
    payload: &JsonValue,
)
    ensures
        has_read ==> final(state).value(service_name@) == Some(payload@),
        has_read && service_name@ != LAST_SERVICE_UPDATE@ ==> final(state).value(LAST_SERVICE_UPDATE@) == Some(
            update_metadata(service_name@, source_module@),
        ),
        has_read ==> forall|other: Seq<char>| other != LAST_SERVICE_UPDATE@ && other != service_name@
            ==> #[trigger] final(state).value(other) == old(state).value(other),
        !has_read ==> final(state).value(LAST_SERVICE_UPDATE@) == old(state).value(LAST_SERVICE_UPDATE@),
        !has_read ==> forall|other: Seq<char>| #[trigger] final(state).value(other) == old(state).value(other),
{
    if has_read {
        state.set(LAST_SERVICE_UPDATE, service_update_metadata(service_name, source_module));
        state.set(service_name, payload.duplicate());
    }
}

/// `apply_service_update_with_name` for the service of interface `service`.
pub fn apply_service_update(state: &mut ScriptState, has_read: bool, service: &str, source_module: &str, payload: &JsonValue)
    ensures
        has_read ==> final(state).value(service_name(service@)) == Some(payload@),
        has_read && service_name(service@) != LAST_SERVICE_UPDATE@ ==> final(state).value(LAST_SERVICE_UPDATE@) == Some(
            update_metadata(service_name(service@), source_module@),
        ),
        has_read ==> forall|other: Seq<char>| other != LAST_SERVICE_UPDATE@ && other != service_name(service@)
            ==> #[trigger] final(state).value(other) == old(state).value(other),
        !has_read ==> forall|other: Seq<char>| #[trigger] final(state).value(other) == old(state).value(other),
{
    let name = service_name_from_interface(service);
    apply_service_update_with_name(state, has_read, name.as_str(), source_module, payload);
}

/// The writes an update makes to a component's script state whose values
/// are cached by fingerprint: none without read access; for a component not
/// seen reading the service, the value alone, installed without marking the
/// component as changed; otherwise the update trace under its fingerprint
/// and the value.
#[derive(Debug)]
pub enum FingerprintedUpdate {
    Skip,
    Unobserved { name: String, fingerprint: u64 },
    Observed { trace: JsonValue, trace_fingerprint: u64, name: String, fingerprint: u64 },
}

pub open spec fn fingerprinted_update_is(
    r: FingerprintedUpdate,
    has_read: bool,
    observed: bool,
    service_name: Seq<char>,
    source_module: Seq<char>,
    fingerprint: u64,
) -> bool {
    if !has_read {
        r is Skip
    } else if !observed {
        r matches FingerprintedUpdate::Unobserved { name, fingerprint: f } && name@ == service_name && f == fingerprint
    } else {
        r matches FingerprintedUpdate::Observed { trace, trace_fingerprint, name, fingerprint: f } && trace@
            == update_metadata(service_name, source_module) && trace_fingerprint == metadata_hash(service_name, source_module)
            && name@ == service_name && f == fingerprint
    }
}

/// The writes of an update of `service_name` from `source_module` whose
/// payload has `fingerprint`.
pub fn apply_service_update_with_name_and_fingerprint(
    has_read: bool,
    observed: bool,
    service_name: &str,
    source_module: &str,
    fingerprint: u64,
) -> (r: FingerprintedUpdate)
    ensures
        fingerprinted_update_is(r, has_read, observed, service_name@, source_module@, fingerprint),
{
    if !has_read {
        return FingerprintedUpdate::Skip;
    }
    if !observed {
        return FingerprintedUpdate::Unobserved { name: String::from_str(service_name), fingerprint };
    }
    FingerprintedUpdate::Observed {
        trace: service_update_metadata(service_name, source_module),
        trace_fingerprint: service_update_metadata_fingerprint(service_name, source_module),
        name: String::from_str(service_name),
        fingerprint,
    }
}

} // verus!

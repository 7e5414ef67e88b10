//! Verified decision logic of the MESH development shell: effect scheduling,
//! request routing, service-state bookkeeping and surface visibility.
use vstd::prelude::*;

pub mod text;
pub mod json;
pub mod types;
pub mod effects;
pub mod scheduler_laws;
pub mod requests;
pub mod routing;
pub mod keyed;
pub mod shell;
pub mod services;
pub mod backend;
pub mod input;
pub mod snapshot;
pub mod sounds;
pub mod apply;
pub mod throttle;
pub mod dispatch;
pub mod focus;
pub mod coalesce;
pub mod events;
pub mod modules;
pub mod bound_state;
pub mod delivery;
pub mod roles;
pub mod settings;
pub mod contracts;
pub mod script_state;
pub mod debug_text;

verus! {

/// Whether a service state field is runtime metadata rather than contract state.
pub fn is_runtime_metadata_state_field(name: &str) -> (r: bool)
    ensures
        r == (name@ == "source_module"@),
{
    text::str_eq(name, "source_module")
}

} // verus!

//! Checking what a provider or a caller sent against an interface contract:
//! which declared fields are missing or hold a value of another type, and
//! the warning written for each. Whether a declared type admits an absent
//! field and whether a value has that type are the interface layer's type
//! grammar's verdicts, handed in per field.
use vstd::prelude::*;
use crate::json::{JsonValue, JsonView};
use crate::services::error_views;
use crate::shell::Shell;
use crate::text;

verus! {

/// The JSON type name of a value.
pub open spec fn json_type(v: JsonView) -> Seq<char> {
    match v {
        JsonView::Null => "null"@,
        JsonView::Bool(_) => "boolean"@,
        JsonView::Number(_) => "number"@,
        JsonView::Str(_) => "string"@,
        JsonView::Array(_) => "array"@,
        JsonView::Object(_) => "object"@,
    }
}

pub fn json_type_name(v: &JsonValue) -> (r: &'static str)
    ensures
        r@ == json_type(v@),
{
    proof {
        reveal_strlit("null");
        reveal_strlit("boolean");
        reveal_strlit("number");
        reveal_strlit("string");
        reveal_strlit("array");
        reveal_strlit("object");
    }
    match v {
        JsonValue::Null => "null",
        JsonValue::Bool(_) => "boolean",
        JsonValue::Number(_) => "number",
        JsonValue::Str(_) => "string",
        JsonValue::Array(_) => "array",
        JsonValue::Object(_) => "object",
    }
}

/// A declared field checked against what was sent: its name and declared
/// type, whether that type admits the field's absence, and whether the
/// value sent for it, if any, has that type.
#[derive(Debug)]
pub struct FieldCheck {
    pub name: String,
    pub declared_type: String,
    pub optional: bool,
    pub matches: bool,
}

/// What is being checked: an interface's state, the payload of one of its
/// events, or the arguments of one of its methods.
#[derive(Debug)]
pub enum ContractSubject {
    State { interface: String },
    Event { interface: String, event: String },
    MethodInput { interface: String, command: String },
}

pub enum SubjectView {
    State { interface: Seq<char> },
    Event { interface: Seq<char>, event: Seq<char> },
    MethodInput { interface: Seq<char>, command: Seq<char> },
}

impl View for ContractSubject {
    type V = SubjectView;

    open spec fn view(&self) -> SubjectView {
        match self {
            ContractSubject::State { interface } => SubjectView::State { interface: interface@ },
            ContractSubject::Event { interface, event } => SubjectView::Event { interface: interface@, event: event@ },
            ContractSubject::MethodInput { interface, command } => SubjectView::MethodInput {
                interface: interface@,
                command: command@,
            },
        }
    }
}

/// The warning for a value sent that is not a JSON object.
pub open spec fn not_object_warning(s: SubjectView, got: Seq<char>) -> Seq<char> {
    match s {
        SubjectView::State { interface } => "state for "@ + interface + " must be a JSON object, got "@ + got,
        SubjectView::Event { interface, event } => "event '"@ + event + "' for "@ + interface
            + " must be a JSON object, got "@ + got,
        SubjectView::MethodInput { interface, command } => "method '"@ + command + "' for "@ + interface
            + " must receive a JSON object, got "@ + got,
    }
}

/// The warning for a required field that was not sent.
pub open spec fn missing_warning(s: SubjectView, name: Seq<char>) -> Seq<char> {
    match s {
        SubjectView::State { interface } => "missing required state field '"@ + name + "' for "@ + interface,
        SubjectView::Event { interface, event } => "event '"@ + event + "' for "@ + interface
            + " missing required payload field '"@ + name + "'"@,
        SubjectView::MethodInput { interface, command } => "method '"@ + command + "' for "@ + interface
            + " missing required argument '"@ + name + "'"@,
    }
}

/// The warning for a field sent with a value of another type.
pub open spec fn mismatch_warning(s: SubjectView, name: Seq<char>, declared: Seq<char>, got: Seq<char>) -> Seq<char> {
    match s {
        SubjectView::State { interface } => "state field '"@ + name + "' for "@ + interface + " expected "@ + declared
            + ", got "@ + got,
        SubjectView::Event { interface, event } => "event '"@ + event + "' for "@ + interface + " payload field '"@
            + name + "' expected "@ + declared + ", got "@ + got,
        SubjectView::MethodInput { interface, command } => "method '"@ + command + "' for "@ + interface
            + " argument '"@ + name + "' expected "@ + declared + ", got "@ + got,
    }
}

/// The warnings for the first `n` checked fields against the members of
/// `sent`, in declaration order.
pub open spec fn field_warnings(s: SubjectView, checks: Seq<FieldCheck>, sent: JsonView, n: int) -> Seq<Seq<char>>
    decreases n,
{
    if n <= 0 {
        seq![]
    } else {
        let rest = field_warnings(s, checks, sent, n - 1);
        let c = checks[n - 1];
        match sent.field(c.name@) {
            None => if c.optional {
                rest
            } else {
                rest.push(missing_warning(s, c.name@))
            },
            Some(v) => if c.matches {
                rest
            } else {
                rest.push(mismatch_warning(s, c.name@, c.declared_type@, json_type(v)))
            },
        }
    }
}

/// The warnings about what was sent: one when it is not an object,
/// otherwise one per missing required field and per field of another type.
pub open spec fn contract_warnings_of(s: SubjectView, checks: Seq<FieldCheck>, sent: JsonView) -> Seq<Seq<char>> {
    if sent is Object {
        field_warnings(s, checks, sent, checks.len() as int)
    } else {
        seq![not_object_warning(s, json_type(sent))]
    }
}

pub open spec fn texts(v: Seq<String>) -> Seq<Seq<char>> {
    Seq::new(v.len(), |i: int| v[i]@)
}

fn not_object_text(subject: &ContractSubject, got: &str) -> (r: String)
    ensures
        r@ == not_object_warning(subject@, got@),
{
    match subject {
        ContractSubject::State { interface } => text::concat3("state for ", interface.as_str(), " must be a JSON object, got ").concat(
            got,
        ),
        ContractSubject::Event { interface, event } => text::concat3("event '", event.as_str(), "' for ").concat(
            interface.as_str(),
        ).concat(" must be a JSON object, got ").concat(got),
        ContractSubject::MethodInput { interface, command } => text::concat3("method '", command.as_str(), "' for ").concat(
            interface.as_str(),
        ).concat(" must receive a JSON object, got ").concat(got),
    }
}

fn missing_text(subject: &ContractSubject, name: &str) -> (r: String)
    ensures
        r@ == missing_warning(subject@, name@),
{
    match subject {
        ContractSubject::State { interface } => text::concat3("missing required state field '", name, "' for ").concat(
            interface.as_str(),
        ),
        ContractSubject::Event { interface, event } => text::concat3("event '", event.as_str(), "' for ").concat(
            interface.as_str(),
        ).concat(" missing required payload field '").concat(name).concat("'"),
        ContractSubject::MethodInput { interface, command } => text::concat3("method '", command.as_str(), "' for ").concat(
            interface.as_str(),
        ).concat(" missing required argument '").concat(name).concat("'"),
    }
}

fn mismatch_text(subject: &ContractSubject, name: &str, declared: &str, got: &str) -> (r: String)
    ensures
        r@ == mismatch_warning(subject@, name@, declared@, got@),
{
    match subject {
        ContractSubject::State { interface } => text::concat3("state field '", name, "' for ").concat(interface.as_str()).concat(
            " expected ",
        ).concat(declared).concat(", got ").concat(got),
        ContractSubject::Event { interface, event } => text::concat3("event '", event.as_str(), "' for ").concat(
            interface.as_str(),
        ).concat(" payload field '").concat(name).concat("' expected ").concat(declared).concat(", got ").concat(got),
        ContractSubject::MethodInput { interface, command } => text::concat3("method '", command.as_str(), "' for ").concat(
            interface.as_str(),
        ).concat(" argument '").concat(name).concat("' expected ").concat(declared).concat(", got ").concat(got),
    }
}

/// The warnings about `sent` for `subject`, given the checked fields.
pub fn contract_warnings(subject: &ContractSubject, checks: &Vec<FieldCheck>, sent: &JsonValue) -> (r: Vec<String>)
    ensures
        texts(r@) == contract_warnings_of(subject@, checks@, sent@),
{
    let mut out: Vec<String> = Vec::new();
    if !sent.is_object() {
        out.push(not_object_text(subject, json_type_name(sent)));
        proof {
            assert(texts(out@) =~= seq![not_object_warning(subject@, json_type(sent@))]);
        }
        return out;
    }
    let mut i: usize = 0;
    while i < checks.len()
        invariant
            sent@ is Object,
            i <= checks@.len(),
            texts(out@) == field_warnings(subject@, checks@, sent@, i as int),
        decreases checks.len() - i,
    {
        let c = &checks[i];
        let ghost before = out@;
        match sent.get(c.name.as_str()) {
            None => {
                if !c.optional {
                    out.push(missing_text(subject, c.name.as_str()));
                }
            },
            Some(v) => {
                if !c.matches {
                    out.push(mismatch_text(subject, c.name.as_str(), c.declared_type.as_str(), json_type_name(v)));
                }
            },
        }
        proof {
            if out@.len() > before.len() {
                assert(texts(out@) =~= texts(before).push(out@.last()@));
            } else {
                assert(out@ == before);
            }
        }
        i = i + 1;
    }
    out
}

// ---------------------------------------------------------------------------
// Undeclared methods and events, results, empty event payloads.

pub open spec fn undeclared_method_warning(interface: Seq<char>, command: Seq<char>) -> Seq<char> {
    "method '"@ + command + "' is not declared for "@ + interface
}

pub fn undeclared_method_text(interface: &str, command: &str) -> (r: String)
    ensures
        r@ == undeclared_method_warning(interface@, command@),
{
    text::concat3("method '", command, "' is not declared for ").concat(interface)
}

pub open spec fn undeclared_event_warning(interface: Seq<char>, event: Seq<char>) -> Seq<char> {
    "event '"@ + event + "' is not declared for "@ + interface
}

pub fn undeclared_event_text(interface: &str, event: &str) -> (r: String)
    ensures
        r@ == undeclared_event_warning(interface@, event@),
{
    text::concat3("event '", event, "' is not declared for ").concat(interface)
}

pub open spec fn unknown_interface_event_warning(interface: Seq<char>, event: Seq<char>) -> Seq<char> {
    "event '"@ + event + "' emitted for unknown interface "@ + interface
}

pub fn unknown_interface_event_text(interface: &str, event: &str) -> (r: String)
    ensures
        r@ == unknown_interface_event_warning(interface@, event@),
{
    text::concat3("event '", event, "' emitted for unknown interface ").concat(interface)
}

/// The warnings about an event declared without payload fields: its
/// payload must be an empty object.
pub open spec fn empty_event_warnings(interface: Seq<char>, event: Seq<char>, sent: JsonView) -> Seq<Seq<char>> {
    match sent {
        JsonView::Object(members) => if members.len() == 0 {
            seq![]
        } else {
            seq!["event '"@ + event + "' for "@ + interface + " expected an empty object payload"@]
        },
        _ => seq![not_object_warning(SubjectView::Event { interface, event }, json_type(sent))],
    }
}

pub fn empty_event_payload_warnings(interface: &str, event: &str, sent: &JsonValue) -> (r: Vec<String>)
    ensures
        texts(r@) == empty_event_warnings(interface@, event@, sent@),
{
    let mut out: Vec<String> = Vec::new();
    match sent {
        JsonValue::Object(members) => {
            if members.len() > 0 {
                out.push(text::concat3("event '", event, "' for ").concat(interface).concat(" expected an empty object payload"));
            }
            proof {
                crate::json::lemma_members_view(members@);
            }
        },
        _ => {
            let subject = ContractSubject::Event { interface: String::from_str(interface), event: String::from_str(event) };
            out.push(not_object_text(&subject, json_type_name(sent)));
        },
    }
    proof {
        assert(texts(out@) =~= empty_event_warnings(interface@, event@, sent@));
    }
    out
}

/// The warning about a method result, given whether it has the declared
/// return type: none when it has.
pub open spec fn result_warnings(interface: Seq<char>, command: Seq<char>, declared_return: Seq<char>, matches: bool, result: JsonView) -> Seq<
    Seq<char>,
> {
    if matches {
        seq![]
    } else {
        seq!["method '"@ + command + "' for "@ + interface + " returned "@ + declared_return + ", got "@ + json_type(result)]
    }
}

pub fn method_result_warnings(interface: &str, command: &str, declared_return: &str, matches: bool, result: &JsonValue) -> (r:
    Vec<String>)
    ensures
        texts(r@) == result_warnings(interface@, command@, declared_return@, matches, result@),
{
    let mut out: Vec<String> = Vec::new();
    if !matches {
        out.push(text::concat3("method '", command, "' for ").concat(interface).concat(" returned ").concat(declared_return).concat(
            ", got ",
        ).concat(json_type_name(result)));
    }
    proof {
        assert(texts(out@) =~= result_warnings(interface@, command@, declared_return@, matches, result@));
    }
    out
}

/// The warnings about the payload of event `event` of `interface`, given
/// what the contract declares: no contract for the interface, no such
/// event, an event without payload fields, or its checked fields.
pub open spec fn event_warnings_of(
    interface: Seq<char>,
    event: Seq<char>,
    declared: Option<Option<Seq<FieldCheck>>>,
    sent: JsonView,
) -> Seq<Seq<char>> {
    match declared {
        None => seq![unknown_interface_event_warning(interface, event)],
        Some(None) => seq![undeclared_event_warning(interface, event)],
        Some(Some(checks)) => if checks.len() == 0 {
            empty_event_warnings(interface, event, sent)
        } else {
            contract_warnings_of(SubjectView::Event { interface, event }, checks, sent)
        },
    }
}

pub open spec fn declared_view(d: Option<Option<Vec<FieldCheck>>>) -> Option<Option<Seq<FieldCheck>>> {
    match d {
        None => None,
        Some(None) => Some(None),
        Some(Some(v)) => Some(Some(v@)),
    }
}

pub fn event_contract_warnings(
    interface: &str,
    event: &str,
    declared: Option<Option<Vec<FieldCheck>>>,
    sent: &JsonValue,
) -> (r: Vec<String>)
    ensures
        texts(r@) == event_warnings_of(interface@, event@, declared_view(declared), sent@),
{
    match declared {
        None => {
            let out = vec![unknown_interface_event_text(interface, event)];
            proof {
                assert(texts(out@) =~= seq![unknown_interface_event_warning(interface@, event@)]);
            }
            out
        },
        Some(None) => {
            let out = vec![undeclared_event_text(interface, event)];
            proof {
                assert(texts(out@) =~= seq![undeclared_event_warning(interface@, event@)]);
            }
            out
        },
        Some(Some(checks)) => {
            if checks.len() == 0 {
                empty_event_payload_warnings(interface, event, sent)
            } else {
                let subject = ContractSubject::Event { interface: String::from_str(interface), event: String::from_str(event) };
                contract_warnings(&subject, &checks, sent)
            }
        },
    }
}

// ---------------------------------------------------------------------------
// Checking a provider's state.

/// The state fields checked: the declared ones but the runtime metadata field.
pub open spec fn contract_state_checks(checks: Seq<FieldCheck>) -> Seq<FieldCheck>
    decreases checks.len(),
{
    if checks.len() == 0 {
        seq![]
    } else if checks.last().name@ == "source_module"@ {
        contract_state_checks(checks.drop_last())
    } else {
        contract_state_checks(checks.drop_last()).push(checks.last())
    }
}

impl Shell {
    /// Checks a provider's state of `interface` against the contract's
    /// state fields (`checks`), leaving out the runtime metadata field, and
    /// records each warning as a contract warning of the provider; whether
    /// there was none.
    pub fn validate_service_state_shape(
        &mut self,
        interface: &str,
        provider_id: &str,
        checks: Vec<FieldCheck>,
        sent: &JsonValue,
    ) -> (r: bool)
        ensures
            ({
                let ws = contract_warnings_of(
                    SubjectView::State { interface: interface@ },
                    contract_state_checks(checks@),
                    sent@,
                );
                &&& r == (ws.len() == 0)
                &&& error_views(final(self).diagnostics@) == error_views(old(self).diagnostics@) + Seq::new(
                    ws.len(),
                    |i: int| (provider_id@, "service_contract_warning"@, crate::services::contract_warning_message(interface@, ws[i])),
                )
            }),
            final(self).components == old(self).components,
            final(self).effect_scheduler == old(self).effect_scheduler,
    {
        let ghost all = checks@;
        let mut kept: Vec<FieldCheck> = Vec::new();
        let mut rest = checks;
        let ghost mut done: int = 0;
        while rest.len() > 0
            invariant
                0 <= done <= all.len(),
                rest@ == all.subrange(done, all.len() as int),
                kept@ == contract_state_checks(all.subrange(0, done)),
            decreases rest.len(),
        {
            let c = rest.remove(0);
            proof {
                assert(all.subrange(0, done + 1).drop_last() =~= all.subrange(0, done));
                assert(all.subrange(0, done + 1).last() == c);
            }
            if !crate::is_runtime_metadata_state_field(c.name.as_str()) {
                kept.push(c);
            }
            proof {
                done = done + 1;
                assert(rest@ =~= all.subrange(done, all.len() as int));
            }
        }
        proof {
            assert(all.subrange(0, all.len() as int) =~= all);
        }
        let subject = ContractSubject::State { interface: String::from_str(interface) };
        let warnings = contract_warnings(&subject, &kept, sent);
        let ghost ws = texts(warnings@);
        let ghost base = error_views(self.diagnostics@);
        let mut i: usize = 0;
        while i < warnings.len()
            invariant
                i <= warnings@.len(),
                ws == texts(warnings@),
                error_views(self.diagnostics@) == base + Seq::new(
                    i as nat,
                    |k: int| (provider_id@, "service_contract_warning"@, crate::services::contract_warning_message(interface@, ws[k])),
                ),
                self.components == old(self).components,
                self.effect_scheduler == old(self).effect_scheduler,
            decreases warnings.len() - i,
        {
            let ghost before = error_views(self.diagnostics@);
            self.record_service_contract_warning(interface, provider_id, warnings[i].as_str());
            proof {
                assert(error_views(self.diagnostics@) =~= base + Seq::new(
                    (i + 1) as nat,
                    |k: int| (provider_id@, "service_contract_warning"@, crate::services::contract_warning_message(interface@, ws[k])),
                ));
            }
            i = i + 1;
        }
        warnings.len() == 0
    }
}

} // verus!

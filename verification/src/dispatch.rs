//! Dispatching a service command: the checks a call passes before it is
//! routed, where it goes, and the result recorded for it. Sending to a
//! backend handler and reading the clock are left to the caller, which hands
//! in what the contract-aware checks of the interface layer concluded.
use vstd::prelude::*;
use crate::json::{JsonValue, JsonView, NumberView};
use crate::requests::{core_service_request, core_service_request_of, failure_payload};
use crate::routing::control_capability;
use crate::services::{contract_of, declares_method, error_views, first_method_coalesces, running_provider, decimal_text_u64, decimal_u64};
use crate::shell::{Shell, ShellAction, effects_enqueued};
use crate::apply::{ApplyOutcome, request_applied, lemma_followups_bounded};
use crate::effects::{enqueue_all, followup_effects};
use crate::text;
use crate::bound_state::{CacheView, PublishedState, ServiceStateCache, StateBinding, bound_applied, bound_value, running_view, writable};
use crate::throttle::{AdmissionView, CommandThrottle, ThrottleAdmission, ThrottleKey, admitted};
use crate::coalesce::{coalescing_key, command_coalescing_key};
use crate::types::{CapabilitySet, CoreRequest, RequestView, opt_request, opt_text};

verus! {

/// A result with its call identifier: `result["call_id"] = call_id`.
pub open spec fn with_call_id(v: JsonView, call_id: u64) -> JsonView {
    v.with_field("call_id"@, JsonView::Number(NumberView::PosInt(call_id)))
}

pub open spec fn unsupported_message(requested: Seq<char>, command: Seq<char>) -> Seq<char> {
    "unsupported_service_command: "@ + requested + "."@ + command
}

/// The texts joined with `sep` between each two.
pub open spec fn joined(parts: Seq<Seq<char>>, sep: Seq<char>) -> Seq<char>
    decreases parts.len(),
{
    if parts.len() == 0 {
        seq![]
    } else if parts.len() == 1 {
        parts[0]
    } else {
        joined(parts.drop_last(), sep) + sep + parts.last()
    }
}

/// What the debug tooling records of one service command call.
#[derive(Debug)]
pub struct MethodCallRecord {
    pub call_id: u64,
    pub interface: String,
    pub provider_id: Option<String>,
    pub source_module_id: String,
    pub command: String,
    pub status: String,
    pub queued: bool,
    pub result: JsonValue,
    pub error: Option<String>,
}

pub struct RecordView {
    pub call_id: u64,
    pub interface: Seq<char>,
    pub provider_id: Option<Seq<char>>,
    pub source_module_id: Seq<char>,
    pub command: Seq<char>,
    pub status: Seq<char>,
    pub queued: bool,
    pub result: JsonView,
    pub error: Option<Seq<char>>,
}

impl View for MethodCallRecord {
    type V = RecordView;

    open spec fn view(&self) -> RecordView {
        RecordView {
            call_id: self.call_id,
            interface: self.interface@,
            provider_id: opt_text(self.provider_id),
            source_module_id: self.source_module_id@,
            command: self.command@,
            status: self.status@,
            queued: self.queued,
            result: self.result@,
            error: opt_text(self.error),
        }
    }
}

/// A command call turned away before routing: the answer to the caller,
/// the record of the call and the lifecycle error recorded, if any.
pub struct Refusal {
    pub answer: JsonView,
    pub record: RecordView,
    pub error: Option<(Seq<char>, Seq<char>, Seq<char>)>,
}

/// A refusal whose answer is `{ok: false, error, status, call_id}`; the
/// record keeps the answer with or without the call identifier.
pub open spec fn refusal(
    interface: Seq<char>,
    module: Seq<char>,
    command: Seq<char>,
    call_id: u64,
    error: Seq<char>,
    status: Seq<char>,
    recorded_with_id: bool,
    diagnostic: bool,
) -> Refusal {
    let answer = with_call_id(failure_payload(error, status), call_id);
    Refusal {
        answer,
        record: RecordView {
            call_id,
            interface,
            provider_id: None,
            source_module_id: module,
            command,
            status,
            queued: false,
            result: if recorded_with_id {
                answer
            } else {
                failure_payload(error, status)
            },
            error: Some(error),
        },
        error: if diagnostic {
            Some((module, status, error))
        } else {
            None
        },
    }
}

/// Whether a caller may call `interface`: with a contract, the interface
/// layer's verdict; without one, whether it holds the control capability.
pub open spec fn authorized(s: Shell, interface: Seq<char>, caps: CapabilitySet, contract_allows: bool) -> bool {
    match contract_of(s.interface_contracts@, interface) {
        Some(_) => contract_allows,
        None => caps.grants(control_capability(interface)),
    }
}

/// The refusal, if any, of a command call on `interface` (named `requested`
/// by the caller): an unauthorized call, a command the contract does not
/// declare, a payload the backend layer rejects, or, with a contract, a
/// payload that breaks it.
pub open spec fn gate(
    s: Shell,
    requested: Seq<char>,
    interface: Seq<char>,
    command: Seq<char>,
    module: Seq<char>,
    caps: CapabilitySet,
    contract_allows: bool,
    payload_error: Option<Seq<char>>,
    warnings: Seq<Seq<char>>,
    call_id: u64,
) -> Option<Refusal> {
    let contract = contract_of(s.interface_contracts@, interface);
    if !authorized(s, interface, caps, contract_allows) {
        Some(refusal(interface, module, command, call_id, "capability_denied"@, "capability_denied"@, false, false))
    } else if contract is Some && !declares_method(contract.unwrap(), command) {
        Some(
            refusal(
                interface,
                module,
                command,
                call_id,
                unsupported_message(requested, command),
                "unsupported_service_command"@,
                false,
                true,
            ),
        )
    } else if payload_error is Some {
        Some(refusal(interface, module, command, call_id, payload_error.unwrap(), "invalid_arguments"@, true, false))
    } else if contract is Some && warnings.len() > 0 {
        Some(
            refusal(
                interface,
                module,
                command,
                call_id,
                joined(warnings, "; "@),
                "invalid_service_command_payload"@,
                true,
                true,
            ),
        )
    } else {
        None
    }
}

pub open spec fn text_views(v: Seq<String>) -> Seq<Seq<char>> {
    Seq::new(v.len(), |i: int| v[i]@)
}

fn join_texts(parts: &Vec<String>, sep: &str) -> (r: String)
    ensures
        r@ == joined(text_views(parts@), sep@),
{
    let mut out = String::new();
    let mut i: usize = 0;
    while i < parts.len()
        invariant
            i <= parts@.len(),
            out@ == joined(text_views(parts@).subrange(0, i as int), sep@),
        decreases parts.len() - i,
    {
        let ghost before = text_views(parts@).subrange(0, i as int);
        let ghost after = text_views(parts@).subrange(0, i + 1);
        proof {
            assert(after.drop_last() =~= before);
            assert(after.last() == parts@[i as int]@);
        }
        if i == 0 {
            proof {
                assert(after.len() == 1);
            }
            out = parts[i].clone();
        } else {
            out = text::concat3(out.as_str(), sep, parts[i].as_str());
        }
        i = i + 1;
    }
    proof {
        assert(text_views(parts@).subrange(0, parts@.len() as int) =~= text_views(parts@));
    }
    out
}

fn failure_object(error: &str, status: &str) -> (r: JsonValue)
    ensures
        r@ == failure_payload(error@, status@),
{
    let mut v = JsonValue::empty_object();
    v.set_field("ok", JsonValue::boolean(false));
    v.set_field("error", JsonValue::text(error));
    v.set_field("status", JsonValue::text(status));
    v
}

fn refused(
    interface: &str,
    module: &str,
    command: &str,
    call_id: u64,
    error: &str,
    status: &str,
    recorded_with_id: bool,
) -> (r: (JsonValue, MethodCallRecord))
    ensures
        r.0@ == refusal(interface@, module@, command@, call_id, error@, status@, recorded_with_id, false).answer,
        r.1@ == refusal(interface@, module@, command@, call_id, error@, status@, recorded_with_id, false).record,
{
    let mut answer = failure_object(error, status);
    let recorded = if recorded_with_id {
        answer.set_field("call_id", JsonValue::unsigned(call_id));
        answer.duplicate()
    } else {
        let r = answer.duplicate();
        answer.set_field("call_id", JsonValue::unsigned(call_id));
        r
    };
    let record = MethodCallRecord {
        call_id,
        interface: String::from_str(interface),
        provider_id: None,
        source_module_id: String::from_str(module),
        command: String::from_str(command),
        status: String::from_str(status),
        queued: false,
        result: recorded,
        error: Some(String::from_str(error)),
    };
    (answer, record)
}

impl Shell {
    /// Checks a command call before it is routed, in order: the caller's
    /// authority, that the interface's contract declares the command, the
    /// backend layer's payload check (`payload_error`), and, with a contract,
    /// the contract's payload checks (`contract_warnings`). A refused call is
    /// answered with `ok: false`, its error, status and call identifier; an
    /// undeclared command or a payload that breaks the contract is also
    /// recorded as a lifecycle error of the calling module.
    pub fn gate_service_command(
        &mut self,
        requested: &str,
        interface: &str,
        command: &str,
        source_module_id: &str,
        source_capabilities: &CapabilitySet,
        contract_allows: bool,
        payload_error: Option<String>,
        contract_warnings: Vec<String>,
        call_id: u64,
    ) -> (r: Option<(JsonValue, MethodCallRecord)>)
        ensures
            ({
                let expected = gate(
                    *old(self),
                    requested@,
                    interface@,
                    command@,
                    source_module_id@,
                    *source_capabilities,
                    contract_allows,
                    opt_text(payload_error),
                    text_views(contract_warnings@),
                    call_id,
                );
                &&& r is Some <==> expected is Some
                &&& r matches Some((answer, record)) ==> answer@ == expected.unwrap().answer && record@ == expected.unwrap().record
                &&& error_views(final(self).diagnostics@) == match expected {
                    Some(refused) => match refused.error {
                        Some(e) => error_views(old(self).diagnostics@).push(e),
                        None => error_views(old(self).diagnostics@),
                    },
                    None => error_views(old(self).diagnostics@),
                }
                &&& *final(self) == (Shell { diagnostics: final(self).diagnostics, ..*old(self) })
            }),
    {
        let has_contract = self.interface_contract_exists(interface);
        let allowed = if has_contract {
            contract_allows
        } else {
            let caps = crate::routing::service_capabilities(interface);
            source_capabilities.is_granted(caps.control.as_str())
        };
        if !allowed {
            return Some(refused(interface, source_module_id, command, call_id, "capability_denied", "capability_denied", false));
        }
        if !self.service_command_is_supported(interface, command) {
            let message = text::concat3("unsupported_service_command: ", requested, ".").concat(command);
            let refusal = refused(
                interface,
                source_module_id,
                command,
                call_id,
                message.as_str(),
                "unsupported_service_command",
                false,
            );
            self.record_lifecycle_error(String::from_str(source_module_id), "unsupported_service_command", message);
            return Some(refusal);
        }
        if let Some(message) = payload_error {
            return Some(refused(interface, source_module_id, command, call_id, message.as_str(), "invalid_arguments", true));
        }
        if has_contract && contract_warnings.len() > 0 {
            let message = join_texts(&contract_warnings, "; ");
            let refusal = refused(
                interface,
                source_module_id,
                command,
                call_id,
                message.as_str(),
                "invalid_service_command_payload",
                true,
            );
            self.record_lifecycle_error(String::from_str(source_module_id), "invalid_service_command_payload", message);
            return Some(refusal);
        }
        None
    }
}

/// Where a command call that passed its checks goes.
#[derive(Debug)]
pub enum ServiceRoute {
    /// The shell serves the interface itself and applies the request.
    Core(CoreRequest),
    /// A backend handler takes the command, throttled when it coalesces.
    Handler { coalesce: bool },
    /// Nobody serves the interface.
    Unavailable,
}

pub enum RouteView {
    Core(RequestView),
    Handler { coalesce: bool },
    Unavailable,
}

impl View for ServiceRoute {
    type V = RouteView;

    open spec fn view(&self) -> RouteView {
        match self {
            ServiceRoute::Core(r) => RouteView::Core(r@),
            ServiceRoute::Handler { coalesce } => RouteView::Handler { coalesce: *coalesce },
            ServiceRoute::Unavailable => RouteView::Unavailable,
        }
    }
}

/// The route of a command call: the request a core provider made of it,
/// else the request of a shell-owned configuration interface, else the
/// interface's backend handler, else nowhere.
pub open spec fn route_of(
    s: Shell,
    interface: Seq<char>,
    command: Seq<char>,
    payload: JsonView,
    provider_request: Option<RequestView>,
    has_handler: bool,
) -> RouteView {
    match provider_request {
        Some(r) => RouteView::Core(r),
        None => match core_service_request_of(interface, command, payload) {
            Some(r) => RouteView::Core(r),
            None => if has_handler {
                RouteView::Handler {
                    coalesce: match contract_of(s.interface_contracts@, interface) {
                        Some(c) => first_method_coalesces(c, command),
                        None => false,
                    },
                }
            } else {
                RouteView::Unavailable
            },
        },
    }
}

impl Shell {
    /// Routes a command call that passed its checks. `provider_request` is
    /// what a core service provider made of the call, and `has_handler`
    /// whether a backend handler serves the interface.
    pub fn service_command_route(
        &self,
        interface: &str,
        command: &str,
        payload: &JsonValue,
        provider_request: Option<CoreRequest>,
        has_handler: bool,
    ) -> (r: ServiceRoute)
        ensures
            r@ == route_of(*self, interface@, command@, payload@, opt_request(provider_request), has_handler),
    {
        if let Some(request) = provider_request {
            return ServiceRoute::Core(request);
        }
        if let Some(request) = core_service_request(interface, command, payload) {
            return ServiceRoute::Core(request);
        }
        if has_handler {
            ServiceRoute::Handler { coalesce: self.service_command_is_coalescable(interface, command) }
        } else {
            ServiceRoute::Unavailable
        }
    }
}

/// `{ok: true, status: "applied"}`.
pub open spec fn applied_answer() -> JsonView {
    JsonView::Object(seq![]).with_field("ok"@, JsonView::Bool(true)).with_field("status"@, JsonView::Str("applied"@))
}

/// The answer to a command the shell applied itself: applied, or failed
/// with the error of the work it stood for.
pub open spec fn core_answer(error: Option<Seq<char>>) -> JsonView {
    match error {
        None => applied_answer(),
        Some(e) => failure_payload(e, "failed"@),
    }
}

pub fn core_service_answer(error: Option<String>) -> (r: JsonValue)
    ensures
        r@ == core_answer(opt_text(error)),
{
    match error {
        None => {
            let mut v = JsonValue::empty_object();
            v.set_field("ok", JsonValue::boolean(true));
            v.set_field("status", JsonValue::text("applied"));
            v
        },
        Some(e) => failure_object(e.as_str(), "failed"),
    }
}

/// `{ok: true, queued: true}`, with `throttled: true` for a parked call.
pub open spec fn queued_answer(throttled: bool) -> JsonView {
    let v = JsonView::Object(seq![]).with_field("ok"@, JsonView::Bool(true)).with_field(
        "queued"@,
        JsonView::Bool(true),
    );
    if throttled {
        v.with_field("throttled"@, JsonView::Bool(true))
    } else {
        v
    }
}

pub fn service_queued_answer(throttled: bool) -> (r: JsonValue)
    ensures
        r@ == queued_answer(throttled),
{
    let mut v = JsonValue::empty_object();
    v.set_field("ok", JsonValue::boolean(true));
    v.set_field("queued", JsonValue::boolean(true));
    if throttled {
        v.set_field("throttled", JsonValue::boolean(true));
    }
    v
}

/// The answer to a call superseded by a newer one while throttled.
pub open spec fn superseded_answer() -> JsonView {
    failure_payload("throttled by a newer invocation"@, "superseded"@)
}

pub fn service_superseded_answer() -> (r: JsonValue)
    ensures
        r@ == superseded_answer(),
{
    failure_object("throttled by a newer invocation", "superseded")
}

/// The answer to a throttled call cancelled before it was sent.
pub open spec fn cancelled_answer() -> JsonView {
    failure_payload("cancelled before dispatch"@, "cancelled"@)
}

pub fn service_cancelled_answer() -> (r: JsonValue)
    ensures
        r@ == cancelled_answer(),
{
    failure_object("cancelled before dispatch", "cancelled")
}

/// Whether an answer says the call succeeded: its `ok` is true.
pub open spec fn answer_ok(answer: JsonView) -> bool {
    answer.field("ok"@) == Some(JsonView::Bool(true))
}

pub fn service_answer_ok(answer: &JsonValue) -> (r: bool)
    ensures
        r == answer_ok(answer@),
{
    match answer.get("ok") {
        Some(v) => match v.as_bool() {
            Some(b) => b,
            None => false,
        },
        None => false,
    }
}

/// Whether an answer says the call was queued: its `queued` is true.
pub fn service_answer_queued(answer: &JsonValue) -> (r: bool)
    ensures
        r == answer_queued(answer@),
{
    match answer.get("queued") {
        Some(v) => match v.as_bool() {
            Some(b) => b,
            None => false,
        },
        None => false,
    }
}

/// The answer of a call whose bound state field was written: the new value
/// is shown before the provider confirms it, so the answer gains
/// `state_bound: true` and `optimistic: true`.
pub fn mark_state_bound(answer: JsonValue) -> (r: JsonValue)
    requires
        answer@ is Object,
    ensures
        r@ == answer@.with_field("state_bound"@, JsonView::Bool(true)).with_field("optimistic"@, JsonView::Bool(true)),
{
    let mut answer = answer;
    answer.set_field("state_bound", JsonValue::boolean(true));
    answer.set_field("optimistic", JsonValue::boolean(true));
    answer
}

/// What a call that answered `answer` writes to the state field its
/// command is bound to: nothing unless the call succeeded, the command is
/// bound and the shown state can take a field; then the bound value.
pub open spec fn call_state_write(
    v: CacheView,
    interface: Seq<char>,
    binding: Option<StateBinding>,
    payload: JsonView,
    answer: JsonView,
) -> Option<JsonView> {
    match binding {
        Some(b) => if answer_ok(answer) && writable(v, interface) {
            bound_value(v, interface, b.field@, opt_text(b.from_arg), b.toggle, payload)
        } else {
            None
        },
        None => None,
    }
}

/// Writes the state field a successful call's command is bound to and
/// marks its answer. The write is owned by the call when the call was
/// queued; `running` is the provider running for the interface and its
/// identity. Without a write the cache and the answer stay as they are.
pub fn bind_call_state(
    cache: &mut ServiceStateCache,
    interface: &str,
    binding: Option<StateBinding>,
    payload: &JsonValue,
    call_id: u64,
    answer: JsonValue,
    running: Option<(String, u64)>,
) -> (r: (JsonValue, Option<PublishedState>))
    requires
        old(cache).wf(),
    ensures
        final(cache).wf(),
        match call_state_write(old(cache).view_of(), interface@, binding, payload@, answer@) {
            None => final(cache).view_of() == old(cache).view_of() && r.0@ == answer@ && r.1 is None,
            Some(value) => r.1 is Some && (final(cache).view_of(), r.1.unwrap()@) == bound_applied(
                old(cache).view_of(),
                interface@,
                binding.unwrap().field@,
                value,
                if answer_queued(answer@) {
                    Some(call_id)
                } else {
                    None
                },
                running_view(running),
            ) && r.0@ == if answer@ is Object {
                answer@.with_field("state_bound"@, JsonView::Bool(true)).with_field("optimistic"@, JsonView::Bool(true))
            } else {
                answer@
            },
        },
{
    let b = match binding {
        Some(b) => b,
        None => {
            return (answer, None);
        },
    };
    if !service_answer_ok(&answer) || !cache.state_is_writable(interface) {
        return (answer, None);
    }
    let value = match cache.bound_value_for_command(interface, &b, payload) {
        Some(v) => v,
        None => {
            return (answer, None);
        },
    };
    let call = if service_answer_queued(&answer) {
        Some(call_id)
    } else {
        None
    };
    let published = cache.apply_bound_service_state(interface, b.field.as_str(), value, call, running);
    let marked = if answer.is_object() {
        mark_state_bound(answer)
    } else {
        answer
    };
    (marked, Some(published))
}

/// How handing a command to a backend handler went.
#[derive(Debug, Clone, Copy, PartialEq, Eq, Structural)]
pub enum SendOutcome {
    Sent,
    /// The handler's queue is full.
    Full,
    /// The handler is gone.
    Closed,
}

/// The answer to a command handed to a backend handler.
pub open spec fn send_answer(outcome: SendOutcome) -> JsonView {
    match outcome {
        SendOutcome::Sent => queued_answer(false),
        SendOutcome::Full => failure_payload("command_queue_full"@, "queue_full"@),
        SendOutcome::Closed => failure_payload("service_unavailable"@, "service_unavailable"@),
    }
}

pub fn service_send_answer(outcome: SendOutcome) -> (r: JsonValue)
    ensures
        r@ == send_answer(outcome),
{
    match outcome {
        SendOutcome::Sent => service_queued_answer(false),
        SendOutcome::Full => crate::requests::service_queue_full_response(),
        SendOutcome::Closed => crate::requests::service_unavailable_response(),
    }
}

/// The status recorded for a call: the answer's, else queued or failed.
pub open spec fn recorded_status(answer: JsonView) -> Seq<char> {
    match answer.field("status"@) {
        Some(JsonView::Str(s)) => s,
        _ => if answer_queued(answer) {
            "queued"@
        } else {
            "failed"@
        },
    }
}

pub open spec fn answer_queued(answer: JsonView) -> bool {
    answer.field("queued"@) == Some(JsonView::Bool(true))
}

pub open spec fn answer_error(answer: JsonView) -> Option<Seq<char>> {
    match answer.field("error"@) {
        Some(JsonView::Str(e)) => Some(e),
        _ => None,
    }
}

impl Shell {
    /// Completes a routed call: the answer gains the call identifier and the
    /// call is recorded with the running provider of the interface, the
    /// answer's status (else queued or failed), whether it was queued, and
    /// its error.
    pub fn finish_service_dispatch(
        &self,
        interface: &str,
        command: &str,
        source_module_id: &str,
        call_id: u64,
        answer: JsonValue,
    ) -> (r: (JsonValue, MethodCallRecord))
        requires
            answer@ is Object,
        ensures
            r.0@ == with_call_id(answer@, call_id),
            r.1@ == (RecordView {
                call_id,
                interface: interface@,
                provider_id: running_provider(self.backend_runtimes@, interface@),
                source_module_id: source_module_id@,
                command: command@,
                status: recorded_status(with_call_id(answer@, call_id)),
                queued: answer_queued(with_call_id(answer@, call_id)),
                result: with_call_id(answer@, call_id),
                error: answer_error(with_call_id(answer@, call_id)),
            }),
    {
        let mut answer = answer;
        answer.set_field("call_id", JsonValue::unsigned(call_id));
        let provider_id = match crate::services::find_slot_pub(&self.backend_runtimes, interface) {
            Some(i) => Some(self.backend_runtimes[i].provider_id.clone()),
            None => None,
        };
        let queued = match answer.get("queued") {
            Some(v) => match v.as_bool() {
                Some(b) => b,
                None => false,
            },
            None => false,
        };
        let status = match answer.get("status") {
            Some(v) => match v.as_str() {
                Some(s) => String::from_str(s),
                None => if queued {
                    String::from_str("queued")
                } else {
                    String::from_str("failed")
                },
            },
            None => if queued {
                String::from_str("queued")
            } else {
                String::from_str("failed")
            },
        };
        let error = match answer.get("error") {
            Some(v) => match v.as_str() {
                Some(e) => Some(String::from_str(e)),
                None => None,
            },
            None => None,
        };
        let record = MethodCallRecord {
            call_id,
            interface: String::from_str(interface),
            provider_id,
            source_module_id: String::from_str(source_module_id),
            command: String::from_str(command),
            status,
            queued,
            result: answer.duplicate(),
            error,
        };
        proof {
            reveal_strlit("queued");
            reveal_strlit("failed");
        }
        (answer, record)
    }
}

/// What became of a request a command call stood for.
#[derive(Debug)]
pub enum CoreDispatch {
    /// Queued as a follow-up of the effect being applied.
    Queued,
    /// Applied, its follow-ups handed to the effect scheduler; the actions
    /// are left to the caller.
    Applied { actions: Vec<ShellAction> },
    /// Work outside the shell's bookkeeping, handed back to the caller.
    Delegated(CoreRequest),
}

/// `new` is `mid` after applying `request` to `old` came to `outcome`, and
/// `r` is what the call came to: the follow-ups of an applied request are
/// handed to the effect scheduler; a refused request counts as applied.
pub open spec fn core_applied(
    new: Shell,
    mid: Shell,
    old: Shell,
    request: CoreRequest,
    now: u64,
    outcome: ApplyOutcome,
    r: CoreDispatch,
) -> bool {
    &&& request_applied(mid, old, request, now, outcome)
    &&& match outcome {
        ApplyOutcome::Refused => new == mid && (r matches CoreDispatch::Applied { actions } && actions@.len() == 0),
        ApplyOutcome::Applied { requests, actions } => effects_enqueued(new, mid, requests@) && (r matches CoreDispatch::Applied {
            actions: a,
        } && a@ == actions@),
        ApplyOutcome::Delegated(q) => new == mid && r == CoreDispatch::Delegated(q),
    }
}

impl Shell {
    /// Carries out the request a command call stood for: queued as a
    /// follow-up while an effect is being applied, applied at once otherwise.
    pub fn apply_core_service_request(&mut self, request: CoreRequest, now_ms: u64) -> (r: CoreDispatch)
        requires
            old(self).effect_scheduler@.queued.len() + old(self).effect_scheduler@.deferred.len()
                + old(self).components@.len() + 2 <= usize::MAX,
        ensures
            match old(self).effect_scheduler@.active_context {
                Some(context) => r is Queued && final(self).effect_scheduler@ == enqueue_all(
                    old(self).effect_scheduler@,
                    followup_effects(seq![request], context),
                ) && *final(self) == (Shell { effect_scheduler: final(self).effect_scheduler, ..*old(self) }),
                None => exists|mid: Shell, outcome: ApplyOutcome|
                    #[trigger] core_applied(*final(self), mid, *old(self), request, now_ms, outcome, r),
            },
    {
        if self.effect_scheduler.active_context().is_some() {
            let ghost all = seq![request];
            let mut one: Vec<CoreRequest> = Vec::new();
            one.push(request);
            proof {
                assert(one@ =~= all);
            }
            self.effect_scheduler.enqueue_followups(one);
            return CoreDispatch::Queued;
        }
        let ghost before = *self;
        let outcome = self.apply_request(request, now_ms);
        let ghost mid = *self;
        let ghost out = outcome;
        proof {
            lemma_followups_bounded(mid, before, request, now_ms, out);
        }
        let r = match outcome {
            ApplyOutcome::Refused => CoreDispatch::Applied { actions: Vec::new() },
            ApplyOutcome::Applied { requests, actions } => {
                self.enqueue_effects(requests);
                CoreDispatch::Applied { actions }
            },
            ApplyOutcome::Delegated(q) => CoreDispatch::Delegated(q),
        };
        proof {
            assert(core_applied(*self, mid, before, request, now_ms, out, r));
        }
        r
    }
}

/// Admits a call of a coalescable command to the throttle under its
/// coalescing key.
pub fn admit_coalesced_call(
    throttle: &mut CommandThrottle,
    interface: &str,
    command: &str,
    payload: &JsonValue,
    call_id: u64,
    now_ms: u64,
) -> (r: ThrottleAdmission)
    requires
        old(throttle).wf(),
    ensures
        final(throttle).wf(),
        (final(throttle).entries_view(), r@) == admitted(
            old(throttle).entries_view(),
            ThrottleKey { interface: interface@, command: command@, coalesce_key: coalescing_key(command@, payload@) },
            call_id,
            payload@,
            now_ms,
        ),
{
    let key = command_coalescing_key(command, payload);
    throttle.admit_call(interface, command, key.as_str(), call_id, payload.duplicate(), now_ms)
}

/// The answer to a throttled call that is not sent now: refused when the
/// throttle is full, queued and throttled when parked; none when it is to be
/// sent, whose answer is the send's.
pub open spec fn admission_answer(a: AdmissionView) -> Option<JsonView> {
    match a {
        AdmissionView::QueueFull => Some(failure_payload("command_queue_full"@, "queue_full"@)),
        AdmissionView::Send => None,
        AdmissionView::Parked { .. } => Some(queued_answer(true)),
    }
}

pub fn throttle_admission_answer(a: &ThrottleAdmission) -> (r: Option<JsonValue>)
    ensures
        match r {
            Some(v) => admission_answer(a@) == Some(v@),
            None => admission_answer(a@) is None,
        },
{
    match a {
        ThrottleAdmission::QueueFull => Some(crate::requests::service_queue_full_response()),
        ThrottleAdmission::Send => None,
        ThrottleAdmission::Parked { .. } => Some(service_queued_answer(true)),
    }
}

// ---------------------------------------------------------------------------
// Call routes.

/// Where a service call's result goes back to: the instance and module
/// that made it, for an interface.
#[derive(Debug)]
pub struct ServiceCallRoute {
    pub interface: String,
    pub module_id: String,
    pub instance_id: String,
}

/// What a request to cancel a call comes to.
#[derive(Debug, Clone, Copy, PartialEq, Eq, Structural)]
pub enum CancelDecision {
    /// No route is recorded for the call: nothing to cancel.
    NotRouted,
    /// The requester may not cancel it.
    Denied,
    /// The call is cancelled.
    Cancel,
}

/// A cancellation of a routed call is denied unless the requester holds
/// the interface's control capability and is the instance and module that
/// made the call.
pub open spec fn cancel_decision(
    route: Option<(Seq<char>, Seq<char>)>,
    interface: Seq<char>,
    source_instance_id: Seq<char>,
    source_module_id: Seq<char>,
    caps: CapabilitySet,
) -> CancelDecision {
    match route {
        None => CancelDecision::NotRouted,
        Some((instance, module)) => if !caps.grants(control_capability(interface)) || instance != source_instance_id
            || module != source_module_id {
            CancelDecision::Denied
        } else {
            CancelDecision::Cancel
        },
    }
}

pub open spec fn route_owner(route: Option<&ServiceCallRoute>) -> Option<(Seq<char>, Seq<char>)> {
    match route {
        Some(r) => Some((r.instance_id@, r.module_id@)),
        None => None,
    }
}

pub fn service_call_cancel_decision(
    route: Option<&ServiceCallRoute>,
    interface: &str,
    source_instance_id: &str,
    source_module_id: &str,
    caps: &CapabilitySet,
) -> (r: CancelDecision)
    ensures
        r == cancel_decision(route_owner(route), interface@, source_instance_id@, source_module_id@, *caps),
{
    match route {
        None => CancelDecision::NotRouted,
        Some(route) => {
            let required = crate::routing::service_capabilities(interface).control;
            if !caps.is_granted(required.as_str()) || !text::str_eq(route.instance_id.as_str(), source_instance_id)
                || !text::str_eq(route.module_id.as_str(), source_module_id) {
                CancelDecision::Denied
            } else {
                CancelDecision::Cancel
            }
        },
    }
}

/// The answer that closes a cancelled call: cancelled before it was sent
/// when it was still throttled, otherwise plainly cancelled.
pub open spec fn cancelled_call_answer(before_dispatch: bool) -> JsonView {
    if before_dispatch {
        cancelled_answer()
    } else {
        failure_payload("cancelled"@, "cancelled"@)
    }
}

pub fn service_cancelled_call_answer(before_dispatch: bool) -> (r: JsonValue)
    ensures
        r@ == cancelled_call_answer(before_dispatch),
{
    if before_dispatch {
        service_cancelled_answer()
    } else {
        failure_object("cancelled", "cancelled")
    }
}

pub open spec fn cancel_denied_message(interface: Seq<char>, call_id: u64) -> Seq<char> {
    "denied cancellation for "@ + interface + " call "@ + decimal_text_u64(call_id)
}

pub open spec fn dropped_result_message(status: Seq<char>, interface: Seq<char>, call_id: u64, instance_id: Seq<char>) -> Seq<char> {
    "dropped "@ + status + " result for "@ + interface + " call "@ + decimal_text_u64(call_id)
        + ": originating instance '"@ + instance_id + "' is no longer mounted"@
}

impl Shell {
    /// Records that `source_module_id` was denied cancelling call `call_id`
    /// of `interface`.
    pub fn record_cancel_denied(&mut self, interface: &str, call_id: u64, source_module_id: &str)
        ensures
            error_views(final(self).diagnostics@) == error_views(old(self).diagnostics@).push(
                (source_module_id@, "service_call_cancel_denied"@, cancel_denied_message(interface@, call_id)),
            ),
            *final(self) == (Shell { diagnostics: final(self).diagnostics, ..*old(self) }),
    {
        let message = text::concat3("denied cancellation for ", interface, " call ").concat(decimal_u64(call_id).as_str());
        self.record_lifecycle_error(String::from_str(source_module_id), "service_call_cancel_denied", message);
    }

    /// Records that the `status` result of call `call_id` was dropped: the
    /// instance on its route is no longer mounted.
    pub fn record_dropped_call_result(&mut self, route: &ServiceCallRoute, call_id: u64, status: &str)
        ensures
            error_views(final(self).diagnostics@) == error_views(old(self).diagnostics@).push(
                (
                    route.module_id@,
                    "service_call_result_dropped"@,
                    dropped_result_message(status@, route.interface@, call_id, route.instance_id@),
                ),
            ),
            *final(self) == (Shell { diagnostics: final(self).diagnostics, ..*old(self) }),
    {
        let message = text::concat3("dropped ", status, " result for ").concat(route.interface.as_str()).concat(
            " call ",
        ).concat(decimal_u64(call_id).as_str()).concat(": originating instance '").concat(route.instance_id.as_str()).concat(
            "' is no longer mounted",
        );
        self.record_lifecycle_error(route.module_id.clone(), "service_call_result_dropped", message);
    }
}

} // verus!

//! Leading-edge throttling of coalescable service commands. The first call
//! for a key is sent at once; further calls within the interval park as the
//! key's pending command, each replacing the one before, and are sent on the
//! trailing edge by `take_due`. A key is an interface, a command and the
//! command's coalescing key.
use vstd::prelude::*;
use crate::json::{JsonValue, JsonView};

verus! {

/// Time between two sends of the same coalesced command.
pub const COMMAND_THROTTLE_INTERVAL_MS: u64 = 100;

/// Idle time after which a key with nothing pending is forgotten.
pub const COMMAND_THROTTLE_IDLE_MS: u64 = 800;

/// Most keys the throttle tracks at once.
pub const MAX_COALESCED_COMMAND_KEYS: usize = 256;

/// A command call waiting for its key's interval to pass.
#[derive(Debug)]
pub struct PendingServiceCommand {
    pub call_id: u64,
    pub payload: JsonValue,
}

impl View for PendingServiceCommand {
    type V = (u64, JsonView);

    open spec fn view(&self) -> (u64, JsonView) {
        (self.call_id, self.payload@)
    }
}

pub open spec fn pending_view(p: Option<PendingServiceCommand>) -> Option<(u64, JsonView)> {
    match p {
        Some(c) => Some(c@),
        None => None,
    }
}

#[derive(Debug)]
pub struct ThrottleEntry {
    pub interface: String,
    pub command: String,
    pub coalesce_key: String,
    pub last_send_ms: u64,
    pub pending: Option<PendingServiceCommand>,
}

/// A throttle key: interface, command and coalescing key.
pub struct ThrottleKey {
    pub interface: Seq<char>,
    pub command: Seq<char>,
    pub coalesce_key: Seq<char>,
}

pub struct EntryView {
    pub key: ThrottleKey,
    pub last_send_ms: u64,
    pub pending: Option<(u64, JsonView)>,
}

impl View for ThrottleEntry {
    type V = EntryView;

    open spec fn view(&self) -> EntryView {
        EntryView {
            key: ThrottleKey {
                interface: self.interface@,
                command: self.command@,
                coalesce_key: self.coalesce_key@,
            },
            last_send_ms: self.last_send_ms,
            pending: pending_view(self.pending),
        }
    }
}

pub open spec fn entry_views(entries: Seq<ThrottleEntry>) -> Seq<EntryView> {
    Seq::new(entries.len(), |i: int| entries[i]@)
}

/// Time since `last`, zero for a clock reading before it.
pub open spec fn elapsed(now: u64, last: u64) -> u64 {
    if now >= last {
        (now - last) as u64
    } else {
        0
    }
}

/// The keys of `s` are pairwise distinct.
pub open spec fn keys_distinct(s: Seq<EntryView>) -> bool {
    forall|i: int, j: int| 0 <= i < j < s.len() ==> (#[trigger] s[i]).key != (#[trigger] s[j]).key
}

/// Index of the entry with key `k`, or -1.
pub open spec fn key_index(s: Seq<EntryView>, k: ThrottleKey) -> int {
    if exists|i: int| 0 <= i < s.len() && (#[trigger] s[i]).key == k {
        choose|i: int| 0 <= i < s.len() && (#[trigger] s[i]).key == k
    } else {
        -1
    }
}

/// What admitting a command call came to.
#[derive(Debug)]
pub enum ThrottleAdmission {
    /// The key is new and the throttle tracks as many keys as it may.
    QueueFull,
    /// Send the command now; its interval starts.
    Send,
    /// Within the interval: the call is parked as the key's pending command,
    /// replacing the one handed back here.
    Parked { superseded: Option<PendingServiceCommand> },
}

pub enum AdmissionView {
    QueueFull,
    Send,
    Parked { superseded: Option<(u64, JsonView)> },
}

impl View for ThrottleAdmission {
    type V = AdmissionView;

    open spec fn view(&self) -> AdmissionView {
        match self {
            ThrottleAdmission::QueueFull => AdmissionView::QueueFull,
            ThrottleAdmission::Send => AdmissionView::Send,
            ThrottleAdmission::Parked { superseded } => AdmissionView::Parked { superseded: pending_view(*superseded) },
        }
    }
}

/// The entries and answer after admitting call `call_id` with `payload` for
/// key `k` at `now`.
pub open spec fn admitted(s: Seq<EntryView>, k: ThrottleKey, call_id: u64, payload: JsonView, now: u64) -> (
    Seq<EntryView>,
    AdmissionView,
) {
    let i = key_index(s, k);
    if i < 0 && s.len() >= MAX_COALESCED_COMMAND_KEYS {
        (s, AdmissionView::QueueFull)
    } else if i < 0 {
        (s.push(EntryView { key: k, last_send_ms: now, pending: None }), AdmissionView::Send)
    } else if elapsed(now, s[i].last_send_ms) >= COMMAND_THROTTLE_INTERVAL_MS {
        (s.update(i, EntryView { key: k, last_send_ms: now, pending: None }), AdmissionView::Send)
    } else {
        (
            s.update(i, EntryView { pending: Some((call_id, payload)), ..s[i] }),
            AdmissionView::Parked { superseded: s[i].pending },
        )
    }
}

/// Whether an entry's interval has passed at `now`.
pub open spec fn is_due(e: EntryView, now: u64) -> bool {
    elapsed(now, e.last_send_ms) >= COMMAND_THROTTLE_INTERVAL_MS
}

/// Whether an entry has nothing pending and has been idle long enough to forget.
pub open spec fn is_stale(e: EntryView, now: u64) -> bool {
    e.pending is None && elapsed(now, e.last_send_ms) >= COMMAND_THROTTLE_IDLE_MS
}

/// The entries after the trailing-edge flush at `now`: a due entry with a
/// pending command restarts its interval with nothing pending, a stale one
/// is forgotten, the rest stay as they were.
pub open spec fn flushed(s: Seq<EntryView>, now: u64) -> Seq<EntryView>
    decreases s.len(),
{
    if s.len() == 0 {
        seq![]
    } else {
        let rest = flushed(s.drop_last(), now);
        let e = s.last();
        if is_due(e, now) && e.pending is Some {
            rest.push(EntryView { last_send_ms: now, pending: None, ..e })
        } else if is_stale(e, now) {
            rest
        } else {
            rest.push(e)
        }
    }
}

/// The pending commands that the flush at `now` sends, in entry order.
pub open spec fn due_sends(s: Seq<EntryView>, now: u64) -> Seq<(ThrottleKey, (u64, JsonView))>
    decreases s.len(),
{
    if s.len() == 0 {
        seq![]
    } else {
        let rest = due_sends(s.drop_last(), now);
        let e = s.last();
        if is_due(e, now) && e.pending is Some {
            rest.push((e.key, e.pending.unwrap()))
        } else {
            rest
        }
    }
}

/// Whether entry `e` holds the pending call `call_id`.
pub open spec fn holds_call(e: EntryView, call_id: u64) -> bool {
    e.pending matches Some((c, _)) && c == call_id
}

/// The entries without those that hold the pending call `call_id`.
pub open spec fn without_call(s: Seq<EntryView>, call_id: u64) -> Seq<EntryView>
    decreases s.len(),
{
    if s.len() == 0 {
        seq![]
    } else {
        let rest = without_call(s.drop_last(), call_id);
        if holds_call(s.last(), call_id) {
            rest
        } else {
            rest.push(s.last())
        }
    }
}

/// A pending command that the trailing-edge flush sends.
#[derive(Debug)]
pub struct DueCommand {
    pub interface: String,
    pub command: String,
    pub coalesce_key: String,
    pub pending: PendingServiceCommand,
}

pub open spec fn due_views(d: Seq<DueCommand>) -> Seq<(ThrottleKey, (u64, JsonView))> {
    Seq::new(
        d.len(),
        |i: int|
            (
                ThrottleKey { interface: d[i].interface@, command: d[i].command@, coalesce_key: d[i].coalesce_key@ },
                d[i].pending@,
            ),
    )
}

/// The coalesced command keys, with the last send time and pending call of each.
#[derive(Debug)]
pub struct CommandThrottle {
    entries: Vec<ThrottleEntry>,
}

impl CommandThrottle {
    pub closed spec fn entries_view(&self) -> Seq<EntryView> {
        entry_views(self.entries@)
    }

    /// Keys are distinct and at most `MAX_COALESCED_COMMAND_KEYS`.
    pub open spec fn wf(&self) -> bool {
        &&& keys_distinct(self.entries_view())
        &&& self.entries_view().len() <= MAX_COALESCED_COMMAND_KEYS
    }

    pub fn new() -> (r: CommandThrottle)
        ensures
            r.wf(),
            r.entries_view() == Seq::<EntryView>::empty(),
    {
        let r = CommandThrottle { entries: Vec::new() };
        proof {
            assert(r.entries_view() =~= Seq::<EntryView>::empty());
        }
        r
    }

    /// Number of keys tracked.
    pub fn len(&self) -> (r: usize)
        ensures
            r == self.entries_view().len(),
    {
        self.entries.len()
    }

    /// Index of the entry for a key.
    fn find(&self, interface: &str, command: &str, coalesce_key: &str) -> (r: Option<usize>)
        requires
            self.wf(),
        ensures
            match r {
                Some(i) => i as int == key_index(
                    self.entries_view(),
                    ThrottleKey { interface: interface@, command: command@, coalesce_key: coalesce_key@ },
                ) && i < self.entries_view().len(),
                None => key_index(
                    self.entries_view(),
                    ThrottleKey { interface: interface@, command: command@, coalesce_key: coalesce_key@ },
                ) == -1,
            },
    {
        let ghost k = ThrottleKey { interface: interface@, command: command@, coalesce_key: coalesce_key@ };
        let ghost s = self.entries_view();
        let mut i: usize = 0;
        while i < self.entries.len()
            invariant
                s == self.entries_view(),
                k == (ThrottleKey { interface: interface@, command: command@, coalesce_key: coalesce_key@ }),
                s.len() == self.entries@.len(),
                keys_distinct(s),
                i <= s.len(),
                forall|j: int| 0 <= j < i ==> (#[trigger] s[j]).key != k,
            decreases self.entries.len() - i,
        {
            let e = &self.entries[i];
            proof {
                assert(s[i as int] == e@);
            }
            if crate::text::str_eq(e.interface.as_str(), interface) && crate::text::str_eq(e.command.as_str(), command)
                && crate::text::str_eq(e.coalesce_key.as_str(), coalesce_key) {
                proof {
                    assert(s[i as int].key == k);
                    let c = choose|c: int| 0 <= c < s.len() && (#[trigger] s[c]).key == k;
                    assert(keys_distinct(s));
                    if c != i as int {
                        if c < i as int {
                            assert(s[c].key != k);
                        } else {
                            assert(s[i as int].key != s[c].key);
                        }
                    }
                }
                return Some(i);
            }
            i = i + 1;
        }
        None
    }

    /// Admits a call of a coalescable command at `now_ms`: a new key is
    /// refused when the throttle is full; a new key, or one whose interval
    /// has passed, sends now and restarts its interval with nothing pending;
    /// otherwise the call is parked, replacing the key's pending call.
    pub fn admit_call(
        &mut self,
        interface: &str,
        command: &str,
        coalesce_key: &str,
        call_id: u64,
        payload: JsonValue,
        now_ms: u64,
    ) -> (r: ThrottleAdmission)
        requires
            old(self).wf(),
        ensures
            final(self).wf(),
            (final(self).entries_view(), r@) == admitted(
                old(self).entries_view(),
                ThrottleKey { interface: interface@, command: command@, coalesce_key: coalesce_key@ },
                call_id,
                payload@,
                now_ms,
            ),
    {
        let ghost k = ThrottleKey { interface: interface@, command: command@, coalesce_key: coalesce_key@ };
        let ghost s = self.entries_view();
        match self.find(interface, command, coalesce_key) {
            None => {
                if self.entries.len() >= MAX_COALESCED_COMMAND_KEYS {
                    return ThrottleAdmission::QueueFull;
                }
                self.entries.push(
                    ThrottleEntry {
                        interface: String::from_str(interface),
                        command: String::from_str(command),
                        coalesce_key: String::from_str(coalesce_key),
                        last_send_ms: now_ms,
                        pending: None,
                    },
                );
                proof {
                    assert(self.entries_view() =~= s.push(EntryView { key: k, last_send_ms: now_ms, pending: None }));
                    assert forall|a: int, b: int| 0 <= a < b < self.entries_view().len() implies (#[trigger] self.entries_view()[a]).key
                        != (#[trigger] self.entries_view()[b]).key by {
                        if b == s.len() {
                            assert(s[a].key != k);
                        }
                    }
                }
                ThrottleAdmission::Send
            },
            Some(i) => {
                let last = self.entries[i].last_send_ms;
                let waited = if now_ms >= last {
                    now_ms - last
                } else {
                    0
                };
                if waited >= COMMAND_THROTTLE_INTERVAL_MS {
                    self.entries[i].last_send_ms = now_ms;
                    self.entries[i].pending = None;
                    proof {
                        assert(self.entries_view() =~= s.update(i as int, EntryView { key: k, last_send_ms: now_ms, pending: None }));
                        assert forall|a: int, b: int| 0 <= a < b < self.entries_view().len() implies (#[trigger] self.entries_view()[a]).key
                            != (#[trigger] self.entries_view()[b]).key by {
                            assert(s[a].key != s[b].key);
                        }
                    }
                    ThrottleAdmission::Send
                } else {
                    let mut superseded = Some(PendingServiceCommand { call_id, payload });
                    std::mem::swap(&mut self.entries[i].pending, &mut superseded);
                    proof {
                        assert(self.entries_view() =~= s.update(
                            i as int,
                            EntryView { pending: Some((call_id, payload@)), ..s[i as int] },
                        ));
                        assert forall|a: int, b: int| 0 <= a < b < self.entries_view().len() implies (#[trigger] self.entries_view()[a]).key
                            != (#[trigger] self.entries_view()[b]).key by {
                            assert(s[a].key != s[b].key);
                        }
                    }
                    ThrottleAdmission::Parked { superseded }
                }
            },
        }
    }
}


impl CommandThrottle {
    /// The trailing-edge flush at `now_ms`: every key whose interval has
    /// passed and that holds a pending call hands it out and restarts its
    /// interval; keys idle long enough with nothing pending are forgotten.
    pub fn take_due(&mut self, now_ms: u64) -> (r: Vec<DueCommand>)
        requires
            old(self).wf(),
        ensures
            final(self).wf(),
            final(self).entries_view() == flushed(old(self).entries_view(), now_ms),
            due_views(r@) == due_sends(old(self).entries_view(), now_ms),
    {
        let mut rest: Vec<ThrottleEntry> = Vec::new();
        std::mem::swap(&mut rest, &mut self.entries);
        let ghost s = entry_views(rest@);
        let mut sent: Vec<DueCommand> = Vec::new();
        let mut consumed: usize = 0;
        proof {
            assert(entry_views(self.entries@) =~= flushed(s.subrange(0, 0), now_ms));
            assert(due_views(sent@) =~= due_sends(s.subrange(0, 0), now_ms));
            assert(entry_views(rest@) =~= s.subrange(0, s.len() as int));
        }
        while rest.len() > 0
            invariant
                s == old(self).entries_view(),
                keys_distinct(s),
                s.len() <= MAX_COALESCED_COMMAND_KEYS,
                consumed + rest@.len() == s.len(),
                entry_views(rest@) == s.subrange(consumed as int, s.len() as int),
                entry_views(self.entries@) == flushed(s.subrange(0, consumed as int), now_ms),
                due_views(sent@) == due_sends(s.subrange(0, consumed as int), now_ms),
                self.entries@.len() <= consumed,
                keys_distinct(entry_views(self.entries@)),
                forall|i: int, j: int|
                    0 <= i < self.entries@.len() && consumed <= j < s.len() ==> (#[trigger] self.entries@[i])@.key
                        != (#[trigger] s[j]).key,
            decreases rest@.len(),
        {
            let ghost before = entry_views(self.entries@);
            let ghost before_sent = due_views(sent@);
            let ghost rest_view = entry_views(rest@);
            let mut e = rest.remove(0);
            proof {
                assert(rest_view[0] == e@);
                assert(e@ == s[consumed as int]);
                assert forall|i: int| 0 <= i < rest@.len() implies #[trigger] entry_views(rest@)[i] == s[consumed + 1 + i] by {
                    assert(rest_view[i + 1] == s[consumed + 1 + i]);
                }
                assert(entry_views(rest@) =~= s.subrange(consumed + 1, s.len() as int));
                assert(s.subrange(0, consumed + 1).drop_last() =~= s.subrange(0, consumed as int));
                assert(s.subrange(0, consumed + 1).last() == s[consumed as int]);
            }
            let waited = if now_ms >= e.last_send_ms {
                now_ms - e.last_send_ms
            } else {
                0
            };
            let ghost ev = e@;
            if waited >= COMMAND_THROTTLE_INTERVAL_MS && e.pending.is_some() {
                let mut taken: Option<PendingServiceCommand> = None;
                std::mem::swap(&mut taken, &mut e.pending);
                let pending = match taken {
                    Some(p) => p,
                    None => {
                        proof {
                            assert(false);
                        }
                        PendingServiceCommand { call_id: 0, payload: JsonValue::Null }
                    },
                };
                sent.push(
                    DueCommand {
                        interface: e.interface.clone(),
                        command: e.command.clone(),
                        coalesce_key: e.coalesce_key.clone(),
                        pending,
                    },
                );
                e.last_send_ms = now_ms;
                self.entries.push(e);
                proof {
                    assert(due_views(sent@) =~= before_sent.push((ev.key, ev.pending.unwrap())));
                    assert(entry_views(self.entries@) =~= before.push(EntryView { last_send_ms: now_ms, pending: None, ..ev }));
                }
            } else if e.pending.is_none() && waited >= COMMAND_THROTTLE_IDLE_MS {
                proof {
                    assert(due_views(sent@) =~= before_sent);
                }
            } else {
                self.entries.push(e);
                proof {
                    assert(entry_views(self.entries@) =~= before.push(ev));
                }
            }
            proof {
                let t = entry_views(self.entries@);
                assert forall|a: int, b: int| 0 <= a < b < t.len() implies (#[trigger] t[a]).key != (#[trigger] t[b]).key by {
                    if b == before.len() {
                        assert(t[a] == self.entries@[a]@);
                        assert(self.entries@[a]@.key != s[consumed as int].key);
                    } else {
                        assert(t[a] == before[a]);
                        assert(t[b] == before[b]);
                    }
                }
                assert forall|i: int, j: int|
                    0 <= i < self.entries@.len() && consumed + 1 <= j < s.len() implies (#[trigger] self.entries@[i])@.key
                        != (#[trigger] s[j]).key by {
                    if i == before.len() {
                        assert(s[consumed as int].key != s[j].key);
                    }
                }
            }
            consumed = consumed + 1;
        }
        proof {
            assert(s.subrange(0, consumed as int) =~= s);
        }
        sent
    }

    /// Drops the keys whose pending call is `call_id`; returns whether any did.
    pub fn cancel_call(&mut self, call_id: u64) -> (r: bool)
        requires
            old(self).wf(),
        ensures
            final(self).wf(),
            final(self).entries_view() == without_call(old(self).entries_view(), call_id),
            r == exists|i: int| 0 <= i < old(self).entries_view().len() && holds_call(
                #[trigger] old(self).entries_view()[i],
                call_id,
            ),
    {
        let mut rest: Vec<ThrottleEntry> = Vec::new();
        std::mem::swap(&mut rest, &mut self.entries);
        let ghost s = entry_views(rest@);
        let mut consumed: usize = 0;
        let mut removed = false;
        proof {
            assert(entry_views(self.entries@) =~= without_call(s.subrange(0, 0), call_id));
            assert(entry_views(rest@) =~= s.subrange(0, s.len() as int));
        }
        while rest.len() > 0
            invariant
                s == old(self).entries_view(),
                keys_distinct(s),
                s.len() <= MAX_COALESCED_COMMAND_KEYS,
                consumed + rest@.len() == s.len(),
                entry_views(rest@) == s.subrange(consumed as int, s.len() as int),
                entry_views(self.entries@) == without_call(s.subrange(0, consumed as int), call_id),
                removed == exists|i: int| 0 <= i < consumed && holds_call(#[trigger] s[i], call_id),
                self.entries@.len() <= consumed,
                keys_distinct(entry_views(self.entries@)),
                forall|i: int, j: int|
                    0 <= i < self.entries@.len() && consumed <= j < s.len() ==> (#[trigger] self.entries@[i])@.key
                        != (#[trigger] s[j]).key,
            decreases rest@.len(),
        {
            let ghost before = entry_views(self.entries@);
            let ghost rest_view = entry_views(rest@);
            let e = rest.remove(0);
            proof {
                assert(rest_view[0] == e@);
                assert(e@ == s[consumed as int]);
                assert forall|i: int| 0 <= i < rest@.len() implies #[trigger] entry_views(rest@)[i] == s[consumed + 1 + i] by {
                    assert(rest_view[i + 1] == s[consumed + 1 + i]);
                }
                assert(entry_views(rest@) =~= s.subrange(consumed + 1, s.len() as int));
                assert(s.subrange(0, consumed + 1).drop_last() =~= s.subrange(0, consumed as int));
                assert(s.subrange(0, consumed + 1).last() == s[consumed as int]);
            }
            let ghost ev = e@;
            let holds = match &e.pending {
                Some(p) => p.call_id == call_id,
                None => false,
            };
            if holds {
                removed = true;
            } else {
                self.entries.push(e);
                proof {
                    assert(entry_views(self.entries@) =~= before.push(ev));
                }
            }
            proof {
                let t = entry_views(self.entries@);
                assert forall|a: int, b: int| 0 <= a < b < t.len() implies (#[trigger] t[a]).key != (#[trigger] t[b]).key by {
                    if b == before.len() {
                        assert(t[a] == self.entries@[a]@);
                        assert(self.entries@[a]@.key != s[consumed as int].key);
                    } else {
                        assert(t[a] == before[a]);
                        assert(t[b] == before[b]);
                    }
                }
                assert forall|i: int, j: int|
                    0 <= i < self.entries@.len() && consumed + 1 <= j < s.len() implies (#[trigger] self.entries@[i])@.key
                        != (#[trigger] s[j]).key by {
                    if i == before.len() {
                        assert(s[consumed as int].key != s[j].key);
                    }
                }
                if holds {
                    assert(holds_call(s[consumed as int], call_id));
                }
            }
            consumed = consumed + 1;
        }
        proof {
            assert(s.subrange(0, consumed as int) =~= s);
        }
        removed
    }
}


/// After a flush, no key holds a pending call whose interval has passed.
pub proof fn law_flush_leaves_nothing_due(s: Seq<EntryView>, now: u64)
    ensures
        forall|i: int|
            0 <= i < flushed(s, now).len() ==> !(is_due(#[trigger] flushed(s, now)[i], now) && flushed(s, now)[i].pending is Some),
    decreases s.len(),
{
    if s.len() > 0 {
        law_flush_leaves_nothing_due(s.drop_last(), now);
    }
}

/// A pending call whose key's interval has passed is sent by the flush.
pub proof fn law_due_pending_call_is_sent(s: Seq<EntryView>, i: int, now: u64)
    requires
        0 <= i < s.len(),
        is_due(s[i], now),
        s[i].pending is Some,
    ensures
        due_sends(s, now).contains((s[i].key, s[i].pending.unwrap())),
    decreases s.len(),
{
    if i < s.len() - 1 {
        law_due_pending_call_is_sent(s.drop_last(), i, now);
        let r = due_sends(s.drop_last(), now);
        let w = choose|w: int| 0 <= w < r.len() && r[w] == (s[i].key, s[i].pending.unwrap());
        assert(due_sends(s, now)[w] == r[w]);
    } else {
        assert(due_sends(s, now).last() == (s[i].key, s[i].pending.unwrap()));
    }
}

/// After a call is cancelled, no key holds it.
pub proof fn law_cancelled_call_is_gone(s: Seq<EntryView>, call_id: u64)
    ensures
        forall|i: int| 0 <= i < without_call(s, call_id).len() ==> !holds_call(#[trigger] without_call(s, call_id)[i], call_id),
    decreases s.len(),
{
    if s.len() > 0 {
        law_cancelled_call_is_gone(s.drop_last(), call_id);
        let rest = without_call(s.drop_last(), call_id);
        let w = without_call(s, call_id);
        assert forall|i: int| 0 <= i < w.len() implies !holds_call(#[trigger] w[i], call_id) by {
            if i < rest.len() {
                assert(w[i] == rest[i]);
            }
        }
    }
}

/// A call that arrives within the interval after its key was sent is
/// parked, with nothing before it to supersede, as the key's pending call.
pub proof fn law_call_within_interval_parks(
    s: Seq<EntryView>,
    k: ThrottleKey,
    first_call: u64,
    first_payload: JsonView,
    sent_at: u64,
    call_id: u64,
    payload: JsonView,
    now: u64,
)
    requires
        keys_distinct(s),
        admitted(s, k, first_call, first_payload, sent_at).1 == AdmissionView::Send,
        sent_at <= now < sent_at + COMMAND_THROTTLE_INTERVAL_MS,
    ensures
        ({
            let s1 = admitted(s, k, first_call, first_payload, sent_at).0;
            let (s2, answer) = admitted(s1, k, call_id, payload, now);
            &&& answer == AdmissionView::Parked { superseded: None }
            &&& key_index(s2, k) >= 0
            &&& s2[key_index(s2, k)].pending == Some((call_id, payload))
        }),
{
    let s1 = admitted(s, k, first_call, first_payload, sent_at).0;
    let i = key_index(s, k);
    let j: int = if i < 0 {
        s.len() as int
    } else {
        i
    };
    assert(s1[j].key == k);
    assert(key_index(s1, k) == j) by {
        let c = choose|c: int| 0 <= c < s1.len() && (#[trigger] s1[c]).key == k;
        if c != j {
            if i < 0 {
                assert(s1[c] == s[c]);
            } else {
                assert(s1[c] == s[c]);
                assert(s[c].key != s[i].key);
            }
        }
    }
    let s2 = admitted(s1, k, call_id, payload, now).0;
    assert(s2[j].key == k);
    assert(key_index(s2, k) == j) by {
        let c = choose|c: int| 0 <= c < s2.len() && (#[trigger] s2[c]).key == k;
        if c != j {
            assert(s2[c] == s1[c]);
        }
    }
}

} // verus!

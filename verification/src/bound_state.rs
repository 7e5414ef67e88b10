//! The latest state each interface published, and the command-bound
//! writes the shell applied to it ahead of its provider: each write owns its
//! field until the provider confirms the value or the write fails, and a
//! failed write gives the field back to the write before it, or to the value
//! that was visible before it.
use vstd::prelude::*;
use crate::json::{JsonValue, JsonView};
use crate::types::opt_text;

verus! {

/// The latest state an interface published, with the provider, its
/// identity and the generation of the publication.
#[derive(Debug)]
pub struct LatestServiceState {
    pub interface: String,
    pub provider_id: String,
    pub generation: u64,
    pub identity: u64,
    pub state: JsonValue,
}

pub struct LatestView {
    pub interface: Seq<char>,
    pub provider_id: Seq<char>,
    pub generation: u64,
    pub identity: u64,
    pub state: JsonView,
}

impl View for LatestServiceState {
    type V = LatestView;

    open spec fn view(&self) -> LatestView {
        LatestView {
            interface: self.interface@,
            provider_id: self.provider_id@,
            generation: self.generation,
            identity: self.identity,
            state: self.state@,
        }
    }
}

pub open spec fn opt_json(o: Option<JsonValue>) -> Option<JsonView> {
    match o {
        Some(v) => Some(v@),
        None => None,
    }
}

/// A command's optimistic write of a state field.
#[derive(Debug)]
pub struct BoundWrite {
    pub call_id: u64,
    pub interface: String,
    pub field: String,
    pub provider_id: String,
    pub identity: u64,
    /// The write that owned the field before this one.
    pub previous_call_id: Option<u64>,
    /// The field's value before this write, if it had one.
    pub previous: Option<JsonValue>,
    pub optimistic: JsonValue,
    /// How the command ended, once it did.
    pub terminal_status: Option<String>,
}

pub struct WriteView {
    pub call_id: u64,
    pub interface: Seq<char>,
    pub field: Seq<char>,
    pub provider_id: Seq<char>,
    pub identity: u64,
    pub previous_call_id: Option<u64>,
    pub previous: Option<JsonView>,
    pub optimistic: JsonView,
    pub terminal_status: Option<Seq<char>>,
}

impl View for BoundWrite {
    type V = WriteView;

    open spec fn view(&self) -> WriteView {
        WriteView {
            call_id: self.call_id,
            interface: self.interface@,
            field: self.field@,
            provider_id: self.provider_id@,
            identity: self.identity,
            previous_call_id: self.previous_call_id,
            previous: opt_json(self.previous),
            optimistic: self.optimistic@,
            terminal_status: opt_text(self.terminal_status),
        }
    }
}

/// The write that owns a field of an interface's state.
#[derive(Debug)]
pub struct OwnerEntry {
    pub interface: String,
    pub field: String,
    pub write: BoundWrite,
}

pub struct OwnerView {
    pub interface: Seq<char>,
    pub field: Seq<char>,
    pub write: WriteView,
}

impl View for OwnerEntry {
    type V = OwnerView;

    open spec fn view(&self) -> OwnerView {
        OwnerView { interface: self.interface@, field: self.field@, write: self.write@ }
    }
}

// The latest state per interface.

pub open spec fn latest_views(v: Seq<LatestServiceState>) -> Seq<LatestView> {
    Seq::new(v.len(), |i: int| v[i]@)
}

pub open spec fn latest_key(x: LatestView) -> Seq<char> {
    x.interface
}

pub open spec fn latest_distinct(s: Seq<LatestView>) -> bool {
    forall|i: int, j: int| 0 <= i < j < s.len() ==> latest_key(#[trigger] s[i]) != latest_key(#[trigger] s[j])
}

pub open spec fn latest_get(s: Seq<LatestView>, k: Seq<char>) -> Option<LatestView> {
    if exists|i: int| 0 <= i < s.len() && latest_key(#[trigger] s[i]) == k {
        Some(s[choose|i: int| 0 <= i < s.len() && latest_key(#[trigger] s[i]) == k])
    } else {
        None
    }
}

pub open spec fn latest_map(s: Seq<LatestView>) -> Map<Seq<char>, LatestView> {
    Map::new(|k: Seq<char>| latest_get(s, k) is Some, |k: Seq<char>| latest_get(s, k).unwrap())
}

proof fn lemma_latest_get_at(s: Seq<LatestView>, i: int)
    requires
        latest_distinct(s),
        0 <= i < s.len(),
    ensures
        latest_get(s, latest_key(s[i])) == Some(s[i]),
{
    let k = latest_key(s[i]);
    let c = choose|c: int| 0 <= c < s.len() && latest_key(#[trigger] s[c]) == k;
    if c != i {
        if c < i {
            assert(latest_key(s[c]) != latest_key(s[i]));
        } else {
            assert(latest_key(s[i]) != latest_key(s[c]));
        }
    }
}

proof fn lemma_latest_get_none(s: Seq<LatestView>, k: Seq<char>)
    requires
        forall|i: int| 0 <= i < s.len() ==> latest_key(#[trigger] s[i]) != k,
    ensures
        latest_get(s, k) is None,
{
}

fn latest_find(v: &Vec<LatestServiceState>, interface: &str) -> (r: Option<usize>)
    requires
        latest_distinct(latest_views(v@)),
    ensures
        match r {
            Some(i) => i < v@.len() && latest_key(v@[i as int]@) == interface@ && latest_get(latest_views(v@), interface@) == Some(v@[i as int]@),
            None => latest_get(latest_views(v@), interface@) is None,
        },
{
    let ghost s = latest_views(v@);
    let mut i: usize = 0;
    while i < v.len()
        invariant
            s == latest_views(v@),
            latest_distinct(s),
            i <= v@.len(),
            forall|j: int| 0 <= j < i ==> latest_key(#[trigger] s[j]) != interface@,
        decreases v.len() - i,
    {
        let e = &v[i];
        proof {
            assert(s[i as int] == e@);
        }
        if crate::text::str_eq(e.interface.as_str(), interface) {
            proof {
                lemma_latest_get_at(s, i as int);
            }
            return Some(i);
        }
        i = i + 1;
    }
    proof {
        lemma_latest_get_none(s, interface@);
    }
    None
}

/// Puts `e` under its key, replacing what was there.
fn latest_put(v: &mut Vec<LatestServiceState>, e: LatestServiceState)
    requires
        latest_distinct(latest_views(old(v)@)),
    ensures
        latest_distinct(latest_views(final(v)@)),
        latest_map(latest_views(final(v)@)) == latest_map(latest_views(old(v)@)).insert(latest_key(e@), e@),
        final(v)@.len() == old(v)@.len() + if latest_get(latest_views(old(v)@), latest_key(e@)) is Some {
            0int
        } else {
            1int
        },
{
    let ghost s = latest_views(v@);
    let ghost ev = e@;
    let found = latest_find(v, e.interface.as_str());
    match found {
        Some(i) => {
            v[i] = e;
            proof {
                let t = latest_views(v@);
                assert(t =~= s.update(i as int, ev));
                assert forall|a: int, b: int| 0 <= a < b < t.len() implies latest_key(#[trigger] t[a]) != latest_key(#[trigger] t[b]) by {
                    assert(latest_key(s[a]) != latest_key(s[b]));
                }
                assert forall|k: Seq<char>| #[trigger] latest_get(t, k) == latest_map(s).insert(latest_key(ev), ev).get(k) by {
                    if k == latest_key(ev) {
                        lemma_latest_get_at(t, i as int);
                    } else if exists|j: int| 0 <= j < s.len() && latest_key(#[trigger] s[j]) == k {
                        let j = choose|j: int| 0 <= j < s.len() && latest_key(#[trigger] s[j]) == k;
                        lemma_latest_get_at(s, j);
                        assert(j != i as int);
                        assert(t[j] == s[j]);
                        lemma_latest_get_at(t, j);
                    } else {
                        assert forall|j: int| 0 <= j < t.len() implies latest_key(#[trigger] t[j]) != k by {
                            if j != i as int {
                                assert(t[j] == s[j]);
                            }
                        }
                        lemma_latest_get_none(t, k);
                    }
                }
                assert(latest_map(t) =~= latest_map(s).insert(latest_key(ev), ev));
            }
        },
        None => {
            v.push(e);
            proof {
                let t = latest_views(v@);
                assert(t =~= s.push(ev));
                assert forall|a: int, b: int| 0 <= a < b < t.len() implies latest_key(#[trigger] t[a]) != latest_key(#[trigger] t[b]) by {
                    if b == s.len() {
                        assert(t[a] == s[a]);
                        if latest_key(s[a]) == latest_key(ev) {
                            lemma_latest_get_at(s, a);
                        }
                    } else {
                        assert(latest_key(s[a]) != latest_key(s[b]));
                    }
                }
                assert forall|k: Seq<char>| #[trigger] latest_get(t, k) == latest_map(s).insert(latest_key(ev), ev).get(k) by {
                    if k == latest_key(ev) {
                        lemma_latest_get_at(t, s.len() as int);
                    } else if exists|j: int| 0 <= j < s.len() && latest_key(#[trigger] s[j]) == k {
                        let j = choose|j: int| 0 <= j < s.len() && latest_key(#[trigger] s[j]) == k;
                        lemma_latest_get_at(s, j);
                        assert(t[j] == s[j]);
                        lemma_latest_get_at(t, j);
                    } else {
                        assert forall|j: int| 0 <= j < t.len() implies latest_key(#[trigger] t[j]) != k by {
                            if j < s.len() {
                                assert(t[j] == s[j]);
                            }
                        }
                        lemma_latest_get_none(t, k);
                    }
                }
                assert(latest_map(t) =~= latest_map(s).insert(latest_key(ev), ev));
            }
        },
    }
}

/// Takes out what is under a key.
fn latest_take(v: &mut Vec<LatestServiceState>, interface: &str) -> (r: Option<LatestServiceState>)
    requires
        latest_distinct(latest_views(old(v)@)),
    ensures
        latest_distinct(latest_views(final(v)@)),
        latest_map(latest_views(final(v)@)) == latest_map(latest_views(old(v)@)).remove(interface@),
        match r {
            Some(e) => latest_get(latest_views(old(v)@), interface@) == Some(e@) && final(v)@.len() + 1 == old(v)@.len(),
            None => latest_get(latest_views(old(v)@), interface@) is None && final(v)@ == old(v)@,
        },
{
    let ghost s = latest_views(v@);
    let ghost k0 = interface@;
    match latest_find(v, interface) {
        Some(i) => {
            let e = v.remove(i);
            proof {
                let t = latest_views(v@);
                assert(t =~= s.remove(i as int));
                assert forall|a: int, b: int| 0 <= a < b < t.len() implies latest_key(#[trigger] t[a]) != latest_key(#[trigger] t[b]) by {
                    let a0 = if a < i { a } else { a + 1 };
                    let b0 = if b < i { b } else { b + 1 };
                    assert(t[a] == s[a0]);
                    assert(t[b] == s[b0]);
                    assert(latest_key(s[a0]) != latest_key(s[b0]));
                }
                assert forall|k: Seq<char>| #[trigger] latest_get(t, k) == latest_map(s).remove(k0).get(k) by {
                    if k == k0 {
                        assert forall|j: int| 0 <= j < t.len() implies latest_key(#[trigger] t[j]) != k by {
                            let j0 = if j < i { j } else { j + 1 };
                            assert(t[j] == s[j0]);
                            assert(latest_key(s[j0]) != latest_key(s[i as int]));
                        }
                        lemma_latest_get_none(t, k);
                    } else if exists|j: int| 0 <= j < s.len() && latest_key(#[trigger] s[j]) == k {
                        let j = choose|j: int| 0 <= j < s.len() && latest_key(#[trigger] s[j]) == k;
                        lemma_latest_get_at(s, j);
                        assert(j != i as int);
                        let jt = if j < i { j } else { j - 1 };
                        assert(t[jt] == s[j]);
                        lemma_latest_get_at(t, jt);
                    } else {
                        assert forall|j: int| 0 <= j < t.len() implies latest_key(#[trigger] t[j]) != k by {
                            let j0 = if j < i { j } else { j + 1 };
                            assert(t[j] == s[j0]);
                        }
                        lemma_latest_get_none(t, k);
                    }
                }
                assert(latest_map(t) =~= latest_map(s).remove(k0));
            }
            Some(e)
        },
        None => {
            proof {
                assert(latest_map(s) =~= latest_map(s).remove(k0));
            }
            None
        },
    }
}

// The write that owns each field.

pub open spec fn owner_views(v: Seq<OwnerEntry>) -> Seq<OwnerView> {
    Seq::new(v.len(), |i: int| v[i]@)
}

pub open spec fn owner_key(x: OwnerView) -> (Seq<char>, Seq<char>) {
    (x.interface, x.field)
}

pub open spec fn owner_distinct(s: Seq<OwnerView>) -> bool {
    forall|i: int, j: int| 0 <= i < j < s.len() ==> owner_key(#[trigger] s[i]) != owner_key(#[trigger] s[j])
}

pub open spec fn owner_get(s: Seq<OwnerView>, k: (Seq<char>, Seq<char>)) -> Option<OwnerView> {
    if exists|i: int| 0 <= i < s.len() && owner_key(#[trigger] s[i]) == k {
        Some(s[choose|i: int| 0 <= i < s.len() && owner_key(#[trigger] s[i]) == k])
    } else {
        None
    }
}

pub open spec fn owner_map(s: Seq<OwnerView>) -> Map<(Seq<char>, Seq<char>), OwnerView> {
    Map::new(|k: (Seq<char>, Seq<char>)| owner_get(s, k) is Some, |k: (Seq<char>, Seq<char>)| owner_get(s, k).unwrap())
}

proof fn lemma_owner_get_at(s: Seq<OwnerView>, i: int)
    requires
        owner_distinct(s),
        0 <= i < s.len(),
    ensures
        owner_get(s, owner_key(s[i])) == Some(s[i]),
{
    let k = owner_key(s[i]);
    let c = choose|c: int| 0 <= c < s.len() && owner_key(#[trigger] s[c]) == k;
    if c != i {
        if c < i {
            assert(owner_key(s[c]) != owner_key(s[i]));
        } else {
            assert(owner_key(s[i]) != owner_key(s[c]));
        }
    }
}

proof fn lemma_owner_get_none(s: Seq<OwnerView>, k: (Seq<char>, Seq<char>))
    requires
        forall|i: int| 0 <= i < s.len() ==> owner_key(#[trigger] s[i]) != k,
    ensures
        owner_get(s, k) is None,
{
}

fn owner_find(v: &Vec<OwnerEntry>, interface: &str, field: &str) -> (r: Option<usize>)
    requires
        owner_distinct(owner_views(v@)),
    ensures
        match r {
            Some(i) => i < v@.len() && owner_key(v@[i as int]@) == (interface@, field@) && owner_get(owner_views(v@), (interface@, field@)) == Some(v@[i as int]@),
            None => owner_get(owner_views(v@), (interface@, field@)) is None,
        },
{
    let ghost s = owner_views(v@);
    let mut i: usize = 0;
    while i < v.len()
        invariant
            s == owner_views(v@),
            owner_distinct(s),
            i <= v@.len(),
            forall|j: int| 0 <= j < i ==> owner_key(#[trigger] s[j]) != (interface@, field@),
        decreases v.len() - i,
    {
        let e = &v[i];
        proof {
            assert(s[i as int] == e@);
        }
        if crate::text::str_eq(e.interface.as_str(), interface) && crate::text::str_eq(e.field.as_str(), field) {
            proof {
                lemma_owner_get_at(s, i as int);
            }
            return Some(i);
        }
        i = i + 1;
    }
    proof {
        lemma_owner_get_none(s, (interface@, field@));
    }
    None
}

/// Puts `e` under its key, replacing what was there.
fn owner_put(v: &mut Vec<OwnerEntry>, e: OwnerEntry)
    requires
        owner_distinct(owner_views(old(v)@)),
    ensures
        owner_distinct(owner_views(final(v)@)),
        owner_map(owner_views(final(v)@)) == owner_map(owner_views(old(v)@)).insert(owner_key(e@), e@),
        final(v)@.len() == old(v)@.len() + if owner_get(owner_views(old(v)@), owner_key(e@)) is Some {
            0int
        } else {
            1int
        },
{
    let ghost s = owner_views(v@);
    let ghost ev = e@;
    let found = owner_find(v, e.interface.as_str(), e.field.as_str());
    match found {
        Some(i) => {
            v[i] = e;
            proof {
                let t = owner_views(v@);
                assert(t =~= s.update(i as int, ev));
                assert forall|a: int, b: int| 0 <= a < b < t.len() implies owner_key(#[trigger] t[a]) != owner_key(#[trigger] t[b]) by {
                    assert(owner_key(s[a]) != owner_key(s[b]));
                }
                assert forall|k: (Seq<char>, Seq<char>)| #[trigger] owner_get(t, k) == owner_map(s).insert(owner_key(ev), ev).get(k) by {
                    if k == owner_key(ev) {
                        lemma_owner_get_at(t, i as int);
                    } else if exists|j: int| 0 <= j < s.len() && owner_key(#[trigger] s[j]) == k {
                        let j = choose|j: int| 0 <= j < s.len() && owner_key(#[trigger] s[j]) == k;
                        lemma_owner_get_at(s, j);
                        assert(j != i as int);
                        assert(t[j] == s[j]);
                        lemma_owner_get_at(t, j);
                    } else {
                        assert forall|j: int| 0 <= j < t.len() implies owner_key(#[trigger] t[j]) != k by {
                            if j != i as int {
                                assert(t[j] == s[j]);
                            }
                        }
                        lemma_owner_get_none(t, k);
                    }
                }
                assert(owner_map(t) =~= owner_map(s).insert(owner_key(ev), ev));
            }
        },
        None => {
            v.push(e);
            proof {
                let t = owner_views(v@);
                assert(t =~= s.push(ev));
                assert forall|a: int, b: int| 0 <= a < b < t.len() implies owner_key(#[trigger] t[a]) != owner_key(#[trigger] t[b]) by {
                    if b == s.len() {
                        assert(t[a] == s[a]);
                        if owner_key(s[a]) == owner_key(ev) {
                            lemma_owner_get_at(s, a);
                        }
                    } else {
                        assert(owner_key(s[a]) != owner_key(s[b]));
                    }
                }
                assert forall|k: (Seq<char>, Seq<char>)| #[trigger] owner_get(t, k) == owner_map(s).insert(owner_key(ev), ev).get(k) by {
                    if k == owner_key(ev) {
                        lemma_owner_get_at(t, s.len() as int);
                    } else if exists|j: int| 0 <= j < s.len() && owner_key(#[trigger] s[j]) == k {
                        let j = choose|j: int| 0 <= j < s.len() && owner_key(#[trigger] s[j]) == k;
                        lemma_owner_get_at(s, j);
                        assert(t[j] == s[j]);
                        lemma_owner_get_at(t, j);
                    } else {
                        assert forall|j: int| 0 <= j < t.len() implies owner_key(#[trigger] t[j]) != k by {
                            if j < s.len() {
                                assert(t[j] == s[j]);
                            }
                        }
                        lemma_owner_get_none(t, k);
                    }
                }
                assert(owner_map(t) =~= owner_map(s).insert(owner_key(ev), ev));
            }
        },
    }
}

/// Takes out what is under a key.
fn owner_take(v: &mut Vec<OwnerEntry>, interface: &str, field: &str) -> (r: Option<OwnerEntry>)
    requires
        owner_distinct(owner_views(old(v)@)),
    ensures
        owner_distinct(owner_views(final(v)@)),
        owner_map(owner_views(final(v)@)) == owner_map(owner_views(old(v)@)).remove((interface@, field@)),
        match r {
            Some(e) => owner_get(owner_views(old(v)@), (interface@, field@)) == Some(e@) && final(v)@.len() + 1 == old(v)@.len(),
            None => owner_get(owner_views(old(v)@), (interface@, field@)) is None && final(v)@ == old(v)@,
        },
{
    let ghost s = owner_views(v@);
    let ghost k0 = (interface@, field@);
    match owner_find(v, interface, field) {
        Some(i) => {
            let e = v.remove(i);
            proof {
                let t = owner_views(v@);
                assert(t =~= s.remove(i as int));
                assert forall|a: int, b: int| 0 <= a < b < t.len() implies owner_key(#[trigger] t[a]) != owner_key(#[trigger] t[b]) by {
                    let a0 = if a < i { a } else { a + 1 };
                    let b0 = if b < i { b } else { b + 1 };
                    assert(t[a] == s[a0]);
                    assert(t[b] == s[b0]);
                    assert(owner_key(s[a0]) != owner_key(s[b0]));
                }
                assert forall|k: (Seq<char>, Seq<char>)| #[trigger] owner_get(t, k) == owner_map(s).remove(k0).get(k) by {
                    if k == k0 {
                        assert forall|j: int| 0 <= j < t.len() implies owner_key(#[trigger] t[j]) != k by {
                            let j0 = if j < i { j } else { j + 1 };
                            assert(t[j] == s[j0]);
                            assert(owner_key(s[j0]) != owner_key(s[i as int]));
                        }
                        lemma_owner_get_none(t, k);
                    } else if exists|j: int| 0 <= j < s.len() && owner_key(#[trigger] s[j]) == k {
                        let j = choose|j: int| 0 <= j < s.len() && owner_key(#[trigger] s[j]) == k;
                        lemma_owner_get_at(s, j);
                        assert(j != i as int);
                        let jt = if j < i { j } else { j - 1 };
                        assert(t[jt] == s[j]);
                        lemma_owner_get_at(t, jt);
                    } else {
                        assert forall|j: int| 0 <= j < t.len() implies owner_key(#[trigger] t[j]) != k by {
                            let j0 = if j < i { j } else { j + 1 };
                            assert(t[j] == s[j0]);
                        }
                        lemma_owner_get_none(t, k);
                    }
                }
                assert(owner_map(t) =~= owner_map(s).remove(k0));
            }
            Some(e)
        },
        None => {
            proof {
                assert(owner_map(s) =~= owner_map(s).remove(k0));
            }
            None
        },
    }
}

// Every write not yet forgotten, by call.

pub open spec fn txn_views(v: Seq<BoundWrite>) -> Seq<WriteView> {
    Seq::new(v.len(), |i: int| v[i]@)
}

pub open spec fn txn_key(x: WriteView) -> u64 {
    x.call_id
}

pub open spec fn txn_distinct(s: Seq<WriteView>) -> bool {
    forall|i: int, j: int| 0 <= i < j < s.len() ==> txn_key(#[trigger] s[i]) != txn_key(#[trigger] s[j])
}

pub open spec fn txn_get(s: Seq<WriteView>, k: u64) -> Option<WriteView> {
    if exists|i: int| 0 <= i < s.len() && txn_key(#[trigger] s[i]) == k {
        Some(s[choose|i: int| 0 <= i < s.len() && txn_key(#[trigger] s[i]) == k])
    } else {
        None
    }
}

pub open spec fn txn_map(s: Seq<WriteView>) -> Map<u64, WriteView> {
    Map::new(|k: u64| txn_get(s, k) is Some, |k: u64| txn_get(s, k).unwrap())
}

proof fn lemma_txn_get_at(s: Seq<WriteView>, i: int)
    requires
        txn_distinct(s),
        0 <= i < s.len(),
    ensures
        txn_get(s, txn_key(s[i])) == Some(s[i]),
{
    let k = txn_key(s[i]);
    let c = choose|c: int| 0 <= c < s.len() && txn_key(#[trigger] s[c]) == k;
    if c != i {
        if c < i {
            assert(txn_key(s[c]) != txn_key(s[i]));
        } else {
            assert(txn_key(s[i]) != txn_key(s[c]));
        }
    }
}

proof fn lemma_txn_get_none(s: Seq<WriteView>, k: u64)
    requires
        forall|i: int| 0 <= i < s.len() ==> txn_key(#[trigger] s[i]) != k,
    ensures
        txn_get(s, k) is None,
{
}

fn txn_find(v: &Vec<BoundWrite>, call_id: u64) -> (r: Option<usize>)
    requires
        txn_distinct(txn_views(v@)),
    ensures
        match r {
            Some(i) => i < v@.len() && txn_key(v@[i as int]@) == call_id && txn_get(txn_views(v@), call_id) == Some(v@[i as int]@),
            None => txn_get(txn_views(v@), call_id) is None,
        },
{
    let ghost s = txn_views(v@);
    let mut i: usize = 0;
    while i < v.len()
        invariant
            s == txn_views(v@),
            txn_distinct(s),
            i <= v@.len(),
            forall|j: int| 0 <= j < i ==> txn_key(#[trigger] s[j]) != call_id,
        decreases v.len() - i,
    {
        let e = &v[i];
        proof {
            assert(s[i as int] == e@);
        }
        if e.call_id == call_id {
            proof {
                lemma_txn_get_at(s, i as int);
            }
            return Some(i);
        }
        i = i + 1;
    }
    proof {
        lemma_txn_get_none(s, call_id);
    }
    None
}

/// Puts `e` under its key, replacing what was there.
fn txn_put(v: &mut Vec<BoundWrite>, e: BoundWrite)
    requires
        txn_distinct(txn_views(old(v)@)),
    ensures
        txn_distinct(txn_views(final(v)@)),
        txn_map(txn_views(final(v)@)) == txn_map(txn_views(old(v)@)).insert(txn_key(e@), e@),
        final(v)@.len() == old(v)@.len() + if txn_get(txn_views(old(v)@), txn_key(e@)) is Some {
            0int
        } else {
            1int
        },
{
    let ghost s = txn_views(v@);
    let ghost ev = e@;
    let found = txn_find(v, e.call_id);
    match found {
        Some(i) => {
            v[i] = e;
            proof {
                let t = txn_views(v@);
                assert(t =~= s.update(i as int, ev));
                assert forall|a: int, b: int| 0 <= a < b < t.len() implies txn_key(#[trigger] t[a]) != txn_key(#[trigger] t[b]) by {
                    assert(txn_key(s[a]) != txn_key(s[b]));
                }
                assert forall|k: u64| #[trigger] txn_get(t, k) == txn_map(s).insert(txn_key(ev), ev).get(k) by {
                    if k == txn_key(ev) {
                        lemma_txn_get_at(t, i as int);
                    } else if exists|j: int| 0 <= j < s.len() && txn_key(#[trigger] s[j]) == k {
                        let j = choose|j: int| 0 <= j < s.len() && txn_key(#[trigger] s[j]) == k;
                        lemma_txn_get_at(s, j);
                        assert(j != i as int);
                        assert(t[j] == s[j]);
                        lemma_txn_get_at(t, j);
                    } else {
                        assert forall|j: int| 0 <= j < t.len() implies txn_key(#[trigger] t[j]) != k by {
                            if j != i as int {
                                assert(t[j] == s[j]);
                            }
                        }
                        lemma_txn_get_none(t, k);
                    }
                }
                assert(txn_map(t) =~= txn_map(s).insert(txn_key(ev), ev));
            }
        },
        None => {
            v.push(e);
            proof {
                let t = txn_views(v@);
                assert(t =~= s.push(ev));
                assert forall|a: int, b: int| 0 <= a < b < t.len() implies txn_key(#[trigger] t[a]) != txn_key(#[trigger] t[b]) by {
                    if b == s.len() {
                        assert(t[a] == s[a]);
                        if txn_key(s[a]) == txn_key(ev) {
                            lemma_txn_get_at(s, a);
                        }
                    } else {
                        assert(txn_key(s[a]) != txn_key(s[b]));
                    }
                }
                assert forall|k: u64| #[trigger] txn_get(t, k) == txn_map(s).insert(txn_key(ev), ev).get(k) by {
                    if k == txn_key(ev) {
                        lemma_txn_get_at(t, s.len() as int);
                    } else if exists|j: int| 0 <= j < s.len() && txn_key(#[trigger] s[j]) == k {
                        let j = choose|j: int| 0 <= j < s.len() && txn_key(#[trigger] s[j]) == k;
                        lemma_txn_get_at(s, j);
                        assert(t[j] == s[j]);
                        lemma_txn_get_at(t, j);
                    } else {
                        assert forall|j: int| 0 <= j < t.len() implies txn_key(#[trigger] t[j]) != k by {
                            if j < s.len() {
                                assert(t[j] == s[j]);
                            }
                        }
                        lemma_txn_get_none(t, k);
                    }
                }
                assert(txn_map(t) =~= txn_map(s).insert(txn_key(ev), ev));
            }
        },
    }
}

/// Takes out what is under a key.
fn txn_take(v: &mut Vec<BoundWrite>, call_id: u64) -> (r: Option<BoundWrite>)
    requires
        txn_distinct(txn_views(old(v)@)),
    ensures
        txn_distinct(txn_views(final(v)@)),
        txn_map(txn_views(final(v)@)) == txn_map(txn_views(old(v)@)).remove(call_id),
        match r {
            Some(e) => txn_get(txn_views(old(v)@), call_id) == Some(e@) && final(v)@.len() + 1 == old(v)@.len(),
            None => txn_get(txn_views(old(v)@), call_id) is None && final(v)@ == old(v)@,
        },
{
    let ghost s = txn_views(v@);
    let ghost k0 = call_id;
    match txn_find(v, call_id) {
        Some(i) => {
            let e = v.remove(i);
            proof {
                let t = txn_views(v@);
                assert(t =~= s.remove(i as int));
                assert forall|a: int, b: int| 0 <= a < b < t.len() implies txn_key(#[trigger] t[a]) != txn_key(#[trigger] t[b]) by {
                    let a0 = if a < i { a } else { a + 1 };
                    let b0 = if b < i { b } else { b + 1 };
                    assert(t[a] == s[a0]);
                    assert(t[b] == s[b0]);
                    assert(txn_key(s[a0]) != txn_key(s[b0]));
                }
                assert forall|k: u64| #[trigger] txn_get(t, k) == txn_map(s).remove(k0).get(k) by {
                    if k == k0 {
                        assert forall|j: int| 0 <= j < t.len() implies txn_key(#[trigger] t[j]) != k by {
                            let j0 = if j < i { j } else { j + 1 };
                            assert(t[j] == s[j0]);
                            assert(txn_key(s[j0]) != txn_key(s[i as int]));
                        }
                        lemma_txn_get_none(t, k);
                    } else if exists|j: int| 0 <= j < s.len() && txn_key(#[trigger] s[j]) == k {
                        let j = choose|j: int| 0 <= j < s.len() && txn_key(#[trigger] s[j]) == k;
                        lemma_txn_get_at(s, j);
                        assert(j != i as int);
                        let jt = if j < i { j } else { j - 1 };
                        assert(t[jt] == s[j]);
                        lemma_txn_get_at(t, jt);
                    } else {
                        assert forall|j: int| 0 <= j < t.len() implies txn_key(#[trigger] t[j]) != k by {
                            let j0 = if j < i { j } else { j + 1 };
                            assert(t[j] == s[j0]);
                        }
                        lemma_txn_get_none(t, k);
                    }
                }
                assert(txn_map(t) =~= txn_map(s).remove(k0));
            }
            Some(e)
        },
        None => {
            proof {
                assert(txn_map(s) =~= txn_map(s).remove(k0));
            }
            None
        },
    }
}

// ---------------------------------------------------------------------------
// The cache.

/// The provider a state is attributed to when no provider is known.
pub const SHELL_PROVIDER_ID: &'static str = "@mesh/shell";

/// The state of an interface that never published one: `{available: true}`.
pub open spec fn available_state() -> JsonView {
    JsonView::Object(seq![]).with_field("available"@, JsonView::Bool(true))
}

pub struct CacheView {
    pub latest: Map<Seq<char>, LatestView>,
    pub owners: Map<(Seq<char>, Seq<char>), OwnerView>,
    pub txns: Map<u64, WriteView>,
}

/// A state published to the interface's observers.
#[derive(Debug)]
pub struct PublishedState {
    pub interface: String,
    pub provider_id: String,
    pub payload: JsonValue,
}

pub struct PublishedView {
    pub interface: Seq<char>,
    pub provider_id: Seq<char>,
    pub payload: JsonView,
}

impl View for PublishedState {
    type V = PublishedView;

    open spec fn view(&self) -> PublishedView {
        PublishedView { interface: self.interface@, provider_id: self.provider_id@, payload: self.payload@ }
    }
}

pub open spec fn published_views(p: Seq<PublishedState>) -> Seq<PublishedView> {
    Seq::new(p.len(), |i: int| p[i]@)
}

/// The provider running for an interface, with its identity, as plain values.
pub open spec fn running_view(r: Option<(String, u64)>) -> Option<(Seq<char>, u64)> {
    match r {
        Some((p, id)) => Some((p@, id)),
        None => None,
    }
}

/// The generation of an interface's next publication.
pub open spec fn next_generation(latest: Map<Seq<char>, LatestView>, interface: Seq<char>) -> u64 {
    if latest.contains_key(interface) {
        if latest[interface].generation == u64::MAX {
            u64::MAX
        } else {
            (latest[interface].generation + 1) as u64
        }
    } else {
        1
    }
}

/// The cache after `payload` was published for `interface` by `provider`.
pub open spec fn published(
    v: CacheView,
    interface: Seq<char>,
    provider: Seq<char>,
    identity: u64,
    payload: JsonView,
) -> CacheView {
    CacheView {
        latest: v.latest.insert(
            interface,
            LatestView { interface, provider_id: provider, generation: next_generation(v.latest, interface), identity, state: payload },
        ),
        ..v
    }
}

/// The state an interface shows: the latest published one, else `{available: true}`.
pub open spec fn shown_state(v: CacheView, interface: Seq<char>) -> JsonView {
    if v.latest.contains_key(interface) {
        v.latest[interface].state
    } else {
        available_state()
    }
}

/// The provider a shell-made state of `interface` is attributed to: the
/// running one, else the latest publisher, else the shell.
pub open spec fn attributed_provider(v: CacheView, interface: Seq<char>, running: Option<(Seq<char>, u64)>) -> Seq<char> {
    match running {
        Some((p, _)) => p,
        None => if v.latest.contains_key(interface) {
            v.latest[interface].provider_id
        } else {
            SHELL_PROVIDER_ID@
        },
    }
}

pub open spec fn attributed_identity(v: CacheView, interface: Seq<char>, running: Option<(Seq<char>, u64)>) -> u64 {
    match running {
        Some((_, id)) => id,
        None => if v.latest.contains_key(interface) {
            v.latest[interface].identity
        } else {
            0
        },
    }
}

/// Whether a field of the interface's shown state can be written: the
/// state is an object, or there is none yet.
pub open spec fn writable(v: CacheView, interface: Seq<char>) -> bool {
    shown_state(v, interface) is Object || shown_state(v, interface) is Null
}

/// The cache and publication after a command wrote `value` to `field` of
/// `interface`: the shown state gains the value and is published; with a
/// call, the write takes ownership of the field, remembering the value and
/// the write it replaces.
pub open spec fn bound_applied(
    v: CacheView,
    interface: Seq<char>,
    field: Seq<char>,
    value: JsonView,
    call_id: Option<u64>,
    running: Option<(Seq<char>, u64)>,
) -> (CacheView, PublishedView) {
    let provider = attributed_provider(v, interface, running);
    let identity = attributed_identity(v, interface, running);
    let state = shown_state(v, interface);
    let payload = state.with_field(field, value);
    let key = (interface, field);
    let w = match call_id {
        Some(c) => Some(
            WriteView {
                call_id: c,
                interface,
                field,
                provider_id: provider,
                identity,
                previous_call_id: if v.owners.contains_key(key) {
                    Some(v.owners[key].write.call_id)
                } else {
                    None
                },
                previous: state.field(field),
                optimistic: value,
                terminal_status: None,
            },
        ),
        None => None,
    };
    let written = match w {
        Some(w) => CacheView {
            owners: v.owners.insert(key, OwnerView { interface, field, write: w }),
            txns: v.txns.insert(w.call_id, w),
            ..v
        },
        None => v,
    };
    (published(written, interface, provider, identity, payload), PublishedView { interface, provider_id: provider, payload })
}

/// The latest state per interface and the writes bound to their fields.
#[derive(Debug)]
pub struct ServiceStateCache {
    latest: Vec<LatestServiceState>,
    owners: Vec<OwnerEntry>,
    transactions: Vec<BoundWrite>,
}

impl ServiceStateCache {
    pub closed spec fn view_of(&self) -> CacheView {
        CacheView {
            latest: latest_map(latest_views(self.latest@)),
            owners: owner_map(owner_views(self.owners@)),
            txns: txn_map(txn_views(self.transactions@)),
        }
    }

    /// Each collection holds a key once.
    pub closed spec fn wf(&self) -> bool {
        &&& latest_distinct(latest_views(self.latest@))
        &&& owner_distinct(owner_views(self.owners@))
        &&& txn_distinct(txn_views(self.transactions@))
    }

    /// The number of writes not yet forgotten.
    pub closed spec fn txn_count(&self) -> nat {
        self.transactions@.len()
    }

    pub fn new() -> (r: ServiceStateCache)
        ensures
            r.wf(),
            r.view_of().latest == Map::<Seq<char>, LatestView>::empty(),
            r.view_of().owners == Map::<(Seq<char>, Seq<char>), OwnerView>::empty(),
            r.view_of().txns == Map::<u64, WriteView>::empty(),
    {
        let r = ServiceStateCache { latest: Vec::new(), owners: Vec::new(), transactions: Vec::new() };
        proof {
            assert(r.view_of().latest =~= Map::<Seq<char>, LatestView>::empty());
            assert(r.view_of().owners =~= Map::<(Seq<char>, Seq<char>), OwnerView>::empty());
            assert(r.view_of().txns =~= Map::<u64, WriteView>::empty());
        }
        r
    }

    /// The latest state of an interface.
    pub fn latest_state(&self, interface: &str) -> (r: Option<&LatestServiceState>)
        requires
            self.wf(),
        ensures
            match r {
                Some(l) => self.view_of().latest.contains_key(interface@) && self.view_of().latest[interface@] == l@,
                None => !self.view_of().latest.contains_key(interface@),
            },
    {
        match latest_find(&self.latest, interface) {
            Some(i) => Some(&self.latest[i]),
            None => None,
        }
    }

    fn shown_state_of(&self, interface: &str) -> (r: JsonValue)
        requires
            self.wf(),
        ensures
            r@ == shown_state(self.view_of(), interface@),
    {
        match latest_find(&self.latest, interface) {
            Some(i) => self.latest[i].state.duplicate(),
            None => {
                let mut v = JsonValue::empty_object();
                v.set_field("available", JsonValue::boolean(true));
                v
            },
        }
    }

    fn attribution(&self, interface: &str, running: &Option<(String, u64)>) -> (r: (String, u64))
        requires
            self.wf(),
        ensures
            r.0@ == attributed_provider(self.view_of(), interface@, running_view(*running)),
            r.1 == attributed_identity(self.view_of(), interface@, running_view(*running)),
    {
        match running {
            Some((p, id)) => (p.clone(), *id),
            None => match latest_find(&self.latest, interface) {
                Some(i) => (self.latest[i].provider_id.clone(), self.latest[i].identity),
                None => (String::from_str(SHELL_PROVIDER_ID), 0),
            },
        }
    }

    /// Publishes `payload` as the latest state of `interface`.
    fn publish(&mut self, interface: &str, provider_id: &str, identity: u64, payload: JsonValue) -> (r: PublishedState)
        requires
            old(self).wf(),
        ensures
            final(self).wf(),
            final(self).view_of() == published(old(self).view_of(), interface@, provider_id@, identity, payload@),
            r@ == (PublishedView { interface: interface@, provider_id: provider_id@, payload: payload@ }),
            final(self).txn_count() == old(self).txn_count(),
    {
        let generation = match latest_find(&self.latest, interface) {
            Some(i) => self.latest[i].generation.saturating_add(1),
            None => 1,
        };
        let out = PublishedState {
            interface: String::from_str(interface),
            provider_id: String::from_str(provider_id),
            payload: payload.duplicate(),
        };
        latest_put(
            &mut self.latest,
            LatestServiceState {
                interface: String::from_str(interface),
                provider_id: String::from_str(provider_id),
                generation,
                identity,
                state: payload,
            },
        );
        proof {
            assert(self.view_of() =~= published(old(self).view_of(), interface@, provider_id@, identity, out.payload@));
        }
        out
    }

    /// Writes a command's `value` to `field` of the interface's shown state
    /// and publishes it; with a call, the write owns the field until it is
    /// confirmed or settles as failed. `running` is the provider running for
    /// the interface and its identity.
    pub fn apply_bound_service_state(
        &mut self,
        interface: &str,
        field: &str,
        value: JsonValue,
        call_id: Option<u64>,
        running: Option<(String, u64)>,
    ) -> (r: PublishedState)
        requires
            old(self).wf(),
            writable(old(self).view_of(), interface@),
        ensures
            final(self).wf(),
            (final(self).view_of(), r@) == bound_applied(
                old(self).view_of(),
                interface@,
                field@,
                value@,
                call_id,
                running_view(running),
            ),
    {
        let ghost v0 = self.view_of();
        let (provider, identity) = self.attribution(interface, &running);
        let mut payload = self.shown_state_of(interface);
        let previous = match payload.get(field) {
            Some(p) => Some(p.duplicate()),
            None => None,
        };
        payload.set_field(field, value.duplicate());
        if let Some(c) = call_id {
            let previous_call_id = match owner_find(&self.owners, interface, field) {
                Some(i) => Some(self.owners[i].write.call_id),
                None => None,
            };
            let write = BoundWrite {
                call_id: c,
                interface: String::from_str(interface),
                field: String::from_str(field),
                provider_id: provider.clone(),
                identity,
                previous_call_id,
                previous: match &previous {
                    Some(p) => Some(p.duplicate()),
                    None => None,
                },
                optimistic: value.duplicate(),
                terminal_status: None,
            };
            let copy = BoundWrite {
                call_id: c,
                interface: String::from_str(interface),
                field: String::from_str(field),
                provider_id: provider.clone(),
                identity,
                previous_call_id,
                previous,
                optimistic: value,
                terminal_status: None,
            };
            owner_put(
                &mut self.owners,
                OwnerEntry { interface: String::from_str(interface), field: String::from_str(field), write },
            );
            txn_put(&mut self.transactions, copy);
        }
        proof {
            let key = (interface@, field@);
            let v1 = self.view_of();
            match call_id {
                Some(c) => {
                    assert(v1.latest == v0.latest);
                },
                None => {
                    assert(v1 == v0);
                },
            }
        }
        self.publish(interface, provider.as_str(), identity, payload)
    }
}

// ---------------------------------------------------------------------------
// Settling writes.

/// Whether a command ended in a way other than completing.
pub open spec fn failed_status(s: Option<Seq<char>>) -> bool {
    s is Some && s.unwrap() != "completed"@
}

pub open spec fn running_identity(running: Option<(Seq<char>, u64)>) -> u64 {
    match running {
        Some((_, id)) => id,
        None => 0,
    }
}

/// The cache and publication after `field` of `interface` got back the
/// value it had before a failed write, or lost it when it had none.
pub open spec fn restored(
    v: CacheView,
    interface: Seq<char>,
    field: Seq<char>,
    previous: Option<JsonView>,
    running: Option<(Seq<char>, u64)>,
) -> (CacheView, PublishedView) {
    let provider = attributed_provider(v, interface, running);
    let state = shown_state(v, interface);
    let payload = match previous {
        Some(p) => state.with_field(field, p),
        None => state.without_field(field),
    };
    (
        published(v, interface, provider, running_identity(running), payload),
        PublishedView { interface, provider_id: provider, payload },
    )
}

/// The cache and publication after `field` of `interface` got back the
/// value of the write that owned it before.
pub open spec fn value_restored(
    v: CacheView,
    interface: Seq<char>,
    field: Seq<char>,
    provider: Seq<char>,
    value: JsonView,
    running: Option<(Seq<char>, u64)>,
) -> (CacheView, PublishedView) {
    let payload = shown_state(v, interface).with_field(field, value);
    (
        published(v, interface, provider, running_identity(running), payload),
        PublishedView { interface, provider_id: provider, payload },
    )
}

/// `v` without write `c`, and without its ownership of its field if it
/// still owns it.
pub open spec fn write_dropped(v: CacheView, c: u64) -> CacheView {
    let t = v.txns[c];
    let key = (t.interface, t.field);
    CacheView {
        txns: v.txns.remove(c),
        owners: if v.owners.contains_key(key) && v.owners[key].write.call_id == c {
            v.owners.remove(key)
        } else {
            v.owners
        },
        ..v
    }
}

/// The cache and publications after failed write `c` was rolled back: the
/// write is forgotten; a write before it that failed too is rolled back in
/// turn; one that did not takes the field back with its value; with none,
/// the field gets back the value it had before write `c`. `fuel` bounds the
/// steps; the number of writes kept is always enough.
pub open spec fn rolled_back(v: CacheView, c: u64, running: Option<(Seq<char>, u64)>, fuel: nat) -> (
    CacheView,
    Seq<PublishedView>,
)
    decreases fuel,
{
    if fuel == 0 || !v.txns.contains_key(c) {
        (v, seq![])
    } else {
        let t = v.txns[c];
        let v1 = write_dropped(v, c);
        if t.previous_call_id is Some && v1.txns.contains_key(t.previous_call_id.unwrap()) {
            let p = t.previous_call_id.unwrap();
            let prev = v1.txns[p];
            if failed_status(prev.terminal_status) {
                rolled_back(v1, p, running, (fuel - 1) as nat)
            } else {
                let provider = match running {
                    Some((r, _)) => r,
                    None => prev.provider_id,
                };
                let v2 = CacheView {
                    owners: v1.owners.insert(
                        (t.interface, t.field),
                        OwnerView { interface: t.interface, field: t.field, write: prev },
                    ),
                    ..v1
                };
                let (v3, out) = value_restored(v2, t.interface, t.field, provider, prev.optimistic, running);
                (v3, seq![out])
            }
        } else {
            let (v3, out) = restored(v1, t.interface, t.field, t.previous, running);
            (v3, seq![out])
        }
    }
}

/// Whether rolling back write `c` writes only into states that can take a field.
pub open spec fn rollback_writable(v: CacheView, c: u64, running: Option<(Seq<char>, u64)>, fuel: nat) -> bool
    decreases fuel,
{
    if fuel == 0 || !v.txns.contains_key(c) {
        true
    } else {
        let t = v.txns[c];
        let v1 = write_dropped(v, c);
        if t.previous_call_id is Some && v1.txns.contains_key(t.previous_call_id.unwrap()) {
            let p = t.previous_call_id.unwrap();
            if failed_status(v1.txns[p].terminal_status) {
                rollback_writable(v1, p, running, (fuel - 1) as nat)
            } else {
                writable(v1, t.interface)
            }
        } else {
            t.previous is Some ==> writable(v1, t.interface)
        }
    }
}

/// Every interface's shown state can take a field.
pub open spec fn all_writable(v: CacheView) -> bool {
    forall|i: Seq<char>| #[trigger] v.latest.contains_key(i) ==> v.latest[i].state is Object || v.latest[i].state is Null
}

/// When every shown state can take a field, so can the states a rollback
/// writes into: checking `states_are_writable` meets the precondition of
/// settling a failed write.
pub proof fn lemma_all_writable_rollback(v: CacheView, c: u64, running: Option<(Seq<char>, u64)>, fuel: nat)
    requires
        all_writable(v),
    ensures
        rollback_writable(v, c, running, fuel),
    decreases fuel,
{
    if fuel > 0 && v.txns.contains_key(c) {
        let t = v.txns[c];
        let v1 = write_dropped(v, c);
        assert(v1.latest == v.latest);
        if t.previous_call_id is Some && v1.txns.contains_key(t.previous_call_id.unwrap()) {
            lemma_all_writable_rollback(v1, t.previous_call_id.unwrap(), running, (fuel - 1) as nat);
        }
    }
}

/// Whether `k` is a field that call `c` may be settling: one it owns, when
/// it owns any; else the field of its write.
pub open spec fn settle_key(v: CacheView, c: u64, k: (Seq<char>, Seq<char>)) -> bool {
    if exists|k2: (Seq<char>, Seq<char>)| #[trigger] v.owners.contains_key(k2) && v.owners[k2].write.call_id == c {
        v.owners.contains_key(k) && v.owners[k].write.call_id == c
    } else {
        v.txns.contains_key(c) && k == (v.txns[c].interface, v.txns[c].field)
    }
}

pub open spec fn settles_something(v: CacheView, c: u64) -> bool {
    (exists|k2: (Seq<char>, Seq<char>)| #[trigger] v.owners.contains_key(k2) && v.owners[k2].write.call_id == c)
        || v.txns.contains_key(c)
}

/// `v` with write `c` marked as ended with `status`.
pub open spec fn with_terminal(v: CacheView, c: u64, status: Seq<char>) -> CacheView {
    if v.txns.contains_key(c) {
        CacheView { txns: v.txns.insert(c, WriteView { terminal_status: Some(status), ..v.txns[c] }), ..v }
    } else {
        v
    }
}

/// The cache and publications after call `c`, settling field `k`, ended
/// with `status`: the write records how it ended; a completed write keeps
/// its value until the provider confirms it; a failed one that still owns
/// the field is rolled back, and one that no longer owns it changes nothing
/// else.
pub open spec fn settled(
    v: CacheView,
    c: u64,
    k: (Seq<char>, Seq<char>),
    status: Seq<char>,
    running: Option<(Seq<char>, u64)>,
    fuel: nat,
) -> (CacheView, Seq<PublishedView>) {
    let v1 = with_terminal(v, c, status);
    if status == "completed"@ {
        (v1, seq![])
    } else if !(v1.owners.contains_key(k) && v1.owners[k].write.call_id == c) {
        (v1, seq![])
    } else {
        rolled_back(v1, c, running, fuel)
    }
}

fn duplicate_write(w: &BoundWrite) -> (r: BoundWrite)
    ensures
        r@ == w@,
{
    BoundWrite {
        call_id: w.call_id,
        interface: w.interface.clone(),
        field: w.field.clone(),
        provider_id: w.provider_id.clone(),
        identity: w.identity,
        previous_call_id: w.previous_call_id,
        previous: match &w.previous {
            Some(p) => Some(p.duplicate()),
            None => None,
        },
        optimistic: w.optimistic.duplicate(),
        terminal_status: match &w.terminal_status {
            Some(t) => Some(t.clone()),
            None => None,
        },
    }
}

impl ServiceStateCache {
    /// Whether every interface's shown state can take a field.
    /// Whether the state shown for `interface` can take a field.
    pub fn state_is_writable(&self, interface: &str) -> (r: bool)
        requires
            self.wf(),
        ensures
            r == writable(self.view_of(), interface@),
    {
        match self.shown_state_of(interface) {
            JsonValue::Object(_) | JsonValue::Null => true,
            _ => false,
        }
    }

    pub fn states_are_writable(&self) -> (r: bool)
        requires
            self.wf(),
        ensures
            r == all_writable(self.view_of()),
    {
        let ghost s = latest_views(self.latest@);
        let mut i: usize = 0;
        while i < self.latest.len()
            invariant
                s == latest_views(self.latest@),
                latest_distinct(s),
                i <= s.len(),
                forall|j: int| 0 <= j < i ==> (#[trigger] s[j]).state is Object || s[j].state is Null,
            decreases self.latest.len() - i,
        {
            let ok = match &self.latest[i].state {
                JsonValue::Object(_) => true,
                JsonValue::Null => true,
                _ => false,
            };
            if !ok {
                proof {
                    lemma_latest_get_at(s, i as int);
                    assert(self.view_of().latest.contains_key(s[i as int].interface));
                }
                return false;
            }
            i = i + 1;
        }
        proof {
            assert forall|k: Seq<char>| #[trigger] self.view_of().latest.contains_key(k) implies self.view_of().latest[k].state is Object
                || self.view_of().latest[k].state is Null by {
                let j = choose|j: int| 0 <= j < s.len() && latest_key(#[trigger] s[j]) == k;
                lemma_latest_get_at(s, j);
            }
        }
        true
    }

    fn restore(&mut self, interface: &str, field: &str, previous: Option<JsonValue>, running: &Option<(String, u64)>) -> (r:
        PublishedState)
        requires
            old(self).wf(),
            previous is Some ==> writable(old(self).view_of(), interface@),
        ensures
            final(self).wf(),
            final(self).txn_count() == old(self).txn_count(),
            (final(self).view_of(), r@) == restored(old(self).view_of(), interface@, field@, opt_json(previous), running_view(*running)),
    {
        let (provider, _) = self.attribution(interface, running);
        let mut payload = self.shown_state_of(interface);
        match previous {
            Some(p) => payload.set_field(field, p),
            None => payload.remove_field(field),
        }
        let identity = match running {
            Some((_, id)) => *id,
            None => 0,
        };
        self.publish(interface, provider.as_str(), identity, payload)
    }

    fn restore_value(
        &mut self,
        interface: &str,
        field: &str,
        provider: &str,
        value: JsonValue,
        running: &Option<(String, u64)>,
    ) -> (r: PublishedState)
        requires
            old(self).wf(),
            writable(old(self).view_of(), interface@),
        ensures
            final(self).wf(),
            final(self).txn_count() == old(self).txn_count(),
            (final(self).view_of(), r@) == value_restored(old(self).view_of(), interface@, field@, provider@, value@, running_view(*running)),
    {
        let mut payload = self.shown_state_of(interface);
        payload.set_field(field, value);
        let identity = match running {
            Some((_, id)) => *id,
            None => 0,
        };
        self.publish(interface, provider, identity, payload)
    }

    fn rollback(&mut self, call_id: u64, running: &Option<(String, u64)>) -> (r: Vec<PublishedState>)
        requires
            old(self).wf(),
            rollback_writable(old(self).view_of(), call_id, running_view(*running), old(self).txn_count()),
        ensures
            final(self).wf(),
            (final(self).view_of(), published_views(r@)) == rolled_back(
                old(self).view_of(),
                call_id,
                running_view(*running),
                old(self).txn_count(),
            ),
        decreases old(self).txn_count(),
    {
        let ghost v = self.view_of();
        let t = match txn_take(&mut self.transactions, call_id) {
            Some(t) => t,
            None => {
                let r: Vec<PublishedState> = Vec::new();
                proof {
                    assert(published_views(r@) =~= Seq::<PublishedView>::empty());
                }
                return r;
            },
        };
        let ghost fuel = old(self).txn_count();
        if let Some(i) = owner_find(&self.owners, t.interface.as_str(), t.field.as_str()) {
            if self.owners[i].write.call_id == call_id {
                owner_take(&mut self.owners, t.interface.as_str(), t.field.as_str());
            }
        }
        proof {
            assert(self.view_of() =~= write_dropped(v, call_id));
        }
        if let Some(p) = t.previous_call_id {
            if let Some(j) = txn_find(&self.transactions, p) {
                let failed = match &self.transactions[j].terminal_status {
                    Some(status) => !crate::text::str_eq(status.as_str(), "completed"),
                    None => false,
                };
                if failed {
                    proof {
                        reveal_strlit("completed");
                    }
                    return self.rollback(p, running);
                }
                let prev = duplicate_write(&self.transactions[j]);
                let provider = match running {
                    Some((r, _)) => r.clone(),
                    None => prev.provider_id.clone(),
                };
                let value = prev.optimistic.duplicate();
                owner_put(
                    &mut self.owners,
                    OwnerEntry { interface: t.interface.clone(), field: t.field.clone(), write: prev },
                );
                let out = self.restore_value(t.interface.as_str(), t.field.as_str(), provider.as_str(), value, running);
                let mut r: Vec<PublishedState> = Vec::new();
                r.push(out);
                proof {
                    reveal_strlit("completed");
                    assert(published_views(r@) =~= seq![r@[0]@]);
                }
                return r;
            }
        }
        let out = self.restore(t.interface.as_str(), t.field.as_str(), t.previous, running);
        let mut r: Vec<PublishedState> = Vec::new();
        r.push(out);
        proof {
            assert(published_views(r@) =~= seq![r@[0]@]);
        }
        r
    }
}

impl ServiceStateCache {
    /// Index of the first owner entry whose write is call `c`.
    fn owner_with_call(&self, call_id: u64) -> (r: Option<usize>)
        requires
            self.wf(),
        ensures
            match r {
                Some(i) => i < self.owners@.len() && self.owners@[i as int].write.call_id == call_id
                    && self.view_of().owners.contains_key((self.owners@[i as int].interface@, self.owners@[i as int].field@))
                    && self.view_of().owners[(self.owners@[i as int].interface@, self.owners@[i as int].field@)]
                    == self.owners@[i as int]@,
                None => !(exists|k2: (Seq<char>, Seq<char>)| #[trigger] self.view_of().owners.contains_key(k2)
                    && self.view_of().owners[k2].write.call_id == call_id),
            },
    {
        let ghost s = owner_views(self.owners@);
        let mut i: usize = 0;
        while i < self.owners.len()
            invariant
                s == owner_views(self.owners@),
                owner_distinct(s),
                i <= s.len(),
                forall|j: int| 0 <= j < i ==> (#[trigger] s[j]).write.call_id != call_id,
            decreases self.owners.len() - i,
        {
            if self.owners[i].write.call_id == call_id {
                proof {
                    lemma_owner_get_at(s, i as int);
                }
                return Some(i);
            }
            i = i + 1;
        }
        proof {
            assert forall|k2: (Seq<char>, Seq<char>)| #[trigger] self.view_of().owners.contains_key(k2) implies self.view_of().owners[k2].write.call_id
                != call_id by {
                let j = choose|j: int| 0 <= j < s.len() && owner_key(#[trigger] s[j]) == k2;
                lemma_owner_get_at(s, j);
            }
        }
        None
    }

    /// The interface and field that call `call_id` settles, if any.
    pub fn settling_field(&self, call_id: u64) -> (r: Option<(String, String)>)
        requires
            self.wf(),
        ensures
            match r {
                Some((i, f)) => settle_key(self.view_of(), call_id, (i@, f@)),
                None => !settles_something(self.view_of(), call_id),
            },
    {
        match self.owner_with_call(call_id) {
            Some(i) => Some((self.owners[i].interface.clone(), self.owners[i].field.clone())),
            None => match txn_find(&self.transactions, call_id) {
                Some(j) => Some((self.transactions[j].interface.clone(), self.transactions[j].field.clone())),
                None => None,
            },
        }
    }

    /// Settles the write of call `call_id`, which ended with `status`: the
    /// write records how it ended; a completed write keeps its value until
    /// the provider confirms it; a failed write that still owns its field is
    /// rolled back, publishing the value that comes back. `running` is the
    /// provider running for the write's interface and its identity.
    pub fn settle_bound_service_state(&mut self, call_id: u64, status: &str, running: Option<(String, u64)>) -> (r: Vec<
        PublishedState,
    >)
        requires
            old(self).wf(),
            status@ != "completed"@ ==> rollback_writable(
                with_terminal(old(self).view_of(), call_id, status@),
                call_id,
                running_view(running),
                old(self).txn_count(),
            ),
        ensures
            final(self).wf(),
            !settles_something(old(self).view_of(), call_id) ==> final(self).view_of() == old(self).view_of() && r@.len() == 0,
            settles_something(old(self).view_of(), call_id) ==> exists|k: (Seq<char>, Seq<char>)|
                #[trigger] settle_key(old(self).view_of(), call_id, k) && (final(self).view_of(), published_views(r@)) == settled(
                    old(self).view_of(),
                    call_id,
                    k,
                    status@,
                    running_view(running),
                    old(self).txn_count(),
                ),
    {
        let ghost v = self.view_of();
        let (interface, field) = match self.settling_field(call_id) {
            Some(k) => k,
            None => {
                return Vec::new();
            },
        };
        let ghost k = (interface@, field@);
        let ghost count0 = self.transactions@.len();
        if let Some(mut w) = txn_take(&mut self.transactions, call_id) {
            proof {
                assert(v.txns.contains_key(call_id));
                assert(v.txns[call_id] == w@);
            }
            w.terminal_status = Some(String::from_str(status));
            let ghost m = txn_map(txn_views(self.transactions@));
            let ghost len_mid = self.transactions@.len();
            proof {
                assert(!m.contains_key(call_id));
                assert(txn_get(txn_views(self.transactions@), call_id) is None);
                assert(w.call_id == call_id);
                assert(len_mid + 1 == count0);
            }
            txn_put(&mut self.transactions, w);
            proof {
                assert(m == v.txns.remove(call_id));
                assert(txn_map(txn_views(self.transactions@)) =~= v.txns.insert(
                    call_id,
                    WriteView { terminal_status: Some(status@), ..v.txns[call_id] },
                ));
            }
        } else {
            proof {
                assert(!v.txns.contains_key(call_id));
            }
        }
        proof {
            assert(self.view_of() =~= with_terminal(v, call_id, status@));
            assert(self.transactions@.len() == count0);
        }
        proof {
            reveal_strlit("completed");
        }
        if crate::text::str_eq(status, "completed") {
            let r: Vec<PublishedState> = Vec::new();
            proof {
                assert(published_views(r@) =~= Seq::<PublishedView>::empty());
                assert(settle_key(v, call_id, k));
            }
            return r;
        }
        let current = match owner_find(&self.owners, interface.as_str(), field.as_str()) {
            Some(i) => self.owners[i].write.call_id == call_id,
            None => false,
        };
        if !current {
            let r: Vec<PublishedState> = Vec::new();
            proof {
                assert(published_views(r@) =~= Seq::<PublishedView>::empty());
                assert(settle_key(v, call_id, k));
            }
            return r;
        }
        let r = self.rollback(call_id, &running);
        proof {
            assert(settle_key(v, call_id, k));
        }
        r
    }
}

// ---------------------------------------------------------------------------
// Provider snapshots.

/// The writes left after forgetting write `c` and every write before it,
/// with how many were forgotten. `fuel` bounds the steps; the number of
/// writes kept is always enough.
pub open spec fn chain_forgotten(txns: Map<u64, WriteView>, c: Option<u64>, fuel: nat) -> (Map<u64, WriteView>, nat)
    decreases fuel,
{
    match c {
        None => (txns, 0),
        Some(id) => if fuel == 0 || !txns.contains_key(id) {
            (txns, 0)
        } else {
            let (m, n) = chain_forgotten(txns.remove(id), txns[id].previous_call_id, (fuel - 1) as nat);
            (m, n + 1)
        },
    }
}

/// The fields of `interface` that writes own, in the cache's order.
pub open spec fn owned_fields(owners: Seq<OwnerView>, interface: Seq<char>) -> Seq<Seq<char>>
    decreases owners.len(),
{
    if owners.len() == 0 {
        seq![]
    } else {
        let rest = owned_fields(owners.drop_last(), interface);
        if owners.last().interface == interface {
            rest.push(owners.last().field)
        } else {
            rest
        }
    }
}

/// The cache, snapshot and number of writes kept after the provider's
/// snapshot met the writes owning `fields` of `interface`: a write whose
/// value the provider confirms (`confirmed`) is forgotten with the writes
/// before it; any other keeps its value in the snapshot.
pub open spec fn confirmations(
    v: CacheView,
    count: nat,
    interface: Seq<char>,
    payload: JsonView,
    fields: Seq<Seq<char>>,
    confirmed: Seq<bool>,
) -> (CacheView, JsonView, nat)
    decreases fields.len(),
{
    if fields.len() == 0 || confirmed.len() != fields.len() {
        (v, payload, count)
    } else {
        let (v1, p1, n1) = confirmations(v, count, interface, payload, fields.drop_last(), confirmed.drop_last());
        let key = (interface, fields.last());
        if !v1.owners.contains_key(key) {
            (v1, p1, n1)
        } else if confirmed.last() {
            let (m, gone) = chain_forgotten(v1.txns, Some(v1.owners[key].write.call_id), n1);
            (CacheView { owners: v1.owners.remove(key), txns: m, ..v1 }, p1, (n1 - gone) as nat)
        } else {
            (v1, p1.with_field(fields.last(), v1.owners[key].write.optimistic), n1)
        }
    }
}

/// Whether the provider's snapshot is stale: another provider runs for the
/// interface, or the publishing one is refused.
pub open spec fn snapshot_refused(running_provider: Option<Seq<char>>, source: Seq<char>, rejects: bool) -> bool {
    (running_provider is Some && running_provider.unwrap() != source) || rejects
}

impl ServiceStateCache {
    pub closed spec fn owner_seq(&self) -> Seq<OwnerView> {
        owner_views(self.owners@)
    }

    fn forget_chain(&mut self, call_id: u64)
        requires
            old(self).wf(),
        ensures
            final(self).wf(),
            final(self).view_of().latest == old(self).view_of().latest,
            final(self).owners == old(self).owners,
            (final(self).view_of().txns, (old(self).txn_count() - final(self).txn_count()) as nat) == chain_forgotten(
                old(self).view_of().txns,
                Some(call_id),
                old(self).txn_count(),
            ),
            final(self).txn_count() <= old(self).txn_count(),
    {
        let ghost m0 = self.view_of().txns;
        let ghost f0 = self.txn_count();
        let mut next: Option<u64> = Some(call_id);
        let ghost mut removed: nat = 0;
        while next.is_some()
            invariant
                old(self).wf(),
                self.wf(),
                self.view_of().latest == old(self).view_of().latest,
                self.owners == old(self).owners,
                m0 == old(self).view_of().txns,
                f0 == old(self).txn_count(),
                self.txn_count() + removed == f0,
                chain_forgotten(m0, Some(call_id), f0) == ({
                    let (m, n) = chain_forgotten(self.view_of().txns, next, self.txn_count());
                    (m, n + removed)
                }),
            decreases self.transactions@.len(), if next is Some {
                1nat
            } else {
                0nat
            },
        {
            let id = match next {
                Some(id) => id,
                None => 0,
            };
            let ghost cur = self.view_of().txns;
            let ghost cnt = self.txn_count();
            match txn_take(&mut self.transactions, id) {
                Some(t) => {
                    proof {
                        assert(cur.contains_key(id));
                        assert(cur[id] == t@);
                        assert(cnt >= 1);
                        assert(self.view_of().txns == cur.remove(id));
                        removed = removed + 1;
                    }
                    next = t.previous_call_id;
                },
                None => {
                    proof {
                        assert(!cur.contains_key(id));
                    }
                    next = None;
                },
            }
        }
    }

    /// The fields of `interface` that writes own, with each write's value,
    /// in the order `normalize_service_event` takes them.
    pub fn owned_field_values(&self, interface: &str) -> (r: Vec<(String, JsonValue)>)
        requires
            self.wf(),
        ensures
            r@.len() == owned_fields(self.owner_seq(), interface@).len(),
            forall|i: int| 0 <= i < r@.len() ==> (#[trigger] r@[i]).0@ == owned_fields(self.owner_seq(), interface@)[i]
                && self.view_of().owners.contains_key((interface@, r@[i].0@))
                && self.view_of().owners[(interface@, r@[i].0@)].write.optimistic == r@[i].1@,
    {
        let ghost s = self.owner_seq();
        let mut out: Vec<(String, JsonValue)> = Vec::new();
        let mut i: usize = 0;
        while i < self.owners.len()
            invariant
                s == self.owner_seq(),
                s == owner_views(self.owners@),
                owner_distinct(s),
                i <= s.len(),
                out@.len() == owned_fields(s.subrange(0, i as int), interface@).len(),
                forall|j: int| 0 <= j < out@.len() ==> (#[trigger] out@[j]).0@ == owned_fields(s.subrange(0, i as int), interface@)[j]
                    && self.view_of().owners.contains_key((interface@, out@[j].0@))
                    && self.view_of().owners[(interface@, out@[j].0@)].write.optimistic == out@[j].1@,
            decreases self.owners.len() - i,
        {
            proof {
                assert(s.subrange(0, i + 1).drop_last() =~= s.subrange(0, i as int));
                assert(s.subrange(0, i + 1).last() == s[i as int]);
            }
            let e = &self.owners[i];
            if crate::text::str_eq(e.interface.as_str(), interface) {
                proof {
                    lemma_owner_get_at(s, i as int);
                }
                out.push((e.field.clone(), e.write.optimistic.duplicate()));
            }
            i = i + 1;
        }
        proof {
            assert(s.subrange(0, s.len() as int) =~= s);
        }
        out
    }

    /// Meets a provider's snapshot of `interface` with the writes that own
    /// its fields: when the provider runs and is not refused, a write whose
    /// value the snapshot confirms (`confirmed`, one verdict per field of
    /// `owned_field_values`, in its order) is forgotten with the writes
    /// before it, and every other write's value replaces the provider's.
    pub fn normalize_service_event(
        &mut self,
        interface: &str,
        source_module: &str,
        payload: JsonValue,
        running_provider: Option<String>,
        rejects: bool,
        confirmed: Vec<bool>,
    ) -> (r: JsonValue)
        requires
            old(self).wf(),
            confirmed@.len() == owned_fields(old(self).owner_seq(), interface@).len(),
            payload@ is Object || payload@ is Null,
        ensures
            final(self).wf(),
            snapshot_refused(opt_text(running_provider), source_module@, rejects) ==> final(self).view_of() == old(self).view_of()
                && r@ == payload@,
            !snapshot_refused(opt_text(running_provider), source_module@, rejects) ==> ({
                let (v, p, n) = confirmations(
                    old(self).view_of(),
                    old(self).txn_count(),
                    interface@,
                    payload@,
                    owned_fields(old(self).owner_seq(), interface@),
                    confirmed@,
                );
                final(self).view_of() == v && r@ == p
            }),
    {
        let refused = match &running_provider {
            Some(p) => !crate::text::str_eq(p.as_str(), source_module),
            None => false,
        } || rejects;
        if refused {
            return payload;
        }
        let fields = self.owned_field_values(interface);
        let ghost fs = owned_fields(self.owner_seq(), interface@);
        let ghost v0 = self.view_of();
        let ghost c0 = self.txn_count();
        let ghost p0 = payload@;
        let mut payload = payload;
        let mut i: usize = 0;
        proof {
            assert(fs.subrange(0, 0) =~= Seq::<Seq<char>>::empty());
            assert(confirmed@.subrange(0, 0) =~= Seq::<bool>::empty());
        }
        while i < fields.len()
            invariant
                i <= fields@.len(),
                fields@.len() == fs.len(),
                confirmed@.len() == fs.len(),
                forall|j: int| 0 <= j < fields@.len() ==> (#[trigger] fields@[j]).0@ == fs[j],
                self.wf(),
                payload@ is Object || payload@ is Null,
                ({
                    let (v, p, n) = confirmations(
                        v0,
                        c0,
                        interface@,
                        p0,
                        fs.subrange(0, i as int),
                        confirmed@.subrange(0, i as int),
                    );
                    self.view_of() == v && payload@ == p && self.txn_count() == n
                }),
            decreases fields.len() - i,
        {
            let f = fields[i].0.as_str();
            proof {
                assert(fs.subrange(0, i + 1).drop_last() =~= fs.subrange(0, i as int));
                assert(fs.subrange(0, i + 1).last() == fs[i as int]);
                assert(confirmed@.subrange(0, i + 1).drop_last() =~= confirmed@.subrange(0, i as int));
                assert(confirmed@.subrange(0, i + 1).last() == confirmed@[i as int]);
            }
            match owner_find(&self.owners, interface, f) {
                None => {},
                Some(k) => {
                    if confirmed[i] {
                        let c = self.owners[k].write.call_id;
                        owner_take(&mut self.owners, interface, f);
                        self.forget_chain(c);
                    } else {
                        let value = self.owners[k].write.optimistic.duplicate();
                        payload.set_field(f, value);
                    }
                },
            }
            i = i + 1;
        }
        proof {
            assert(fs.subrange(0, fs.len() as int) =~= fs);
            assert(confirmed@.subrange(0, fs.len() as int) =~= confirmed@);
        }
        payload
    }
}

/// The cache after a provider's snapshot of `interface`, or `None` when the
/// snapshot is ignored: while a provider runs for the interface, only it
/// may publish, and only while it is active; with none running, only an
/// unidentified publisher that is not refused may; a snapshot equal to the
/// publisher's latest one is ignored too. A snapshot that breaks the
/// interface's contract is recorded: its warnings are recorded apart.
pub open spec fn snapshot_recorded(
    v: CacheView,
    interface: Seq<char>,
    source: Seq<char>,
    payload: JsonView,
    identity: u64,
    running_provider: Option<Seq<char>>,
    provider_active: bool,
    rejects: bool,
) -> Option<CacheView> {
    let refused = match running_provider {
        Some(p) => p != source || !provider_active,
        None => identity != 0 || rejects,
    };
    if refused {
        None
    } else if v.latest.contains_key(interface) && v.latest[interface].provider_id == source && v.latest[interface].state
        == payload {
        None
    } else {
        Some(published(v, interface, source, identity, payload))
    }
}

impl ServiceStateCache {
    /// Records a provider's snapshot of `interface` as its latest state,
    /// unless it is ignored; returns whether it was recorded. `identity` is
    /// the publisher's identity (0 for none), `running_provider` the
    /// provider running for the interface, `provider_active` whether the
    /// publisher is active at that identity, and `rejects` whether its
    /// runtime status refuses its messages.
    pub fn record_latest_service_state_at_identity(
        &mut self,
        interface: &str,
        source_module: &str,
        payload: &JsonValue,
        identity: u64,
        running_provider: Option<String>,
        provider_active: bool,
        rejects: bool,
    ) -> (r: bool)
        requires
            old(self).wf(),
        ensures
            final(self).wf(),
            final(self).txn_count() == old(self).txn_count(),
            match snapshot_recorded(
                old(self).view_of(),
                interface@,
                source_module@,
                payload@,
                identity,
                opt_text(running_provider),
                provider_active,
                rejects,
            ) {
                Some(v) => r && final(self).view_of() == v,
                None => !r && final(self).view_of() == old(self).view_of(),
            },
    {
        let refused = match &running_provider {
            Some(p) => !crate::text::str_eq(p.as_str(), source_module) || !provider_active,
            None => identity != 0 || rejects,
        };
        if refused {
            return false;
        }
        if let Some(i) = latest_find(&self.latest, interface) {
            if crate::text::str_eq(self.latest[i].provider_id.as_str(), source_module) && self.latest[i].state.same_as(payload) {
                return false;
            }
        }
        self.publish(interface, source_module, identity, payload.duplicate());
        true
    }
}

// ---------------------------------------------------------------------------
// Bound values.

/// How a command's call binds a state field: it copies an argument, or it
/// toggles a boolean field.
#[derive(Debug)]
pub struct StateBinding {
    pub field: String,
    pub from_arg: Option<String>,
    pub toggle: bool,
}

/// The value a command call writes to its bound field: the named argument
/// of its payload; for a toggle, the negation of the field's latest
/// boolean value (false when it has none); otherwise none.
pub open spec fn bound_value(v: CacheView, interface: Seq<char>, field: Seq<char>, from_arg: Option<Seq<char>>, toggle: bool, payload: JsonView) -> Option<
    JsonView,
> {
    match from_arg {
        Some(arg) => payload.field(arg),
        None => if toggle {
            let current = if v.latest.contains_key(interface) {
                match v.latest[interface].state.field(field) {
                    Some(JsonView::Bool(b)) => b,
                    _ => false,
                }
            } else {
                false
            };
            Some(JsonView::Bool(!current))
        } else {
            None
        },
    }
}

impl ServiceStateCache {
    pub fn bound_value_for_command(&self, interface: &str, binding: &StateBinding, payload: &JsonValue) -> (r: Option<JsonValue>)
        requires
            self.wf(),
        ensures
            opt_json(r) == bound_value(
                self.view_of(),
                interface@,
                binding.field@,
                opt_text(binding.from_arg),
                binding.toggle,
                payload@,
            ),
    {
        match &binding.from_arg {
            Some(arg) => match payload.get(arg.as_str()) {
                Some(value) => Some(value.duplicate()),
                None => None,
            },
            None => if binding.toggle {
                let current = match latest_find(&self.latest, interface) {
                    Some(i) => match self.latest[i].state.get(binding.field.as_str()) {
                        Some(value) => match value.as_bool() {
                            Some(b) => b,
                            None => false,
                        },
                        None => false,
                    },
                    None => false,
                };
                Some(JsonValue::boolean(!current))
            } else {
                None
            },
        }
    }
}

// ---------------------------------------------------------------------------
// Laws.

/// A command's write shows at once: the published state, which becomes the
/// interface's latest, holds the written value; with a call, the write owns
/// the field.
pub proof fn law_bound_write_is_shown(
    v: CacheView,
    interface: Seq<char>,
    field: Seq<char>,
    value: JsonView,
    call_id: Option<u64>,
    running: Option<(Seq<char>, u64)>,
)
    ensures
        ({
            let (after, out) = bound_applied(v, interface, field, value, call_id, running);
            &&& out.payload.field(field) == Some(value)
            &&& after.latest.contains_key(interface) && after.latest[interface].state == out.payload
            &&& call_id matches Some(c) ==> after.owners.contains_key((interface, field))
                && after.owners[(interface, field)].write.call_id == c && after.txns.contains_key(c)
                && after.txns[c].optimistic == value
        }),
{
    crate::json::lemma_with_field_reads_back(shown_state(v, interface), field, value);
}

/// A completed command changes no state: its write keeps the field until
/// the provider confirms the value, and nothing is published.
pub proof fn law_completed_write_changes_no_state(
    v: CacheView,
    c: u64,
    k: (Seq<char>, Seq<char>),
    running: Option<(Seq<char>, u64)>,
    fuel: nat,
)
    ensures
        ({
            let (after, out) = settled(v, c, k, "completed"@, running, fuel);
            after.latest == v.latest && after.owners == v.owners && out.len() == 0
        }),
{
}

/// A command whose write no longer owns a field (a newer write took it
/// over) changes no state when it ends, however it ends: an older
/// completion never overwrites a newer write.
pub proof fn law_older_completion_never_overwrites_newer_write(
    v: CacheView,
    c: u64,
    k: (Seq<char>, Seq<char>),
    status: Seq<char>,
    running: Option<(Seq<char>, u64)>,
    fuel: nat,
)
    requires
        !(exists|k2: (Seq<char>, Seq<char>)| #[trigger] v.owners.contains_key(k2) && v.owners[k2].write.call_id == c),
        settle_key(v, c, k),
    ensures
        ({
            let (after, out) = settled(v, c, k, status, running, fuel);
            after.latest == v.latest && after.owners == v.owners && out.len() == 0
        }),
{
    let v1 = with_terminal(v, c, status);
    assert(v1.owners == v.owners);
    if v1.owners.contains_key(k) && v1.owners[k].write.call_id == c {
        assert(v.owners.contains_key(k) && v.owners[k].write.call_id == c);
    }
}

/// A failed first write of a field gives the field back the value it had
/// before the write (or takes it out when it had none), publishes that, and
/// is forgotten.
pub proof fn law_failed_first_write_restores_previous_value(
    v: CacheView,
    c: u64,
    status: Seq<char>,
    running: Option<(Seq<char>, u64)>,
    fuel: nat,
)
    requires
        v.txns.contains_key(c),
        v.txns[c].previous_call_id is None,
        v.owners.contains_key((v.txns[c].interface, v.txns[c].field)),
        v.owners[(v.txns[c].interface, v.txns[c].field)].write.call_id == c,
        status != "completed"@,
        fuel >= 1,
        v.txns[c].previous is Some || (shown_state(v, v.txns[c].interface) is Object && crate::json::distinct_keys(
            shown_state(v, v.txns[c].interface),
        )),
    ensures
        ({
            let t = v.txns[c];
            let key = (t.interface, t.field);
            let (after, out) = settled(v, c, key, status, running, fuel);
            &&& out.len() == 1
            &&& out[0].payload.field(t.field) == t.previous
            &&& after.latest.contains_key(t.interface) && after.latest[t.interface].state == out[0].payload
            &&& !after.owners.contains_key(key)
            &&& !after.txns.contains_key(c)
        }),
{
    let t = v.txns[c];
    let key = (t.interface, t.field);
    let v1 = with_terminal(v, c, status);
    assert(v1.txns[c] == WriteView { terminal_status: Some(status), ..t });
    assert(v1.latest == v.latest);
    let v2 = write_dropped(v1, c);
    assert(v2.latest == v.latest);
    match t.previous {
        Some(p) => {
            crate::json::lemma_with_field_reads_back(shown_state(v2, t.interface), t.field, p);
        },
        None => {
            crate::json::lemma_without_field_is_gone(shown_state(v2, t.interface), t.field);
        },
    }
}

/// A failed write that replaced a write still standing gives the field
/// back to that write: it owns the field again and its value is published.
pub proof fn law_failed_write_returns_field_to_earlier_write(
    v: CacheView,
    c: u64,
    status: Seq<char>,
    running: Option<(Seq<char>, u64)>,
    fuel: nat,
)
    requires
        v.txns.contains_key(c),
        v.txns[c].previous_call_id is Some,
        v.txns[c].previous_call_id.unwrap() != c,
        v.txns.contains_key(v.txns[c].previous_call_id.unwrap()),
        !failed_status(v.txns[v.txns[c].previous_call_id.unwrap()].terminal_status),
        v.owners.contains_key((v.txns[c].interface, v.txns[c].field)),
        v.owners[(v.txns[c].interface, v.txns[c].field)].write.call_id == c,
        status != "completed"@,
        fuel >= 1,
    ensures
        ({
            let t = v.txns[c];
            let p = t.previous_call_id.unwrap();
            let key = (t.interface, t.field);
            let (after, out) = settled(v, c, key, status, running, fuel);
            &&& out.len() == 1
            &&& out[0].payload.field(t.field) == Some(v.txns[p].optimistic)
            &&& after.owners.contains_key(key) && after.owners[key].write == v.txns[p]
            &&& !after.txns.contains_key(c)
        }),
{
    let t = v.txns[c];
    let p = t.previous_call_id.unwrap();
    let v1 = with_terminal(v, c, status);
    assert(v1.txns[c] == WriteView { terminal_status: Some(status), ..t });
    assert(v1.txns[p] == v.txns[p]);
    let v2 = write_dropped(v1, c);
    assert(v2.txns[p] == v.txns[p]);
    let v3 = CacheView {
        owners: v2.owners.insert((t.interface, t.field), OwnerView { interface: t.interface, field: t.field, write: v.txns[p] }),
        ..v2
    };
    crate::json::lemma_with_field_reads_back(shown_state(v3, t.interface), t.field, v.txns[p].optimistic);
}

} // verus!

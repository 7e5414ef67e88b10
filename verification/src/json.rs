//! The JSON values that service payloads, state snapshots and command
//! arguments carry. Objects keep their members ordered by key, the order in
//! which JSON maps are kept by the shell's serializer, so that two values are
//! equal as JSON exactly when their views are equal.
use vstd::prelude::*;
use crate::text;

verus! {
broadcast use vstd::std_specs::vec::group_vec_axioms;
}

verus! {

/// A JSON number. A number with a fraction or exponent is kept as its
/// canonical decimal text.
#[derive(Debug)]
pub enum JsonNumber {
    PosInt(u64),
    NegInt(i64),
    Float(String),
}

#[derive(Debug)]
pub enum JsonValue {
    Null,
    Bool(bool),
    Number(JsonNumber),
    Str(String),
    Array(Vec<JsonValue>),
    Object(Vec<(String, JsonValue)>),
}

pub enum NumberView {
    PosInt(u64),
    NegInt(i64),
    Float(Seq<char>),
}

/// The mathematical content of a JSON value.
pub enum JsonView {
    Null,
    Bool(bool),
    Number(NumberView),
    Str(Seq<char>),
    Array(Seq<JsonView>),
    Object(Seq<(Seq<char>, JsonView)>),
}

impl View for JsonNumber {
    type V = NumberView;

    open spec fn view(&self) -> NumberView {
        match self {
            JsonNumber::PosInt(n) => NumberView::PosInt(*n),
            JsonNumber::NegInt(n) => NumberView::NegInt(*n),
            JsonNumber::Float(t) => NumberView::Float(t@),
        }
    }
}

pub open spec fn items_view(items: Seq<JsonValue>) -> Seq<JsonView>
    decreases items,
{
    if items.len() == 0 {
        Seq::empty()
    } else {
        items_view(items.drop_last()).push(value_view(items.last()))
    }
}

pub open spec fn members_view(members: Seq<(String, JsonValue)>) -> Seq<(Seq<char>, JsonView)>
    decreases members,
{
    if members.len() == 0 {
        Seq::empty()
    } else {
        members_view(members.drop_last()).push(
            (members.last().0@, value_view(members.last().1)),
        )
    }
}

pub open spec fn value_view(v: JsonValue) -> JsonView
    decreases v,
{
    match v {
        JsonValue::Null => JsonView::Null,
        JsonValue::Bool(b) => JsonView::Bool(b),
        JsonValue::Number(n) => JsonView::Number(n@),
        JsonValue::Str(s) => JsonView::Str(s@),
        JsonValue::Array(items) => JsonView::Array(items_view(items@)),
        JsonValue::Object(members) => JsonView::Object(members_view(members@)),
    }
}

impl View for JsonValue {
    type V = JsonView;

    open spec fn view(&self) -> JsonView {
        value_view(*self)
    }
}


pub proof fn lemma_items_view(items: Seq<JsonValue>)
    ensures
        items_view(items).len() == items.len(),
        forall|i: int| 0 <= i < items.len() ==> #[trigger] items_view(items)[i] == value_view(items[i]),
    decreases items.len(),
{
    if items.len() > 0 {
        let t = items.drop_last();
        lemma_items_view(t);
        assert forall|i: int| 0 <= i < t.len() implies t[i] == items[i] by {}
    }
}

pub proof fn lemma_members_view(members: Seq<(String, JsonValue)>)
    ensures
        members_view(members).len() == members.len(),
        forall|i: int|
            0 <= i < members.len() ==> #[trigger] members_view(members)[i] == (
                members[i].0@,
                value_view(members[i].1),
            ),
    decreases members.len(),
{
    if members.len() > 0 {
        let t = members.drop_last();
        lemma_members_view(t);
        assert forall|i: int| 0 <= i < t.len() implies t[i] == members[i] by {}
    }
}

/// Lexicographic order of texts by code point, the order of JSON object keys.
pub open spec fn text_less(a: Seq<char>, b: Seq<char>) -> bool
    decreases a.len(),
{
    if a.len() == 0 {
        b.len() > 0
    } else if b.len() == 0 {
        false
    } else if a[0] != b[0] {
        (a[0] as u32) < (b[0] as u32)
    } else {
        text_less(a.drop_first(), b.drop_first())
    }
}

/// Index of the member with the given key, or -1.
pub open spec fn member_index(members: Seq<(Seq<char>, JsonView)>, key: Seq<char>) -> int
    decreases members.len(),
{
    if members.len() == 0 {
        -1
    } else if members[0].0 == key {
        0
    } else {
        let r = member_index(members.drop_first(), key);
        if r < 0 {
            -1
        } else {
            r + 1
        }
    }
}

/// Position at which a new key goes to keep the members ordered.
pub open spec fn insert_position(members: Seq<(Seq<char>, JsonView)>, key: Seq<char>) -> int
    decreases members.len(),
{
    if members.len() == 0 {
        0
    } else if text_less(key, members[0].0) {
        0
    } else {
        insert_position(members.drop_first(), key) + 1
    }
}

pub proof fn lemma_member_index(members: Seq<(Seq<char>, JsonView)>, key: Seq<char>)
    ensures
        -1 <= member_index(members, key) < members.len(),
        member_index(members, key) >= 0 ==> members[member_index(members, key)].0 == key,
        forall|j: int|
            0 <= j < members.len() && (member_index(members, key) < 0 || j < member_index(
                members,
                key,
            )) ==> members[j].0 != key,
    decreases members.len(),
{
    if members.len() > 0 && members[0].0 != key {
        let t = members.drop_first();
        lemma_member_index(t, key);
        assert forall|j: int|
            0 <= j < members.len() && (member_index(members, key) < 0 || j < member_index(
                members,
                key,
            )) implies members[j].0 != key by {
            if j > 0 {
                assert(t[j - 1] == members[j]);
            }
        }
    }
}

pub proof fn lemma_insert_position(members: Seq<(Seq<char>, JsonView)>, key: Seq<char>)
    ensures
        0 <= insert_position(members, key) <= members.len(),
        forall|j: int| 0 <= j < insert_position(members, key) ==> !text_less(key, members[j].0),
        insert_position(members, key) < members.len() ==> text_less(
            key,
            members[insert_position(members, key)].0,
        ),
    decreases members.len(),
{
    if members.len() > 0 && !text_less(key, members[0].0) {
        let t = members.drop_first();
        lemma_insert_position(t, key);
        assert forall|j: int| 0 <= j < insert_position(members, key) implies !text_less(
            key,
            members[j].0,
        ) by {
            if j > 0 {
                assert(t[j - 1] == members[j]);
            }
        }
        if insert_position(members, key) < members.len() {
            assert(t[insert_position(t, key)] == members[insert_position(members, key)]);
        }
    }
}

pub open spec fn members_get(members: Seq<(Seq<char>, JsonView)>, key: Seq<char>) -> Option<
    JsonView,
> {
    let i = member_index(members, key);
    if i >= 0 {
        Some(members[i].1)
    } else {
        None
    }
}

/// The members after `object[key] = value`.
pub open spec fn members_set(
    members: Seq<(Seq<char>, JsonView)>,
    key: Seq<char>,
    value: JsonView,
) -> Seq<(Seq<char>, JsonView)> {
    let i = member_index(members, key);
    if i >= 0 {
        members.update(i, (key, value))
    } else {
        members.insert(insert_position(members, key), (key, value))
    }
}

/// The members without `key`.
pub open spec fn members_remove(members: Seq<(Seq<char>, JsonView)>, key: Seq<char>) -> Seq<
    (Seq<char>, JsonView),
> {
    let i = member_index(members, key);
    if i >= 0 {
        members.remove(i)
    } else {
        members
    }
}

impl JsonView {
    /// `value.get(key)`: the member of an object; `None` for every other value.
    pub open spec fn field(self, key: Seq<char>) -> Option<JsonView> {
        match self {
            JsonView::Object(members) => members_get(members, key),
            _ => None,
        }
    }

    pub open spec fn text_of(self) -> Option<Seq<char>> {
        match self {
            JsonView::Str(s) => Some(s),
            _ => None,
        }
    }

    pub open spec fn bool_of(self) -> Option<bool> {
        match self {
            JsonView::Bool(b) => Some(b),
            _ => None,
        }
    }

    pub open spec fn u64_of(self) -> Option<u64> {
        match self {
            JsonView::Number(NumberView::PosInt(n)) => Some(n),
            _ => None,
        }
    }

    pub open spec fn i64_of(self) -> Option<i64> {
        match self {
            JsonView::Number(NumberView::PosInt(n)) => if n <= i64::MAX {
                Some(n as i64)
            } else {
                None
            },
            JsonView::Number(NumberView::NegInt(n)) => Some(n),
            _ => None,
        }
    }

    /// The value after `value[key] = new`: a null becomes a one-member object,
    /// an object gains or replaces the member.
    pub open spec fn with_field(self, key: Seq<char>, new: JsonView) -> JsonView {
        match self {
            JsonView::Object(members) => JsonView::Object(members_set(members, key, new)),
            _ => JsonView::Object(seq![(key, new)]),
        }
    }

    /// The value without the member `key`; values other than objects are unchanged.
    pub open spec fn without_field(self, key: Seq<char>) -> JsonView {
        match self {
            JsonView::Object(members) => JsonView::Object(members_remove(members, key)),
            _ => self,
        }
    }
}

/// Code-point order of two texts.
pub fn text_lt(a: &str, b: &str) -> (r: bool)
    ensures
        r == text_less(a@, b@),
{
    let n = a.unicode_len();
    let m = b.unicode_len();
    let mut i: usize = 0;
    assert(a@.subrange(0, n as int) =~= a@);
    assert(b@.subrange(0, m as int) =~= b@);
    while i < n && i < m
        invariant
            n == a@.len(),
            m == b@.len(),
            i <= n,
            i <= m,
            text_less(a@, b@) == text_less(a@.subrange(i as int, n as int), b@.subrange(i as int, m as int)),
        decreases n - i,
    {
        let x = a.get_char(i);
        let y = b.get_char(i);
        let ghost sa = a@.subrange(i as int, n as int);
        let ghost sb = b@.subrange(i as int, m as int);
        assert(sa[0] == x && sb[0] == y);
        if x != y {
            return (x as u32) < (y as u32);
        }
        assert(sa.drop_first() =~= a@.subrange(i + 1, n as int));
        assert(sb.drop_first() =~= b@.subrange(i + 1, m as int));
        i = i + 1;
    }
    i == n && i < m
}

fn member_position(members: &Vec<(String, JsonValue)>, key: &str) -> (r: Option<usize>)
    ensures
        member_index(members_view(members@), key@) == match r {
            Some(i) => i as int,
            None => -1,
        },
        r matches Some(i) ==> i < members@.len(),
{
    proof {
        lemma_members_view(members@);
        lemma_member_index(members_view(members@), key@);
    }
    let ghost mv = members_view(members@);
    let mut i: usize = 0;
    while i < members.len()
        invariant
            mv == members_view(members@),
            mv.len() == members@.len(),
            forall|j: int| 0 <= j < members@.len() ==> #[trigger] mv[j] == (members@[j].0@, value_view(members@[j].1)),
            i <= members.len(),
            forall|j: int| 0 <= j < i ==> mv[j].0 != key@,
        decreases members.len() - i,
    {
        if text::str_eq(members[i].0.as_str(), key) {
            proof {
                lemma_member_index_first(mv, key@, i as int);
            }
            return Some(i);
        }
        i = i + 1;
    }
    None
}

proof fn lemma_member_index_first(members: Seq<(Seq<char>, JsonView)>, key: Seq<char>, i: int)
    requires
        0 <= i < members.len(),
        members[i].0 == key,
        forall|j: int| 0 <= j < i ==> members[j].0 != key,
    ensures
        member_index(members, key) == i,
{
    lemma_member_index(members, key);
}

/// A member written to a value reads back as written.
pub proof fn lemma_with_field_reads_back(v: JsonView, key: Seq<char>, new: JsonView)
    ensures
        v.with_field(key, new).field(key) == Some(new),
{
    match v {
        JsonView::Object(members) => {
            let i = member_index(members, key);
            lemma_member_index(members, key);
            if i >= 0 {
                let m = members.update(i, (key, new));
                assert forall|j: int| 0 <= j < i implies m[j].0 != key by {}
                lemma_member_index_first(m, key, i);
            } else {
                let pos = insert_position(members, key);
                lemma_insert_position(members, key);
                let m = members.insert(pos, (key, new));
                assert forall|j: int| 0 <= j < pos implies m[j].0 != key by {
                    assert(m[j] == members[j]);
                }
                lemma_member_index_first(m, key, pos);
            }
        },
        _ => {
            let m = seq![(key, new)];
            lemma_member_index_first(m, key, 0);
        },
    }
}

/// Whether an object's members have distinct keys, as every object read
/// from JSON text or built by `set_field` does.
pub open spec fn distinct_keys(v: JsonView) -> bool {
    match v {
        JsonView::Object(members) => forall|i: int, j: int|
            0 <= i < j < members.len() ==> (#[trigger] members[i]).0 != (#[trigger] members[j]).0,
        _ => true,
    }
}

/// A member taken out of an object whose keys are distinct is gone.
pub proof fn lemma_without_field_is_gone(v: JsonView, key: Seq<char>)
    requires
        v is Object,
        distinct_keys(v),
    ensures
        v.without_field(key).field(key) is None,
{
    if let JsonView::Object(members) = v {
        let i = member_index(members, key);
        lemma_member_index(members, key);
        if i >= 0 {
            let m = members.remove(i);
            assert forall|j: int| 0 <= j < m.len() implies m[j].0 != key by {
                if j < i {
                    assert(m[j] == members[j]);
                } else {
                    assert(m[j] == members[j + 1]);
                    assert(members[i].0 != members[j + 1].0);
                }
            }
            lemma_member_index(m, key);
        }
    }
}

fn insertion_point(members: &Vec<(String, JsonValue)>, key: &str) -> (r: usize)
    ensures
        insert_position(members_view(members@), key@) == r as int,
{
    proof {
        lemma_members_view(members@);
    }
    let ghost mv = members_view(members@);
    let mut i: usize = 0;
    assert(mv.subrange(0, mv.len() as int) =~= mv);
    while i < members.len()
        invariant
            mv == members_view(members@),
            mv.len() == members@.len(),
            forall|j: int| 0 <= j < members@.len() ==> #[trigger] mv[j] == (members@[j].0@, value_view(members@[j].1)),
            i <= members.len(),
            insert_position(mv, key@) == i + insert_position(mv.subrange(i as int, mv.len() as int), key@),
        decreases members.len() - i,
    {
        let ghost rest = mv.subrange(i as int, mv.len() as int);
        if text_lt(key, members[i].0.as_str()) {
            assert(rest[0] == mv[i as int]);
            return i;
        }
        assert(rest.drop_first() =~= mv.subrange(i + 1, mv.len() as int));
        i = i + 1;
    }
    assert(mv.subrange(i as int, mv.len() as int).len() == 0);
    i
}

impl JsonValue {
    pub fn get(&self, key: &str) -> (r: Option<&JsonValue>)
        ensures
            match r {
                Some(v) => self@.field(key@) == Some(v@),
                None => self@.field(key@) is None,
            },
    {
        match self {
            JsonValue::Object(members) => {
                proof {
                    lemma_members_view(members@);
                }
                match member_position(members, key) {
                    Some(i) => Some(&members[i].1),
                    None => None,
                }
            },
            _ => None,
        }
    }

    pub fn as_str(&self) -> (r: Option<&str>)
        ensures
            match r {
                Some(s) => self@.text_of() == Some(s@),
                None => self@.text_of() is None,
            },
    {
        match self {
            JsonValue::Str(s) => Some(s.as_str()),
            _ => None,
        }
    }

    pub fn as_bool(&self) -> (r: Option<bool>)
        ensures
            r == self@.bool_of(),
    {
        match self {
            JsonValue::Bool(b) => Some(*b),
            _ => None,
        }
    }

    pub fn as_u64(&self) -> (r: Option<u64>)
        ensures
            r == self@.u64_of(),
    {
        match self {
            JsonValue::Number(JsonNumber::PosInt(n)) => Some(*n),
            _ => None,
        }
    }

    pub fn as_i64(&self) -> (r: Option<i64>)
        ensures
            r == self@.i64_of(),
    {
        match self {
            JsonValue::Number(JsonNumber::PosInt(n)) => {
                if *n <= 0x7fff_ffff_ffff_ffffu64 {
                    Some(*n as i64)
                } else {
                    None
                }
            },
            JsonValue::Number(JsonNumber::NegInt(n)) => Some(*n),
            _ => None,
        }
    }

    pub fn is_object(&self) -> (r: bool)
        ensures
            r == (self@ is Object),
    {
        match self {
            JsonValue::Object(_) => true,
            _ => false,
        }
    }

    /// A copy with the same content.
    #[verifier::loop_isolation(false)]
    pub fn duplicate(&self) -> (r: JsonValue)
        ensures
            r@ == self@,
        decreases self,
    {
        match self {
            JsonValue::Null => JsonValue::Null,
            JsonValue::Bool(b) => JsonValue::Bool(*b),
            JsonValue::Number(JsonNumber::PosInt(n)) => JsonValue::Number(JsonNumber::PosInt(*n)),
            JsonValue::Number(JsonNumber::NegInt(n)) => JsonValue::Number(JsonNumber::NegInt(*n)),
            JsonValue::Number(JsonNumber::Float(t)) => JsonValue::Number(
                JsonNumber::Float(t.clone()),
            ),
            JsonValue::Str(s) => JsonValue::Str(s.clone()),
            JsonValue::Array(items) => {
                let mut out: Vec<JsonValue> = Vec::new();
                let mut i: usize = 0;
                proof {
                    lemma_items_view(items@);
                }
                while i < items.len()
                    invariant
                        i <= items.len(),
                        out@.len() == i,
                        forall|j: int| 0 <= j < i ==> value_view(#[trigger] out@[j]) == value_view(items@[j]),
                    decreases items.len() - i,
                {
                    assert(decreases_to!(items@ => items@[i as int]));
                    let v = items[i].duplicate();
                    out.push(v);
                    i = i + 1;
                }
                proof {
                    lemma_items_view(out@);
                    assert(items_view(out@) =~= items_view(items@));
                }
                JsonValue::Array(out)
            },
            JsonValue::Object(members) => {
                let mut out: Vec<(String, JsonValue)> = Vec::new();
                let mut i: usize = 0;
                proof {
                    lemma_members_view(members@);
                }
                while i < members.len()
                    invariant
                        i <= members.len(),
                        out@.len() == i,
                        forall|j: int|
                            0 <= j < i ==> (#[trigger] out@[j]).0@ == members@[j].0@ && value_view(
                                out@[j].1,
                            ) == value_view(members@[j].1),
                    decreases members.len() - i,
                {
                    assert(decreases_to!(members@ => members@[i as int])); assert(decreases_to!(members@[i as int] => members@[i as int].1));
                    let k = members[i].0.clone();
                    let v = members[i].1.duplicate();
                    out.push((k, v));
                    i = i + 1;
                }
                proof {
                    lemma_members_view(out@);
                    assert(members_view(out@) =~= members_view(members@));
                }
                JsonValue::Object(out)
            },
        }
    }

    /// JSON equality.
    #[verifier::loop_isolation(false)]
    pub fn same_as(&self, other: &JsonValue) -> (r: bool)
        ensures
            r == (self@ == other@),
        decreases self,
    {
        match (self, other) {
            (JsonValue::Null, JsonValue::Null) => true,
            (JsonValue::Bool(a), JsonValue::Bool(b)) => *a == *b,
            (
                JsonValue::Number(JsonNumber::PosInt(a)),
                JsonValue::Number(JsonNumber::PosInt(b)),
            ) => *a == *b,
            (
                JsonValue::Number(JsonNumber::NegInt(a)),
                JsonValue::Number(JsonNumber::NegInt(b)),
            ) => *a == *b,
            (JsonValue::Number(JsonNumber::Float(a)), JsonValue::Number(JsonNumber::Float(b))) => *a
                == *b,
            (JsonValue::Str(a), JsonValue::Str(b)) => *a == *b,
            (JsonValue::Array(a), JsonValue::Array(b)) => {
                proof {
                    lemma_items_view(a@);
                    lemma_items_view(b@);
                }
                if a.len() != b.len() {
                    return false;
                }
                let mut i: usize = 0;
                while i < a.len()
                    invariant
                        a.len() == b.len(),
                        i <= a.len(),
                        items_view(a@).len() == a.len(),
                        items_view(b@).len() == b.len(),
                        forall|j: int| 0 <= j < a.len() ==> #[trigger] items_view(a@)[j] == value_view(a@[j]),
                        forall|j: int| 0 <= j < b.len() ==> #[trigger] items_view(b@)[j] == value_view(b@[j]),
                        forall|j: int| 0 <= j < i ==> items_view(a@)[j] == items_view(b@)[j],
                    decreases a.len() - i,
                {
                    assert(decreases_to!(a@ => a@[i as int]));
                    if !a[i].same_as(&b[i]) {
                        assert(items_view(a@)[i as int] != items_view(b@)[i as int]);
                        return false;
                    }
                    i = i + 1;
                }
                assert(items_view(a@) =~= items_view(b@));
                true
            },
            (JsonValue::Object(a), JsonValue::Object(b)) => {
                proof {
                    lemma_members_view(a@);
                    lemma_members_view(b@);
                }
                if a.len() != b.len() {
                    return false;
                }
                let mut i: usize = 0;
                while i < a.len()
                    invariant
                        a.len() == b.len(),
                        i <= a.len(),
                        members_view(a@).len() == a.len(),
                        members_view(b@).len() == b.len(),
                        forall|j: int| 0 <= j < a.len() ==> #[trigger] members_view(a@)[j] == (a@[j].0@, value_view(a@[j].1)),
                        forall|j: int| 0 <= j < b.len() ==> #[trigger] members_view(b@)[j] == (b@[j].0@, value_view(b@[j].1)),
                        forall|j: int| 0 <= j < i ==> members_view(a@)[j] == members_view(b@)[j],
                    decreases a.len() - i,
                {
                    assert(decreases_to!(a@ => a@[i as int])); assert(decreases_to!(a@[i as int] => a@[i as int].1));
                    if !(a[i].0 == b[i].0) {
                        assert(members_view(a@)[i as int] != members_view(b@)[i as int]);
                        return false;
                    }
                    if !a[i].1.same_as(&b[i].1) {
                        assert(members_view(a@)[i as int] != members_view(b@)[i as int]);
                        return false;
                    }
                    i = i + 1;
                }
                assert(members_view(a@) =~= members_view(b@));
                true
            },
            _ => false,
        }
    }

    /// `value[key] = new`; indexing any value other than null or an object panics.
    pub fn set_field(&mut self, key: &str, new: JsonValue)
        requires
            old(self)@ is Null || old(self)@ is Object,
        ensures
            final(self)@ == old(self)@.with_field(key@, new@),
    {
        let is_object = self.is_object();
        if !is_object {
            let mut members: Vec<(String, JsonValue)> = Vec::new();
            members.push((String::from_str(key), new));
            proof {
                lemma_members_view(members@);
                assert(members_view(members@) =~= seq![(key@, new@)]);
            }
            *self = JsonValue::Object(members);
            return;
        }
        match self {
            JsonValue::Object(members) => {
                proof {
                    lemma_members_view(members@);
                    lemma_member_index(members_view(members@), key@);
                    lemma_insert_position(members_view(members@), key@);
                }
                let ghost before = members_view(members@);
                match member_position(members, key) {
                    Some(i) => {
                        let old_member = members.remove(i);
                        members.insert(i, (String::from_str(key), new));
                        proof {
                            lemma_members_view(members@);
                            assert(members_view(members@) =~= before.update(i as int, (key@, new@)));
                        }
                    },
                    None => {
                        let p = insertion_point(members, key);
                        members.insert(p, (String::from_str(key), new));
                        proof {
                            lemma_members_view(members@);
                            assert(members_view(members@) =~= before.insert(p as int, (key@, new@)));
                        }
                    },
                }
            },
            _ => {},
        }
    }

    /// Removes the member `key` of an object; other values are unchanged.
    pub fn remove_field(&mut self, key: &str)
        ensures
            final(self)@ == old(self)@.without_field(key@),
    {
        match self {
            JsonValue::Object(members) => {
                proof {
                    lemma_members_view(members@);
                }
                let ghost before = members_view(members@);
                match member_position(members, key) {
                    Some(i) => {
                        let _ = members.remove(i);
                        proof {
                            lemma_members_view(members@);
                            assert(members_view(members@) =~= before.remove(i as int));
                        }
                    },
                    None => {},
                }
            },
            _ => {},
        }
    }

    pub fn text(s: &str) -> (r: JsonValue)
        ensures
            r@ == JsonView::Str(s@),
    {
        JsonValue::Str(String::from_str(s))
    }

    pub fn boolean(b: bool) -> (r: JsonValue)
        ensures
            r@ == JsonView::Bool(b),
    {
        JsonValue::Bool(b)
    }

    pub fn unsigned(n: u64) -> (r: JsonValue)
        ensures
            r@ == JsonView::Number(NumberView::PosInt(n)),
    {
        JsonValue::Number(JsonNumber::PosInt(n))
    }

    pub fn empty_object() -> (r: JsonValue)
        ensures
            r@ == JsonView::Object(Seq::empty()),
    {
        let members: Vec<(String, JsonValue)> = Vec::new();
        proof {
            lemma_members_view(members@);
        }
        JsonValue::Object(members)
    }
}

} // verus!

//! Wire-level data model: typed attribute values, attribute sets with
//! merge-missing semantics, and the per-stream payload records.

use vstd::prelude::*;

verus! {

/// A typed attribute value. Immutable once stored.
#[derive(Debug)]
pub enum Value {
    I64(i64),
    U64(u64),
    Bool(bool),
    String(String),
}

/// Mathematical model of a [`Value`]: strings are sequences of characters.
pub enum ValueV {
    I64(i64),
    U64(u64),
    Bool(bool),
    Str(Seq<char>),
}

impl View for Value {
    type V = ValueV;

    open spec fn view(&self) -> ValueV {
        match self {
            Value::I64(i) => ValueV::I64(*i),
            Value::U64(u) => ValueV::U64(*u),
            Value::Bool(b) => ValueV::Bool(*b),
            Value::String(s) => ValueV::Str(s@),
        }
    }
}

impl Clone for Value {
    fn clone(&self) -> (r: Self)
        ensures
            r@ == self@,
    {
        match self {
            Value::I64(i) => Value::I64(*i),
            Value::U64(u) => Value::U64(*u),
            Value::Bool(b) => Value::Bool(*b),
            Value::String(s) => Value::String(s.clone()),
        }
    }
}

/// An attribute mapping, modelled as a sequence of key/value pairs whose keys
/// are pairwise distinct.
pub type AttrSeq = Seq<(Seq<char>, ValueV)>;

/// Whether some entry of `s` has key `k`.
pub open spec fn seq_contains_key(s: AttrSeq, k: Seq<char>) -> bool {
    exists|i: int| 0 <= i < s.len() && s[i].0 == k
}

/// The index of the entry with key `k` (meaningful only when the key is
/// present and keys are distinct).
pub open spec fn key_index(s: AttrSeq, k: Seq<char>) -> int {
    choose|i: int| 0 <= i < s.len() && s[i].0 == k
}

/// The value stored under key `k`.
pub open spec fn seq_lookup(s: AttrSeq, k: Seq<char>) -> ValueV {
    s[key_index(s, k)].1
}

/// Insertion: overwrite in place if the key is present, append otherwise.
pub open spec fn seq_insert(s: AttrSeq, k: Seq<char>, v: ValueV) -> AttrSeq {
    if seq_contains_key(s, k) {
        s.update(key_index(s, k), (k, v))
    } else {
        s.push((k, v))
    }
}

/// Merge-missing: every entry of `b` whose key is absent from `a` is appended
/// to `a`, in order; entries whose keys `a` already holds are ignored.
pub open spec fn seq_merge_missing(a: AttrSeq, b: AttrSeq) -> AttrSeq {
    a + b.filter(|kv: (Seq<char>, ValueV)| !seq_contains_key(a, kv.0))
}

/// The predicate selecting entries whose key is absent from `a`.
pub open spec fn missing_from(a: AttrSeq) -> spec_fn((Seq<char>, ValueV)) -> bool {
    |kv: (Seq<char>, ValueV)| !seq_contains_key(a, kv.0)
}

/// Every element of a filtered sequence is an element of the original.
proof fn lemma_filter_subset<A>(s: Seq<A>, pred: spec_fn(A) -> bool)
    ensures
        forall|x: A| s.filter(pred).contains(x) ==> s.contains(x),
    decreases s.len(),
{
    reveal(Seq::filter);
    if s.len() != 0 {
        lemma_filter_subset(s.drop_last(), pred);
        assert forall|x: A| s.filter(pred).contains(x) implies s.contains(x) by {
            if s.drop_last().filter(pred).contains(x) {
                assert(s.drop_last().contains(x));
                let i = choose|i: int| 0 <= i < s.drop_last().len() && s.drop_last()[i] == x;
                assert(s[i] == x);
            } else {
                assert(x == s.last());
            }
        }
    }
}

/// Typed key/value store with merge semantics; keys are unique and
/// `insert` overwrites.
#[derive(Debug)]
pub struct NewrAttributes {
    entries: Vec<(String, Value)>,
}

/// The model of one stored entry.
spec fn kv_view(kv: (String, Value)) -> (Seq<char>, ValueV) {
    (kv.0@, kv.1@)
}

spec fn entries_view(es: Seq<(String, Value)>) -> AttrSeq {
    es.map_values(|kv: (String, Value)| kv_view(kv))
}

impl View for NewrAttributes {
    type V = AttrSeq;

    closed spec fn view(&self) -> AttrSeq {
        entries_view(self.entries@)
    }
}

impl NewrAttributes {
    /// Keys are pairwise distinct.
    pub open spec fn wf(self) -> bool {
        forall|i: int, j: int| 0 <= i < j < self@.len() ==> self@[i].0 != self@[j].0
    }

    /// The empty attribute set.
    pub fn new() -> (r: Self)
        ensures
            r@ == Seq::<(Seq<char>, ValueV)>::empty(),
            r.wf(),
    {
        NewrAttributes { entries: Vec::new() }
    }

    /// Store `val` under `key`, overwriting any previous value.
    pub(crate) fn insert_value(&mut self, key: &str, val: Value)
        requires
            old(self).wf(),
        ensures
            final(self).wf(),
            final(self)@ == seq_insert(old(self)@, key@, val@),
    {
        let k: String = key.to_owned();
        let ghost orig = self@;
        let ghost kview = key@;
        let mut i: usize = 0;
        while i < self.entries.len()
            invariant
                *self == *old(self),
                self@ == orig,
                old(self).wf(),
                i <= self.entries.len(),
                orig.len() == self.entries.len(),
                k@ == kview,
                kview == key@,
                orig == old(self)@,
                forall|j: int| 0 <= j < i ==> orig[j].0 != kview,
            decreases self.entries.len() - i,
        {
            let same = self.entries[i].0 == k;
            proof {
                assert(orig[i as int] == (self.entries@[i as int].0@, self.entries@[i as int].1@));
            }
            if same {
                let ghost pos = i as int;
                self.entries[i] = (k, val);
                proof {
                    assert(self@ =~= orig.update(pos, (kview, val@)));
                    assert(seq_contains_key(orig, kview));
                    let ci = key_index(orig, kview);
                    assert(orig[ci].0 == kview);
                    assert(ci == pos) by {
                        if ci < pos {
                            assert(orig[ci].0 != orig[pos].0);
                        } else if pos < ci {
                            assert(orig[pos].0 != orig[ci].0);
                        }
                    }
                    assert(self@ == seq_insert(orig, kview, val@));
                    assert forall|a: int, b: int| 0 <= a < b < self@.len() implies self@[a].0
                        != self@[b].0 by {
                        assert(orig[a].0 != orig[b].0);
                    }
                }
                return ;
            }
            i += 1;
        }
        self.entries.push((k, val));
        proof {
            assert(self@ =~= orig.push((kview, val@)));
            assert(!seq_contains_key(orig, kview));
            assert forall|a: int, b: int| 0 <= a < b < self@.len() implies self@[a].0
                != self@[b].0 by {
                if b < orig.len() {
                    assert(orig[a].0 != orig[b].0);
                } else {
                    assert(orig[a].0 != kview);
                }
            }
        }
    }

    /// Store the converted value under `key`, overwriting any previous value.
    pub fn insert<V: Into<Value>>(&mut self, key: &str, val: V)
        requires
            old(self).wf(),
        ensures
            final(self).wf(),
            <V as vstd::std_specs::convert::IntoSpec<Value>>::obeys_into_spec() ==> final(self)@
                == seq_insert(old(self)@, key@, <V as vstd::std_specs::convert::IntoSpec<
                Value,
            >>::into_spec(val)@),
    {
        let v: Value = val.into();
        self.insert_value(key, v);
    }

    /// Whether an entry with key `key` is present.
    pub fn contains_key(&self, key: &str) -> (r: bool)
        ensures
            r == seq_contains_key(self@, key@),
    {
        let k: String = key.to_owned();
        let mut i: usize = 0;
        while i < self.entries.len()
            invariant
                i <= self.entries.len(),
                self@.len() == self.entries.len(),
                self@ == entries_view(self.entries@),
                k@ == key@,
                forall|j: int| 0 <= j < i ==> self@[j].0 != key@,
            decreases self.entries.len() - i,
        {
            proof {
                assert(self@[i as int] == kv_view(self.entries@[i as int]));
            }
            if self.entries[i].0 == k {
                return true;
            }
            i += 1;
        }
        false
    }

    /// Look up the value stored under `key`.
    pub fn get(&self, key: &str) -> (r: Option<&Value>)
        requires
            self.wf(),
        ensures
            match r {
                Some(v) => seq_contains_key(self@, key@) && v@ == seq_lookup(self@, key@),
                None => !seq_contains_key(self@, key@),
            },
    {
        let k: String = key.to_owned();
        let mut i: usize = 0;
        while i < self.entries.len()
            invariant
                i <= self.entries.len(),
                self@.len() == self.entries.len(),
                self@ == entries_view(self.entries@),
                self.wf(),
                k@ == key@,
                forall|j: int| 0 <= j < i ==> self@[j].0 != key@,
            decreases self.entries.len() - i,
        {
            proof {
                assert(self@[i as int] == kv_view(self.entries@[i as int]));
            }
            if self.entries[i].0 == k {
                proof {
                    let ci = key_index(self@, key@);
                    assert(self@[ci].0 == key@);
                    if ci < i as int {
                        assert(self@[ci].0 != self@[i as int].0);
                    } else if (i as int) < ci {
                        assert(self@[i as int].0 != self@[ci].0);
                    }
                }
                return Some(&self.entries[i].1);
            }
            i += 1;
        }
        None
    }

    /// Merge-missing: copy in every entry of `other` whose key is absent from
    /// `self`; never override a value already present.
    pub fn append(&mut self, other: &Self)
        requires
            old(self).wf(),
            other.wf(),
        ensures
            final(self).wf(),
            final(self)@ == seq_merge_missing(old(self)@, other@),
    {
        let ghost a = old(self)@;
        let ghost b = other@;
        let mut i: usize = 0;
        while i < other.entries.len()
            invariant
                i <= other.entries.len(),
                a == old(self)@,
                b == other@,
                b.len() == other.entries.len(),
                b == entries_view(other.entries@),
                other.wf(),
                self.wf(),
                self@ == a + b.take(i as int).filter(missing_from(a)),
            decreases other.entries.len() - i,
        {
            let ghost p = missing_from(a);
            let ghost cur = self@;
            proof {
                assert(b[i as int] == kv_view(other.entries@[i as int]));
            }
            let absent = !self.contains_key(other.entries[i].0.as_str());
            proof {
                // present in the current state iff present in the original:
                // the appended prefix only holds keys of earlier `other`
                // entries, which differ from this one.
                let bk = b[i as int].0;
                let f = b.take(i as int).filter(p);
                lemma_filter_subset(b.take(i as int), p);
                assert(seq_contains_key(cur, bk) == seq_contains_key(a, bk)) by {
                    if seq_contains_key(a, bk) {
                        let ia = key_index(a, bk);
                        assert(cur[ia] == a[ia]);
                        assert(seq_contains_key(cur, bk));
                    } else {
                        if seq_contains_key(cur, bk) {
                            let m = choose|m: int| 0 <= m < cur.len() && cur[m].0 == bk;
                            if m < a.len() {
                                assert(a[m].0 == bk);
                            } else {
                                let e = cur[m];
                                assert(f[m - a.len()] == e);
                                assert(f.contains(e));
                                assert(b.take(i as int).contains(e));
                                let j = choose|j: int|
                                    0 <= j < b.take(i as int).len() && b.take(i as int)[j] == e;
                                assert(b[j] == e);
                                assert(b[j].0 != b[i as int].0);
                            }
                        }
                    }
                }
            }
            if absent {
                let kv = (other.entries[i].0.clone(), other.entries[i].1.clone());
                self.entries.push(kv);
                proof {
                    assert(self@ =~= cur.push(b[i as int]));
                }
            }
            i += 1;
            proof {
                let p = missing_from(a);
                reveal(Seq::filter);
                let t = b.take(i as int);
                assert(t.drop_last() =~= b.take(i as int - 1));
                assert(t.last() == b[i as int - 1]);
                if absent {
                    assert(self@ =~= a + t.filter(p));
                    // uniqueness of the new last key keeps the keys distinct
                    assert forall|x: int, y: int| 0 <= x < y < self@.len() implies self@[x].0
                        != self@[y].0 by {
                        let cur2 = cur.push(b[i as int - 1]);
                        assert(self@ == cur2);
                        if y < cur.len() {
                            assert(cur[x].0 != cur[y].0);
                        } else {
                            assert(self@[y] == b[i as int - 1]);
                            assert(!seq_contains_key(cur, b[i as int - 1].0));
                            assert(cur[x].0 != b[i as int - 1].0);
                        }
                    }
                } else {
                    assert(self@ =~= a + t.filter(p));
                }
            }
        }
        proof {
            assert(b.take(i as int) =~= b);
        }
    }

    /// How many entries are stored.
    pub fn len(&self) -> (r: usize)
        ensures
            r == self@.len(),
    {
        self.entries.len()
    }

    /// The entry at position `i`, in storage order.
    pub fn entry_at(&self, i: usize) -> (r: &(String, Value))
        requires
            i < self@.len(),
        ensures
            r.0@ == self@[i as int].0,
            r.1@ == self@[i as int].1,
    {
        proof {
            assert(self@[i as int] == kv_view(self.entries@[i as int]));
        }
        &self.entries[i]
    }
}

impl Default for NewrAttributes {
    /// The empty attribute set.
    fn default() -> (r: Self)
        ensures
            r@ == Seq::<(Seq<char>, ValueV)>::empty(),
            r.wf(),
    {
        NewrAttributes { entries: Vec::new() }
    }
}

impl Clone for NewrAttributes {
    fn clone(&self) -> (r: Self)
        ensures
            r@ == self@,
    {
        let mut v: Vec<(String, Value)> = Vec::new();
        let mut i: usize = 0;
        while i < self.entries.len()
            invariant
                i <= self.entries.len(),
                self@.len() == self.entries.len(),
                self@ == entries_view(self.entries@),
                entries_view(v@) == self@.take(i as int),
            decreases self.entries.len() - i,
        {
            proof {
                assert(self@[i as int] == kv_view(self.entries@[i as int]));
            }
            let ghost prev = v@;
            v.push((self.entries[i].0.clone(), self.entries[i].1.clone()));
            proof {
                assert(entries_view(v@) =~= entries_view(prev).push(self@[i as int]));
                assert(entries_view(v@) =~= self@.take(i as int + 1));
            }
            i += 1;
        }
        proof {
            assert(self@.take(i as int) =~= self@);
        }
        NewrAttributes { entries: v }
    }
}

/// Merging the same attribute set a second time changes nothing: every key of
/// `b` is already present after the first merge, so the second pass inserts no
/// entry.
pub proof fn lemma_merge_missing_idempotent(a: AttrSeq, b: AttrSeq)
    ensures
        seq_merge_missing(seq_merge_missing(a, b), b) == seq_merge_missing(a, b),
{
    let m = seq_merge_missing(a, b);
    let p1 = missing_from(a);
    let p2 = missing_from(m);
    assert forall|idx: int| 0 <= idx < b.len() implies seq_contains_key(
        m,
        b[idx].0,
    ) by {
        if seq_contains_key(a, b[idx].0) {
            let ia = key_index(a, b[idx].0);
            assert(m[ia] == a[ia]);
        } else {
            assert(p1(b[idx]));
            b.lemma_filter_contains(p1, idx);
            let fj = choose|fj: int|
                0 <= fj < b.filter(p1).len() && b.filter(p1)[fj] == b[idx];
            assert(m[a.len() + fj] == b[idx]);
        }
    }
    assert(b.filter(p2).len() == 0) by {
        if b.filter(p2).len() > 0 {
            let e = b.filter(p2)[0];
            b.lemma_filter_pred(p2, 0);
            assert(b.filter(p2).contains(e));
            lemma_filter_subset(b, p2);
            assert(b.contains(e));
            let idx = choose|idx: int| 0 <= idx < b.len() && b[idx] == e;
            assert(seq_contains_key(m, b[idx].0));
        }
    }
    assert(seq_merge_missing(m, b) =~= m);
}

impl From<i64> for Value {
    fn from(i: i64) -> (r: Self) {
        Value::I64(i)
    }
}

impl vstd::std_specs::convert::FromSpecImpl<i64> for Value {
    open spec fn obeys_from_spec() -> bool {
        true
    }

    open spec fn from_spec(v: i64) -> Self {
        Value::I64(v)
    }
}

impl From<u64> for Value {
    fn from(i: u64) -> (r: Self) {
        Value::U64(i)
    }
}

impl vstd::std_specs::convert::FromSpecImpl<u64> for Value {
    open spec fn obeys_from_spec() -> bool {
        true
    }

    open spec fn from_spec(v: u64) -> Self {
        Value::U64(v)
    }
}

impl From<bool> for Value {
    fn from(i: bool) -> (r: Self) {
        Value::Bool(i)
    }
}

impl vstd::std_specs::convert::FromSpecImpl<bool> for Value {
    open spec fn obeys_from_spec() -> bool {
        true
    }

    open spec fn from_spec(v: bool) -> Self {
        Value::Bool(v)
    }
}

impl From<String> for Value {
    fn from(i: String) -> (r: Self) {
        Value::String(i)
    }
}

impl vstd::std_specs::convert::FromSpecImpl<String> for Value {
    open spec fn obeys_from_spec() -> bool {
        true
    }

    open spec fn from_spec(v: String) -> Self {
        Value::String(v)
    }
}

impl<'a> From<&'a str> for Value {
    fn from(i: &'a str) -> (r: Self) {
        Value::String(i.to_owned())
    }
}

impl<'a> vstd::std_specs::convert::FromSpecImpl<&'a str> for Value {
    open spec fn obeys_from_spec() -> bool {
        false
    }

    open spec fn from_spec(v: &'a str) -> Self {
        arbitrary()
    }
}

impl PartialEq for Value {
    fn eq(&self, other: &Self) -> (r: bool) {
        match (self, other) {
            (Value::I64(a), Value::I64(b)) => *a == *b,
            (Value::U64(a), Value::U64(b)) => *a == *b,
            (Value::Bool(a), Value::Bool(b)) => *a == *b,
            (Value::String(a), Value::String(b)) => *a == *b,
            _ => false,
        }
    }
}

impl vstd::std_specs::cmp::PartialEqSpecImpl for Value {
    open spec fn obeys_eq_spec() -> bool {
        true
    }

    open spec fn eq_spec(&self, other: &Self) -> bool {
        self@ == other@
    }
}

/// One span-stream item: the record a finished span contributes to a trace.
#[derive(Debug)]
pub struct NewrSpan {
    /// Unique identifier for this span.
    pub id: String,
    /// Identifier shared by every span of one trace; stamped at root closure.
    pub trace_id: Option<String>,
    /// Span start time, in milliseconds since the Unix epoch.
    pub timestamp: u64,
    /// Key/value details about the span.
    pub attributes: NewrAttributes,
}

/// Model of a [`NewrSpan`].
pub struct NewrSpanV {
    pub id: Seq<char>,
    pub trace_id: Option<Seq<char>>,
    pub timestamp: u64,
    pub attributes: AttrSeq,
}

impl View for NewrSpan {
    type V = NewrSpanV;

    open spec fn view(&self) -> NewrSpanV {
        NewrSpanV {
            id: self.id@,
            trace_id: match self.trace_id {
                Some(ref t) => Some(t@),
                None => None,
            },
            timestamp: self.timestamp,
            attributes: self.attributes@,
        }
    }
}

/// `s` after recording, under `key`, how many milliseconds passed between its
/// start and `now_ms`; unchanged when the clock ran backwards.
pub open spec fn spec_with_duration(s: NewrSpanV, now_ms: u64) -> NewrSpanV {
    if now_ms >= s.timestamp {
        NewrSpanV {
            attributes: seq_insert(
                s.attributes,
                "duration.ms"@,
                ValueV::U64((now_ms - s.timestamp) as u64),
            ),
            ..s
        }
    } else {
        s
    }
}

impl NewrSpan {
    /// Attribute keys are unique.
    pub open spec fn wf(self) -> bool {
        self.attributes.wf()
    }

    /// A span record named `name` with the given identifier and start time.
    pub fn from_parts(id: String, timestamp: u64, name: String) -> (r: Self)
        ensures
            r@.id == id@,
            r@.trace_id is None,
            r@.timestamp == timestamp,
            r@.attributes == seq![("name"@, ValueV::Str(name@))],
            r.wf(),
    {
        let mut attributes = NewrAttributes::new();
        attributes.insert_value("name", Value::String(name));
        proof {
            assert(attributes@ =~= seq![("name"@, ValueV::Str(name@))]);
        }
        NewrSpan { id, trace_id: None, timestamp, attributes }
    }

    /// A span record named `name`, with a fresh random identifier and the
    /// system clock's current time.
    pub fn new(name: String) -> (r: Self)
        ensures
            r@.trace_id is None,
            r@.attributes == seq![("name"@, ValueV::Str(name@))],
            r.wf(),
    {
        let id = crate::utils::next_span_id();
        let ts = crate::utils::now();
        Self::from_parts(id, ts, name)
    }

    /// Record the span's duration against the given current time.
    pub fn update_duration_at(&mut self, now_ms: u64)
        requires
            old(self).wf(),
        ensures
            final(self).wf(),
            final(self)@ == spec_with_duration(old(self)@, now_ms),
    {
        if now_ms >= self.timestamp {
            let d = now_ms - self.timestamp;
            self.attributes.insert_value("duration.ms", Value::U64(d));
        }
    }

    /// Record the span's duration against the system clock.
    pub fn update_duration(&mut self)
        requires
            old(self).wf(),
        ensures
            final(self).wf(),
            exists|n: u64| final(self)@ == spec_with_duration(old(self)@, n),
    {
        let n = crate::utils::now();
        self.update_duration_at(n);
        proof {
            assert(final(self)@ == spec_with_duration(old(self)@, n));
        }
    }
}

/// One log-stream item: an event recorded while its span was open.
#[derive(Debug)]
pub struct NewrLog {
    /// Event time, in milliseconds since the Unix epoch.
    pub timestamp: u64,
    /// The parsing-rule tag under which the endpoint files this record.
    pub logtype: String,
    /// Key/value details about the event.
    pub attributes: NewrAttributes,
    /// Severity name of the event.
    pub level: String,
}

/// Model of a [`NewrLog`].
pub struct NewrLogV {
    pub timestamp: u64,
    pub logtype: Seq<char>,
    pub attributes: AttrSeq,
    pub level: Seq<char>,
}

impl View for NewrLog {
    type V = NewrLogV;

    open spec fn view(&self) -> NewrLogV {
        NewrLogV {
            timestamp: self.timestamp,
            logtype: self.logtype@,
            attributes: self.attributes@,
            level: self.level@,
        }
    }
}

impl NewrLog {
    /// Attribute keys are unique.
    pub open spec fn wf(self) -> bool {
        self.attributes.wf()
    }

    /// An empty log record with the given severity and time.
    pub fn from_parts(timestamp: u64, level: String) -> (r: Self)
        ensures
            r@.timestamp == timestamp,
            r@.logtype == "accesslogs"@,
            r@.level == level@,
            r@.attributes == Seq::<(Seq<char>, ValueV)>::empty(),
            r.wf(),
    {
        NewrLog {
            timestamp,
            logtype: String::from_str("accesslogs"),
            attributes: NewrAttributes::new(),
            level,
        }
    }

    /// An empty log record with the given severity, timed by the system
    /// clock.
    pub fn new(level: String) -> (r: Self)
        ensures
            r@.logtype == "accesslogs"@,
            r@.level == level@,
            r@.attributes == Seq::<(Seq<char>, ValueV)>::empty(),
            r.wf(),
    {
        let ts = crate::utils::now();
        Self::from_parts(ts, level)
    }
}

/// Attributes shared by every item of one payload.
#[derive(Debug)]
pub struct NewrCommon {
    /// The shared key/value pairs.
    pub attributes: NewrAttributes,
}

impl View for NewrCommon {
    type V = AttrSeq;

    open spec fn view(&self) -> AttrSeq {
        self.attributes@
    }
}

/// The log-stream payload of one finished trace.
#[derive(Debug)]
pub struct NewrLogs {
    /// The log records, in recording order.
    pub logs: Vec<NewrLog>,
    /// Attributes shared by all of them.
    pub common: NewrCommon,
}

/// Model of a [`NewrLogs`].
pub struct NewrLogsV {
    pub logs: Seq<NewrLogV>,
    pub common: AttrSeq,
}

impl View for NewrLogs {
    type V = NewrLogsV;

    open spec fn view(&self) -> NewrLogsV {
        NewrLogsV { logs: self.logs@.map_values(|l: NewrLog| l@), common: self.common@ }
    }
}

/// The span-stream payload of one finished trace.
#[derive(Debug)]
pub struct NewrSpans {
    /// The span records, root first, then descendants in closing order.
    pub spans: Vec<NewrSpan>,
    /// Attributes shared by all of them.
    pub common: NewrCommon,
}

/// Model of a [`NewrSpans`].
pub struct NewrSpansV {
    pub spans: Seq<NewrSpanV>,
    pub common: AttrSeq,
}

impl View for NewrSpans {
    type V = NewrSpansV;

    open spec fn view(&self) -> NewrSpansV {
        NewrSpansV { spans: self.spans@.map_values(|s: NewrSpan| s@), common: self.common@ }
    }
}

} // verus!

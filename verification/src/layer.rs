//! The aggregation engine: a table of open spans keyed by caller-supplied
//! handles; closing a span either reparents its records or flattens the
//! finished trace into one batch.

use vstd::prelude::*;

use crate::types::{
    seq_insert, seq_merge_missing, AttrSeq, NewrAttributes, NewrCommon, NewrLog, NewrLogV,
    NewrLogs, NewrLogsV, NewrSpan, NewrSpanV, NewrSpans, NewrSpansV, Value, ValueV,
};
use crate::utils::{dec_u64, Clock, IdGen};

verus! {

/// Everything recorded against one still-open span: its own record, the
/// already-flattened records of its closed descendants, the log records of
/// its subtree, and the handle of its parent, if it was opened with one.
#[derive(Debug)]
pub struct OpenSpan {
    /// The span's own record.
    pub span: NewrSpan,
    /// Closed descendants, in closing order, each already carrying its own
    /// subtree's merged attributes.
    pub children: Vec<NewrSpan>,
    /// Log records of the subtree, in recording order.
    pub logs: Vec<NewrLog>,
    /// The handle under which the parent span was opened.
    pub parent: Option<u64>,
}

/// Model of an [`OpenSpan`].
pub struct OpenSpanV {
    pub span: NewrSpanV,
    pub children: Seq<NewrSpanV>,
    pub logs: Seq<NewrLogV>,
    pub parent: Option<u64>,
}

impl View for OpenSpan {
    type V = OpenSpanV;

    open spec fn view(&self) -> OpenSpanV {
        OpenSpanV {
            span: self.span@,
            children: self.children@.map_values(|c: NewrSpan| c@),
            logs: self.logs@.map_values(|l: NewrLog| l@),
            parent: self.parent,
        }
    }
}

impl OpenSpan {
    /// Every attribute set of the entry has unique keys.
    pub open spec fn wf(self) -> bool {
        &&& self.span.wf()
        &&& forall|i: int| 0 <= i < self.children@.len() ==> (#[trigger] self.children@[i]).wf()
        &&& forall|i: int| 0 <= i < self.logs@.len() ==> (#[trigger] self.logs@[i]).wf()
    }
}

/// The open-span table: an explicit mapping from handle to entry.
#[derive(Debug)]
pub struct HandleTable {
    /// The entries, keyed by pairwise-distinct handles.
    pub items: Vec<(u64, OpenSpan)>,
}

impl HandleTable {
    /// Handles are pairwise distinct and every entry is well formed.
    pub open spec fn wf(self) -> bool {
        &&& forall|i: int, j: int|
            0 <= i < j < self.items@.len() ==> self.items@[i].0 != self.items@[j].0
        &&& forall|i: int| 0 <= i < self.items@.len() ==> (#[trigger] self.items@[i]).1.wf()
    }

    /// Whether an entry is stored under `h`.
    pub open spec fn spec_contains(self, h: u64) -> bool {
        exists|i: int| 0 <= i < self.items@.len() && self.items@[i].0 == h
    }

    /// The position of the entry stored under `h`.
    pub open spec fn idx_of(self, h: u64) -> int {
        choose|i: int| 0 <= i < self.items@.len() && self.items@[i].0 == h
    }

    /// The entry stored under `h`.
    pub open spec fn spec_entry(self, h: u64) -> OpenSpan {
        self.items@[self.idx_of(h)].1
    }

    /// The empty table.
    pub fn new() -> (r: Self)
        ensures
            r.wf(),
            forall|h: u64| !r.spec_contains(h),
            r.items@.len() == 0,
    {
        HandleTable { items: Vec::new() }
    }

    /// Whether an entry is stored under `h`.
    pub fn contains(&self, h: u64) -> (r: bool)
        ensures
            r == self.spec_contains(h),
    {
        let mut i: usize = 0;
        while i < self.items.len()
            invariant
                i <= self.items.len(),
                forall|j: int| 0 <= j < i ==> self.items@[j].0 != h,
            decreases self.items.len() - i,
        {
            if self.items[i].0 == h {
                return true;
            }
            i += 1;
        }
        false
    }

    /// Store `e` under the fresh handle `h`.
    pub fn put(&mut self, h: u64, e: OpenSpan)
        requires
            old(self).wf(),
            !old(self).spec_contains(h),
            e.wf(),
        ensures
            final(self).wf(),
            final(self).spec_contains(h),
            final(self).spec_entry(h) == e,
            forall|h2: u64|
                h2 != h ==> #[trigger] final(self).spec_contains(h2) == old(self).spec_contains(h2),
            forall|h2: u64|
                h2 != h && old(self).spec_contains(h2) ==> #[trigger] final(self).spec_entry(h2)
                    == old(self).spec_entry(h2),
    {
        let ghost t0 = self.items@;
        self.items.push((h, e));
        proof {
            let t1 = self.items@;
            assert(t1 == t0.push((h, e)));
            assert(t1[t0.len() as int].0 == h);
            assert forall|i: int, j: int| 0 <= i < j < t1.len() implies t1[i].0 != t1[j].0 by {
                if j < t0.len() {
                    assert(t0[i].0 != t0[j].0);
                } else {
                    assert(t1[j] == (h, e));
                    if t0[i].0 == h {
                        assert(old(self).spec_contains(h));
                    }
                }
            }
            let k = self.idx_of(h);
            assert(t1[k].0 == h);
            assert(k == t0.len()) by {
                if k < t0.len() {
                    assert(t0[k].0 == h);
                    assert(old(self).spec_contains(h));
                }
            }
            assert forall|h2: u64| h2 != h implies #[trigger] final(self).spec_contains(h2) == old(self).spec_contains(h2) by {
                if old(self).spec_contains(h2) {
                    let i = old(self).idx_of(h2);
                    assert(t1[i].0 == h2);
                }
                if final(self).spec_contains(h2) {
                    let i = final(self).idx_of(h2);
                    assert(t1[i].0 == h2);
                    assert(i != t0.len());
                    assert(t0[i].0 == h2);
                }
            }
            assert forall|h2: u64| h2 != h && old(self).spec_contains(h2) implies #[trigger] final(self).spec_entry(h2) == old(self).spec_entry(h2) by {
                let i0 = old(self).idx_of(h2);
                assert(final(self).spec_contains(h2));
                let i1 = final(self).idx_of(h2);
                assert(t0[i0].0 == h2);
                assert(t1[i1].0 == h2);
                assert(i1 != t0.len());
                assert(t0[i1].0 == h2);
                if i0 != i1 {
                    assert(false) by {
                        if i0 < i1 {
                            assert(t0[i0].0 != t0[i1].0);
                        } else {
                            assert(t0[i1].0 != t0[i0].0);
                        }
                    }
                }
            }
        }
    }

    /// Remove and return the entry stored under `h`.
    pub fn take(&mut self, h: u64) -> (r: OpenSpan)
        requires
            old(self).wf(),
            old(self).spec_contains(h),
        ensures
            final(self).wf(),
            r == old(self).spec_entry(h),
            r.wf(),
            !final(self).spec_contains(h),
            forall|h2: u64|
                h2 != h ==> #[trigger] final(self).spec_contains(h2) == old(self).spec_contains(h2),
            forall|h2: u64|
                h2 != h && old(self).spec_contains(h2) ==> #[trigger] final(self).spec_entry(h2)
                    == old(self).spec_entry(h2),
    {
        let ghost t0 = self.items@;
        let mut i: usize = 0;
        while i < self.items.len()
            invariant
                i <= self.items.len(),
                self.items@ == t0,
                old(self).wf(),
                old(self).spec_contains(h),
                *self == *old(self),
                forall|j: int| 0 <= j < i ==> t0[j].0 != h,
            decreases self.items.len() - i,
        {
            if self.items[i].0 == h {
                let ghost pos = i as int;
                proof {
                    let k = old(self).idx_of(h);
                    assert(t0[k].0 == h);
                    assert(k == pos) by {
                        if k < pos {
                            assert(t0[k].0 != t0[pos].0);
                        } else if pos < k {
                            assert(t0[pos].0 != t0[k].0);
                        }
                    }
                }
                let (_h, e) = self.items.remove(i);
                proof {
                    let t1 = self.items@;
                    assert(t1 =~= t0.subrange(0, pos) + t0.subrange(pos + 1, t0.len() as int));
                    // index mapping between the old and the new table
                    assert(forall|j: int| 0 <= j < pos ==> t1[j] == t0[j]);
                    assert(forall|j: int|
                        pos <= j < t1.len() ==> t1[j] == t0[j + 1]);
                    assert forall|x: int, y: int| 0 <= x < y < t1.len() implies t1[x].0
                        != t1[y].0 by {
                        let x0 = if x < pos {
                            x
                        } else {
                            x + 1
                        };
                        let y0 = if y < pos {
                            y
                        } else {
                            y + 1
                        };
                        assert(t0[x0].0 != t0[y0].0);
                    }
                    assert(!final(self).spec_contains(h)) by {
                        if final(self).spec_contains(h) {
                            let m = final(self).idx_of(h);
                            let m0 = if m < pos {
                                m
                            } else {
                                m + 1
                            };
                            assert(t0[m0].0 == h);
                            assert(m0 != pos);
                            if m0 < pos {
                                assert(t0[m0].0 != t0[pos].0);
                            } else {
                                assert(t0[pos].0 != t0[m0].0);
                            }
                        }
                    }
                    assert forall|h2: u64| h2 != h implies #[trigger] final(self).spec_contains(h2)
                        == old(self).spec_contains(h2) by {
                        if old(self).spec_contains(h2) {
                            let m = old(self).idx_of(h2);
                            assert(t0[m].0 == h2);
                            assert(m != pos);
                            if m < pos {
                                assert(t1[m].0 == h2);
                            } else {
                                assert(t1[m - 1].0 == h2);
                            }
                        }
                        if final(self).spec_contains(h2) {
                            let m = final(self).idx_of(h2);
                            let m0 = if m < pos {
                                m
                            } else {
                                m + 1
                            };
                            assert(t0[m0].0 == h2);
                        }
                    }
                    assert forall|h2: u64|
                        h2 != h && old(self).spec_contains(h2) implies #[trigger] final(self).spec_entry(h2) == old(self).spec_entry(h2) by {
                        let m = old(self).idx_of(h2);
                        assert(t0[m].0 == h2);
                        assert(m != pos);
                        let m1 = if m < pos {
                            m
                        } else {
                            m - 1
                        };
                        assert(t1[m1].0 == h2);
                        let k1 = final(self).idx_of(h2);
                        assert(t1[k1].0 == h2);
                        assert(k1 == m1) by {
                            if k1 < m1 {
                                assert(t1[k1].0 != t1[m1].0);
                            } else if m1 < k1 {
                                assert(t1[m1].0 != t1[k1].0);
                            }
                        }
                        assert(t1[m1].1 == t0[m].1);
                    }
                }
                return e;
            }
            i += 1;
        }
        proof {
            let k = old(self).idx_of(h);
            assert(t0[k].0 == h);
            assert(false);
        }
        unreached()
    }
}

/// Collects spans and events into batches: the producer-side aggregation
/// engine. One value of this type owns the whole forest of open spans.
#[derive(Debug)]
pub struct NewRelicLayer {
    /// Value for the shared `service.name` attribute, if one was set.
    pub service_name: Option<String>,
    /// Value for the shared `hostname` attribute, if one was set.
    pub hostname: Option<String>,
    /// The open spans, keyed by caller-supplied handle.
    pub spans: HandleTable,
    /// Where span and trace identifiers come from.
    pub id_gen: IdGen,
    /// Where timestamps come from.
    pub clock: Clock,
}

impl NewRelicLayer {
    /// The open-span table is well formed.
    pub open spec fn wf(self) -> bool {
        self.spans.wf()
    }

    /// Whether a span is open under `h`.
    pub open spec fn spec_contains(self, h: u64) -> bool {
        self.spans.spec_contains(h)
    }

    /// The entry of the span open under `h`.
    pub open spec fn spec_entry(self, h: u64) -> OpenSpan {
        self.spans.spec_entry(h)
    }

    /// Whether configuration (names, sources) is unchanged between two
    /// states.
    pub open spec fn same_config(self, other: Self) -> bool {
        &&& self.service_name == other.service_name
        &&& self.hostname == other.hostname
        &&& self.clock == other.clock
    }

    /// The attributes every item of a batch shares: `service.name` and
    /// `hostname`, where set.
    pub open spec fn spec_common(self) -> AttrSeq {
        let base = Seq::<(Seq<char>, ValueV)>::empty();
        let with_sn = match self.service_name {
            Some(sn) => base.push(("service.name"@, ValueV::Str(sn@))),
            None => base,
        };
        match self.hostname {
            Some(hn) => with_sn.push(("hostname"@, ValueV::Str(hn@))),
            None => with_sn,
        }
    }

    /// An aggregator with no open span, drawing on the given identifier and
    /// time sources.
    pub fn new(id_gen: IdGen, clock: Clock) -> (r: Self)
        ensures
            r.wf(),
            r.service_name is None,
            r.hostname is None,
            r.id_gen == id_gen,
            r.clock == clock,
            forall|h: u64| !r.spec_contains(h),
    {
        NewRelicLayer {
            service_name: None,
            hostname: None,
            spans: HandleTable::new(),
            id_gen,
            clock,
        }
    }

    /// Set the shared `service.name` attribute value.
    pub fn with_service_name(self, i: String) -> (r: Self)
        ensures
            r.service_name == Some(i),
            r.hostname == self.hostname,
            r.spans == self.spans,
            r.id_gen == self.id_gen,
            r.clock == self.clock,
    {
        let mut r = self;
        r.service_name = Some(i);
        r
    }

    /// Set the shared `hostname` attribute value.
    pub fn with_hostname(self, i: String) -> (r: Self)
        ensures
            r.hostname == Some(i),
            r.service_name == self.service_name,
            r.spans == self.spans,
            r.id_gen == self.id_gen,
            r.clock == self.clock,
    {
        let mut r = self;
        r.hostname = Some(i);
        r
    }

    /// The shared attribute set, built from the configured names.
    pub fn common_attributes(&self) -> (r: NewrAttributes)
        ensures
            r@ == self.spec_common(),
            r.wf(),
    {
        let mut a = NewrAttributes::new();
        if let Some(sn) = &self.service_name {
            a.insert_value("service.name", Value::String(sn.clone()));
            proof {
                assert(a@ =~= Seq::<(Seq<char>, ValueV)>::empty().push(
                    ("service.name"@, ValueV::Str(sn@)),
                ));
            }
        }
        if let Some(hn) = &self.hostname {
            proof {
                reveal_strlit("service.name");
                reveal_strlit("hostname");
                assert(("service.name"@).len() == 12);
                assert(("hostname"@).len() == 8);
                assert forall|i: int| 0 <= i < a@.len() implies a@[i].0 != "hostname"@ by {
                    assert(a@[i].0 == "service.name"@);
                }
                assert(!crate::types::seq_contains_key(a@, "hostname"@));
            }
            let ghost before = a@;
            a.insert_value("hostname", Value::String(hn.clone()));
            proof {
                assert(a@ =~= before.push(("hostname"@, ValueV::Str(hn@))));
            }
        }
        a
    }

    /// Open a span under the fresh handle `handle`, optionally nested under
    /// the span open at `parent`.
    pub fn open(&mut self, handle: u64, parent: Option<u64>, name: String)
        requires
            old(self).wf(),
            !old(self).spec_contains(handle),
        ensures
            final(self).wf(),
            final(self).same_config(*old(self)),
            final(self).spec_contains(handle),
            ({
                let e = final(self).spec_entry(handle);
                &&& e@.children.len() == 0
                &&& e@.logs.len() == 0
                &&& e@.parent == parent
                &&& e@.span.trace_id is None
                &&& e@.span.attributes == seq![("name"@, ValueV::Str(name@))]
                &&& match old(self).clock {
                    Clock::Fixed(t) => e@.span.timestamp == t,
                    Clock::System => true,
                }
                &&& match old(self).id_gen {
                    IdGen::Sequential { next_span, next_trace } => e@.span.id == "span_"@
                        + dec_u64(next_span as nat),
                    IdGen::Random => true,
                }
            }),
            match old(self).id_gen {
                IdGen::Sequential { next_span, next_trace } => final(self).id_gen
                    == (IdGen::Sequential {
                    next_span: if next_span == u64::MAX {
                        0
                    } else {
                        (next_span + 1) as u64
                    },
                    next_trace,
                }),
                IdGen::Random => final(self).id_gen == old(self).id_gen,
            },
            forall|h2: u64|
                h2 != handle ==> #[trigger] final(self).spec_contains(h2) == old(
                    self,
                ).spec_contains(h2),
            forall|h2: u64|
                h2 != handle && old(self).spec_contains(h2) ==> #[trigger] final(self).spec_entry(
                    h2,
                ) == old(self).spec_entry(h2),
    {
        let id = self.id_gen.span_id();
        let ts = self.clock.now_ms();
        let span = NewrSpan::from_parts(id, ts, name);
        let e = OpenSpan { span, children: Vec::new(), logs: Vec::new(), parent };
        proof {
            assert(e@.children =~= Seq::<NewrSpanV>::empty());
            assert(e@.logs =~= Seq::<NewrLogV>::empty());
        }
        self.spans.put(handle, e);
    }

    /// Record one attribute against the span open at `handle`, overwriting
    /// any previous value under the same key.
    pub fn record_attribute(&mut self, handle: u64, key: &str, val: Value)
        requires
            old(self).wf(),
            old(self).spec_contains(handle),
        ensures
            final(self).wf(),
            final(self).same_config(*old(self)),
            final(self).id_gen == old(self).id_gen,
            ({
                let e0 = old(self).spec_entry(handle);
                let e1 = final(self).spec_entry(handle);
                &&& final(self).spec_contains(handle)
                &&& e1@.span.attributes == seq_insert(e0@.span.attributes, key@, val@)
                &&& e1@.span.id == e0@.span.id
                &&& e1@.span.trace_id == e0@.span.trace_id
                &&& e1@.span.timestamp == e0@.span.timestamp
                &&& e1.children == e0.children
                &&& e1.logs == e0.logs
                &&& e1.parent == e0.parent
            }),
            forall|h2: u64|
                h2 != handle ==> #[trigger] final(self).spec_contains(h2) == old(
                    self,
                ).spec_contains(h2),
            forall|h2: u64|
                h2 != handle && old(self).spec_contains(h2) ==> #[trigger] final(self).spec_entry(
                    h2,
                ) == old(self).spec_entry(h2),
    {
        let mut e = self.spans.take(handle);
        e.span.attributes.insert_value(key, val);
        self.spans.put(handle, e);
    }

    /// Record one event against the span open at `handle`: it becomes a log
    /// record of the span's subtree, linked to the span through a `span.id`
    /// attribute unless the event already carries one.
    pub fn record_event(&mut self, handle: u64, level: String, attributes: NewrAttributes)
        requires
            old(self).wf(),
            old(self).spec_contains(handle),
            attributes.wf(),
        ensures
            final(self).wf(),
            final(self).same_config(*old(self)),
            final(self).id_gen == old(self).id_gen,
            final(self).spec_contains(handle),
            ({
                let e0 = old(self).spec_entry(handle);
                let e1 = final(self).spec_entry(handle);
                &&& e1.span == e0.span
                &&& e1.children == e0.children
                &&& e1.parent == e0.parent
                &&& exists|ts: u64|
                    e1@.logs == e0@.logs.push(
                        NewrLogV {
                            timestamp: ts,
                            logtype: "accesslogs"@,
                            level: level@,
                            attributes: seq_merge_missing(
                                attributes@,
                                seq![("span.id"@, ValueV::Str(e0@.span.id))],
                            ),
                        },
                    ) && (match old(self).clock {
                        Clock::Fixed(t) => ts == t,
                        Clock::System => true,
                    })
            }),
            forall|h2: u64|
                h2 != handle ==> #[trigger] final(self).spec_contains(h2) == old(
                    self,
                ).spec_contains(h2),
            forall|h2: u64|
                h2 != handle && old(self).spec_contains(h2) ==> #[trigger] final(self).spec_entry(
                    h2,
                ) == old(self).spec_entry(h2),
    {
        let ts = self.clock.now_ms();
        let mut e = self.spans.take(handle);
        let mut log = NewrLog::from_parts(ts, level);
        let mut linked = attributes;
        let mut linking = NewrAttributes::new();
        linking.insert_value("span.id", Value::String(e.span.id.clone()));
        proof {
            assert(linking@ =~= seq![("span.id"@, ValueV::Str(e.span@.id))]);
        }
        linked.append(&linking);
        log.attributes = linked;
        let ghost logs0 = e@.logs;
        e.logs.push(log);
        proof {
            assert(e@.logs =~= logs0.push(log@));
        }
        self.spans.put(handle, e);
    }
}

/// The children with the closing span's attributes merged in; a child's own
/// value wins on any shared key.
pub open spec fn merge_into_children(children: Seq<NewrSpanV>, attrs: AttrSeq) -> Seq<NewrSpanV> {
    children.map_values(
        |c: NewrSpanV| NewrSpanV { attributes: seq_merge_missing(c.attributes, attrs), ..c },
    )
}

/// Every span stamped with the trace identifier.
pub open spec fn stamp_trace(spans: Seq<NewrSpanV>, tid: Seq<char>) -> Seq<NewrSpanV> {
    spans.map_values(|s: NewrSpanV| NewrSpanV { trace_id: Some(tid), ..s })
}

/// Every log stamped with the trace identifier through a `trace.id`
/// attribute.
pub open spec fn stamp_logs(logs: Seq<NewrLogV>, tid: Seq<char>) -> Seq<NewrLogV> {
    logs.map_values(
        |l: NewrLogV| NewrLogV {
            attributes: seq_insert(l.attributes, "trace.id"@, ValueV::Str(tid)),
            ..l
        },
    )
}

/// The parent's entry after adopting a closed child: the child's record,
/// marked with `parent.id`, and its flattened descendants join the parent's
/// children; the child's logs join the parent's logs.
pub open spec fn spec_adopted(
    pe: OpenSpanV,
    s2: NewrSpanV,
    kids: Seq<NewrSpanV>,
    logs: Seq<NewrLogV>,
) -> OpenSpanV {
    let s3 = NewrSpanV {
        attributes: seq_insert(s2.attributes, "parent.id"@, ValueV::Str(pe.span.id)),
        ..s2
    };
    OpenSpanV {
        span: pe.span,
        children: pe.children + seq![s3] + kids,
        logs: pe.logs + logs,
        parent: pe.parent,
    }
}

/// What closing a span whose parent is still open does: no batch leaves, the
/// records move into the parent, and every other entry stays as it was.
pub open spec fn close_parent_post(
    pre: NewRelicLayer,
    post: NewRelicLayer,
    handle: u64,
    p: u64,
    s2: NewrSpanV,
    kids: Seq<NewrSpanV>,
    logs: Seq<NewrLogV>,
    r: Option<(NewrLogs, NewrSpans)>,
) -> bool {
    &&& r is None
    &&& post.id_gen == pre.id_gen
    &&& post.spec_contains(p)
    &&& post.spec_entry(p)@ == spec_adopted(pre.spec_entry(p)@, s2, kids, logs)
    &&& forall|h2: u64|
        h2 != handle && h2 != p ==> #[trigger] post.spec_contains(h2) == pre.spec_contains(h2)
    &&& forall|h2: u64|
        h2 != handle && h2 != p && pre.spec_contains(h2) ==> #[trigger] post.spec_entry(h2)
            == pre.spec_entry(h2)
}

/// What closing a trace root does: exactly one batch leaves, holding the
/// root's record and every flattened descendant, all stamped with one fresh
/// trace identifier, the logs carrying it as `trace.id`; every other entry
/// stays as it was.
pub open spec fn close_root_post(
    pre: NewRelicLayer,
    post: NewRelicLayer,
    handle: u64,
    s2: NewrSpanV,
    kids: Seq<NewrSpanV>,
    logs: Seq<NewrLogV>,
    tid: Seq<char>,
    r: Option<(NewrLogs, NewrSpans)>,
) -> bool {
    &&& match pre.id_gen {
        IdGen::Sequential { next_span, next_trace } => {
            &&& tid == "trace_"@ + dec_u64(next_trace as nat)
            &&& post.id_gen == (IdGen::Sequential {
                next_span,
                next_trace: if next_trace == u64::MAX {
                    0
                } else {
                    (next_trace + 1) as u64
                },
            })
        },
        IdGen::Random => post.id_gen == pre.id_gen,
    }
    &&& match r {
        Some(b) => b.0@ == (NewrLogsV { logs: stamp_logs(logs, tid), common: pre.spec_common() })
            && b.1@ == (NewrSpansV {
            spans: stamp_trace(seq![s2] + kids, tid),
            common: pre.spec_common(),
        }),
        None => false,
    }
    &&& forall|h2: u64|
        h2 != handle ==> #[trigger] post.spec_contains(h2) == pre.spec_contains(h2)
    &&& forall|h2: u64|
        h2 != handle && pre.spec_contains(h2) ==> #[trigger] post.spec_entry(h2)
            == pre.spec_entry(h2)
}

/// What one `close` call does, for some clock reading `now` (pinned when the
/// clock is fixed) and trace identifier `tid` (pinned when identifiers are
/// sequential): see [`close_parent_post`] and [`close_root_post`].
pub open spec fn close_post(
    pre: NewRelicLayer,
    post: NewRelicLayer,
    handle: u64,
    now: u64,
    tid: Seq<char>,
    r: Option<(NewrLogs, NewrSpans)>,
) -> bool {
    let e = pre.spec_entry(handle)@;
    let s2 = crate::types::spec_with_duration(e.span, now);
    let kids = merge_into_children(e.children, s2.attributes);
    &&& match pre.clock {
        Clock::Fixed(t) => now == t,
        Clock::System => true,
    }
    &&& match e.parent {
        Some(p) => if p != handle && pre.spec_contains(p) {
            close_parent_post(pre, post, handle, p, s2, kids, e.logs, r)
        } else {
            close_root_post(pre, post, handle, s2, kids, e.logs, tid, r)
        },
        None => close_root_post(pre, post, handle, s2, kids, e.logs, tid, r),
    }
}

impl NewRelicLayer {
    /// Close the span open at `handle`: record its duration and push its own
    /// attributes down onto its flattened descendants; then either hand
    /// everything to the still-open parent (no batch leaves), or, with no
    /// parent open, stamp a fresh trace identifier on the whole subtree and
    /// return the finished batch.
    pub fn close(&mut self, handle: u64) -> (r: Option<(NewrLogs, NewrSpans)>)
        requires
            old(self).wf(),
            old(self).spec_contains(handle),
        ensures
            final(self).wf(),
            final(self).same_config(*old(self)),
            !final(self).spec_contains(handle),
            exists|now: u64, tid: Seq<char>|
                #[trigger] close_post(*old(self), *final(self), handle, now, tid, r),
    {
        let mut e = self.spans.take(handle);
        let now = self.clock.now_ms();
        e.span.update_duration_at(now);
        let ghost s2 = e.span@;
        let ghost kids0 = e.children@;
        let ghost span_fixed = e.span;
        let ghost logs_fixed = e.logs;
        let ghost parent_fixed = e.parent;
        let mut i: usize = 0;
        while i < e.children.len()
            invariant
                i <= e.children.len(),
                e.span == span_fixed,
                e.logs == logs_fixed,
                e.parent == parent_fixed,
                e.span.wf(),
                e.children@.len() == kids0.len(),
                forall|j: int| 0 <= j < kids0.len() ==> (#[trigger] kids0[j]).wf(),
                forall|j: int| i <= j < kids0.len() ==> e.children@[j] == kids0[j],
                forall|j: int|
                    0 <= j < i ==> (#[trigger] e.children@[j])@ == (NewrSpanV {
                        attributes: seq_merge_missing(kids0[j]@.attributes, s2.attributes),
                        ..kids0[j]@
                    }),
                forall|j: int| 0 <= j < i ==> (#[trigger] e.children@[j]).wf(),
                s2 == span_fixed@,
            decreases e.children.len() - i,
        {
            e.children[i].attributes.append(&e.span.attributes);
            i += 1;
        }
        proof {
            assert(e@.children =~= merge_into_children(
                old(self).spec_entry(handle)@.children,
                s2.attributes,
            ));
        }
        let OpenSpan { span, children, logs, parent } = e;
        let ghost kids = merge_into_children(old(self).spec_entry(handle)@.children, s2.attributes);
        let parent_handle: Option<u64> = match parent {
            Some(p) => if self.spans.contains(p) {
                Some(p)
            } else {
                None
            },
            None => None,
        };
        if let Some(p) = parent_handle {
            let mut span = span;
            let mut children = children;
            let mut logs = logs;
            let mut pe = self.spans.take(p);
            let ghost pe0 = pe;
            span.attributes.insert_value("parent.id", Value::String(pe.span.id.clone()));
            let ghost pch0 = pe@.children;
            let ghost plg0 = pe@.logs;
            pe.children.push(span);
            pe.children.append(&mut children);
            pe.logs.append(&mut logs);
            proof {
                assert(pe@.children =~= pe0@.children + seq![
                    NewrSpanV {
                        attributes: seq_insert(s2.attributes, "parent.id"@, ValueV::Str(
                            pe0@.span.id,
                        )),
                        ..s2
                    },
                ] + kids);
                assert(pe@.logs =~= pe0@.logs + old(self).spec_entry(handle)@.logs);
                assert(pe@ == spec_adopted(
                    pe0@,
                    crate::types::spec_with_duration(old(self).spec_entry(handle)@.span, now),
                    kids,
                    old(self).spec_entry(handle)@.logs,
                ));
            }
            self.spans.put(p, pe);
            proof {
                let pre = *old(self);
                let post = *final(self);
                let ev = pre.spec_entry(handle)@;
                let s2v = crate::types::spec_with_duration(ev.span, now);
                assert(close_parent_post(pre, post, handle, p, s2v, kids, ev.logs, None));
                assert(match pre.clock {
                    Clock::Fixed(t) => now == t,
                    Clock::System => true,
                });
                assert(close_post(pre, post, handle, now, Seq::<char>::empty(), None));
            }
            None
        } else {
            let tid = self.id_gen.trace_id();
            let mut spans_all: Vec<NewrSpan> = Vec::new();
            spans_all.push(span);
            let mut children = children;
            spans_all.append(&mut children);
            let ghost all0 = spans_all@;
            let mut j: usize = 0;
            while j < spans_all.len()
                invariant
                    j <= spans_all.len(),
                    spans_all@.len() == all0.len(),
                    forall|k: int| j <= k < all0.len() ==> spans_all@[k] == all0[k],
                    forall|k: int|
                        0 <= k < j ==> (#[trigger] spans_all@[k])@ == (NewrSpanV {
                            trace_id: Some(tid@),
                            ..all0[k]@
                        }),
                decreases spans_all.len() - j,
            {
                spans_all[j].trace_id = Some(tid.clone());
                j += 1;
            }
            let mut logs = logs;
            let ghost lg0 = logs@;
            let mut k: usize = 0;
            while k < logs.len()
                invariant
                    k <= logs.len(),
                    logs@.len() == lg0.len(),
                    forall|m: int| 0 <= m < lg0.len() ==> (#[trigger] lg0[m]).wf(),
                    forall|m: int| k <= m < lg0.len() ==> logs@[m] == lg0[m],
                    forall|m: int|
                        0 <= m < k ==> (#[trigger] logs@[m])@ == (NewrLogV {
                            attributes: seq_insert(lg0[m]@.attributes, "trace.id"@, ValueV::Str(
                                tid@,
                            )),
                            ..lg0[m]@
                        }),
                decreases logs.len() - k,
            {
                proof {
                    assert(logs@[k as int] == lg0[k as int]);
                    assert(lg0[k as int].wf());
                }
                logs[k].attributes.insert_value("trace.id", Value::String(tid.clone()));
                k += 1;
            }
            let common = self.common_attributes();
            let r = Some(
                (
                    NewrLogs { logs, common: NewrCommon { attributes: common.clone() } },
                    NewrSpans { spans: spans_all, common: NewrCommon { attributes: common } },
                ),
            );
            proof {
                let pre = *old(self);
                let post = *final(self);
                let ev = pre.spec_entry(handle)@;
                let s2v = crate::types::spec_with_duration(ev.span, now);
                assert(all0.map_values(|s: NewrSpan| s@) =~= seq![s2v] + kids);
                let b = r->0;
                assert(b.1@.spans =~= stamp_trace(seq![s2v] + kids, tid@));
                assert(b.0@.logs =~= stamp_logs(ev.logs, tid@));
                assert(close_root_post(pre, post, handle, s2v, kids, ev.logs, tid@, r));
                assert(close_post(pre, post, handle, now, tid@, r));
            }
            r
        }
    }
}

} // verus!
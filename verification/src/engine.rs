//! A structured document model and the recursive expansion engine over it.
//!
//! A document is a tree of scalars, strings, byte buffers, optionals,
//! sequences, maps, and tagged variants. Expanding a document replaces every
//! string that is exactly a file reference by the referenced file's text,
//! walking the tree left to right and aborting at the first failing
//! reference. The reads themselves are answered by a [`ReadTable`], the
//! decode-time snapshot of what reading each path produces; the caller that
//! performs real I/O fills it, or drives the per-string steps directly.

use vstd::prelude::*;

use crate::expand::{finish_expand, spec_resolve, ExpandError, ExpandErrorView};
use crate::observe::{copy_bytes, event_of, Observer, ReadEvent, ReadOutcome, ReadOutcomeView};
use crate::pattern::{is_file_ref, parse_file_ref, ref_path};

verus! {

/// A structured document: what a decoder hands the application, shape by
/// shape. Strings can stand at any depth, so expansion must recurse through
/// every composite shape.
#[derive(Debug, PartialEq)]
pub enum Value {
    Bool(bool),
    Int(i64),
    Text(String),
    Bytes(Vec<u8>),
    Unit,
    /// An optional with no value present.
    Missing,
    /// An optional whose value is present.
    Present(Box<Value>),
    List(Vec<Value>),
    /// Map entries in document order; keys are values and are expanded too.
    Record(Vec<(Value, Value)>),
    /// An enum variant: its discriminant and its payload.
    Tagged(u64, Box<Value>),
}

/// The mathematical value of a document.
#[verifier::ext_equal]
pub ghost enum ValueView {
    Bool(bool),
    Int(int),
    Text(Seq<char>),
    Bytes(Seq<u8>),
    Unit,
    Missing,
    Present(Box<ValueView>),
    List(Seq<ValueView>),
    Record(Seq<(ValueView, ValueView)>),
    Tagged(u64, Box<ValueView>),
}

/// The mathematical value of each document in a sequence.
pub open spec fn deep_items(items: Seq<Value>) -> Seq<ValueView> {
    Seq::new(items.len(), |i: int| deep(items[i]))
}

/// The mathematical value of each entry in a sequence of map entries.
pub open spec fn deep_entries(entries: Seq<(Value, Value)>) -> Seq<(ValueView, ValueView)> {
    Seq::new(entries.len(), |i: int| (deep(entries[i].0), deep(entries[i].1)))
}

/// The mathematical value of a document.
pub open spec fn deep(v: Value) -> ValueView
    decreases v,
    via deep_decreases
{
    match v {
        Value::Bool(b) => ValueView::Bool(b),
        Value::Int(i) => ValueView::Int(i as int),
        Value::Text(s) => ValueView::Text(s@),
        Value::Bytes(b) => ValueView::Bytes(b@),
        Value::Unit => ValueView::Unit,
        Value::Missing => ValueView::Missing,
        Value::Present(inner) => ValueView::Present(Box::new(deep(*inner))),
        Value::List(items) => ValueView::List(
            Seq::new(
                items@.len(),
                |i: int|
                    if 0 <= i < items@.len() {
                        deep(items@[i])
                    } else {
                        ValueView::Unit
                    },
            ),
        ),
        Value::Record(entries) => ValueView::Record(
            Seq::new(
                entries@.len(),
                |i: int|
                    if 0 <= i < entries@.len() {
                        (deep(entries@[i].0), deep(entries@[i].1))
                    } else {
                        (ValueView::Unit, ValueView::Unit)
                    },
            ),
        ),
        Value::Tagged(tag, payload) => ValueView::Tagged(tag, Box::new(deep(*payload))),
    }
}

#[via_fn]
proof fn deep_decreases(v: Value) {
    match v {
        Value::List(items) => {
            assert forall|i: int| 0 <= i < items@.len() implies decreases_to!(v => items@[i]) by {
                assert(decreases_to!(v => items));
                assert(decreases_to!(items => items@));
                assert(decreases_to!(items@ => items@[i]));
            }
        },
        Value::Record(entries) => {
            assert forall|i: int| 0 <= i < entries@.len() implies decreases_to!(
                v => entries@[i].0,
            ) && decreases_to!(v => entries@[i].1) by {
                assert(decreases_to!(v => entries));
                assert(decreases_to!(entries => entries@));
                assert(decreases_to!(entries@ => entries@[i]));
                assert(decreases_to!(entries@[i] => entries@[i].0));
                assert(decreases_to!(entries@[i] => entries@[i].1));
            }
        },
        _ => {},
    }
}

/// The deep view of a list value is the pointwise deep view of its items.
pub broadcast proof fn lemma_deep_list(items: Vec<Value>)
    ensures
        #[trigger] deep(Value::List(items)) == ValueView::List(deep_items(items@)),
{
    let s1 = deep(Value::List(items))->List_0;
    let s2 = deep_items(items@);
    assert forall|i: int| 0 <= i < s1.len() implies s1[i] == s2[i] by {}
    assert(s1 =~= s2);
}

/// The deep view of a record value is the pointwise deep view of its entries.
pub broadcast proof fn lemma_deep_record(entries: Vec<(Value, Value)>)
    ensures
        #[trigger] deep(Value::Record(entries)) == ValueView::Record(deep_entries(entries@)),
{
    let s1 = deep(Value::Record(entries))->Record_0;
    let s2 = deep_entries(entries@);
    assert forall|i: int| 0 <= i < s1.len() implies s1[i] == s2[i] by {}
    assert(s1 =~= s2);
}

/// What expanding a document yields: the expanded document or the error that
/// aborted the decode, and the file-read notifications made on the way, in
/// order.
#[verifier::ext_equal]
pub ghost struct Expansion {
    pub outcome: Result<ValueView, ExpandErrorView>,
    pub events: Seq<ReadEvent>,
}

/// What expanding each item of a sequence in turn yields.
#[verifier::ext_equal]
pub ghost struct ItemsExpansion {
    pub outcome: Result<Seq<ValueView>, ExpandErrorView>,
    pub events: Seq<ReadEvent>,
}

/// What expanding each entry of a map in turn yields.
#[verifier::ext_equal]
pub ghost struct EntriesExpansion {
    pub outcome: Result<Seq<(ValueView, ValueView)>, ExpandErrorView>,
    pub events: Seq<ReadEvent>,
}

/// The expansion of a document against a file-system snapshot. A string that
/// is exactly a file reference is replaced by the referenced file's text and
/// contributes exactly one notification; every other leaf passes through
/// untouched with no notification; composite shapes expand their children
/// left to right, stopping at the first failure.
pub open spec fn spec_expand(v: ValueView, fs: Seq<(Seq<char>, ReadOutcomeView)>) -> Expansion
    decreases v, 0int,
{
    match v {
        ValueView::Text(s) => if is_file_ref(s) {
            let path = ref_path(s);
            let read = spec_lookup(fs, path);
            Expansion {
                outcome: match spec_resolve(path, read) {
                    Ok(t) => Ok(ValueView::Text(t)),
                    Err(e) => Err(e),
                },
                events: seq![event_of(path, read)],
            }
        } else {
            Expansion { outcome: Ok(v), events: seq![] }
        },
        ValueView::Present(inner) => {
            let sub = spec_expand(*inner, fs);
            Expansion {
                outcome: match sub.outcome {
                    Ok(w) => Ok(ValueView::Present(Box::new(w))),
                    Err(e) => Err(e),
                },
                events: sub.events,
            }
        },
        ValueView::Tagged(tag, payload) => {
            let sub = spec_expand(*payload, fs);
            Expansion {
                outcome: match sub.outcome {
                    Ok(w) => Ok(ValueView::Tagged(tag, Box::new(w))),
                    Err(e) => Err(e),
                },
                events: sub.events,
            }
        },
        ValueView::List(items) => {
            let sub = spec_expand_items(items, fs);
            Expansion {
                outcome: match sub.outcome {
                    Ok(ws) => Ok(ValueView::List(ws)),
                    Err(e) => Err(e),
                },
                events: sub.events,
            }
        },
        ValueView::Record(entries) => {
            let sub = spec_expand_entries(entries, fs);
            Expansion {
                outcome: match sub.outcome {
                    Ok(ws) => Ok(ValueView::Record(ws)),
                    Err(e) => Err(e),
                },
                events: sub.events,
            }
        },
        _ => Expansion { outcome: Ok(v), events: seq![] },
    }
}

/// The expansion of a sequence of documents, left to right, stopping at the
/// first failure.
pub open spec fn spec_expand_items(
    items: Seq<ValueView>,
    fs: Seq<(Seq<char>, ReadOutcomeView)>,
) -> ItemsExpansion
    decreases items, 1int,
{
    if items.len() == 0 {
        ItemsExpansion { outcome: Ok(seq![]), events: seq![] }
    } else {
        let head = spec_expand(items[0], fs);
        match head.outcome {
            Err(e) => ItemsExpansion { outcome: Err(e), events: head.events },
            Ok(w) => {
                let rest = spec_expand_items(items.subrange(1, items.len() as int), fs);
                ItemsExpansion {
                    outcome: match rest.outcome {
                        Ok(ws) => Ok(seq![w] + ws),
                        Err(e) => Err(e),
                    },
                    events: head.events + rest.events,
                }
            },
        }
    }
}

/// The expansion of a sequence of map entries: for each entry the key and
/// then the value, left to right, stopping at the first failure.
pub open spec fn spec_expand_entries(
    entries: Seq<(ValueView, ValueView)>,
    fs: Seq<(Seq<char>, ReadOutcomeView)>,
) -> EntriesExpansion
    decreases entries, 1int,
{
    if entries.len() == 0 {
        EntriesExpansion { outcome: Ok(seq![]), events: seq![] }
    } else {
        let key = spec_expand(entries[0].0, fs);
        match key.outcome {
            Err(e) => EntriesExpansion { outcome: Err(e), events: key.events },
            Ok(kw) => {
                let val = spec_expand(entries[0].1, fs);
                match val.outcome {
                    Err(e) => EntriesExpansion { outcome: Err(e), events: key.events + val.events },
                    Ok(vw) => {
                        let rest = spec_expand_entries(
                            entries.subrange(1, entries.len() as int),
                            fs,
                        );
                        EntriesExpansion {
                            outcome: match rest.outcome {
                                Ok(ws) => Ok(seq![(kw, vw)] + ws),
                                Err(e) => Err(e),
                            },
                            events: key.events + val.events + rest.events,
                        }
                    },
                }
            },
        }
    }
}

/// What the file system answers for each path, as a snapshot: path by path,
/// the bytes a read returns or the failure it reports. A path with no entry
/// reads as a failure.
pub struct ReadTable {
    entries: Vec<(String, ReadOutcome)>,
}

/// The message a read of a path with no entry fails with.
pub open spec fn miss_message() -> Seq<char> {
    "no such file"@
}

/// What looking a path up in a snapshot yields: the outcome of its first
/// entry for that path, or a failure when it has none.
pub open spec fn spec_lookup(fs: Seq<(Seq<char>, ReadOutcomeView)>, path: Seq<char>) -> ReadOutcomeView
    decreases fs.len(),
{
    if fs.len() == 0 {
        ReadOutcomeView::Failure(miss_message())
    } else if fs[0].0 == path {
        fs[0].1
    } else {
        spec_lookup(fs.drop_first(), path)
    }
}

impl View for ReadTable {
    type V = Seq<(Seq<char>, ReadOutcomeView)>;

    closed spec fn view(&self) -> Seq<(Seq<char>, ReadOutcomeView)> {
        self.entries@.map_values(|e: (String, ReadOutcome)| (e.0@, e.1@))
    }
}

impl ReadTable {
    /// A snapshot with no entries: every read fails.
    pub fn new() -> (r: Self)
        ensures
            r@ == Seq::<(Seq<char>, ReadOutcomeView)>::empty(),
    {
        let r = ReadTable { entries: Vec::new() };
        proof {
            assert(r@ =~= Seq::<(Seq<char>, ReadOutcomeView)>::empty());
        }
        r
    }

    /// Appends an entry: reading `path` now yields `outcome`, unless an
    /// earlier entry for the same path already answers it.
    pub fn add(&mut self, path: String, outcome: ReadOutcome)
        ensures
            final (self)@ == old(self)@.push((path@, outcome@)),
    {
        let ghost prior = self@;
        let ghost entry = (path@, outcome@);
        self.entries.push((path, outcome));
        proof {
            assert(final (self)@ =~= prior.push(entry));
        }
    }

    /// Reads a path from the snapshot.
    pub fn lookup(&self, path: &str) -> (r: ReadOutcome)
        ensures
            r@ == spec_lookup(self@, path@),
    {
        let wanted = String::from_str(path);
        proof {
            assert(self@.subrange(0, self@.len() as int) =~= self@);
        }
        let mut i: usize = 0;
        while i < self.entries.len()
            invariant
                i <= self.entries.len(),
                wanted@ == path@,
                spec_lookup(self@, path@) == spec_lookup(
                    self@.subrange(i as int, self@.len() as int),
                    path@,
                ),
            decreases self.entries.len() - i,
        {
            let entry = &self.entries[i];
            proof {
                let rest = self@.subrange(i as int, self@.len() as int);
                assert(rest[0] == (entry.0@, entry.1@));
                assert(rest.drop_first() =~= self@.subrange(i as int + 1, self@.len() as int));
            }
            if entry.0 == wanted {
                return entry.1.duplicate();
            }
            i = i + 1;
        }
        proof {
            assert(self@.subrange(i as int, self@.len() as int) =~= Seq::<(
                Seq<char>,
                ReadOutcomeView,
            )>::empty());
        }
        ReadOutcome::Failure(String::from_str("no such file"))
    }
}

/// The returned document and the expansion's outcome agree: the same error,
/// or a document whose mathematical value is the expanded one.
pub open spec fn matches_outcome(
    outcome: Result<ValueView, ExpandErrorView>,
    r: Result<Value, ExpandError>,
) -> bool {
    match r {
        Ok(w) => outcome == Ok::<ValueView, ExpandErrorView>(deep(w)),
        Err(e) => outcome == Err::<ValueView, ExpandErrorView>(e@),
    }
}

/// Expands one document against the snapshot: every file reference in it is
/// resolved and reported to the observer, in document order; the first
/// failure aborts the walk and is returned.
pub fn expand_value<O: Observer>(v: &Value, reads: &ReadTable, observer: &mut O) -> (r: Result<
    Value,
    ExpandError,
>)
    ensures
        final (observer).log() == old(observer).log() + spec_expand(deep(*v), reads@).events,
        matches_outcome(spec_expand(deep(*v), reads@).outcome, r),
    decreases *v, 0int,
{
    let ghost ex = spec_expand(deep(*v), reads@);
    match v {
        Value::Bool(b) => {
            proof {
                assert(old(observer).log() + ex.events =~= old(observer).log());
            }
            Ok(Value::Bool(*b))
        },
        Value::Int(i) => {
            proof {
                assert(old(observer).log() + ex.events =~= old(observer).log());
            }
            Ok(Value::Int(*i))
        },
        Value::Text(s) => match parse_file_ref(s.as_str()) {
            Some(path) => {
                let outcome = reads.lookup(path.as_str());
                proof {
                    assert(ex.events =~= seq![
                        event_of(ref_path(s@), spec_lookup(reads@, ref_path(s@))),
                    ]);
                }
                match finish_expand(observer, path.as_str(), outcome) {
                    Ok(t) => Ok(Value::Text(t)),
                    Err(e) => Err(e),
                }
            },
            None => {
                proof {
                    assert(old(observer).log() + ex.events =~= old(observer).log());
                }
                Ok(Value::Text(s.clone()))
            },
        },
        Value::Bytes(b) => {
            proof {
                assert(old(observer).log() + ex.events =~= old(observer).log());
            }
            Ok(Value::Bytes(copy_bytes(b)))
        },
        Value::Unit => {
            proof {
                assert(old(observer).log() + ex.events =~= old(observer).log());
            }
            Ok(Value::Unit)
        },
        Value::Missing => {
            proof {
                assert(old(observer).log() + ex.events =~= old(observer).log());
            }
            Ok(Value::Missing)
        },
        Value::Present(inner) => match expand_value(&*inner, reads, observer) {
            Ok(w) => Ok(Value::Present(Box::new(w))),
            Err(e) => Err(e),
        },
        Value::Tagged(tag, payload) => match expand_value(&*payload, reads, observer) {
            Ok(w) => Ok(Value::Tagged(*tag, Box::new(w))),
            Err(e) => Err(e),
        },
        Value::List(items) => {
            proof {
                lemma_deep_list(*items);
                assert(deep_items(items@).subrange(0, items@.len() as int) =~= deep_items(
                    items@,
                ));
            }
            match expand_items(items, 0, reads, observer) {
                Ok(ws) => {
                    proof {
                        lemma_deep_list(ws);
                    }
                    Ok(Value::List(ws))
                },
                Err(e) => Err(e),
            }
        },
        Value::Record(entries) => {
            proof {
                lemma_deep_record(*entries);
                assert(deep_entries(entries@).subrange(0, entries@.len() as int) =~= deep_entries(
                    entries@,
                ));
            }
            match expand_entries(entries, 0, reads, observer) {
                Ok(ws) => {
                    proof {
                        lemma_deep_record(ws);
                    }
                    Ok(Value::Record(ws))
                },
                Err(e) => Err(e),
            }
        },
    }
}

/// Expands the items of a sequence from position `start` on, left to right.
fn expand_items<O: Observer>(
    items: &Vec<Value>,
    start: usize,
    reads: &ReadTable,
    observer: &mut O,
) -> (r: Result<Vec<Value>, ExpandError>)
    requires
        start <= items@.len(),
    ensures
        ({
            let ex = spec_expand_items(
                deep_items(items@).subrange(start as int, items@.len() as int),
                reads@,
            );
            &&& final (observer).log() == old(observer).log() + ex.events
            &&& match r {
                Ok(ws) => ex.outcome == Ok::<Seq<ValueView>, ExpandErrorView>(deep_items(ws@)),
                Err(e) => ex.outcome == Err::<Seq<ValueView>, ExpandErrorView>(e@),
            }
        }),
    decreases items@, items@.len() - start,
{
    let ghost suffix = deep_items(items@).subrange(start as int, items@.len() as int);
    let ghost ex = spec_expand_items(suffix, reads@);
    if start == items.len() {
        proof {
            assert(suffix =~= Seq::<ValueView>::empty());
            assert(old(observer).log() + ex.events =~= old(observer).log());
        }
        let out: Vec<Value> = Vec::new();
        proof {
            assert(deep_items(out@) =~= Seq::<ValueView>::empty());
        }
        Ok(out)
    } else {
        proof {
            assert(suffix[0] == deep(items@[start as int]));
            assert(suffix.subrange(1, suffix.len() as int) =~= deep_items(items@).subrange(
                start as int + 1,
                items@.len() as int,
            ));
        }
        let ghost log0 = observer.log();
        match expand_value(&items[start], reads, observer) {
            Err(e) => Err(e),
            Ok(w) => {
                let ghost head = spec_expand(suffix[0], reads@);
                match expand_items(items, start + 1, reads, observer) {
                    Err(e) => {
                        proof {
                            let rest = spec_expand_items(
                                suffix.subrange(1, suffix.len() as int),
                                reads@,
                            );
                            assert(log0 + head.events + rest.events =~= log0 + (head.events
                                + rest.events));
                        }
                        Err(e)
                    },
                    Ok(ws) => {
                        let mut out = ws;
                        out.insert(0, w);
                        proof {
                            let rest = spec_expand_items(
                                suffix.subrange(1, suffix.len() as int),
                                reads@,
                            );
                            assert(log0 + head.events + rest.events =~= log0 + (head.events
                                + rest.events));
                            assert(out@.subrange(1, out@.len() as int) =~= ws@);
                            assert(out@[0] == w);
                            assert(deep_items(out@) =~= seq![deep(w)] + deep_items(ws@));
                        }
                        Ok(out)
                    },
                }
            },
        }
    }
}

/// Expands the entries of a map from position `start` on: for each entry the
/// key, then the value.
fn expand_entries<O: Observer>(
    entries: &Vec<(Value, Value)>,
    start: usize,
    reads: &ReadTable,
    observer: &mut O,
) -> (r: Result<Vec<(Value, Value)>, ExpandError>)
    requires
        start <= entries@.len(),
    ensures
        ({
            let ex = spec_expand_entries(
                deep_entries(entries@).subrange(start as int, entries@.len() as int),
                reads@,
            );
            &&& final (observer).log() == old(observer).log() + ex.events
            &&& match r {
                Ok(ws) => ex.outcome == Ok::<Seq<(ValueView, ValueView)>, ExpandErrorView>(
                    deep_entries(ws@),
                ),
                Err(e) => ex.outcome == Err::<Seq<(ValueView, ValueView)>, ExpandErrorView>(e@),
            }
        }),
    decreases entries@, entries@.len() - start,
{
    let ghost suffix = deep_entries(entries@).subrange(start as int, entries@.len() as int);
    let ghost ex = spec_expand_entries(suffix, reads@);
    if start == entries.len() {
        proof {
            assert(suffix =~= Seq::<(ValueView, ValueView)>::empty());
            assert(old(observer).log() + ex.events =~= old(observer).log());
        }
        let out: Vec<(Value, Value)> = Vec::new();
        proof {
            assert(deep_entries(out@) =~= Seq::<(ValueView, ValueView)>::empty());
        }
        Ok(out)
    } else {
        proof {
            assert(suffix[0] == (deep(entries@[start as int].0), deep(entries@[start as int].1)));
            assert(suffix.subrange(1, suffix.len() as int) =~= deep_entries(entries@).subrange(
                start as int + 1,
                entries@.len() as int,
            ));
            assert(decreases_to!(entries@ => entries@[start as int]));
            assert(decreases_to!(entries@[start as int] => entries@[start as int].0));
            assert(decreases_to!(entries@[start as int] => entries@[start as int].1));
        }
        let ghost log0 = observer.log();
        let entry = &entries[start];
        match expand_value(&entry.0, reads, observer) {
            Err(e) => Err(e),
            Ok(kw) => {
                let ghost key = spec_expand(suffix[0].0, reads@);
                match expand_value(&entry.1, reads, observer) {
                    Err(e) => {
                        proof {
                            let val = spec_expand(suffix[0].1, reads@);
                            assert(log0 + key.events + val.events =~= log0 + (key.events
                                + val.events));
                        }
                        Err(e)
                    },
                    Ok(vw) => {
                        let ghost val = spec_expand(suffix[0].1, reads@);
                        match expand_entries(entries, start + 1, reads, observer) {
                            Err(e) => {
                                proof {
                                    let rest = spec_expand_entries(
                                        suffix.subrange(1, suffix.len() as int),
                                        reads@,
                                    );
                                    assert(log0 + key.events + val.events + rest.events =~= log0 + (
                                    key.events + val.events + rest.events));
                                }
                                Err(e)
                            },
                            Ok(ws) => {
                                let mut out = ws;
                                out.insert(0, (kw, vw));
                                proof {
                                    let rest = spec_expand_entries(
                                        suffix.subrange(1, suffix.len() as int),
                                        reads@,
                                    );
                                    assert(log0 + key.events + val.events + rest.events =~= log0 + (
                                    key.events + val.events + rest.events));
                                    assert(out@.subrange(1, out@.len() as int) =~= ws@);
                                    assert(out@[0] == (kw, vw));
                                    assert(deep_entries(out@) =~= seq![(deep(kw), deep(vw))]
                                        + deep_entries(ws@));
                                }
                                Ok(out)
                            },
                        }
                    },
                }
            },
        }
    }
}

/// A decoder of documents in which file references are expanded: it wraps the
/// file-system snapshot that answers the reads and drives the expansion,
/// reporting every read to the observer threaded through the call.
pub struct Deserializer {
    reads: ReadTable,
}

impl Deserializer {
    /// The snapshot the deserializer reads referenced files from.
    pub closed spec fn table(&self) -> Seq<(Seq<char>, ReadOutcomeView)> {
        self.reads@
    }

    /// Creates a new deserializer over the given snapshot.
    pub fn new(reads: ReadTable) -> (r: Self)
        ensures
            r.table() == reads@,
    {
        Deserializer { reads }
    }

    /// Decodes one document: expands every file reference in it, reporting
    /// each read to the observer exactly once, in document order.
    pub fn deserialize<O: Observer>(&self, doc: &Value, observer: &mut O) -> (r: Result<
        Value,
        ExpandError,
    >)
        ensures
            final (observer).log() == old(observer).log() + spec_expand(
                deep(*doc),
                self.table(),
            ).events,
            matches_outcome(spec_expand(deep(*doc), self.table()).outcome, r),
    {
        expand_value(doc, &self.reads, observer)
    }
}

/// Entry point: decodes one document against a snapshot, expanding every file
/// reference in it and reporting each read to the observer exactly once.
pub fn deserialize<O: Observer>(doc: &Value, reads: &ReadTable, observer: &mut O) -> (r: Result<
    Value,
    ExpandError,
>)
    ensures
        final (observer).log() == old(observer).log() + spec_expand(deep(*doc), reads@).events,
        matches_outcome(spec_expand(deep(*doc), reads@).outcome, r),
{
    expand_value(doc, reads, observer)
}

} // verus!

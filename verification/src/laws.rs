//! Laws of the expansion: pass-through of reference-free documents, exact
//! behaviour of a reference on success and on failure, and depth-independence
//! of nested references.

use vstd::prelude::*;
use vstd::utf8::{decode_utf8, valid_utf8};

use crate::engine::{
    spec_expand, spec_expand_entries, spec_expand_items, spec_lookup, ValueView,
};
use crate::expand::ExpandErrorView;
use crate::observe::{event_of, ReadEvent, ReadOutcomeView};
use crate::pattern::{is_file_ref, ref_path};

verus! {

/// A document that holds no file reference: no string in it, at any depth,
/// matches the reference pattern.
pub open spec fn no_refs(v: ValueView) -> bool
    decreases v,
{
    match v {
        ValueView::Text(s) => !is_file_ref(s),
        ValueView::Present(inner) => no_refs(*inner),
        ValueView::Tagged(_tag, payload) => no_refs(*payload),
        ValueView::List(items) => forall|i: int|
            0 <= i < items.len() ==> no_refs(#[trigger] items[i]),
        ValueView::Record(entries) => forall|i: int|
            #![trigger entries[i]]
            0 <= i < entries.len() ==> no_refs(entries[i].0) && no_refs(entries[i].1),
        _ => true,
    }
}

/// Pass-through: a document that holds no file reference decodes to itself,
/// and the observer receives no notification.
pub proof fn lemma_pass_through(v: ValueView, fs: Seq<(Seq<char>, ReadOutcomeView)>)
    requires
        no_refs(v),
    ensures
        spec_expand(v, fs).outcome == Ok::<ValueView, ExpandErrorView>(v),
        spec_expand(v, fs).events == Seq::<ReadEvent>::empty(),
    decreases v, 0int,
{
    match v {
        ValueView::Present(inner) => {
            lemma_pass_through(*inner, fs);
        },
        ValueView::Tagged(_tag, payload) => {
            lemma_pass_through(*payload, fs);
        },
        ValueView::List(items) => {
            lemma_pass_through_items(items, fs);
            assert(spec_expand(v, fs).outcome == Ok::<ValueView, ExpandErrorView>(
                ValueView::List(items),
            ));
        },
        ValueView::Record(entries) => {
            lemma_pass_through_entries(entries, fs);
        },
        _ => {},
    }
}

proof fn lemma_pass_through_items(items: Seq<ValueView>, fs: Seq<(Seq<char>, ReadOutcomeView)>)
    requires
        forall|i: int| 0 <= i < items.len() ==> no_refs(#[trigger] items[i]),
    ensures
        spec_expand_items(items, fs).outcome == Ok::<Seq<ValueView>, ExpandErrorView>(items),
        spec_expand_items(items, fs).events == Seq::<ReadEvent>::empty(),
    decreases items, 1int,
{
    if items.len() == 0 {
        assert(spec_expand_items(items, fs).outcome == Ok::<Seq<ValueView>, ExpandErrorView>(
            items,
        )) by {
            assert(items =~= Seq::<ValueView>::empty());
        }
    } else {
        lemma_pass_through(items[0], fs);
        let rest = items.subrange(1, items.len() as int);
        lemma_pass_through_items(rest, fs);
        assert(seq![items[0]] + rest =~= items);
        assert(Seq::<ReadEvent>::empty() + Seq::<ReadEvent>::empty() =~= Seq::<
            ReadEvent,
        >::empty());
    }
}

proof fn lemma_pass_through_entries(
    entries: Seq<(ValueView, ValueView)>,
    fs: Seq<(Seq<char>, ReadOutcomeView)>,
)
    requires
        forall|i: int|
            #![trigger entries[i]]
            0 <= i < entries.len() ==> no_refs(entries[i].0) && no_refs(entries[i].1),
    ensures
        spec_expand_entries(entries, fs).outcome == Ok::<
            Seq<(ValueView, ValueView)>,
            ExpandErrorView,
        >(entries),
        spec_expand_entries(entries, fs).events == Seq::<ReadEvent>::empty(),
    decreases entries, 1int,
{
    if entries.len() == 0 {
        assert(entries =~= Seq::<(ValueView, ValueView)>::empty());
    } else {
        lemma_pass_through(entries[0].0, fs);
        lemma_pass_through(entries[0].1, fs);
        let rest = entries.subrange(1, entries.len() as int);
        lemma_pass_through_entries(rest, fs);
        assert(seq![(entries[0].0, entries[0].1)] + rest =~= entries);
        assert((entries[0].0, entries[0].1) == entries[0]);
        assert(Seq::<ReadEvent>::empty() + Seq::<ReadEvent>::empty() =~= Seq::<
            ReadEvent,
        >::empty());
    }
}

/// Expansion correctness: a string that is exactly `${file:P}`, where reading
/// `P` yields bytes that are valid UTF-8, decodes to the text those bytes
/// encode, and the observer receives exactly one success notification with
/// path `P` and those bytes.
pub proof fn lemma_expansion_success(
    s: Seq<char>,
    fs: Seq<(Seq<char>, ReadOutcomeView)>,
    b: Seq<u8>,
)
    requires
        is_file_ref(s),
        spec_lookup(fs, ref_path(s)) == ReadOutcomeView::Data(b),
        valid_utf8(b),
    ensures
        spec_expand(ValueView::Text(s), fs).outcome == Ok::<ValueView, ExpandErrorView>(
            ValueView::Text(decode_utf8(b)),
        ),
        spec_expand(ValueView::Text(s), fs).events == seq![
            event_of(ref_path(s), ReadOutcomeView::Data(b)),
        ],
{
}

/// Failure correctness: a string that is exactly `${file:P}`, where reading
/// `P` fails, decodes to an error that names `P`, no value is produced, and
/// the observer receives exactly one failure notification with path `P`.
pub proof fn lemma_expansion_failure(
    s: Seq<char>,
    fs: Seq<(Seq<char>, ReadOutcomeView)>,
    m: Seq<char>,
)
    requires
        is_file_ref(s),
        spec_lookup(fs, ref_path(s)) == ReadOutcomeView::Failure(m),
    ensures
        spec_expand(ValueView::Text(s), fs).outcome == Err::<ValueView, ExpandErrorView>(
            ExpandErrorView::Read { path: ref_path(s), message: m },
        ),
        spec_expand(ValueView::Text(s), fs).events == seq![
            event_of(ref_path(s), ReadOutcomeView::Failure(m)),
        ],
{
}

/// Idempotence of non-matching data: decoding a document with no references
/// yields the document itself and an empty notification sequence, so decoding
/// it once more yields the same result and the same (empty) notifications.
pub proof fn lemma_idempotent_without_references(
    v: ValueView,
    fs: Seq<(Seq<char>, ReadOutcomeView)>,
)
    requires
        no_refs(v),
    ensures
        spec_expand(v, fs).outcome == Ok::<ValueView, ExpandErrorView>(v),
        spec_expand(v, fs).events == Seq::<ReadEvent>::empty(),
        spec_expand(v, fs).outcome matches Ok(w) && spec_expand(w, fs) == spec_expand(v, fs),
{
    lemma_pass_through(v, fs);
}

/// One wrapping layer around a document: the composite shapes a value can be
/// nested under. A map layer carries the entry's key.
pub ghost enum Layer {
    Optional,
    Variant(u64),
    Sequence,
    MapValue(ValueView),
}

/// The document `v` nested under the given layers, outermost first: each
/// sequence layer holds `v`'s nesting as its only item, each map layer as the
/// value of its only entry.
pub open spec fn wrap(layers: Seq<Layer>, v: ValueView) -> ValueView
    decreases layers.len(),
{
    if layers.len() == 0 {
        v
    } else {
        let inner = wrap(layers.subrange(1, layers.len() as int), v);
        match layers[0] {
            Layer::Optional => ValueView::Present(Box::new(inner)),
            Layer::Variant(tag) => ValueView::Tagged(tag, Box::new(inner)),
            Layer::Sequence => ValueView::List(seq![inner]),
            Layer::MapValue(k) => ValueView::Record(seq![(k, inner)]),
        }
    }
}

/// Every key a map layer carries is free of file references.
pub open spec fn wf_layers(layers: Seq<Layer>) -> bool {
    forall|i: int|
        0 <= i < layers.len() ==> (#[trigger] layers[i] matches Layer::MapValue(k) ==> no_refs(k))
}

/// Recursion depth: nesting a document under any composition of sequences,
/// maps, optionals and variant payloads changes neither the notifications its
/// expansion makes nor whether and how it fails; on success the expansion is
/// applied in place, identically to expanding the document at top level.
pub proof fn lemma_nested_expansion(
    layers: Seq<Layer>,
    v: ValueView,
    fs: Seq<(Seq<char>, ReadOutcomeView)>,
)
    requires
        wf_layers(layers),
    ensures
        spec_expand(wrap(layers, v), fs).events == spec_expand(v, fs).events,
        spec_expand(v, fs).outcome matches Ok(w) ==> spec_expand(wrap(layers, v), fs).outcome
            == Ok::<ValueView, ExpandErrorView>(wrap(layers, w)),
        spec_expand(v, fs).outcome matches Err(e) ==> spec_expand(wrap(layers, v), fs).outcome
            == Err::<ValueView, ExpandErrorView>(e),
    decreases layers.len(),
{
    if layers.len() == 0 {
    } else {
        let tail = layers.subrange(1, layers.len() as int);
        assert(wf_layers(tail)) by {
            assert(forall|i: int| 0 <= i < tail.len() ==> #[trigger] tail[i] == layers[i + 1]);
        }
        lemma_nested_expansion(tail, v, fs);
        let inner = wrap(tail, v);
        let sub = spec_expand(inner, fs);
        let wv = wrap(layers, v);
        let ex = spec_expand(wv, fs);
        match layers[0] {
            Layer::Optional => {
                assert(wv == ValueView::Present(Box::new(inner)));
                assert(ex.events == sub.events);
                assert forall|w0: ValueView|
                    spec_expand(v, fs).outcome == Ok::<ValueView, ExpandErrorView>(
                        w0,
                    ) implies ex.outcome == Ok::<ValueView, ExpandErrorView>(
                    wrap(layers, w0),
                ) by {
                    assert(wrap(layers, w0) == ValueView::Present(Box::new(wrap(tail, w0))));
                }
            },
            Layer::Variant(tag) => {
                assert(wv == ValueView::Tagged(tag, Box::new(inner)));
                assert(ex.events == sub.events);
                assert forall|w0: ValueView|
                    spec_expand(v, fs).outcome == Ok::<ValueView, ExpandErrorView>(
                        w0,
                    ) implies ex.outcome == Ok::<ValueView, ExpandErrorView>(
                    wrap(layers, w0),
                ) by {
                    assert(wrap(layers, w0) == ValueView::Tagged(tag, Box::new(wrap(tail, w0))));
                }
            },
            Layer::Sequence => {
                reveal_with_fuel(spec_expand, 2);
                reveal_with_fuel(spec_expand_items, 2);
                let items = seq![inner];
                assert(wv == ValueView::List(items));
                assert(items[0] == inner);
                assert(items.subrange(1, items.len() as int) =~= Seq::<ValueView>::empty());
                let exl = spec_expand_items(items, fs);
                assert(ex.events == exl.events);
                match sub.outcome {
                    Ok(w) => {
                        assert(seq![w] + seq![] =~= seq![w]);
                        assert(sub.events + Seq::<ReadEvent>::empty() =~= sub.events);
                        assert(ex.events == sub.events);
                        assert forall|w0: ValueView|
                            spec_expand(v, fs).outcome == Ok::<ValueView, ExpandErrorView>(
                                w0,
                            ) implies ex.outcome == Ok::<ValueView, ExpandErrorView>(
                            wrap(layers, w0),
                        ) by {
                            assert(wrap(layers, w0) == ValueView::List(seq![wrap(tail, w0)]));
                            assert(ex.outcome == Ok::<ValueView, ExpandErrorView>(
                                ValueView::List(seq![w] + seq![]),
                            ));
                        }
                    },
                    Err(_) => {
                        assert(ex.events == sub.events);
                    },
                }
            },
            Layer::MapValue(k) => {
                reveal_with_fuel(spec_expand, 2);
                reveal_with_fuel(spec_expand_entries, 2);
                let entries = seq![(k, inner)];
                assert(wv == ValueView::Record(entries));
                assert(entries[0] == (k, inner));
                let exl = spec_expand_entries(entries, fs);
                assert(ex.events == exl.events);
                lemma_pass_through(k, fs);
                assert(entries.subrange(1, entries.len() as int) =~= Seq::<(
                    ValueView,
                    ValueView,
                )>::empty());
                match sub.outcome {
                    Ok(w) => {
                        assert(seq![(k, w)] + seq![] =~= seq![(k, w)]);
                        assert(Seq::<ReadEvent>::empty() + sub.events + Seq::<
                            ReadEvent,
                        >::empty() =~= sub.events);
                        assert(ex.events == sub.events);
                        assert forall|w0: ValueView|
                            spec_expand(v, fs).outcome == Ok::<ValueView, ExpandErrorView>(
                                w0,
                            ) implies ex.outcome == Ok::<ValueView, ExpandErrorView>(
                            wrap(layers, w0),
                        ) by {
                            assert(wrap(layers, w0) == ValueView::Record(seq![
                                (k, wrap(tail, w0)),
                            ]));
                            assert(ex.outcome == Ok::<ValueView, ExpandErrorView>(
                                ValueView::Record(seq![(k, w)] + seq![]),
                            ));
                        }
                    },
                    Err(_) => {
                        assert(Seq::<ReadEvent>::empty() + sub.events =~= sub.events);
                        assert(ex.events == sub.events);
                    },
                }
            },
        }
    }
}

/// A reference nested at any depth triggers exactly one notification, the
/// same one it triggers at top level.
pub proof fn lemma_nested_reference_once(
    layers: Seq<Layer>,
    s: Seq<char>,
    fs: Seq<(Seq<char>, ReadOutcomeView)>,
)
    requires
        wf_layers(layers),
        is_file_ref(s),
    ensures
        spec_expand(wrap(layers, ValueView::Text(s)), fs).events == seq![
            event_of(ref_path(s), spec_lookup(fs, ref_path(s))),
        ],
{
    lemma_nested_expansion(layers, ValueView::Text(s), fs);
}

} // verus!

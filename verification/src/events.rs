//! Tree-construction events: what the parser emits and the tree is built
//! from, with the measures by which a sequence of events is judged.

use crate::syntax::SyntaxKind;
use vstd::prelude::*;

verus! {

/// One step of building a tree.
#[derive(Debug)]
pub enum Event {
    /// Opens a node of the given kind.
    StartNode(SyntaxKind),
    /// Closes the node opened last.
    FinishNode,
    /// Adds a token to the open node.
    Token(SyntaxKind, String),
}

/// An event as a value: kinds by their raw numbers, text as characters.
pub enum EventView {
    Start(u16),
    Finish,
    Token(u16, Seq<char>),
}

impl View for Event {
    type V = EventView;

    open spec fn view(&self) -> EventView {
        match self {
            Event::StartNode(kind) => EventView::Start(kind.raw()),
            Event::FinishNode => EventView::Finish,
            Event::Token(kind, text) => EventView::Token(kind.raw(), text@),
        }
    }
}

impl Clone for Event {
    fn clone(&self) -> (copy: Self)
        ensures
            copy@ == self@,
    {
        match self {
            Event::StartNode(kind) => Event::StartNode(*kind),
            Event::FinishNode => Event::FinishNode,
            Event::Token(kind, text) => Event::Token(*kind, text.clone()),
        }
    }
}

/// The events of `es` as values.
pub open spec fn views(es: Seq<Event>) -> Seq<EventView> {
    Seq::new(es.len(), |i: int| es[i]@)
}

/// The raw number of the placeholder kind.
pub open spec fn tombstone() -> u16 {
    SyntaxKind::Tombstone.raw()
}

/// By how much an event changes the number of open nodes.
pub open spec fn delta(e: EventView) -> int {
    match e {
        EventView::Start(_) => 1,
        EventView::Finish => -1,
        EventView::Token(_, _) => 0,
    }
}

/// The number of nodes that `es` opens and does not close.
#[verifier::opaque]
pub open spec fn depth(es: Seq<EventView>) -> int
    decreases es.len(),
{
    if es.len() == 0 {
        0
    } else {
        depth(es.drop_last()) + delta(es.last())
    }
}

/// Whether `e` opens a node whose kind is still the placeholder.
pub open spec fn is_pending(e: EventView) -> bool {
    e == EventView::Start(tombstone())
}

/// The number of placeholders in `es`.
#[verifier::opaque]
pub open spec fn pending(es: Seq<EventView>) -> int
    decreases es.len(),
{
    if es.len() == 0 {
        0
    } else {
        pending(es.drop_last()) + if is_pending(es.last()) {
            1int
        } else {
            0int
        }
    }
}

/// The text that an event adds.
pub open spec fn event_text(e: EventView) -> Seq<char> {
    match e {
        EventView::Token(_, text) => text,
        _ => Seq::empty(),
    }
}

/// The texts of the tokens of `es`, one behind the other.
#[verifier::opaque]
pub open spec fn text(es: Seq<EventView>) -> Seq<char>
    decreases es.len(),
{
    if es.len() == 0 {
        Seq::empty()
    } else {
        text(es.drop_last()) + event_text(es.last())
    }
}

/// Every event of `es` stands inside an open node: the first event opens a
/// node, and none of those that follow closes it.
pub open spec fn nested(es: Seq<EventView>) -> bool {
    forall|n: int| 0 < n <= es.len() ==> depth(#[trigger] es.take(n)) >= 1
}

/// `es` describes exactly one tree: one node opened by the first event and
/// closed by the last, everything else inside it, and no placeholder left.
pub open spec fn well_formed(es: Seq<EventView>) -> bool {
    &&& es.len() >= 2
    &&& depth(es) == 0
    &&& nested(es.drop_last())
    &&& forall|i: int| 0 <= i < es.len() ==> !is_pending(#[trigger] es[i])
}

/// No events: nothing open, nothing pending, no text.
pub proof fn lemma_empty()
    ensures
        depth(Seq::<EventView>::empty()) == 0,
        pending(Seq::<EventView>::empty()) == 0,
        text(Seq::<EventView>::empty()) == Seq::<char>::empty(),
{
    reveal(depth);
    reveal(pending);
    reveal(text);
}

/// What one more event at the end does to depth, placeholders and text.
pub proof fn lemma_push(es: Seq<EventView>, e: EventView)
    ensures
        depth(es.push(e)) == depth(es) + delta(e),
        pending(es.push(e)) == pending(es) + if is_pending(e) {
            1int
        } else {
            0int
        },
        text(es.push(e)) == text(es) + event_text(e),
{
    reveal_with_fuel(depth, 2);
    reveal_with_fuel(pending, 2);
    reveal_with_fuel(text, 2);
    assert(es.push(e).drop_last() =~= es);
}

/// What an event put in at position `q` does to depth, placeholders and text.
pub proof fn lemma_insert(es: Seq<EventView>, q: int, e: EventView)
    requires
        0 <= q <= es.len(),
    ensures
        depth(es.insert(q, e)) == depth(es) + delta(e),
        pending(es.insert(q, e)) == pending(es) + if is_pending(e) {
            1int
        } else {
            0int
        },
    decreases es.len(),
{
    reveal_with_fuel(depth, 2);
    reveal_with_fuel(pending, 2);
    reveal_with_fuel(text, 2);
    if q == es.len() {
        assert(es.insert(q, e) =~= es.push(e));
        lemma_push(es, e);
    } else {
        lemma_insert(es.drop_last(), q, e);
        assert(es.insert(q, e).drop_last() =~= es.drop_last().insert(q, e));
        assert(es.insert(q, e).last() == es.last());
    }
}

/// A node opened anywhere adds no text.
pub proof fn lemma_insert_text(es: Seq<EventView>, q: int, kind: u16)
    requires
        0 <= q <= es.len(),
    ensures
        text(es.insert(q, EventView::Start(kind))) == text(es),
    decreases es.len(),
{
    reveal_with_fuel(depth, 2);
    reveal_with_fuel(pending, 2);
    reveal_with_fuel(text, 2);
    let e = EventView::Start(kind);
    if q == es.len() {
        assert(es.insert(q, e) =~= es.push(e));
        lemma_push(es, e);
        assert(text(es) + event_text(e) =~= text(es));
    } else {
        lemma_insert_text(es.drop_last(), q, kind);
        assert(es.insert(q, e).drop_last() =~= es.drop_last().insert(q, e));
        assert(es.insert(q, e).last() == es.last());
    }
}

/// What replacing the event at position `q` does to depth, placeholders and
/// text.
pub proof fn lemma_update(es: Seq<EventView>, q: int, e: EventView)
    requires
        0 <= q < es.len(),
    ensures
        depth(es.update(q, e)) == depth(es) - delta(es[q]) + delta(e),
        pending(es.update(q, e)) == pending(es) - (if is_pending(es[q]) {
            1int
        } else {
            0int
        }) + if is_pending(e) {
            1int
        } else {
            0int
        },
        event_text(es[q]) == event_text(e) ==> text(es.update(q, e)) == text(es),
    decreases es.len(),
{
    reveal_with_fuel(depth, 2);
    reveal_with_fuel(pending, 2);
    reveal_with_fuel(text, 2);
    if q == es.len() - 1 {
        assert(es.update(q, e).drop_last() =~= es.drop_last());
    } else {
        lemma_update(es.drop_last(), q, e);
        assert(es.update(q, e).drop_last() =~= es.drop_last().update(q, e));
        assert(es.update(q, e).last() == es.last());
    }
}

/// Where no placeholder is counted, none stands.
pub proof fn lemma_none_pending(es: Seq<EventView>)
    requires
        pending(es) == 0,
    ensures
        forall|i: int| 0 <= i < es.len() ==> !is_pending(#[trigger] es[i]),
    decreases es.len(),
{
    reveal_with_fuel(depth, 2);
    reveal_with_fuel(pending, 2);
    reveal_with_fuel(text, 2);
    lemma_pending_nonneg(es);
    if es.len() > 0 {
        lemma_pending_nonneg(es.drop_last());
        lemma_none_pending(es.drop_last());
        assert forall|i: int| 0 <= i < es.len() implies !is_pending(#[trigger] es[i]) by {
            if i < es.len() - 1 {
                assert(es[i] == es.drop_last()[i]);
            }
        }
    }
}

/// The number of placeholders is never negative.
pub proof fn lemma_pending_nonneg(es: Seq<EventView>)
    ensures
        pending(es) >= 0,
    decreases es.len(),
{
    reveal_with_fuel(depth, 2);
    reveal_with_fuel(pending, 2);
    reveal_with_fuel(text, 2);
    if es.len() > 0 {
        lemma_pending_nonneg(es.drop_last());
    }
}

/// The text of a part of the events at the front is the front of the text.
pub proof fn lemma_text_take(es: Seq<EventView>, n: int)
    requires
        0 <= n <= es.len(),
    ensures
        text(es) == text(es.take(n)) + text(es.skip(n)),
    decreases es.len() - n,
{
    reveal_with_fuel(depth, 2);
    reveal_with_fuel(pending, 2);
    reveal_with_fuel(text, 2);
    if n == es.len() {
        assert(es.take(n) =~= es);
        assert(es.skip(n) =~= Seq::<EventView>::empty());
        assert(text(es) + Seq::<char>::empty() =~= text(es));
    } else {
        lemma_text_take(es, n + 1);
        assert(es.take(n + 1).drop_last() =~= es.take(n));
        assert(es.take(n + 1).last() == es[n]);
        lemma_text_first(es.skip(n));
        assert(es.skip(n).drop_first() =~= es.skip(n + 1));
        assert(text(es.take(n)) + (event_text(es[n]) + text(es.skip(n + 1))) =~= (text(es.take(n))
            + event_text(es[n])) + text(es.skip(n + 1)));
    }
}

/// The text of events is the text of the first and then of the rest.
pub proof fn lemma_text_first(es: Seq<EventView>)
    requires
        es.len() > 0,
    ensures
        text(es) == event_text(es[0]) + text(es.drop_first()),
    decreases es.len(),
{
    reveal_with_fuel(depth, 2);
    reveal_with_fuel(pending, 2);
    reveal_with_fuel(text, 2);
    if es.len() == 1 {
        assert(es.drop_last() =~= Seq::<EventView>::empty());
        assert(es.drop_first() =~= Seq::<EventView>::empty());
        assert(text(es) =~= event_text(es[0]) + text(es.drop_first()));
    } else {
        lemma_text_first(es.drop_last());
        assert(es.drop_last().drop_first() =~= es.drop_first().drop_last());
        assert(es.drop_first().last() == es.last());
        assert(es.drop_last()[0] == es[0]);
        assert((event_text(es[0]) + text(es.drop_first().drop_last())) + event_text(es.last())
            =~= event_text(es[0]) + (text(es.drop_first().drop_last()) + event_text(es.last())));
    }
}

/// Adding an event behind nested events keeps them nested, unless it closes
/// the outermost node.
pub proof fn lemma_nested_push(es: Seq<EventView>, e: EventView)
    requires
        nested(es),
        depth(es) + delta(e) >= 1,
    ensures
        nested(es.push(e)),
{
    reveal_with_fuel(depth, 2);
    reveal_with_fuel(pending, 2);
    reveal_with_fuel(text, 2);
    lemma_push(es, e);
    assert forall|n: int| 0 < n <= es.push(e).len() implies depth(#[trigger] es.push(e).take(n))
        >= 1 by {
        if n <= es.len() {
            assert(es.push(e).take(n) =~= es.take(n));
        } else {
            assert(es.push(e).take(n) =~= es.push(e));
        }
    }
}

/// Giving an opening event another kind keeps nested events nested.
pub proof fn lemma_nested_update(es: Seq<EventView>, q: int, kind: u16)
    requires
        nested(es),
        0 <= q < es.len(),
        es[q] is Start,
    ensures
        nested(es.update(q, EventView::Start(kind))),
{
    reveal_with_fuel(depth, 2);
    reveal_with_fuel(pending, 2);
    reveal_with_fuel(text, 2);
    let e = EventView::Start(kind);
    assert forall|n: int| 0 < n <= es.len() implies depth(#[trigger] es.update(q, e).take(n))
        >= 1 by {
        assert(depth(es.take(n)) >= 1);
        if q < n {
            assert(es.update(q, e).take(n) =~= es.take(n).update(q, e));
            lemma_update(es.take(n), q, e);
        } else {
            assert(es.update(q, e).take(n) =~= es.take(n));
        }
    }
}

/// Opening a node anywhere among nested events keeps them nested.
pub proof fn lemma_nested_insert(es: Seq<EventView>, q: int, kind: u16)
    requires
        nested(es),
        0 <= q <= es.len(),
    ensures
        nested(es.insert(q, EventView::Start(kind))),
{
    reveal_with_fuel(depth, 2);
    reveal_with_fuel(pending, 2);
    reveal_with_fuel(text, 2);
    let e = EventView::Start(kind);
    let after = es.insert(q, e);
    assert forall|n: int| 0 < n <= after.len() implies depth(#[trigger] after.take(n)) >= 1 by {
        if n <= q {
            assert(after.take(n) =~= es.take(n));
        } else {
            assert(after.take(n) =~= es.take(n - 1).insert(q, e));
            lemma_insert(es.take(n - 1), q, e);
            if n - 1 > 0 {
                assert(depth(es.take(n - 1)) >= 1);
            } else {
                assert(es.take(0) =~= Seq::<EventView>::empty());
            }
        }
    }
}

/// Nested events that are not empty leave a node open.
pub proof fn lemma_nested_depth(es: Seq<EventView>)
    requires
        nested(es),
        es.len() > 0,
    ensures
        depth(es) >= 1,
{
    reveal_with_fuel(depth, 2);
    reveal_with_fuel(pending, 2);
    reveal_with_fuel(text, 2);
    assert(es.take(es.len() as int) =~= es);
}

} // verus!

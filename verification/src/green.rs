//! The green tree: rowan's immutable, shareable tree, built from events.
//!
//! rowan does the building and the storing.  What this library relies on is
//! stated here, over the events that a tree is made of: the events fed to a
//! builder, and the events that a finished node hands back when it is walked
//! in document order.

use crate::events::{delta, depth, lemma_text_take, nested, text, views, Event, EventView};
use crate::text::lemma_encode_concat;
use vstd::prelude::*;
use vstd::utf8::*;

verus! {

#[verifier::external_type_specification]
#[verifier::external_body]
pub struct ExGreenNode(rowan::GreenNode);

#[verifier::external_type_specification]
#[verifier::external_body]
pub struct ExGreenNodeBuilder<'cache>(rowan::GreenNodeBuilder<'cache>);

/// The events that a builder has been fed so far, in order.
pub uninterp spec fn builder_events(builder: rowan::GreenNodeBuilder<'static>) -> Seq<EventView>;

/// The events of a green node: the opening of the node with its raw kind,
/// then the events of each child in order (a token is one event), then the
/// closing of the node.
pub uninterp spec fn green_events(green: rowan::GreenNode) -> Seq<EventView>;

/// A child of a green node, as [`green_children`] hands it out.
pub enum GreenChild {
    Node(rowan::GreenNode),
    Token(u16, String),
}

/// The events of one child.
pub open spec fn child_events(child: GreenChild) -> Seq<EventView> {
    match child {
        GreenChild::Node(green) => green_events(green),
        GreenChild::Token(raw, text) => seq![EventView::Token(raw, text@)],
    }
}

/// The events of children, one behind the other.
pub open spec fn children_events(children: Seq<GreenChild>) -> Seq<EventView>
    decreases children.len(),
{
    if children.len() == 0 {
        Seq::empty()
    } else {
        children_events(children.drop_last()) + child_events(children.last())
    }
}

/// `es` opens one node with its first event, closes it with its last, and
/// keeps everything else inside it.
pub open spec fn single_tree(es: Seq<EventView>) -> bool {
    &&& es.len() >= 2
    &&& depth(es) == 0
    &&& nested(es.drop_last())
}

/// The greatest number of bytes of text that a green tree holds.
pub const MAX_TEXT_LEN: usize = 0xffff_ffff;

/// The number of bytes of the text of `es`.
pub open spec fn text_len(es: Seq<EventView>) -> nat {
    encode_utf8(text(es)).len()
}

/// `rowan::GreenNodeBuilder::new`: a builder that has been fed nothing.
#[verifier::external_body]
fn builder_new() -> (builder: rowan::GreenNodeBuilder<'static>)
    ensures
        builder_events(builder) == Seq::<EventView>::empty(),
{
    rowan::GreenNodeBuilder::new()
}

/// `rowan::GreenNodeBuilder::start_node`: the builder takes the opening of a
/// node of raw kind `raw`.
#[verifier::external_body]
fn builder_start_node(builder: &mut rowan::GreenNodeBuilder<'static>, raw: u16)
    ensures
        builder_events(*final(builder)) == builder_events(*old(builder)).push(
            EventView::Start(raw),
        ),
{
    builder.start_node(rowan::SyntaxKind(raw))
}

/// `rowan::GreenNodeBuilder::token`: the builder takes a token of raw kind
/// `raw` with the given text.
#[verifier::external_body]
fn builder_token(builder: &mut rowan::GreenNodeBuilder<'static>, raw: u16, text: &str)
    ensures
        builder_events(*final(builder)) == builder_events(*old(builder)).push(
            EventView::Token(raw, text@),
        ),
{
    builder.token(rowan::SyntaxKind(raw), text)
}

/// `rowan::GreenNodeBuilder::finish_node`: the builder takes the closing of
/// the node opened last.  rowan panics where no node is open, and where the
/// text of the closed node is longer than 32 bits can count.
#[verifier::external_body]
fn builder_finish_node(builder: &mut rowan::GreenNodeBuilder<'static>)
    requires
        depth(builder_events(*old(builder))) >= 1,
        text_len(builder_events(*old(builder))) <= MAX_TEXT_LEN,
    ensures
        builder_events(*final(builder)) == builder_events(*old(builder)).push(EventView::Finish),
{
    builder.finish_node()
}

/// `rowan::GreenNodeBuilder::finish`: the node that the events describe.
/// rowan panics unless they describe exactly one node.
#[verifier::external_body]
fn builder_finish(builder: rowan::GreenNodeBuilder<'static>) -> (green: rowan::GreenNode)
    requires
        single_tree(builder_events(builder)),
    ensures
        green_events(green) == builder_events(builder),
{
    builder.finish()
}

/// `rowan::GreenNodeData::kind`: the raw kind with which the node opens.
#[verifier::external_body]
pub(crate) fn green_kind(green: &rowan::GreenNode) -> (raw: u16)
    ensures
        green_events(*green)[0] == EventView::Start(raw),
{
    green.kind().0
}

/// `rowan::GreenNodeData::children`: the children in order, each token with
/// its raw kind (`GreenTokenData::kind`) and text (`GreenTokenData::text`).
/// Between the opening and the closing of the node stand the children's
/// events.
#[verifier::external_body]
pub(crate) fn green_children(green: &rowan::GreenNode) -> (children: Vec<GreenChild>)
    ensures
        green_events(*green) == seq![green_events(*green)[0]] + children_events(children@)
            + seq![EventView::Finish],
{
    green.children().map(
        |child|
            match child {
                rowan::NodeOrToken::Node(node) => GreenChild::Node(node.to_owned()),
                rowan::NodeOrToken::Token(token) => GreenChild::Token(
                    token.kind().0,
                    token.text().to_string(),
                ),
            },
    ).collect()
}

/// Builds the green tree that `events` describe.
///
/// The events must describe exactly one node, and their text must not be
/// longer than a green tree can hold.  The tree then hands back the very
/// events it was built from.
pub fn build_green(events: Vec<Event>) -> (green: rowan::GreenNode)
    requires
        single_tree(views(events@)),
        text_len(views(events@)) <= MAX_TEXT_LEN,
    ensures
        green_events(green) == views(events@),
{
    let ghost es = views(events@);
    let mut builder = builder_new();
    let mut i: usize = 0;
    while i < events.len()
        invariant
            es == views(events@),
            i <= events@.len(),
            single_tree(es),
            text_len(es) <= MAX_TEXT_LEN,
            builder_events(builder) == es.take(i as int),
        decreases events@.len() - i,
    {
        proof {
            assert(es.take(i + 1) =~= es.take(i as int).push(es[i as int]));
            assert(es[i as int] == events@[i as int]@);
        }
        match &events[i] {
            Event::StartNode(kind) => {
                builder_start_node(&mut builder, kind.to_raw());
            },
            Event::FinishNode => {
                proof {
                    lemma_open_before_finish(es, i as int);
                    lemma_text_len_take(es, i as int);
                }
                builder_finish_node(&mut builder);
            },
            Event::Token(kind, text) => {
                builder_token(&mut builder, kind.to_raw(), text.as_str());
            },
        }
        i += 1;
    }
    proof {
        assert(es.take(events@.len() as int) =~= es);
    }
    builder_finish(builder)
}

/// In a single tree a node is open wherever a closing event stands.
pub proof fn lemma_open_before_finish(es: Seq<EventView>, i: int)
    requires
        single_tree(es),
        0 <= i < es.len(),
        es[i] == EventView::Finish,
    ensures
        depth(es.take(i)) >= 1,
{
    reveal_with_fuel(depth, 2);
    let inner = es.drop_last();
    if i == 0 {
        assert(inner.take(1) =~= seq![es[0]]);
        assert(seq![es[0]].drop_last() =~= Seq::<EventView>::empty());
        assert(depth(inner.take(1)) == depth(Seq::<EventView>::empty()) + delta(es[0]));
    } else {
        assert(inner.take(i) =~= es.take(i));
    }
}

/// A part of the events at the front has no more text than the whole.
pub proof fn lemma_text_len_take(es: Seq<EventView>, n: int)
    requires
        0 <= n <= es.len(),
    ensures
        text_len(es.take(n)) <= text_len(es),
{
    lemma_text_take(es, n);
    lemma_encode_concat(text(es.take(n)), text(es.skip(n)));
}

} // verus!

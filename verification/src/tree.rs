//! The syntax tree as the analyses read it: nodes and tokens with their
//! kinds, texts and byte ranges, read off a green tree.

use crate::events::{event_text, lemma_text_take, text, EventView};
use crate::green::{
    child_events, children_events, green_children, green_events, green_kind, text_len,
    GreenChild,
};
use crate::syntax::{SyntaxKind, KIND_COUNT};
use crate::text::lemma_encode_concat;
use vstd::prelude::*;
use vstd::string::*;
use vstd::utf8::*;

verus! {

/// A leaf of the tree: a token with the bytes of the source that it covers.
#[derive(Debug)]
pub struct SyntaxToken {
    pub kind: SyntaxKind,
    pub text: String,
    pub start: usize,
    pub end: usize,
}

/// A child of a node.
#[derive(Debug)]
pub enum SyntaxElement {
    Node(SyntaxNode),
    Token(SyntaxToken),
}

/// A node of the tree with its children in document order.
#[derive(Debug)]
pub struct SyntaxNode {
    pub kind: SyntaxKind,
    pub start: usize,
    pub end: usize,
    pub children: Vec<SyntaxElement>,
}

/// The events of a token.
pub open spec fn token_events(token: SyntaxToken) -> Seq<EventView> {
    seq![EventView::Token(token.kind.raw(), token.text@)]
}

/// The events of a node: its opening, its children's events, its closing.
pub open spec fn node_events(node: SyntaxNode) -> Seq<EventView>
    decreases node, node.children@.len() + 1,
{
    seq![EventView::Start(node.kind.raw())] + events_upto(node, node.children@.len())
        + seq![EventView::Finish]
}

/// The events of the first `n` children of `node`.
pub open spec fn events_upto(node: SyntaxNode, n: nat) -> Seq<EventView>
    decreases node, n,
{
    if n == 0 || n > node.children@.len() {
        Seq::empty()
    } else {
        events_upto(node, (n - 1) as nat) + element_events(node.children@[n - 1])
    }
}

/// The events of a child.
pub open spec fn element_events(element: SyntaxElement) -> Seq<EventView>
    decreases element, 0nat,
{
    match element {
        SyntaxElement::Node(node) => node_events(node),
        SyntaxElement::Token(token) => token_events(token),
    }
}

/// The text of a node: the texts of its tokens in document order.
pub open spec fn node_text(node: SyntaxNode) -> Seq<char>
    decreases node, node.children@.len() + 1,
{
    text_upto(node, node.children@.len())
}

/// The text of the first `n` children of `node`.
pub open spec fn text_upto(node: SyntaxNode, n: nat) -> Seq<char>
    decreases node, n,
{
    if n == 0 || n > node.children@.len() {
        Seq::empty()
    } else {
        text_upto(node, (n - 1) as nat) + element_text(node.children@[n - 1])
    }
}

/// The text of a child.
pub open spec fn element_text(element: SyntaxElement) -> Seq<char>
    decreases element, 0nat,
{
    match element {
        SyntaxElement::Node(node) => node_text(node),
        SyntaxElement::Token(token) => token.text@,
    }
}

/// The number of bytes of a text.
pub open spec fn byte_len(chars: Seq<char>) -> nat {
    encode_utf8(chars).len()
}

/// Where a child starts.
pub open spec fn element_start(element: SyntaxElement) -> usize {
    match element {
        SyntaxElement::Node(node) => node.start,
        SyntaxElement::Token(token) => token.start,
    }
}

/// The byte ranges are those of the text: a token ends where its text ends,
/// a node's first child starts where the node starts, each further child
/// where the one before it ends, and the node ends with its last child.
pub open spec fn node_laid_out(node: SyntaxNode) -> bool
    decreases node, node.children@.len() + 1,
{
    &&& node.end == node.start + byte_len(node_text(node))
    &&& laid_out_upto(node, node.children@.len())
}

/// The first `n` children of `node` are laid out.
pub open spec fn laid_out_upto(node: SyntaxNode, n: nat) -> bool
    decreases node, n,
{
    if n == 0 || n > node.children@.len() {
        true
    } else {
        &&& laid_out_upto(node, (n - 1) as nat)
        &&& element_start(node.children@[n - 1]) == node.start + byte_len(
            text_upto(node, (n - 1) as nat),
        )
        &&& element_laid_out(node.children@[n - 1])
    }
}

/// A child is laid out.
pub open spec fn element_laid_out(element: SyntaxElement) -> bool
    decreases element, 0nat,
{
    match element {
        SyntaxElement::Node(node) => node_laid_out(node),
        SyntaxElement::Token(token) => token.end == token.start + byte_len(token.text@),
    }
}

/// The raw kind that an event carries, if it carries one.
pub open spec fn event_kind(e: EventView) -> Option<u16> {
    match e {
        EventView::Start(raw) => Some(raw),
        EventView::Token(raw, _) => Some(raw),
        EventView::Finish => None,
    }
}

/// Every raw kind in `es` is the number of a kind of this language.
pub open spec fn known_kinds(es: Seq<EventView>) -> bool {
    forall|i: int|
        0 <= i < es.len() ==> (event_kind(#[trigger] es[i]) matches Some(raw) ==> raw
            < KIND_COUNT)
}

/// The text of events, one part behind the other.
pub proof fn lemma_text_concat(a: Seq<EventView>, b: Seq<EventView>)
    ensures
        text(a + b) == text(a) + text(b),
{
    lemma_text_take(a + b, a.len() as int);
    assert((a + b).take(a.len() as int) =~= a);
    assert((a + b).skip(a.len() as int) =~= b);
}

/// The text of a node is the text of its events.
pub proof fn lemma_node_text(node: SyntaxNode)
    ensures
        text(node_events(node)) == node_text(node),
    decreases node, node.children@.len() + 1,
{
    let n = node.children@.len();
    lemma_upto_text(node, n);
    let open = seq![EventView::Start(node.kind.raw())];
    let close = seq![EventView::Finish];
    lemma_text_concat(open + events_upto(node, n), close);
    lemma_text_concat(open, events_upto(node, n));
    lemma_text_single(EventView::Start(node.kind.raw()));
    lemma_text_single(EventView::Finish);
    assert(Seq::<char>::empty() + node_text(node) + Seq::<char>::empty() =~= node_text(node));
}

/// The text of one event.
proof fn lemma_text_single(e: EventView)
    ensures
        text(seq![e]) == event_text(e),
{
    reveal_with_fuel(text, 2);
    assert(seq![e].drop_last() =~= Seq::<EventView>::empty());
    assert(Seq::<char>::empty() + event_text(e) =~= event_text(e));
}

/// The text of the first `n` children is the text of their events.
proof fn lemma_upto_text(node: SyntaxNode, n: nat)
    requires
        n <= node.children@.len(),
    ensures
        text(events_upto(node, n)) == text_upto(node, n),
    decreases node, n,
{
    if n > 0 {
        lemma_upto_text(node, (n - 1) as nat);
        let child = node.children@[n - 1];
        lemma_text_concat(events_upto(node, (n - 1) as nat), element_events(child));
        assert(events_upto(node, n) == events_upto(node, (n - 1) as nat) + element_events(child));
        assert(text_upto(node, n) == text_upto(node, (n - 1) as nat) + element_text(child));
        match child {
            SyntaxElement::Node(inner) => {
                lemma_node_text(inner);
                assert(element_events(child) == node_events(inner));
                assert(element_text(child) == node_text(inner));
            },
            SyntaxElement::Token(token) => {
                lemma_text_single(EventView::Token(token.kind.raw(), token.text@));
                assert(element_events(child) == token_events(token));
                assert(element_text(child) == token.text@);
            },
        }
    } else {
        reveal(text);
        assert(text(Seq::<EventView>::empty()) =~= Seq::<char>::empty());
    }
}

/// The events of the first `i` children stand at the front of the events of
/// the first `n`.
proof fn lemma_children_prefix(children: Seq<GreenChild>, i: int, n: int)
    requires
        0 <= i <= n <= children.len(),
    ensures
        children_events(children.take(i)).len() <= children_events(children.take(n)).len(),
        children_events(children.take(n)).take(children_events(children.take(i)).len() as int)
            == children_events(children.take(i)),
    decreases n - i,
{
    if i == n {
        assert(children_events(children.take(n)).take(
            children_events(children.take(n)).len() as int,
        ) =~= children_events(children.take(n)));
    } else {
        lemma_children_prefix(children, i, n - 1);
        assert(children.take(n).drop_last() =~= children.take(n - 1));
        let shorter = children_events(children.take(n - 1));
        let longer = children_events(children.take(n));
        assert(longer == shorter + child_events(children[n - 1]));
        assert(longer.take(children_events(children.take(i)).len() as int) =~= shorter.take(
            children_events(children.take(i)).len() as int,
        ));
    }
}

/// What the events of a node say of one of its children: they stand, whole,
/// inside the node's events, behind the events of the children before it.
proof fn lemma_child_inside(parent: Seq<EventView>, children: Seq<GreenChild>, i: int)
    requires
        parent == seq![parent[0]] + children_events(children) + seq![EventView::Finish],
        0 <= i < children.len(),
    ensures
        1 + children_events(children.take(i + 1)).len() < parent.len(),
        parent.take(1 + children_events(children.take(i + 1)).len() as int) == seq![parent[0]]
            + children_events(children.take(i)) + child_events(children[i]),
{
    let all = children_events(children);
    let upto = children_events(children.take(i + 1));
    lemma_children_prefix(children, i + 1, children.len() as int);
    assert(children.take(children.len() as int) =~= children);
    assert(children.take(i + 1).drop_last() =~= children.take(i));
    assert(upto == children_events(children.take(i)) + child_events(children[i]));
    assert(parent.take(1 + upto.len() as int) =~= seq![parent[0]] + all.take(upto.len() as int));
}

/// Reads the tree below `green`, which starts at byte `start` of the text.
///
/// The raw kinds in the green tree must be kinds of this language, and the
/// text must end within the range of `usize`.  The result is the same tree:
/// it has the events of `green`, and byte ranges laid out from `start`.
pub fn read_green(green: &rowan::GreenNode, start: usize) -> (node: SyntaxNode)
    requires
        known_kinds(green_events(*green)),
        start + text_len(green_events(*green)) <= usize::MAX,
    ensures
        node_events(node) == green_events(*green),
        node.start == start,
        node_laid_out(node),
    decreases green_events(*green).len(),
{
    let ghost parent = green_events(*green);
    let raw = green_kind(green);
    let parts = green_children(green);
    proof {
        assert(event_kind(parent[0]) == Some(raw));
    }
    let kind = SyntaxKind::of_raw(raw);
    let mut node = SyntaxNode { kind, start, end: start, children: Vec::new() };
    let mut at: usize = start;
    let mut i: usize = 0;
    proof {
        assert(parts@.take(0) =~= Seq::<GreenChild>::empty());
        lemma_text_single(parent[0]);
        lemma_encode_empty();
    }
    while i < parts.len()
        invariant
            parent == green_events(*green),
            parent == seq![parent[0]] + children_events(parts@) + seq![EventView::Finish],
            known_kinds(parent),
            event_text(parent[0]) == Seq::<char>::empty(),
            start + text_len(parent) <= usize::MAX,
            i <= parts@.len(),
            node.kind == kind,
            node.start == start,
            node.children@.len() == i,
            events_upto(node, i as nat) == children_events(parts@.take(i as int)),
            laid_out_upto(node, i as nat),
            at == start + byte_len(text_upto(node, i as nat)),
        decreases parts@.len() - i,
    {
        let ghost before = node;
        let ghost child_part = child_events(parts@[i as int]);
        let ghost lead = seq![parent[0]] + children_events(parts@.take(i as int));
        proof {
            lemma_child_inside(parent, parts@, i as int);
            assert(parts@.take(i + 1).drop_last() =~= parts@.take(i as int));
            let upto = lead + child_part;
            assert(parent.take(upto.len() as int) == upto);
            // the child's events stand inside the parent's
            assert forall|k: int| 0 <= k < child_part.len() implies #[trigger] child_part[k]
                == parent[lead.len() + k] by {
                assert(upto[lead.len() + k] == child_part[k]);
                assert(parent.take(upto.len() as int)[lead.len() + k] == parent[lead.len() + k]);
            }
            assert(known_kinds(child_part)) by {
                assert forall|k: int| 0 <= k < child_part.len() implies (event_kind(
                    #[trigger] child_part[k],
                ) matches Some(r) ==> r < KIND_COUNT) by {
                    assert(child_part[k] == parent[lead.len() + k]);
                }
            }
            // and so does their text
            lemma_text_len_upto(parent, upto.len() as int);
            lemma_text_concat(lead, child_part);
            lemma_text_concat(seq![parent[0]], children_events(parts@.take(i as int)));
            lemma_upto_text(before, i as nat);
            lemma_text_single(parent[0]);
            assert(text(lead) =~= text_upto(before, i as nat));
            lemma_encode_concat(text_upto(before, i as nat), text(child_part));
            assert(at + byte_len(text(child_part)) <= usize::MAX);
        }
        let element = match &parts[i] {
            GreenChild::Node(inner) => {
                let child = read_green(inner, at);
                proof {
                    lemma_node_text(child);
                    assert(element_laid_out(SyntaxElement::Node(child)));
                    assert(element_text(SyntaxElement::Node(child)) == text(child_part));
                    assert(element_events(SyntaxElement::Node(child)) == child_part);
                }
                at = child.end;
                SyntaxElement::Node(child)
            },
            GreenChild::Token(raw, leaf) => {
                proof {
                    assert(event_kind(child_part[0]) == Some(*raw));
                    lemma_text_single(EventView::Token(*raw, leaf@));
                }
                let kind = SyntaxKind::of_raw(*raw);
                let end = at + leaf.as_str().len();
                let token = SyntaxToken { kind, text: leaf.clone(), start: at, end };
                proof {
                    assert(element_laid_out(SyntaxElement::Token(token)));
                    assert(element_text(SyntaxElement::Token(token)) == text(child_part));
                    assert(element_events(SyntaxElement::Token(token)) == child_part);
                }
                at = end;
                SyntaxElement::Token(token)
            },
        };
        node.children.push(element);
        proof {
            lemma_same_prefix(before, node, i as nat);
            assert(node.children@[i as int] == element);
            assert(events_upto(node, (i + 1) as nat) == events_upto(node, i as nat)
                + element_events(element));
            assert(text_upto(node, (i + 1) as nat) == text_upto(node, i as nat) + element_text(
                element,
            ));
            assert(laid_out_upto(node, (i + 1) as nat));
        }
        i += 1;
    }
    let ghost filled = node;
    node.end = at;
    proof {
        assert(parts@.take(parts@.len() as int) =~= parts@);
        lemma_same_prefix(filled, node, i as nat);
    }
    node
}

/// The empty text has no bytes.
proof fn lemma_encode_empty()
    ensures
        encode_utf8(Seq::<char>::empty()).len() == 0,
{
}

/// The first `n` events have no more text than all of them.
proof fn lemma_text_len_upto(es: Seq<EventView>, n: int)
    requires
        0 <= n <= es.len(),
    ensures
        text_len(es.take(n)) <= text_len(es),
{
    lemma_text_take(es, n);
    lemma_encode_concat(text(es.take(n)), text(es.skip(n)));
}

/// A node with one more child says of its earlier children what it said
/// before.
proof fn lemma_same_prefix(before: SyntaxNode, after: SyntaxNode, n: nat)
    requires
        before.start == after.start,
        n <= before.children@.len(),
        before.children@.len() <= after.children@.len(),
        forall|k: int| 0 <= k < n ==> before.children@[k] == after.children@[k],
    ensures
        events_upto(after, n) == events_upto(before, n),
        text_upto(after, n) == text_upto(before, n),
        laid_out_upto(after, n) == laid_out_upto(before, n),
    decreases n,
{
    if n > 0 {
        lemma_same_prefix(before, after, (n - 1) as nat);
    }
}

/// The text below `node`: the texts of its tokens in document order.
pub fn to_string_lossless(node: &SyntaxNode) -> (s: String)
    ensures
        s@ == node_text(*node),
    decreases node,
{
    let mut out = String::new();
    let mut i: usize = 0;
    while i < node.children.len()
        invariant
            i <= node.children@.len(),
            out@ == text_upto(*node, i as nat),
        decreases node.children@.len() - i,
    {
        let ghost so_far = out@;
        match &node.children[i] {
            SyntaxElement::Node(child) => {
                let inner = to_string_lossless(child);
                out.append(inner.as_str());
            },
            SyntaxElement::Token(token) => {
                out.append(token.text.as_str());
            },
        }
        proof {
            let element = node.children@[i as int];
            assert(text_upto(*node, (i + 1) as nat) == text_upto(*node, i as nat) + element_text(
                element,
            ));
            assert(out@ =~= so_far + element_text(element));
        }
        i += 1;
    }
    out
}

/// `text` with every occurrence of the character `from` replaced by `to`.
pub open spec fn replaced(text: Seq<char>, from: char, to: Seq<char>) -> Seq<char>
    decreases text.len(),
{
    if text.len() == 0 {
        text
    } else {
        replaced(text.drop_last(), from, to) + if text.last() == from {
            to
        } else {
            seq![text.last()]
        }
    }
}

/// `str::replace` with a character as the pattern: every occurrence of
/// `from` gives way to `to`, and the rest of the text stays.
#[verifier::external_body]
fn replace_char(text: &str, from: char, to: &str) -> (r: String)
    ensures
        r@ == replaced(text@, from, to@),
{
    text.replace(from, to)
}

/// The dump of a token: indentation, kind, and the text in quotes with its
/// line feeds escaped.
pub open spec fn dump_token(token: SyntaxToken, indent: Seq<char>) -> Seq<char> {
    indent + "  "@ + token.kind.name() + " '"@ + replaced(token.text@, '\n', "\\n"@) + "'\n"@
}

/// The dump of a node: one line for the node, then its children, each two
/// spaces further in.
pub open spec fn dump_node(node: SyntaxNode, indent: Seq<char>) -> Seq<char>
    decreases node, node.children@.len() + 1,
{
    indent + node.kind.name() + "\n"@ + dump_upto(node, node.children@.len(), indent)
}

/// The dump of the first `n` children of `node`.
pub open spec fn dump_upto(node: SyntaxNode, n: nat, indent: Seq<char>) -> Seq<char>
    decreases node, n,
{
    if n == 0 || n > node.children@.len() {
        Seq::empty()
    } else {
        dump_upto(node, (n - 1) as nat, indent) + dump_element(node.children@[n - 1], indent)
    }
}

/// The dump of a child of a node that is indented by `indent`.
pub open spec fn dump_element(element: SyntaxElement, indent: Seq<char>) -> Seq<char>
    decreases element, 0nat,
{
    match element {
        SyntaxElement::Node(node) => dump_node(node, indent + "  "@),
        SyntaxElement::Token(token) => dump_token(token, indent),
    }
}

/// The tree below `node`, one line for each node and token: the kind's
/// name, and for a token its text; children are indented by two spaces.
pub fn dump_tree(node: &SyntaxNode) -> (out: String)
    ensures
        out@ == dump_node(*node, Seq::empty()),
{
    let mut out = String::new();
    dump_tree_impl(node, "", &mut out);
    proof {
        reveal_strlit("");
        assert(""@ =~= Seq::<char>::empty());
        assert(Seq::<char>::empty() + dump_node(*node, Seq::empty()) =~= dump_node(
            *node,
            Seq::empty(),
        ));
    }
    out
}

/// Appends the dump of `node` to `out`, each line behind `indent`.
fn dump_tree_impl(node: &SyntaxNode, indent: &str, out: &mut String)
    ensures
        final(out)@ == old(out)@ + dump_node(*node, indent@),
    decreases node,
{
    let ghost start = out@;
    out.append(indent);
    out.append(node.kind.debug_name());
    out.append("\n");
    let deeper = String::from_str(indent).concat("  ");
    let mut i: usize = 0;
    proof {
        assert(out@ =~= start + (indent@ + node.kind.name() + "\n"@) + dump_upto(
            *node,
            0,
            indent@,
        ));
    }
    while i < node.children.len()
        invariant
            i <= node.children@.len(),
            deeper@ == indent@ + "  "@,
            out@ == start + (indent@ + node.kind.name() + "\n"@) + dump_upto(
                *node,
                i as nat,
                indent@,
            ),
        decreases node.children@.len() - i,
    {
        let ghost so_far = out@;
        match &node.children[i] {
            SyntaxElement::Node(child) => {
                dump_tree_impl(child, deeper.as_str(), out);
            },
            SyntaxElement::Token(token) => {
                let escaped = replace_char(token.text.as_str(), '\n', "\\n");
                out.append(indent);
                out.append("  ");
                out.append(token.kind.debug_name());
                out.append(" '");
                out.append(escaped.as_str());
                out.append("'\n");
                proof {
                    assert(out@ =~= so_far + dump_token(*token, indent@));
                }
            },
        }
        proof {
            let element = node.children@[i as int];
            assert(dump_upto(*node, (i + 1) as nat, indent@) == dump_upto(
                *node,
                i as nat,
                indent@,
            ) + dump_element(element, indent@));
            assert(out@ =~= so_far + dump_element(element, indent@));
        }
        i += 1;
    }
    proof {
        assert(out@ =~= start + dump_node(*node, indent@));
    }
}

} // verus!

//! The effect checker: the effects that a function body uses must be
//! declared in the function's effect set.
//!
//! A use is found by its text: wherever the body holds one of the module
//! prefixes, the effect of that prefix is used, be it in code, in a comment
//! or in a string.  The diagnostics come in the order of the source:
//! function by function, and within a body position by position.

use crate::green::MAX_TEXT_LEN;
use crate::parser::{is_tree_of, parse};
use crate::query::{
    find_node, find_token, first_node, first_token, lemma_index_of, node_from, Pick,
};
use crate::syntax::SyntaxKind;
use crate::text::{lemma_encode_concat, str_eq};
use crate::tree::{
    byte_len, element_laid_out, element_start, element_text, laid_out_upto, node_laid_out,
    node_text, text_upto, to_string_lossless, SyntaxElement, SyntaxNode,
};
use vstd::prelude::*;
use vstd::string::*;
use vstd::utf8::*;

verus! {

/// A range of bytes of the source.
#[derive(Debug, Clone, Copy, PartialEq, Eq, Structural)]
pub struct Span {
    pub start: usize,
    pub end: usize,
}

/// An effect that is used and not declared, with the range of the prefix
/// that uses it.
#[derive(Debug, PartialEq, Eq)]
pub struct Diagnostic {
    pub code: String,
    pub message: String,
    pub span: Span,
    pub required: String,
}

/// A diagnostic as a value.
pub struct DiagnosticView {
    pub code: Seq<char>,
    pub message: Seq<char>,
    pub start: int,
    pub end: int,
    pub required: Seq<char>,
}

impl View for Diagnostic {
    type V = DiagnosticView;

    open spec fn view(&self) -> DiagnosticView {
        DiagnosticView {
            code: self.code@,
            message: self.message@,
            start: self.span.start as int,
            end: self.span.end as int,
            required: self.required@,
        }
    }
}

/// The diagnostics of `list` as values.
pub open spec fn diagnostic_views(list: Seq<Diagnostic>) -> Seq<DiagnosticView> {
    Seq::new(list.len(), |i: int| list[i]@)
}

/// The diagnostics that a check hands back.
#[derive(Debug)]
pub struct CheckResult {
    pub diagnostics: Vec<Diagnostic>,
}

/// A use of an effect: its name, and where the prefix starts and ends.
pub type Use = (Seq<char>, int, int);

/// Whether `pattern` stands at position `i` of `text`.
pub open spec fn occurs_at(text: Seq<u8>, pattern: Seq<u8>, i: int) -> bool {
    0 <= i && i + pattern.len() <= text.len() && text.subrange(i, i + pattern.len()) == pattern
}

/// The use of `effect` at position `i` of `text`, if `prefix` stands there;
/// `base` is the position of the text in the source.
pub open spec fn use_of(
    text: Seq<u8>,
    prefix: Seq<char>,
    effect: Seq<char>,
    base: int,
    i: int,
) -> Seq<Use> {
    if occurs_at(text, encode_utf8(prefix), i) {
        seq![(effect, base + i, base + i + encode_utf8(prefix).len())]
    } else {
        Seq::empty()
    }
}

/// The uses at position `i` of `text`, prefix by prefix: `fs::`, `net::`,
/// `http::` (which is `net`), `time::`, `rand::`, `log::` (which is `io`)
/// and `ffi::`.
pub open spec fn uses_at(text: Seq<u8>, base: int, i: int) -> Seq<Use> {
    use_of(text, "fs::"@, "fs"@, base, i) + use_of(text, "net::"@, "net"@, base, i) + use_of(
        text,
        "http::"@,
        "net"@,
        base,
        i,
    ) + use_of(text, "time::"@, "time"@, base, i) + use_of(text, "rand::"@, "rand"@, base, i)
        + use_of(text, "log::"@, "io"@, base, i) + use_of(text, "ffi::"@, "ffi"@, base, i)
}

/// The uses in `text` from position `from` on, position by position.
pub open spec fn uses_from(text: Seq<u8>, base: int, from: int) -> Seq<Use>
    decreases text.len() - from,
{
    if from < 0 || from >= text.len() {
        Seq::empty()
    } else {
        uses_at(text, base, from) + uses_from(text, base, from + 1)
    }
}

/// The uses of effects in a block, in the order in which they stand in its
/// text.
pub open spec fn uses_in(block: SyntaxNode) -> Seq<Use> {
    uses_from(encode_utf8(node_text(block)), block.start as int, 0)
}

/// The names of the effects that can be declared.
pub open spec fn is_known(name: Seq<char>) -> bool {
    name == "io"@ || name == "net"@ || name == "fs"@ || name == "time"@ || name == "rand"@
        || name == "ffi"@
}

/// The effects that a function declares: the known names in its effect set.
pub open spec fn declared(node: SyntaxNode) -> Seq<Seq<char>> {
    match first_node(node, Pick::Node(SyntaxKind::EffectSet)) {
        Some(set) => declared_from(set, 0),
        None => Seq::empty(),
    }
}

/// The known names in an effect set from child `i` on.
pub open spec fn declared_from(set: SyntaxNode, i: nat) -> Seq<Seq<char>>
    decreases set.children@.len() - i,
{
    if i >= set.children@.len() {
        Seq::empty()
    } else {
        (match set.children@[i as int] {
            SyntaxElement::Node(ident) => if ident.kind == SyntaxKind::IdentNode {
                match first_token(ident, Pick::Token(SyntaxKind::Ident)) {
                    Some(token) => if is_known(token.text@) {
                        seq![token.text@]
                    } else {
                        Seq::empty()
                    },
                    None => Seq::empty(),
                }
            } else {
                Seq::empty()
            },
            SyntaxElement::Token(_) => Seq::empty(),
        }) + declared_from(set, i + 1)
    }
}

/// The diagnostic for a use of an effect that is not declared.
pub open spec fn undeclared(used: Use) -> DiagnosticView {
    DiagnosticView {
        code: "E1001"@,
        message: "undeclared effect"@,
        start: used.1,
        end: used.2,
        required: used.0,
    }
}

/// The diagnostics for the uses from the `i`-th on: one for each use of an
/// effect that is not among the declared.
pub open spec fn reports_from(uses: Seq<Use>, names: Seq<Seq<char>>, i: nat) -> Seq<
    DiagnosticView,
>
    decreases uses.len() - i,
{
    if i >= uses.len() {
        Seq::empty()
    } else {
        (if names.contains(uses[i as int].0) {
            Seq::empty()
        } else {
            seq![undeclared(uses[i as int])]
        }) + reports_from(uses, names, i + 1)
    }
}

/// The diagnostics of one function.
pub open spec fn fn_diagnostics(node: SyntaxNode) -> Seq<DiagnosticView> {
    match first_node(node, Pick::Node(SyntaxKind::Block)) {
        Some(block) => reports_from(uses_in(block), declared(node), 0),
        None => Seq::empty(),
    }
}

/// The diagnostics of the functions among the children of `root` from `i`
/// on.
pub open spec fn fns_from(root: SyntaxNode, i: nat) -> Seq<DiagnosticView>
    decreases root.children@.len() - i,
{
    if i >= root.children@.len() {
        Seq::empty()
    } else {
        (match root.children@[i as int] {
            SyntaxElement::Node(item) => if item.kind == SyntaxKind::FnDecl {
                fn_diagnostics(item)
            } else {
                Seq::empty()
            },
            SyntaxElement::Token(_) => Seq::empty(),
        }) + fns_from(root, i + 1)
    }
}

/// The diagnostics of a tree.
pub open spec fn diagnostics_of(root: SyntaxNode) -> Seq<DiagnosticView> {
    fns_from(root, 0)
}

/// Where the diagnostics start.
pub open spec fn starts(list: Seq<DiagnosticView>) -> Seq<int> {
    Seq::new(list.len(), |i: int| list[i].start)
}

/// Where the uses start.
pub open spec fn use_starts(uses: Seq<Use>) -> Seq<int> {
    Seq::new(uses.len(), |i: int| uses[i].1)
}

/// No position is less than one that stands before it.
pub open spec fn ascending(positions: Seq<int>) -> bool {
    forall|i: int, j: int|
        0 <= i <= j < positions.len() ==> #[trigger] positions[i] <= #[trigger] positions[j]
}

/// The positions ascend, and lie between `lo` and `hi`.
pub open spec fn ascends_within(positions: Seq<int>, lo: int, hi: int) -> bool {
    &&& ascending(positions)
    &&& forall|i: int| 0 <= i < positions.len() ==> lo <= #[trigger] positions[i] <= hi
}

/// Where child `n` of `node` starts, if the node is laid out: behind the
/// text of the children before it.
pub open spec fn offset(node: SyntaxNode, n: nat) -> int {
    node.start + byte_len(text_upto(node, n))
}

/// Positions that ascend up to `mid`, followed by positions that ascend
/// from `mid` on, ascend.
pub proof fn lemma_ascends_concat(a: Seq<int>, b: Seq<int>, lo: int, mid: int, hi: int)
    requires
        ascends_within(a, lo, mid),
        ascends_within(b, mid, hi),
        lo <= mid <= hi,
    ensures
        ascends_within(a + b, lo, hi),
{
    let c = a + b;
    assert forall|i: int| 0 <= i < c.len() implies lo <= #[trigger] c[i] <= hi by {
        if i < a.len() {
            assert(c[i] == a[i]);
        } else {
            assert(c[i] == b[i - a.len()]);
        }
    }
    assert forall|i: int, j: int| 0 <= i <= j < c.len() implies #[trigger] c[i] <= #[trigger] c[j] by {
        if j < a.len() {
            assert(c[i] == a[i] && c[j] == a[j]);
        } else if i < a.len() {
            assert(c[i] == a[i] && c[j] == b[j - a.len()]);
        } else {
            assert(c[i] == b[i - a.len()] && c[j] == b[j - a.len()]);
        }
    }
}

/// The uses at one position start at that position.
proof fn lemma_uses_at(text: Seq<u8>, base: int, i: int)
    ensures
        ascends_within(use_starts(uses_at(text, base, i)), base + i, base + i),
{
    let uses = uses_at(text, base, i);
    assert forall|k: int| 0 <= k < uses.len() implies (#[trigger] uses[k]).1 == base + i by {}
}

/// The uses from a position on start at or behind it, within the text, and
/// in ascending order.
proof fn lemma_uses_from(text: Seq<u8>, base: int, from: int)
    requires
        0 <= from <= text.len(),
    ensures
        ascends_within(use_starts(uses_from(text, base, from)), base + from, base + text.len()),
    decreases text.len() - from,
{
    if from < text.len() {
        lemma_uses_at(text, base, from);
        lemma_uses_from(text, base, from + 1);
        let here = uses_at(text, base, from);
        let rest = uses_from(text, base, from + 1);
        assert(ascends_within(use_starts(here), base + from, base + from + 1));
        lemma_ascends_concat(
            use_starts(here),
            use_starts(rest),
            base + from,
            base + from + 1,
            base + text.len(),
        );
        assert(use_starts(here + rest) =~= use_starts(here) + use_starts(rest));
    }
}

/// The diagnostics for uses that ascend start where a use starts, in
/// ascending order.
proof fn lemma_reports_from(uses: Seq<Use>, names: Seq<Seq<char>>, i: nat, lo: int, hi: int)
    requires
        ascends_within(use_starts(uses), lo, hi),
        lo <= hi,
        i <= uses.len(),
    ensures
        ascends_within(
            starts(reports_from(uses, names, i)),
            if i < uses.len() {
                uses[i as int].1
            } else {
                hi
            },
            hi,
        ),
    decreases uses.len() - i,
{
    if i < uses.len() {
        lemma_reports_from(uses, names, i + 1, lo, hi);
        let at = uses[i as int].1;
        let next = if i + 1 < uses.len() {
            uses[i as int + 1].1
        } else {
            hi
        };
        assert(use_starts(uses)[i as int] == at);
        if i + 1 < uses.len() {
            assert(use_starts(uses)[i as int + 1] == next);
        }
        let here = if names.contains(uses[i as int].0) {
            Seq::<DiagnosticView>::empty()
        } else {
            seq![undeclared(uses[i as int])]
        };
        let rest = reports_from(uses, names, i + 1);
        assert(ascends_within(starts(here), at, next));
        lemma_ascends_concat(starts(here), starts(rest), at, next, hi);
        assert(starts(here + rest) =~= starts(here) + starts(rest));
    }
}

/// The children of a node that is laid out stand one behind the other,
/// from the start of the node to its end.
pub proof fn lemma_offsets(node: SyntaxNode, j: int)
    requires
        node_laid_out(node),
        0 <= j < node.children@.len(),
    ensures
        element_start(node.children@[j]) == offset(node, j as nat),
        offset(node, (j + 1) as nat) == offset(node, j as nat) + byte_len(
            element_text(node.children@[j]),
        ),
        node.start <= offset(node, j as nat) <= offset(node, (j + 1) as nat) <= node.end,
        offset(node, node.children@.len()) == node.end,
{
    lemma_child_start(node, j, node.children@.len());
    lemma_encode_concat(text_upto(node, j as nat), element_text(node.children@[j]));
    lemma_offset_grows(node, (j + 1) as nat, node.children@.len());
}

/// A child among the first `n` of a node that is laid out starts behind
/// the text of the children before it.
proof fn lemma_child_start(node: SyntaxNode, j: int, n: nat)
    requires
        laid_out_upto(node, n),
        0 <= j < n <= node.children@.len(),
    ensures
        element_start(node.children@[j]) == offset(node, j as nat),
    decreases n,
{
    if j < n - 1 {
        lemma_child_start(node, j, (n - 1) as nat);
    }
}

/// The text of more children is no shorter.
proof fn lemma_offset_grows(node: SyntaxNode, a: nat, b: nat)
    requires
        a <= b <= node.children@.len(),
    ensures
        offset(node, a) <= offset(node, b),
    decreases b - a,
{
    if a < b {
        lemma_offset_grows(node, a, (b - 1) as nat);
        lemma_encode_concat(
            text_upto(node, (b - 1) as nat),
            element_text(node.children@[b - 1]),
        );
    }
}

/// The diagnostics of a function start within the function, in ascending
/// order.
pub proof fn lemma_fn_ascends(node: SyntaxNode)
    requires
        node_laid_out(node),
    ensures
        ascends_within(starts(fn_diagnostics(node)), node.start as int, node.end as int),
{
    lemma_index_of(node, Pick::Node(SyntaxKind::Block), 0);
    match node_from(node, Pick::Node(SyntaxKind::Block), 0) {
        Some((j, block)) => {
            lemma_offsets(node, j as int);
            lemma_child_laid_out(node, j as int, node.children@.len());
            let text = encode_utf8(node_text(block));
            lemma_uses_from(text, block.start as int, 0);
            let uses = uses_in(block);
            let end = block.start + text.len();
            lemma_reports_from(uses, declared(node), 0, block.start as int, end);
            assert(block.start == offset(node, j));
            assert(end == offset(node, j + 1));
            if 0 < uses.len() {
                assert(use_starts(uses)[0] == uses[0].1);
            }
            let found = starts(fn_diagnostics(node));
            assert(fn_diagnostics(node) == reports_from(uses, declared(node), 0));
            assert forall|i: int| 0 <= i < found.len() implies node.start <= #[trigger] found[i]
                <= node.end by {}
        },
        None => {
            assert(fn_diagnostics(node) =~= Seq::<DiagnosticView>::empty());
        },
    }
}

/// The diagnostics of the functions from child `i` on start behind the
/// children before them, in ascending order.
proof fn lemma_fns_ascend(root: SyntaxNode, i: nat)
    requires
        node_laid_out(root),
        i <= root.children@.len(),
    ensures
        ascends_within(starts(fns_from(root, i)), offset(root, i), root.end as int),
    decreases root.children@.len() - i,
{
    if i < root.children@.len() {
        lemma_offsets(root, i as int);
        lemma_fns_ascend(root, i + 1);
        lemma_child_laid_out(root, i as int, root.children@.len());
        let here = match root.children@[i as int] {
            SyntaxElement::Node(item) => if item.kind == SyntaxKind::FnDecl {
                lemma_fn_ascends(item);
                fn_diagnostics(item)
            } else {
                Seq::empty()
            },
            SyntaxElement::Token(_) => Seq::empty(),
        };
        let rest = fns_from(root, i + 1);
        assert(ascends_within(starts(here), offset(root, i), offset(root, i + 1)));
        lemma_ascends_concat(
            starts(here),
            starts(rest),
            offset(root, i),
            offset(root, i + 1),
            root.end as int,
        );
        assert(starts(here + rest) =~= starts(here) + starts(rest));
    }
}

/// The diagnostics of a tree come in the order of the source: none starts
/// before one that was reported earlier.
pub proof fn lemma_diagnostics_ascend(root: SyntaxNode)
    requires
        node_laid_out(root),
    ensures
        ascending(starts(diagnostics_of(root))),
{
    lemma_fns_ascend(root, 0);
}

/// The children of a node that is laid out are laid out.
pub proof fn lemma_child_laid_out(node: SyntaxNode, j: int, n: nat)
    requires
        laid_out_upto(node, n),
        0 <= j < n <= node.children@.len(),
    ensures
        element_laid_out(node.children@[j]),
    decreases n,
{
    if j < n - 1 {
        lemma_child_laid_out(node, j, (n - 1) as nat);
    }
}

/// The uses as the checker holds them, as values.
pub open spec fn use_views(uses: Seq<(&'static str, Span)>) -> Seq<Use> {
    Seq::new(uses.len(), |i: int| (uses[i].0@, uses[i].1.start as int, uses[i].1.end as int))
}

/// The names as the checker holds them, as values.
pub open spec fn name_views(names: Seq<String>) -> Seq<Seq<char>> {
    Seq::new(names.len(), |i: int| names[i]@)
}

/// Whether `pattern` stands at position `i` of `text`.
fn matches_at(text: &[u8], pattern: &[u8], i: usize) -> (found: bool)
    requires
        i + pattern@.len() <= text@.len(),
    ensures
        found == occurs_at(text@, pattern@, i as int),
{
    let limit = text.len();
    let mut k: usize = 0;
    while k < pattern.len()
        invariant
            k <= pattern@.len(),
            text@.len() == limit,
            i + pattern@.len() <= text@.len(),
            forall|j: int| 0 <= j < k ==> text@[i + j] == pattern@[j],
        decreases pattern@.len() - k,
    {
        if text[i + k] != pattern[k] {
            proof {
                assert(text@.subrange(i as int, i + pattern@.len())[k as int] == text@[i + k]);
            }
            return false;
        }
        k += 1;
    }
    proof {
        assert(text@.subrange(i as int, i + pattern@.len()) =~= pattern@);
    }
    true
}

/// Adds to `effects` the use of `effect` at position `i` of `text`, if
/// `prefix` stands there.
fn scan_at(
    text: &[u8],
    base: usize,
    i: usize,
    prefix: &'static str,
    effect: &'static str,
    effects: &mut Vec<(&'static str, Span)>,
)
    requires
        i < text@.len(),
        base + text@.len() <= usize::MAX,
    ensures
        use_views(final(effects)@) == use_views(old(effects)@) + use_of(
            text@,
            prefix@,
            effect@,
            base as int,
            i as int,
        ),
{
    let pattern = prefix.as_bytes();
    let ghost before = use_views(effects@);
    if pattern.len() <= text.len() - i && matches_at(text, pattern, i) {
        let span = Span { start: base + i, end: base + i + pattern.len() };
        effects.push((effect, span));
        proof {
            let used = (effect@, span.start as int, span.end as int);
            assert(use_views(effects@) =~= before + seq![used]);
        }
    } else {
        proof {
            assert(before + Seq::<Use>::empty() =~= before);
        }
    }
}

/// The uses of effects in a block, in the order in which they stand.
fn effects_used_in(node: &SyntaxNode) -> (effects: Vec<(&'static str, Span)>)
    requires
        node.end == node.start + byte_len(node_text(*node)),
    ensures
        use_views(effects@) == uses_in(*node),
{
    let mut effects: Vec<(&'static str, Span)> = Vec::new();
    let text = to_string_lossless(node);
    let bytes = text.as_str().as_bytes();
    let base = node.start;
    let mut i: usize = 0;
    proof {
        assert(use_views(effects@) + uses_from(bytes@, base as int, 0) =~= uses_in(*node));
    }
    while i < bytes.len()
        invariant
            i <= bytes@.len(),
            base + bytes@.len() <= usize::MAX,
            use_views(effects@) + uses_from(bytes@, base as int, i as int) == uses_in(*node),
        decreases bytes@.len() - i,
    {
        let ghost before = use_views(effects@);
        scan_at(bytes, base, i, "fs::", "fs", &mut effects);
        scan_at(bytes, base, i, "net::", "net", &mut effects);
        scan_at(bytes, base, i, "http::", "net", &mut effects);
        scan_at(bytes, base, i, "time::", "time", &mut effects);
        scan_at(bytes, base, i, "rand::", "rand", &mut effects);
        scan_at(bytes, base, i, "log::", "io", &mut effects);
        scan_at(bytes, base, i, "ffi::", "ffi", &mut effects);
        proof {
            assert(use_views(effects@) =~= before + uses_at(bytes@, base as int, i as int));
            assert(use_views(effects@) + uses_from(bytes@, base as int, i + 1) =~= before
                + uses_from(bytes@, base as int, i as int));
        }
        i += 1;
    }
    proof {
        assert(use_views(effects@) + Seq::<Use>::empty() =~= use_views(effects@));
    }
    effects
}

/// The text of the first `Ident` token of `node`.
fn find_ident_text(node: &SyntaxNode) -> (name: Option<String>)
    ensures
        name matches Some(text) ==> first_token(*node, Pick::Token(SyntaxKind::Ident)) is Some
            && text@ == first_token(*node, Pick::Token(SyntaxKind::Ident))->0.text@,
        name is None ==> first_token(*node, Pick::Token(SyntaxKind::Ident)) is None,
{
    match find_token(node, Pick::Token(SyntaxKind::Ident), 0) {
        Some((_, token)) => Some(token.text.clone()),
        None => None,
    }
}

/// Whether `name` is an effect that can be declared.
fn is_known_effect(name: &str) -> (known: bool)
    ensures
        known == is_known(name@),
{
    str_eq(name, "io") || str_eq(name, "net") || str_eq(name, "fs") || str_eq(name, "time")
        || str_eq(name, "rand") || str_eq(name, "ffi")
}

/// The effects that a function declares.
fn declared_effects(node: &SyntaxNode) -> (effects: Vec<String>)
    ensures
        name_views(effects@) == declared(*node),
{
    let mut effects: Vec<String> = Vec::new();
    proof {
        assert(name_views(effects@) =~= Seq::<Seq<char>>::empty());
    }
    if let Some((_, effect_set)) = find_node(node, Pick::Node(SyntaxKind::EffectSet), 0) {
        let mut i: usize = 0;
        proof {
            assert(name_views(effects@) + declared_from(*effect_set, 0) =~= declared(*node));
        }
        while i < effect_set.children.len()
            invariant
                i <= effect_set.children@.len(),
                name_views(effects@) + declared_from(*effect_set, i as nat) == declared(*node),
            decreases effect_set.children@.len() - i,
        {
            let ghost before = name_views(effects@);
            if let SyntaxElement::Node(ident) = &effect_set.children[i] {
                if ident.kind == SyntaxKind::IdentNode {
                    if let Some(name) = find_ident_text(ident) {
                        if is_known_effect(name.as_str()) {
                            effects.push(name);
                            proof {
                                assert(name_views(effects@) =~= before.push(name@));
                            }
                        }
                    }
                }
            }
            proof {
                assert(name_views(effects@) + declared_from(*effect_set, (i + 1) as nat)
                    =~= before + declared_from(*effect_set, i as nat));
            }
            i += 1;
        }
        proof {
            assert(name_views(effects@) + Seq::<Seq<char>>::empty() =~= name_views(effects@));
        }
    }
    effects
}

/// Whether `name` is among `names`.
fn contains(names: &Vec<String>, name: &str) -> (found: bool)
    ensures
        found == name_views(names@).contains(name@),
{
    let mut i: usize = 0;
    while i < names.len()
        invariant
            i <= names@.len(),
            forall|k: int| 0 <= k < i ==> name_views(names@)[k] != name@,
        decreases names@.len() - i,
    {
        if str_eq(names[i].as_str(), name) {
            proof {
                assert(name_views(names@)[i as int] == name@);
            }
            return true;
        }
        i += 1;
    }
    false
}

/// Checks one function: a diagnostic for each use of an effect that the
/// function does not declare.
fn check_fn(node: &SyntaxNode, diagnostics: &mut Vec<Diagnostic>)
    requires
        node_laid_out(*node),
    ensures
        diagnostic_views(final(diagnostics)@) == diagnostic_views(old(diagnostics)@)
            + fn_diagnostics(*node),
{
    let ghost start = diagnostic_views(diagnostics@);
    let names = declared_effects(node);
    if let Some((j, block)) = find_node(node, Pick::Node(SyntaxKind::Block), 0) {
        proof {
            lemma_child_laid_out(*node, j as int, node.children@.len());
        }
        let uses = effects_used_in(block);
        let mut i: usize = 0;
        proof {
            assert(start + reports_from(use_views(uses@), name_views(names@), 0) =~= start
                + fn_diagnostics(*node));
        }
        while i < uses.len()
            invariant
                i <= uses@.len(),
                diagnostic_views(diagnostics@) + reports_from(
                    use_views(uses@),
                    name_views(names@),
                    i as nat,
                ) == start + fn_diagnostics(*node),
            decreases uses@.len() - i,
        {
            let ghost before = diagnostic_views(diagnostics@);
            let (effect, span) = uses[i];
            proof {
                assert(use_views(uses@)[i as int] == (effect@, span.start as int, span.end as int));
            }
            if !contains(&names, effect) {
                let diagnostic = Diagnostic {
                    code: String::from_str("E1001"),
                    message: String::from_str("undeclared effect"),
                    span,
                    required: String::from_str(effect),
                };
                diagnostics.push(diagnostic);
                proof {
                    assert(diagnostic_views(diagnostics@) =~= before.push(diagnostic@));
                }
            }
            proof {
                assert(diagnostic_views(diagnostics@) + reports_from(
                    use_views(uses@),
                    name_views(names@),
                    (i + 1) as nat,
                ) =~= before + reports_from(use_views(uses@), name_views(names@), i as nat));
            }
            i += 1;
        }
        proof {
            assert(diagnostic_views(diagnostics@) + Seq::<DiagnosticView>::empty()
                =~= diagnostic_views(diagnostics@));
        }
    } else {
        proof {
            assert(start + Seq::<DiagnosticView>::empty() =~= start);
        }
    }
}

/// Checks the tree below `root` and hands back its diagnostics.
pub fn check_tree(root: &SyntaxNode) -> (result: CheckResult)
    requires
        node_laid_out(*root),
    ensures
        diagnostic_views(result.diagnostics@) == diagnostics_of(*root),
        ascending(starts(diagnostic_views(result.diagnostics@))),
{
    proof {
        lemma_diagnostics_ascend(*root);
    }
    let mut diagnostics: Vec<Diagnostic> = Vec::new();
    let mut i: usize = 0;
    proof {
        assert(diagnostic_views(diagnostics@) + fns_from(*root, 0) =~= diagnostics_of(*root));
    }
    while i < root.children.len()
        invariant
            i <= root.children@.len(),
            node_laid_out(*root),
            diagnostic_views(diagnostics@) + fns_from(*root, i as nat) == diagnostics_of(*root),
        decreases root.children@.len() - i,
    {
        let ghost before = diagnostic_views(diagnostics@);
        if let SyntaxElement::Node(item) = &root.children[i] {
            if item.kind == SyntaxKind::FnDecl {
                proof {
                    lemma_child_laid_out(*root, i as int, root.children@.len());
                }
                check_fn(item, &mut diagnostics);
            }
        }
        proof {
            assert(diagnostic_views(diagnostics@) + fns_from(*root, (i + 1) as nat) =~= before
                + fns_from(*root, i as nat));
        }
        i += 1;
    }
    proof {
        assert(diagnostic_views(diagnostics@) + Seq::<DiagnosticView>::empty()
            =~= diagnostic_views(diagnostics@));
    }
    CheckResult { diagnostics }
}

/// Effect-checks `source`.
///
/// The source is parsed, errors or not; the diagnostics are those that
/// [`diagnostics_of`] gives for the tree of the source: for each function, a
/// diagnostic for each use of an effect that the function does not declare.
/// None of them starts before one that was reported earlier.
pub fn check(source: &str) -> (result: CheckResult)
    requires
        source.spec_bytes().len() <= MAX_TEXT_LEN,
    ensures
        exists|root: SyntaxNode|
            is_tree_of(root, source@) && diagnostic_views(result.diagnostics@) == diagnostics_of(
                root,
            ),
        ascending(starts(diagnostic_views(result.diagnostics@))),
{
    let parsed = parse(source);
    let root = parsed.syntax();
    let result = check_tree(&root);
    proof {
        assert(is_tree_of(root, source@));
    }
    result
}

} // verus!

//! Parsing a source and handing back what the tree holds: a check that
//! nothing was lost.

use crate::green::MAX_TEXT_LEN;
use crate::parser::{is_tree_of, parse};
use crate::tree::{dump_node, dump_tree, to_string_lossless, SyntaxNode};
use vstd::prelude::*;
use vstd::string::*;

verus! {

/// Parses `source` and returns the text of the tree and its dump.  The text
/// is the source; the dump is that of a `Root` node with that text.
pub fn round_trip(source: &str) -> (r: (String, String))
    requires
        source.spec_bytes().len() <= MAX_TEXT_LEN,
    ensures
        r.0@ == source@,
        exists|root: SyntaxNode| is_tree_of(root, source@) && r.1@ == dump_node(root, Seq::empty()),
{
    let parsed = parse(source);
    let syntax = parsed.syntax();
    let lossless = to_string_lossless(&syntax);
    let tree = dump_tree(&syntax);
    (lossless, tree)
}

} // verus!

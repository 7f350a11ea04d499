//! The tree of syntax nodes that patterns are matched against.
//!
//! A [`Node`] is an owned, immutable view of one node of a concrete syntax
//! tree: its grammar-rule name and identifier, whether the rule is a named
//! (semantically meaningful) one, the exact source text it spans, and its
//! children in source order. A node with no children is a leaf.

use vstd::prelude::*;

verus! {

/// One node of a concrete syntax tree over a source string.
pub struct Node {
    /// Human-readable grammar-rule name.
    pub kind: String,
    /// Identifier of the grammar rule; two nodes produced by the same rule
    /// carry equal identifiers, and comparing them is the primary
    /// type-compatibility check during matching.
    pub kind_id: u64,
    /// Whether the node is a semantically meaningful grammar rule, as opposed
    /// to punctuation or an anonymous token.
    pub named: bool,
    /// The exact source substring spanned by the node.
    pub text: String,
    /// Immediate children, both named and unnamed, in source order.
    pub children: Vec<Node>,
}

impl Node {
    /// A leaf is a node without children.
    pub open spec fn spec_is_leaf(&self) -> bool {
        self.children@.len() == 0
    }

    pub fn is_leaf(&self) -> (r: bool)
        ensures
            r == self.spec_is_leaf(),
    {
        self.children.len() == 0
    }
}

/// Whether `n` occurs in the subtree rooted at `root` (including `root`
/// itself); pre-order search and the laws about it are stated with this.
pub open spec fn in_subtree(n: Node, root: Node) -> bool
    decreases root, 1int, 0int,
{
    n == root || in_subtree_from(n, root, 0)
}

/// Whether `n` occurs in a subtree rooted at one of `root`'s children with
/// index `i` or greater.
pub open spec fn in_subtree_from(n: Node, root: Node, i: int) -> bool
    decreases root, 0int, root.children@.len() - i,
{
    if i < 0 || i >= root.children@.len() {
        false
    } else {
        in_subtree(n, root.children@[i]) || in_subtree_from(n, root, i + 1)
    }
}

/// Compares two string slices by their character sequences.
pub fn str_eq(a: &str, b: &str) -> (r: bool)
    ensures
        r == (a@ == b@),
{
    let la = a.unicode_len();
    let lb = b.unicode_len();
    if la != lb {
        return false;
    }
    let mut i: usize = 0;
    while i < la
        invariant
            la == a@.len(),
            lb == b@.len(),
            la == lb,
            i <= la,
            forall|j: int| 0 <= j < i ==> a@[j] == b@[j],
        decreases la - i,
    {
        if a.get_char(i) != b.get_char(i) {
            return false;
        }
        i += 1;
    }
    proof {
        assert(a@ =~= b@);
    }
    true
}

} // verus!

//! The arena-indexed concrete syntax tree that a projection run works on.
//!
//! A node's identifier is its position in the arena. Well-formedness asks
//! only that the root stands first and that every other node points at a
//! parent with a smaller index, so the parent relation is acyclic and every
//! node's parent is materialized before the node itself. Sibling order in
//! the arena follows source order: the arena is laid out in preorder.

use vstd::prelude::*;

verus! {

/// The six span coordinates of a node: a half-open byte range plus
/// zero-indexed start and end row/column positions.
#[derive(Clone, Copy, PartialEq, Eq, Structural, Debug)]
pub struct Span {
    pub start_byte: usize,
    pub end_byte: usize,
    pub start_row: usize,
    pub start_column: usize,
    pub end_row: usize,
    pub end_column: usize,
}

/// One syntax node as stored in the arena. `parent` is `None` exactly for
/// the root; `field` is the grammatical role this node plays under its
/// parent, if the grammar names one.
pub struct NodeRec {
    pub parent: Option<usize>,
    pub field: Option<String>,
    pub kind: String,
    pub named: bool,
    pub text: String,
    pub span: Span,
}

/// The mathematical image of one node: strings as character sequences,
/// the parent index as an unbounded integer.
#[verifier::ext_equal]
pub ghost struct NodeView {
    pub parent: Option<int>,
    pub field: Option<Seq<char>>,
    pub kind: Seq<char>,
    pub named: bool,
    pub text: Seq<char>,
    pub span: Span,
}

impl View for NodeRec {
    type V = NodeView;

    open spec fn view(&self) -> NodeView {
        NodeView {
            parent: match self.parent {
                Some(p) => Some(p as int),
                None => None,
            },
            field: match self.field {
                Some(f) => Some(f@),
                None => None,
            },
            kind: self.kind@,
            named: self.named,
            text: self.text@,
            span: self.span,
        }
    }
}

/// Well-formedness of an arena: nonempty, the first node is the root
/// (no parent, no field role), and every later node names a parent that
/// stands strictly before it.
pub open spec fn wf_arena(s: Seq<NodeView>) -> bool {
    &&& s.len() >= 1
    &&& s[0].parent is None
    &&& s[0].field is None
    &&& forall|i: int|
        1 <= i < s.len() ==> ((#[trigger] s[i].parent) matches Some(p) && 0 <= p < i)
}

/// A concrete syntax tree in arena form. Constructed only through
/// [`SyntaxTree::new`], which admits exactly the well-formed arenas.
pub struct SyntaxTree {
    nodes: Vec<NodeRec>,
}

impl View for SyntaxTree {
    type V = Seq<NodeView>;

    closed spec fn view(&self) -> Seq<NodeView> {
        self.nodes@.map_values(|n: NodeRec| n@)
    }
}

impl SyntaxTree {
    /// The tree's well-formedness: the type's invariant, established by the
    /// constructor and preserved thereafter (the arena is never mutated).
    pub open spec fn wf(&self) -> bool {
        wf_arena(self@)
    }

    /// Builds a tree from an arena, accepting it exactly when it is
    /// well-formed: node 0 a parentless, roleless root, every other node
    /// with a parent index smaller than its own.
    pub fn new(nodes: Vec<NodeRec>) -> (r: Option<SyntaxTree>)
        ensures
            match r {
                Some(t) => t@ == nodes@.map_values(|n: NodeRec| n@) && t.wf(),
                None => !wf_arena(nodes@.map_values(|n: NodeRec| n@)),
            },
    {
        let ghost view: Seq<NodeView> = nodes@.map_values(|n: NodeRec| n@);
        if nodes.len() == 0 {
            return None;
        }
        if nodes[0].parent.is_some() || nodes[0].field.is_some() {
            return None;
        }
        let n = nodes.len();
        let mut i: usize = 1;
        while i < n
            invariant
                1 <= i <= n,
                n == nodes.len(),
                view == nodes@.map_values(|n: NodeRec| n@),
                forall|k: int|
                    1 <= k < i ==> ((#[trigger] view[k].parent) matches Some(p) && 0 <= p < k),
            decreases n - i,
        {
            proof {
                assert(view[i as int] == nodes@[i as int]@);
            }
            match nodes[i].parent {
                Some(p) => {
                    if p >= i {
                        assert(!wf_arena(view));
                        return None;
                    }
                },
                None => {
                    assert(!wf_arena(view));
                    return None;
                },
            }
            i += 1;
        }
        Some(SyntaxTree { nodes })
    }

    /// The number of nodes in the tree.
    pub fn len(&self) -> (r: usize)
        ensures
            r == self@.len(),
    {
        self.nodes.len()
    }

    /// Read access to one node of the arena.
    pub fn node(&self, i: usize) -> (r: &NodeRec)
        requires
            i < self@.len(),
        ensures
            r@ == self@[i as int],
    {
        &self.nodes[i]
    }

    /// The children of node `p`, in source order: their indices (each
    /// child's field role stands on the child itself).
    #[verifier::loop_isolation(false)]
    pub fn children(&self, p: usize) -> (r: Vec<usize>)
        requires
            p < self@.len(),
        ensures
            r@.map_values(|u: usize| u as int) == spec_children(self@, p as int),
    {
        let mut r: Vec<usize> = Vec::new();
        let n = self.nodes.len();
        let mut i: usize = 0;
        while i < n
            invariant
                i <= n,
                r@.map_values(|u: usize| u as int) == children_upto(self@, p as int, i as int),
            decreases n - i,
        {
            let is_child = match self.nodes[i].parent {
                Some(q) => q == p,
                None => false,
            };
            if is_child {
                proof {
                    assert(r@.push(i).map_values(|u: usize| u as int) =~= r@.map_values(
                        |u: usize| u as int,
                    ) + seq![i as int]);
                }
                r.push(i);
            } else {
                proof {
                    assert(children_upto(self@, p as int, i as int + 1) =~= children_upto(
                        self@,
                        p as int,
                        i as int,
                    ));
                }
            }
            i += 1;
        }
        r
    }
}

/// The indices below `n` of the nodes whose parent is `p`, ascending.
pub open spec fn children_upto(s: Seq<NodeView>, p: int, n: int) -> Seq<int>
    decreases n,
{
    if n <= 0 {
        Seq::empty()
    } else {
        children_upto(s, p, n - 1) + if s[n - 1].parent == Some(p) {
            seq![n - 1]
        } else {
            Seq::empty()
        }
    }
}

/// The indices of the children of node `p`, in source order (the arena is
/// laid out in preorder, so sibling order is index order).
pub open spec fn spec_children(s: Seq<NodeView>, p: int) -> Seq<int> {
    children_upto(s, p, s.len() as int)
}

} // verus!

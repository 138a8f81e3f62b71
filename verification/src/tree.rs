//! The document tree, as an arena in which every node's parent precedes it.
//! Node 0 is the root, and index order is a parent-before-children visiting
//! order, so a single forward pass resolves each node after its parent.

use vstd::prelude::*;

use crate::properties::{Declaration, valid_declarations};

verus! {

/// One node of the document tree: its parent link, whether it is a styleable
/// element, and its inline style override.
pub struct NodeData {
    pub parent: Option<usize>,
    pub is_element: bool,
    pub inline_style: Option<Vec<Declaration>>,
}

pub struct DocumentTree {
    nodes: Vec<NodeData>,
}

impl DocumentTree {
    pub closed spec fn nodes_spec(&self) -> Seq<NodeData> {
        self.nodes@
    }

    pub open spec fn len_spec(&self) -> int {
        self.nodes_spec().len() as int
    }

    pub open spec fn node_spec(&self, i: int) -> NodeData {
        self.nodes_spec()[i]
    }

    /// The parent's index, or -1 for the root.
    pub open spec fn parent_spec(&self, i: int) -> int {
        match self.node_spec(i).parent {
            Some(p) => p as int,
            None => -1,
        }
    }

    pub open spec fn inline_spec(&self, i: int) -> Option<Seq<Declaration>> {
        match self.node_spec(i).inline_style {
            Some(v) => Some(v@),
            None => None,
        }
    }

    pub open spec fn node_wf(&self, i: int) -> bool {
        &&& (i == 0 <==> self.node_spec(i).parent is None)
        &&& (0 < i ==> 0 <= self.parent_spec(i) < i)
        &&& match self.inline_spec(i) {
            Some(s) => valid_declarations(s),
            None => true,
        }
    }

    pub open spec fn wf(&self) -> bool {
        &&& 1 <= self.len_spec()
        &&& forall|i: int| 0 <= i < self.len_spec() ==> #[trigger] self.node_wf(i)
    }

    pub fn len(&self) -> (n: usize)
        ensures
            n == self.len_spec(),
    {
        self.nodes.len()
    }

    pub fn is_element(&self, i: usize) -> (r: bool)
        requires
            i < self.len_spec(),
        ensures
            r == self.node_spec(i as int).is_element,
    {
        self.nodes[i].is_element
    }

    pub fn parent_of(&self, i: usize) -> (r: Option<usize>)
        requires
            i < self.len_spec(),
        ensures
            r == self.node_spec(i as int).parent,
    {
        self.nodes[i].parent
    }

    pub fn inline_style_of(&self, i: usize) -> (r: &Option<Vec<Declaration>>)
        requires
            i < self.len_spec(),
        ensures
            *r == self.node_spec(i as int).inline_style,
    {
        &self.nodes[i].inline_style
    }

    /// A tree holding only a root node.
    pub fn new(root_is_element: bool, root_inline: Option<Vec<Declaration>>) -> (t: Self)
        requires
            match root_inline {
                Some(v) => valid_declarations(v@),
                None => true,
            },
        ensures
            t.wf(),
            t.len_spec() == 1,
            t.node_spec(0).is_element == root_is_element,
            t.inline_spec(0) == match root_inline {
                Some(v) => Some(v@),
                None => None::<Seq<Declaration>>,
            },
    {
        let mut nodes: Vec<NodeData> = Vec::new();
        nodes.push(NodeData { parent: None, is_element: root_is_element, inline_style: root_inline });
        DocumentTree { nodes }
    }

    /// Append a new child of `parent`; returns its index. Children always
    /// receive larger indices than their parent, which keeps index order a
    /// valid resolution order.
    pub fn add_child(&mut self, parent: usize, is_element: bool, inline_style: Option<
        Vec<Declaration>,
    >) -> (id: usize)
        requires
            old(self).wf(),
            parent < old(self).len_spec(),
            old(self).len_spec() < usize::MAX,
            match inline_style {
                Some(v) => valid_declarations(v@),
                None => true,
            },
        ensures
            final(self).wf(),
            final(self).len_spec() == old(self).len_spec() + 1,
            id == old(self).len_spec(),
            forall|i: int| 0 <= i < old(self).len_spec() ==> final(self).node_spec(i) == old(self).node_spec(i),
            final(self).node_spec(id as int).parent == Some(parent),
            final(self).node_spec(id as int).is_element == is_element,
            final(self).node_spec(id as int).inline_style == inline_style,
    {
        let id = self.nodes.len();
        self.nodes.push(NodeData { parent: Some(parent), is_element, inline_style });
        proof {
            assert forall|i: int| 0 <= i < final(self).len_spec() implies #[trigger] final(self).node_wf(i) by {
                if i < id {
                    assert(old(self).node_wf(i));
                }
            }
        }
        id
    }

    /// Whether `i` lies in the subtree rooted at `root` (including `root`).
    pub open spec fn in_subtree(&self, root: int, i: int) -> bool
        decreases i,
    {
        if i == root {
            true
        } else if 0 < i < self.len_spec() && 0 <= self.parent_spec(i) < i {
            self.in_subtree(root, self.parent_spec(i))
        } else {
            false
        }
    }

    pub fn node_in_subtree(&self, root: usize, i: usize) -> (r: bool)
        requires
            self.wf(),
            root < self.len_spec(),
            i < self.len_spec(),
        ensures
            r == self.in_subtree(root as int, i as int),
    {
        let mut j = i;
        loop
            invariant
                self.wf(),
                j < self.len_spec(),
                self.in_subtree(root as int, i as int) == self.in_subtree(root as int, j as int),
            decreases j,
        {
            if j == root {
                return true;
            }
            if j == 0 {
                return false;
            }
            assert(self.node_wf(j as int));
            match self.parent_of(j) {
                Some(p) => {
                    j = p;
                },
                None => {
                    proof {
                        assert(false);
                    }
                    return false;
                },
            }
        }
    }

    /// Every node of the subtree rooted at `root` has index at least `root`.
    pub proof fn lemma_in_subtree_bounds(&self, root: int, i: int)
        requires
            self.wf(),
            0 <= i < self.len_spec(),
            self.in_subtree(root, i),
        ensures
            root <= i,
            0 <= root,
        decreases i,
    {
        if i != root {
            assert(self.node_wf(i));
            self.lemma_in_subtree_bounds(root, self.parent_spec(i));
        }
    }

    /// Every node lies in the subtree of the root node.
    pub proof fn lemma_root_subtree_all(&self, i: int)
        requires
            self.wf(),
            0 <= i < self.len_spec(),
        ensures
            self.in_subtree(0, i),
        decreases i,
    {
        if i != 0 {
            assert(self.node_wf(i));
            self.lemma_root_subtree_all(self.parent_spec(i));
        }
    }

    /// Two subtrees neither of whose roots lies in the other are disjoint.
    pub proof fn lemma_disjoint_subtrees(&self, a: int, b: int, i: int)
        requires
            self.wf(),
            0 <= a < self.len_spec(),
            0 <= b < self.len_spec(),
            !self.in_subtree(a, b),
            !self.in_subtree(b, a),
            0 <= i < self.len_spec(),
        ensures
            !(self.in_subtree(a, i) && self.in_subtree(b, i)),
        decreases i,
    {
        if self.in_subtree(a, i) && self.in_subtree(b, i) {
            if i == a {
            } else if i == b {
            } else {
                assert(self.node_wf(i));
                self.lemma_disjoint_subtrees(a, b, self.parent_spec(i));
            }
        }
    }
}

} // verus!

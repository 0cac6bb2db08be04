//! The scene graph: a tree of nodes with parent/child links, cycle
//! prevention, and depth-first traversal.
//!
//! Nodes live in one arena and are addressed by stable handles, so that
//! a node is reachable both from its parent's child list and from any
//! handle the caller keeps, while the parent link stays a plain
//! back-reference that cannot keep anything alive. Identity is handle
//! identity. The arena keeps, as ghost state, the depth of every node
//! below its root; the well-formedness invariant ties each node's depth
//! to its parent's and thereby rules out cycles.

use vstd::prelude::*;
use vstd::set_lib::lemma_int_range;
use vstd::set_lib::lemma_len_subset;
use vstd::set_lib::set_int_range;

use crate::event::Callback;

verus! {

/// Error returned when a node cannot be attached.
#[derive(Debug, Clone, Copy, PartialEq, Eq, Structural)]
pub enum TreeError {
    /// The node to attach is the intended parent itself or one of the
    /// intended parent's ancestors: attaching it would close a cycle.
    Cycle,
    /// The node to attach already has a parent.
    AlreadyAttached,
}

/// A handle to one node of a [`NodeTree`]. Two handles name the same
/// node exactly when their ids are equal.
#[derive(Debug, Clone, Copy, PartialEq, Eq, Structural)]
pub struct Node {
    pub id: usize,
}

/// The per-node pluggable behavior: what a node does when the traversal
/// reaches it, and the callback bound to it.
///
/// `process` is the behavior's own step; `call_method` invokes the
/// bound callback, if any; `bind_method` replaces the bound callback,
/// discarding the previous one. Each implementation says, as the spec
/// function `bound`, which callback it holds, and `bind_method`'s
/// contract pins the binding: afterwards exactly the offered callback
/// is bound.
pub trait Processable {
    /// The type of callback this behavior can hold.
    type Method;

    /// The callback currently bound to this behavior, if any.
    spec fn bound(&self) -> Option<Self::Method>;

    /// The behavior's own step, run when the traversal reaches the
    /// node.
    fn process(&self, node: Node);

    /// Replaces the bound callback; the previous one is dropped.
    fn bind_method(&mut self, method: Self::Method)
        ensures
            final(self).bound() == Some(method),
    ;

    /// Invokes the bound callback, if any.
    fn call_method(&self, node: Node);
}

/// The default no-op behavior: its own step does nothing, and it simply
/// invokes its bound callback if one is set.
pub struct Null<M> {
    method: Option<M>,
}

impl<M: Callback<Node>> Null<M> {
    /// A fresh no-op behavior with no callback bound.
    pub fn new() -> (r: Self)
        ensures
            r.bound() is None,
    {
        Null { method: None }
    }

    /// A copy of a behavior, without its bound callback: duplicating a
    /// behavior never carries the callback over, so a copy must be
    /// re-bound by hand.
    pub fn duplicate(&self) -> (r: Self)
        ensures
            r.bound() is None,
    {
        Null { method: None }
    }
}

impl<M: Callback<Node>> Processable for Null<M> {
    type Method = M;

    closed spec fn bound(&self) -> Option<M> {
        self.method
    }

    fn process(&self, node: Node) {
    }

    fn bind_method(&mut self, method: M) {
        self.method = Some(method);
    }

    fn call_method(&self, node: Node) {
        match &self.method {
            Some(m) => m.call(node),
            None => {},
        }
    }
}

/// An object that a node can draw and free, besides being processed.
/// The library itself draws nothing: implementations belong to the
/// rendering layer around it.
pub trait Object: Processable {
    /// Draws the object.
    fn draw(&self);

    /// Releases the object's resources.
    fn free(&self);

    /// Releases the object's resources, checking that it is safe to do
    /// so.
    fn free_safe(&self);
}

struct NodeData<O> {
    parent: Option<usize>,
    children: Vec<usize>,
    obj: O,
}

/// The arena that holds every node of one scene graph.
pub struct NodeTree<O> {
    nodes: Vec<NodeData<O>>,
    depths: Ghost<Map<int, nat>>,
}

impl<O: Processable> NodeTree<O> {
    /// How many nodes the arena holds.
    pub closed spec fn n(&self) -> int {
        self.nodes@.len() as int
    }

    /// Whether `i` names a node of this arena.
    pub open spec fn valid(&self, i: int) -> bool {
        0 <= i < self.n()
    }

    /// The parent link of node `i`.
    pub closed spec fn par(&self, i: int) -> Option<int> {
        match self.nodes@[i].parent {
            None => None,
            Some(p) => Some(p as int),
        }
    }

    /// The child list of node `i`, in insertion order.
    pub closed spec fn kids(&self, i: int) -> Seq<int> {
        self.nodes@[i].children@.map_values(|c: usize| c as int)
    }

    /// The behavior object bound to node `i`.
    pub closed spec fn obj_of(&self, i: int) -> O {
        self.nodes@[i].obj
    }

    /// The ghost depth of node `i`: its distance from the root of its
    /// tree.
    pub closed spec fn dep(&self, i: int) -> nat {
        self.depths@[i]
    }

    /// A root has depth zero; any other node sits one level below its
    /// parent, which is a node of the arena other than itself.
    pub closed spec fn depth_ok(&self, i: int) -> bool {
        match self.par(i) {
            None => self.dep(i) == 0,
            Some(p) => self.valid(p) && p != i && self.dep(i) == self.dep(p) + 1,
        }
    }

    /// Every child of `i` is a node of the arena whose parent link
    /// points back at `i`, and no node appears twice in the list.
    pub closed spec fn kids_ok(&self, i: int) -> bool {
        &&& forall|k: int|
            0 <= k < self.kids(i).len() ==> self.valid(#[trigger] self.kids(i)[k]) && self.par(
                self.kids(i)[k],
            ) == Some(i)
        &&& forall|k1: int, k2: int|
            #![trigger self.kids(i)[k1], self.kids(i)[k2]]
            0 <= k1 < self.kids(i).len() && 0 <= k2 < self.kids(i).len() && k1 != k2
                ==> self.kids(i)[k1] != self.kids(i)[k2]
    }

    /// A node with a parent is listed among that parent's children.
    pub closed spec fn in_kids_ok(&self, i: int) -> bool {
        match self.par(i) {
            None => true,
            Some(p) => self.kids(p).contains(i),
        }
    }

    /// The tree invariant: parent and child links are mutually
    /// consistent, and the ghost depths certify that following parent
    /// links always walks toward a root, so the graph is a forest.
    pub closed spec fn wf(&self) -> bool {
        &&& forall|i: int| self.valid(i) ==> #[trigger] self.depth_ok(i)
        &&& forall|i: int| self.valid(i) ==> #[trigger] self.kids_ok(i)
        &&& forall|i: int| self.valid(i) ==> #[trigger] self.in_kids_ok(i)
    }

    /// Hands out the invariant's three clauses for one node.
    proof fn use_wf(&self, i: int)
        requires
            self.wf(),
            self.valid(i),
        ensures
            self.depth_ok(i),
            self.kids_ok(i),
            self.in_kids_ok(i),
    {
    }

    /// Whether `a` is a strict ancestor of `i`: walking parent links up
    /// from `i` reaches `a`.
    pub open spec fn is_ancestor(&self, i: int, a: int) -> bool
        decreases self.dep(i),
        when self.wf() && self.valid(i)
        via Self::is_ancestor_decreases
    {
        match self.par(i) {
            None => false,
            Some(p) => p == a || self.is_ancestor(p, a),
        }
    }

    #[via_fn]
    proof fn is_ancestor_decreases(&self, i: int, a: int) {
        self.use_wf(i);
    }

    /// Whether `i` lies in the subtree rooted at `root`: it is `root`
    /// itself or a descendant of it.
    pub open spec fn in_subtree(&self, root: int, i: int) -> bool {
        i == root || self.is_ancestor(i, root)
    }

    /// A strict ancestor is a node of the arena and sits strictly
    /// closer to the root.
    proof fn lemma_ancestor_depth(&self, i: int, a: int)
        requires
            self.wf(),
            self.valid(i),
            self.is_ancestor(i, a),
        ensures
            self.valid(a),
            self.dep(a) < self.dep(i),
        decreases self.dep(i),
    {
        self.use_wf(i);
        match self.par(i) {
            None => {},
            Some(p) => {
                if p == a {
                } else {
                    self.lemma_ancestor_depth(p, a);
                }
            },
        }
    }

    /// The node `i` together with all its strict ancestors.
    spec fn chain_set(&self, i: int) -> Set<int>
        decreases self.dep(i),
        when self.wf() && self.valid(i)
        via Self::chain_set_decreases
    {
        match self.par(i) {
            None => set![i],
            Some(p) => self.chain_set(p).insert(i),
        }
    }

    #[via_fn]
    proof fn chain_set_decreases(&self, i: int) {
        self.use_wf(i);
    }

    /// The chain from a node to its root is one node per depth level.
    proof fn lemma_chain_set(&self, i: int)
        requires
            self.wf(),
            self.valid(i),
        ensures
            self.chain_set(i).finite(),
            self.chain_set(i).len() == self.dep(i) + 1,
            self.chain_set(i).subset_of(set_int_range(0, self.n())),
            forall|j: int|
                self.chain_set(i).contains(j) ==> j == i || self.is_ancestor(i, j),
        decreases self.dep(i),
    {
        self.use_wf(i);
        match self.par(i) {
            None => {
                assert(self.chain_set(i) =~= set![i]);
            },
            Some(p) => {
                self.lemma_chain_set(p);
                if self.chain_set(p).contains(i) {
                    assert(i == p || self.is_ancestor(p, i));
                    assert(self.is_ancestor(i, i));
                    self.lemma_ancestor_depth(i, i);
                }
                assert(!self.chain_set(p).contains(i));
                assert forall|j: int| self.chain_set(i).contains(j) implies j == i
                    || self.is_ancestor(i, j) by {
                    if j != i {
                        assert(self.chain_set(p).contains(j));
                        assert(j == p || self.is_ancestor(p, j));
                        assert(self.is_ancestor(i, j));
                    }
                }
            },
        }
    }

    /// No node sits deeper than the size of the arena allows: a chain
    /// of distinct nodes cannot be longer than the arena.
    proof fn lemma_depth_bound(&self, i: int)
        requires
            self.wf(),
            self.valid(i),
        ensures
            self.dep(i) < self.n(),
    {
        self.lemma_chain_set(i);
        lemma_int_range(0, self.n());
        lemma_len_subset(self.chain_set(i), set_int_range(0, self.n()));
    }

    /// The nodes of the subtree rooted at `i`, in depth-first pre-order:
    /// first `i` itself, then each child's subtree, children in
    /// insertion order.
    pub open spec fn preorder(&self, i: int) -> Seq<int>
        decreases self.n() - self.dep(i), self.kids(i).len() + 1,
        when self.wf() && self.valid(i)
        via Self::preorder_decreases
    {
        seq![i] + self.preorder_kids(i, 0)
    }

    /// The concatenation of the pre-order traversals of the subtrees of
    /// the children of `i`, starting from child position `k`.
    pub open spec fn preorder_kids(&self, i: int, k: int) -> Seq<int>
        decreases self.n() - self.dep(i), self.kids(i).len() - k,
        when self.wf() && self.valid(i)
        via Self::preorder_kids_decreases
    {
        if 0 <= k < self.kids(i).len() {
            self.preorder(self.kids(i)[k]) + self.preorder_kids(i, k + 1)
        } else {
            Seq::empty()
        }
    }

    #[via_fn]
    proof fn preorder_decreases(&self, i: int) {
        if self.wf() && self.valid(i) {
            self.lemma_depth_bound(i);
        }
    }

    #[via_fn]
    proof fn preorder_kids_decreases(&self, i: int, k: int) {
        if self.wf() && self.valid(i) {
            self.use_wf(i);
            self.lemma_depth_bound(i);
            if 0 <= k < self.kids(i).len() {
                let c = self.kids(i)[k];
                self.use_wf(c);
                self.lemma_depth_bound(c);
            }
        }
    }

    /// An empty scene graph.
    pub fn new() -> (tree: Self)
        ensures
            tree.wf(),
            tree.n() == 0,
    {
        NodeTree { nodes: Vec::new(), depths: Ghost(Map::new(|j: int| true, |j: int| 0nat)) }
    }

    /// A tree with the same shape and depths stays well-formed.
    proof fn lemma_wf_preserved(a: &Self, b: &Self)
        requires
            a.wf(),
            b.n() == a.n(),
            forall|i: int| a.valid(i) ==> #[trigger] b.par(i) == a.par(i),
            forall|i: int| a.valid(i) ==> #[trigger] b.kids(i) == a.kids(i),
            forall|i: int| a.valid(i) ==> #[trigger] b.dep(i) == a.dep(i),
        ensures
            b.wf(),
    {
        assert forall|i: int| b.valid(i) implies #[trigger] b.depth_ok(i) by {
            a.use_wf(i);
            assert(b.par(i) == a.par(i));
            match a.par(i) {
                None => {},
                Some(p) => {
                    assert(b.dep(p) == a.dep(p));
                },
            }
        }
        assert forall|i: int| b.valid(i) implies #[trigger] b.kids_ok(i) by {
            a.use_wf(i);
            assert(b.kids(i) == a.kids(i));
            assert forall|k: int| 0 <= k < b.kids(i).len() implies b.valid(
                #[trigger] b.kids(i)[k],
            ) && b.par(b.kids(i)[k]) == Some(i) by {
                let c = a.kids(i)[k];
                assert(a.valid(c) && a.par(c) == Some(i));
                assert(b.par(c) == a.par(c));
            }
        }
        assert forall|i: int| b.valid(i) implies #[trigger] b.in_kids_ok(i) by {
            a.use_wf(i);
            match a.par(i) {
                None => {},
                Some(p) => {
                    assert(b.kids(p) == a.kids(p));
                },
            }
        }
    }

    /// The facts the tree invariant gives a caller about one node: no
    /// node is its own ancestor — in particular, never its own parent,
    /// so detaching a node cannot touch that node's own child list —
    /// its parent, if it has one, is another node of the arena that
    /// lists it among its children, and its children are nodes of the
    /// arena other than itself that point back at it, each listed once.
    pub proof fn lemma_wf_node(&self, i: int)
        requires
            self.wf(),
            self.valid(i),
        ensures
            !self.is_ancestor(i, i),
            match self.par(i) {
                None => true,
                Some(p) => self.valid(p) && p != i && self.kids(p).contains(i),
            },
            forall|k: int|
                0 <= k < self.kids(i).len() ==> self.valid(#[trigger] self.kids(i)[k]) && self.par(
                    self.kids(i)[k],
                ) == Some(i) && self.kids(i)[k] != i,
            forall|k1: int, k2: int|
                #![trigger self.kids(i)[k1], self.kids(i)[k2]]
                0 <= k1 < self.kids(i).len() && 0 <= k2 < self.kids(i).len() && k1 != k2
                    ==> self.kids(i)[k1] != self.kids(i)[k2],
    {
        self.use_wf(i);
        if self.is_ancestor(i, i) {
            self.lemma_ancestor_depth(i, i);
        }
        assert forall|k: int| 0 <= k < self.kids(i).len() implies self.valid(
            #[trigger] self.kids(i)[k],
        ) && self.par(self.kids(i)[k]) == Some(i) && self.kids(i)[k] != i by {
            if self.kids(i)[k] == i {
                assert(self.par(i) == Some(i));
                assert(self.depth_ok(i));
            }
        }
    }

    /// Whether a non-root node lies in the subtree of `c` is decided at
    /// its parent.
    proof fn lemma_subtree_step(&self, c: int, j: int)
        requires
            self.wf(),
            self.valid(j),
            j != c,
        ensures
            self.in_subtree(c, j) <==> (match self.par(j) {
                None => false,
                Some(q) => self.in_subtree(c, q),
            }),
    {
        self.use_wf(j);
    }

    /// A tree re-rooted by one attachment stays well-formed: the
    /// attached subtree's depths shift down by the new parent's depth
    /// plus one, and nothing else moves.
    proof fn lemma_attach_wf(t0: &Self, t1: &Self, p: int, c: int)
        requires
            t0.wf(),
            t0.valid(p),
            t0.valid(c),
            c != p,
            !t0.is_ancestor(p, c),
            t0.par(c) is None,
            t1.n() == t0.n(),
            t1.par(c) == Some(p),
            forall|j: int| t0.valid(j) && j != c ==> #[trigger] t1.par(j) == t0.par(j),
            t1.kids(p) == t0.kids(p).push(c),
            forall|j: int| t0.valid(j) && j != p ==> #[trigger] t1.kids(j) == t0.kids(j),
            forall|j: int|
                t0.valid(j) ==> #[trigger] t1.dep(j) == if t0.in_subtree(c, j) {
                    (t0.dep(j) + t0.dep(p) + 1) as nat
                } else {
                    t0.dep(j)
                },
        ensures
            t1.wf(),
    {
        assert(!t0.in_subtree(c, p));
        assert forall|j: int| t1.valid(j) implies #[trigger] t1.depth_ok(j) by {
            t0.use_wf(j);
            t0.use_wf(c);
            t0.use_wf(p);
            if j == c {
                assert(t0.in_subtree(c, c));
                assert(t0.dep(c) == 0);
                assert(t1.dep(c) == t0.dep(p) + 1);
                assert(t1.dep(p) == t0.dep(p));
            } else {
                assert(t1.par(j) == t0.par(j));
                match t0.par(j) {
                    None => {
                        assert(!t0.in_subtree(c, j));
                    },
                    Some(q) => {
                        t0.lemma_subtree_step(c, j);
                        assert(t0.in_subtree(c, j) <==> t0.in_subtree(c, q));
                        assert(q != c ==> t1.dep(q) == if t0.in_subtree(c, q) {
                            (t0.dep(q) + t0.dep(p) + 1) as nat
                        } else {
                            t0.dep(q)
                        });
                        if q == c {
                            assert(t0.dep(c) == 0);
                            assert(t0.dep(j) == 1);
                        }
                    },
                }
            }
        }
        assert forall|j: int| t1.valid(j) implies #[trigger] t1.kids_ok(j) by {
            t0.use_wf(j);
            if j == p {
                assert forall|k: int| 0 <= k < t1.kids(p).len() implies t1.valid(
                    #[trigger] t1.kids(p)[k],
                ) && t1.par(t1.kids(p)[k]) == Some(p) by {
                    if k < t0.kids(p).len() {
                        let e = t0.kids(p)[k];
                        assert(t0.valid(e) && t0.par(e) == Some(p));
                        assert(e != c);
                    } else {
                        assert(t1.kids(p)[k] == c);
                    }
                }
                assert forall|k1: int, k2: int|
                    #![trigger t1.kids(p)[k1], t1.kids(p)[k2]]
                    0 <= k1 < t1.kids(p).len() && 0 <= k2 < t1.kids(p).len() && k1
                        != k2 implies t1.kids(p)[k1] != t1.kids(p)[k2] by {
                    if k1 < t0.kids(p).len() && k2 < t0.kids(p).len() {
                        assert(t0.kids(p)[k1] != t0.kids(p)[k2]);
                    } else if k1 < t0.kids(p).len() {
                        assert(t0.par(t0.kids(p)[k1]) == Some(p));
                    } else if k2 < t0.kids(p).len() {
                        assert(t0.par(t0.kids(p)[k2]) == Some(p));
                    }
                }
            } else {
                assert(t1.kids(j) == t0.kids(j));
                assert forall|k: int| 0 <= k < t1.kids(j).len() implies t1.valid(
                    #[trigger] t1.kids(j)[k],
                ) && t1.par(t1.kids(j)[k]) == Some(j) by {
                    let e = t0.kids(j)[k];
                    assert(t0.valid(e) && t0.par(e) == Some(j));
                    assert(e != c);
                }
            }
        }
        assert forall|j: int| t1.valid(j) implies #[trigger] t1.in_kids_ok(j) by {
            t0.use_wf(j);
            if j == c {
                assert(t1.kids(p)[t0.kids(p).len() as int] == c);
                assert(t1.kids(p).contains(c));
            } else {
                match t0.par(j) {
                    None => {},
                    Some(q) => {
                        assert(t0.kids(q).contains(j));
                        let m = choose|m: int|
                            0 <= m < t0.kids(q).len() && t0.kids(q)[m] == j;
                        if q == p {
                            assert(t1.kids(p)[m] == j);
                        } else {
                            assert(t1.kids(q)[m] == j);
                        }
                        assert(t1.kids(q).contains(j));
                    },
                }
            }
        }
    }

    /// A tree with one subtree cut loose stays well-formed: the
    /// detached subtree's depths shift up to make the cut node a root,
    /// and nothing else moves.
    proof fn lemma_detach_wf(t0: &Self, t1: &Self, p: int, c: int, k0: int)
        requires
            t0.wf(),
            t0.valid(c),
            t0.valid(p),
            t0.par(c) == Some(p),
            t1.n() == t0.n(),
            t1.par(c) is None,
            forall|j: int| t0.valid(j) && j != c ==> #[trigger] t1.par(j) == t0.par(j),
            0 <= k0 < t0.kids(p).len(),
            t0.kids(p)[k0] == c,
            t1.kids(p) == t0.kids(p).remove(k0),
            forall|j: int| t0.valid(j) && j != p ==> #[trigger] t1.kids(j) == t0.kids(j),
            forall|j: int|
                t0.valid(j) ==> #[trigger] t1.dep(j) == if t0.in_subtree(c, j) {
                    (t0.dep(j) - t0.dep(c)) as nat
                } else {
                    t0.dep(j)
                },
        ensures
            t1.wf(),
    {
        assert forall|j: int| t1.valid(j) implies #[trigger] t1.depth_ok(j) by {
            t0.use_wf(j);
            if j == c {
                assert(t0.in_subtree(c, c));
            } else {
                assert(t1.par(j) == t0.par(j));
                match t0.par(j) {
                    None => {
                        assert(!t0.in_subtree(c, j));
                    },
                    Some(q) => {
                        t0.lemma_subtree_step(c, j);
                        assert(t0.in_subtree(c, j) <==> t0.in_subtree(c, q));
                        if t0.in_subtree(c, j) {
                            assert(t0.is_ancestor(j, c));
                            t0.lemma_ancestor_depth(j, c);
                            if q != c {
                                assert(t0.is_ancestor(q, c));
                                t0.lemma_ancestor_depth(q, c);
                            }
                        }
                    },
                }
            }
        }
        assert forall|j: int| t1.valid(j) implies #[trigger] t1.kids_ok(j) by {
            t0.use_wf(j);
            if j == p {
                assert forall|k: int| 0 <= k < t1.kids(p).len() implies t1.valid(
                    #[trigger] t1.kids(p)[k],
                ) && t1.par(t1.kids(p)[k]) == Some(p) by {
                    let ko: int = if k < k0 {
                        k
                    } else {
                        k + 1
                    };
                    assert(t1.kids(p)[k] == t0.kids(p)[ko]);
                    let e = t0.kids(p)[ko];
                    assert(t0.valid(e) && t0.par(e) == Some(p));
                    assert(e != c);
                }
                assert forall|k1: int, k2: int|
                    #![trigger t1.kids(p)[k1], t1.kids(p)[k2]]
                    0 <= k1 < t1.kids(p).len() && 0 <= k2 < t1.kids(p).len() && k1
                        != k2 implies t1.kids(p)[k1] != t1.kids(p)[k2] by {
                    let o1: int = if k1 < k0 {
                        k1
                    } else {
                        k1 + 1
                    };
                    let o2: int = if k2 < k0 {
                        k2
                    } else {
                        k2 + 1
                    };
                    assert(t1.kids(p)[k1] == t0.kids(p)[o1]);
                    assert(t1.kids(p)[k2] == t0.kids(p)[o2]);
                    assert(t0.kids(p)[o1] != t0.kids(p)[o2]);
                }
            } else {
                assert(t1.kids(j) == t0.kids(j));
                assert forall|k: int| 0 <= k < t1.kids(j).len() implies t1.valid(
                    #[trigger] t1.kids(j)[k],
                ) && t1.par(t1.kids(j)[k]) == Some(j) by {
                    let e = t0.kids(j)[k];
                    assert(t0.valid(e) && t0.par(e) == Some(j));
                    assert(e != c);
                }
            }
        }
        assert forall|j: int| t1.valid(j) implies #[trigger] t1.in_kids_ok(j) by {
            t0.use_wf(j);
            if j != c {
                match t0.par(j) {
                    None => {},
                    Some(q) => {
                        assert(t0.kids(q).contains(j));
                        let m = choose|m: int|
                            0 <= m < t0.kids(q).len() && t0.kids(q)[m] == j;
                        if q == p {
                            assert(j != c);
                            assert(m != k0);
                            if m < k0 {
                                assert(t1.kids(p)[m] == j);
                            } else {
                                assert(t1.kids(p)[m - 1] == j);
                            }
                        } else {
                            assert(t1.kids(q)[m] == j);
                        }
                        assert(t1.kids(q).contains(j));
                    },
                }
            }
        }
    }

    /// A tree grown by one fresh node stays well-formed: the new node
    /// is childless, sits right below its parent if it was given one,
    /// and nothing else moves.
    proof fn lemma_new_node_wf(t0: &Self, t1: &Self, parent: Option<int>, id: int)
        requires
            t0.wf(),
            id == t0.n(),
            t1.n() == t0.n() + 1,
            match parent {
                None => t1.par(id) is None && t1.dep(id) == 0,
                Some(p) => t0.valid(p) && t1.par(id) == Some(p) && t1.dep(id) == t0.dep(p) + 1
                    && t1.kids(p) == t0.kids(p).push(id),
            },
            t1.kids(id) == Seq::<int>::empty(),
            forall|j: int| t0.valid(j) ==> #[trigger] t1.par(j) == t0.par(j),
            forall|j: int|
                t0.valid(j) && (match parent {
                    None => true,
                    Some(p) => j != p,
                }) ==> #[trigger] t1.kids(j) == t0.kids(j),
            forall|j: int| t0.valid(j) ==> #[trigger] t1.dep(j) == t0.dep(j),
        ensures
            t1.wf(),
    {
        assert forall|j: int| t1.valid(j) implies #[trigger] t1.depth_ok(j) by {
            if j == id {
                match parent {
                    None => {},
                    Some(p) => {
                        assert(t1.dep(p) == t0.dep(p));
                    },
                }
            } else {
                t0.use_wf(j);
                match t0.par(j) {
                    None => {},
                    Some(q) => {
                        assert(t1.dep(q) == t0.dep(q));
                    },
                }
            }
        }
        assert forall|j: int| t1.valid(j) implies #[trigger] t1.kids_ok(j) by {
            if j == id {
            } else {
                t0.use_wf(j);
                match parent {
                    Some(p) if j == p => {
                        assert forall|k: int| 0 <= k < t1.kids(p).len() implies t1.valid(
                            #[trigger] t1.kids(p)[k],
                        ) && t1.par(t1.kids(p)[k]) == Some(p) by {
                            if k < t0.kids(p).len() {
                                let e = t0.kids(p)[k];
                                assert(t0.valid(e) && t0.par(e) == Some(p));
                            } else {
                                assert(t1.kids(p)[k] == id);
                            }
                        }
                        assert forall|k1: int, k2: int|
                            #![trigger t1.kids(p)[k1], t1.kids(p)[k2]]
                            0 <= k1 < t1.kids(p).len() && 0 <= k2 < t1.kids(p).len() && k1
                                != k2 implies t1.kids(p)[k1] != t1.kids(p)[k2] by {
                            if k1 < t0.kids(p).len() && k2 < t0.kids(p).len() {
                                assert(t0.kids(p)[k1] != t0.kids(p)[k2]);
                            } else if k1 < t0.kids(p).len() {
                                assert(t0.valid(t0.kids(p)[k1]));
                            } else if k2 < t0.kids(p).len() {
                                assert(t0.valid(t0.kids(p)[k2]));
                            }
                        }
                    },
                    _ => {
                        assert(t1.kids(j) == t0.kids(j));
                        assert forall|k: int| 0 <= k < t1.kids(j).len() implies t1.valid(
                            #[trigger] t1.kids(j)[k],
                        ) && t1.par(t1.kids(j)[k]) == Some(j) by {
                            let e = t0.kids(j)[k];
                            assert(t0.valid(e) && t0.par(e) == Some(j));
                        }
                    },
                }
            }
        }
        assert forall|j: int| t1.valid(j) implies #[trigger] t1.in_kids_ok(j) by {
            if j == id {
                match parent {
                    None => {},
                    Some(p) => {
                        assert(t1.kids(p)[t0.kids(p).len() as int] == id);
                        assert(t1.kids(p).contains(id));
                    },
                }
            } else {
                t0.use_wf(j);
                match t0.par(j) {
                    None => {},
                    Some(q) => {
                        assert(t0.kids(q).contains(j));
                        let m = choose|m: int|
                            0 <= m < t0.kids(q).len() && t0.kids(q)[m] == j;
                        match parent {
                            Some(p) if q == p => {
                                assert(t1.kids(p)[m] == j);
                            },
                            _ => {
                                assert(t1.kids(q)[m] == j);
                            },
                        }
                        assert(t1.kids(q).contains(j));
                    },
                }
            }
        }
    }

    /// Whether `other` is an ancestor of `node`: walking the parent
    /// chain up from `node` reaches `other`.
    pub fn is_successor_of(&self, node: Node, other: Node) -> (r: bool)
        requires
            self.wf(),
            self.valid(node.id as int),
        ensures
            r == self.is_ancestor(node.id as int, other.id as int),
    {
        let mut cur: usize = node.id;
        loop
            invariant
                self.wf(),
                self.valid(cur as int),
                self.is_ancestor(node.id as int, other.id as int) == self.is_ancestor(
                    cur as int,
                    other.id as int,
                ),
            decreases self.dep(cur as int),
        {
            proof {
                self.use_wf(cur as int);
            }
            let p_opt = self.nodes[cur].parent;
            match p_opt {
                None => {
                    return false;
                },
                Some(p) => {
                    if p == other.id {
                        return true;
                    }
                    cur = p;
                },
            }
        }
    }

    /// Whether the two nodes both have a parent and it is the same
    /// node.
    pub fn is_sibling_with(&self, node: Node, other: Node) -> (r: bool)
        requires
            self.wf(),
            self.valid(node.id as int),
            self.valid(other.id as int),
        ensures
            r == match (self.par(node.id as int), self.par(other.id as int)) {
                (Some(p1), Some(p2)) => p1 == p2,
                _ => false,
            },
    {
        let p1 = self.nodes[node.id].parent;
        let p2 = self.nodes[other.id].parent;
        match (p1, p2) {
            (Some(a), Some(b)) => a == b,
            _ => false,
        }
    }

    /// The parent of a node, if it has one.
    pub fn parent_of(&self, node: Node) -> (r: Option<Node>)
        requires
            self.valid(node.id as int),
        ensures
            match r {
                None => self.par(node.id as int) is None,
                Some(p) => self.par(node.id as int) == Some(p.id as int),
            },
    {
        match self.nodes[node.id].parent {
            None => None,
            Some(p) => Some(Node { id: p }),
        }
    }

    /// The children of a node, in insertion order.
    #[verifier::loop_isolation(false)]
    pub fn children_of(&self, node: Node) -> (r: Vec<Node>)
        requires
            self.valid(node.id as int),
        ensures
            r@.map_values(|c: Node| c.id as int) == self.kids(node.id as int),
    {
        let i = node.id;
        let num: usize = self.nodes[i].children.len();
        let mut r: Vec<Node> = Vec::new();
        let mut k: usize = 0;
        while k < num
            invariant
                k <= num,
                num == self.kids(i as int).len(),
                r@.len() == k,
                forall|m: int|
                    0 <= m < k ==> (#[trigger] r@[m]).id as int == self.kids(i as int)[m],
            decreases num - k,
        {
            let c: usize = self.nodes[i].children[k];
            r.push(Node { id: c });
            k = k + 1;
        }
        proof {
            assert(r@.map_values(|c: Node| c.id as int) =~= self.kids(node.id as int));
        }
        r
    }

    /// Replaces the behavior object bound to a node; the structure of
    /// the tree and every other node's behavior stay.
    pub fn bind_object(&mut self, node: Node, obj: O)
        requires
            old(self).wf(),
            old(self).valid(node.id as int),
        ensures
            final(self).wf(),
            final(self).n() == old(self).n(),
            final(self).obj_of(node.id as int) == obj,
            forall|i: int|
                old(self).valid(i) && i != node.id as int ==> #[trigger] final(self).obj_of(i)
                    == old(self).obj_of(i),
            forall|i: int| old(self).valid(i) ==> #[trigger] final(self).par(i) == old(self).par(i),
            forall|i: int|
                old(self).valid(i) ==> #[trigger] final(self).kids(i) == old(self).kids(i),
    {
        let d = &mut self.nodes[node.id];
        d.obj = obj;
        proof {
            assert forall|i: int| old(self).valid(i) implies #[trigger] self.par(i) == old(
                self,
            ).par(i) by {}
            assert forall|i: int| old(self).valid(i) implies #[trigger] self.kids(i) == old(
                self,
            ).kids(i) by {}
            assert forall|i: int| old(self).valid(i) implies #[trigger] self.dep(i) == old(
                self,
            ).dep(i) by {}
            Self::lemma_wf_preserved(old(self), self);
        }
    }

    /// Forwards a callback to the behavior object of a node, which
    /// replaces the callback it holds: afterwards exactly the offered
    /// callback is bound there, the previous one is dropped, and the
    /// structure of the tree and every other node's behavior stay.
    pub fn bind_method(&mut self, node: Node, method: O::Method)
        requires
            old(self).wf(),
            old(self).valid(node.id as int),
        ensures
            final(self).wf(),
            final(self).n() == old(self).n(),
            final(self).obj_of(node.id as int).bound() == Some(method),
            forall|i: int|
                old(self).valid(i) && i != node.id as int ==> #[trigger] final(self).obj_of(i)
                    == old(self).obj_of(i),
            forall|i: int| old(self).valid(i) ==> #[trigger] final(self).par(i) == old(self).par(i),
            forall|i: int|
                old(self).valid(i) ==> #[trigger] final(self).kids(i) == old(self).kids(i),
    {
        let d = &mut self.nodes[node.id];
        d.obj.bind_method(method);
        proof {
            assert forall|i: int| old(self).valid(i) implies #[trigger] self.par(i) == old(
                self,
            ).par(i) by {}
            assert forall|i: int| old(self).valid(i) implies #[trigger] self.kids(i) == old(
                self,
            ).kids(i) by {}
            assert forall|i: int| old(self).valid(i) implies #[trigger] self.dep(i) == old(
                self,
            ).dep(i) by {}
            Self::lemma_wf_preserved(old(self), self);
        }
    }

    /// If `j` lay outside the subtree of `x`, then after `x` is cut
    /// loose (its parent link cleared, all other parent links kept),
    /// `x` is no ancestor of `j`.
    proof fn lemma_outside_subtree_preserved(t0: &Self, t1: &Self, x: int, j: int)
        requires
            t0.wf(),
            t1.wf(),
            t1.n() == t0.n(),
            t0.valid(x),
            t0.valid(j),
            !t0.in_subtree(x, j),
            t1.par(x) is None,
            forall|i: int| t0.valid(i) && i != x ==> #[trigger] t1.par(i) == t0.par(i),
        ensures
            !t1.is_ancestor(j, x),
        decreases t1.dep(j),
    {
        t0.use_wf(j);
        t1.use_wf(j);
        assert(j != x);
        assert(t1.par(j) == t0.par(j));
        match t0.par(j) {
            None => {},
            Some(r) => {
                if r == x {
                    assert(t0.is_ancestor(j, x));
                } else {
                    if t0.in_subtree(x, r) {
                        assert(t0.is_ancestor(r, x));
                        assert(t0.is_ancestor(j, x));
                    }
                    Self::lemma_outside_subtree_preserved(t0, t1, x, r);
                }
            },
        }
    }

    /// Detach followed by re-attach succeeds: after `detach` cuts `x`
    /// loose (so `x` has no parent and, by
    /// [`Self::lemma_outside_subtree_preserved`], is no ancestor of any
    /// node that was outside its subtree), `add_child(q, x)` meets
    /// neither of its two failure conditions for any such node `q`, and
    /// its contract then makes `q`'s child list end with `x` and `x`'s
    /// parent link name only `q`, while the old parent's list — already
    /// rid of `x` by `detach`'s contract — stays as `detach` left it.
    pub proof fn lemma_detach_then_attach(t0: &Self, t1: &Self, x: int, q: int)
        requires
            t0.wf(),
            t1.wf(),
            t1.n() == t0.n(),
            t0.valid(x),
            t0.valid(q),
            q != x,
            !t0.in_subtree(x, q),
            t1.par(x) is None,
            forall|i: int| t0.valid(i) && i != x ==> #[trigger] t1.par(i) == t0.par(i),
        ensures
            !t1.in_subtree(x, q),
            t1.par(x) is None,
    {
        Self::lemma_outside_subtree_preserved(t0, t1, x, q);
    }

    /// Attaches `child` under `parent`.
    ///
    /// Fails with [`TreeError::Cycle`], leaving the tree unchanged,
    /// exactly when `child` is `parent` itself or one of `parent`'s
    /// ancestors: attaching it would close a cycle. Otherwise fails
    /// with [`TreeError::AlreadyAttached`], leaving the tree unchanged,
    /// exactly when `child` already has a parent. Otherwise it
    /// succeeds: `child`'s parent link points at `parent`, `child` is
    /// appended to `parent`'s child list, and every other link stays.
    pub fn add_child(&mut self, parent: Node, child: Node) -> (result: Result<(), TreeError>)
        requires
            old(self).wf(),
            old(self).valid(parent.id as int),
            old(self).valid(child.id as int),
        ensures
            final(self).wf(),
            final(self).n() == old(self).n(),
            forall|i: int|
                old(self).valid(i) ==> #[trigger] final(self).obj_of(i) == old(self).obj_of(i),
            match result {
                Err(e) => *final(self) == *old(self) && ((e == TreeError::Cycle && old(
                    self,
                ).in_subtree(child.id as int, parent.id as int)) || (e
                    == TreeError::AlreadyAttached && !old(self).in_subtree(
                    child.id as int,
                    parent.id as int,
                ) && old(self).par(child.id as int) is Some)),
                Ok(_) => !old(self).in_subtree(child.id as int, parent.id as int) && old(
                    self,
                ).par(child.id as int) is None && final(self).par(child.id as int) == Some(
                    parent.id as int,
                ) && final(self).kids(parent.id as int) == old(self).kids(
                    parent.id as int,
                ).push(child.id as int) && (forall|i: int|
                    old(self).valid(i) && i != child.id as int ==> #[trigger] final(self).par(i)
                        == old(self).par(i)) && (forall|i: int|
                    old(self).valid(i) && i != parent.id as int ==> #[trigger] final(self).kids(
                        i,
                    ) == old(self).kids(i)),
            },
    {
        let p = parent.id;
        let c = child.id;
        if p == c {
            return Err(TreeError::Cycle);
        }
        if self.is_successor_of(parent, child) {
            return Err(TreeError::Cycle);
        }
        let attached = self.nodes[c].parent.is_some();
        if attached {
            return Err(TreeError::AlreadyAttached);
        }
        let d = &mut self.nodes[p];
        d.children.push(c);
        let d2 = &mut self.nodes[c];
        d2.parent = Some(p);
        self.depths = Ghost(
            Map::new(
                |j: int| true,
                |j: int|
                    if old(self).in_subtree(c as int, j) {
                        (old(self).dep(j) + old(self).dep(p as int) + 1) as nat
                    } else {
                        old(self).dep(j)
                    },
            ),
        );
        proof {
            assert forall|i: int| old(self).valid(i) && i != c as int implies #[trigger] self.par(
                i,
            ) == old(self).par(i) by {}
            assert forall|i: int| old(self).valid(i) && i != p as int implies #[trigger] self.kids(
                i,
            ) == old(self).kids(i) by {}
            assert forall|i: int| old(self).valid(i) implies #[trigger] self.obj_of(i) == old(
                self,
            ).obj_of(i) by {}
            assert(self.kids(p as int) =~= old(self).kids(p as int).push(c as int));
            assert forall|j: int| old(self).valid(j) implies #[trigger] self.dep(j) == if old(
                self,
            ).in_subtree(c as int, j) {
                (old(self).dep(j) + old(self).dep(p as int) + 1) as nat
            } else {
                old(self).dep(j)
            } by {}
            Self::lemma_attach_wf(old(self), self, p as int, c as int);
        }
        Ok(())
    }

    /// Removes `node` from its parent's child list and clears its
    /// parent link, leaving `node` and its subtree as an independent
    /// tree. Does nothing if `node` has no parent.
    pub fn detach(&mut self, node: Node)
        requires
            old(self).wf(),
            old(self).valid(node.id as int),
        ensures
            final(self).wf(),
            final(self).n() == old(self).n(),
            final(self).par(node.id as int) is None,
            forall|i: int|
                old(self).valid(i) && i != node.id as int ==> #[trigger] final(self).par(i) == old(
                    self,
                ).par(i),
            forall|i: int|
                old(self).valid(i) ==> #[trigger] final(self).obj_of(i) == old(self).obj_of(i),
            old(self).par(node.id as int) is None ==> *final(self) == *old(self),
            match old(self).par(node.id as int) {
                None => true,
                Some(p) => (forall|i: int|
                    old(self).valid(i) && i != p ==> #[trigger] final(self).kids(i) == old(
                        self,
                    ).kids(i)) && (exists|k0: int|
                    0 <= k0 < old(self).kids(p).len() && old(self).kids(p)[k0] == node.id as int
                        && final(self).kids(p) == old(self).kids(p).remove(k0))
                    && !final(self).kids(p).contains(node.id as int),
            },
    {
        let i = node.id;
        let p_opt = self.nodes[i].parent;
        match p_opt {
            None => {},
            Some(p) => {
                proof {
                    self.use_wf(i as int);
                    self.use_wf(p as int);
                    assert(self.kids(p as int).contains(i as int));
                }
                let num: usize = self.nodes[p].children.len();
                let mut k: usize = 0;
                loop
                    invariant
                        *self == *old(self),
                        old(self).wf(),
                        old(self).valid(i as int),
                        old(self).valid(p as int),
                        old(self).par(i as int) == Some(p as int),
                        0 <= k <= num,
                        num == self.kids(p as int).len(),
                        self.kids(p as int).contains(i as int),
                        forall|m: int| 0 <= m < k ==> self.kids(p as int)[m] != i as int,
                    ensures
                        *self == *old(self),
                        k < num && self.kids(p as int)[k as int] == i as int,
                    decreases num - k,
                {
                    proof {
                        if k == num {
                            let m = choose|m: int|
                                0 <= m < self.kids(p as int).len() && self.kids(p as int)[m]
                                    == i as int;
                            assert(false);
                        }
                    }
                    if self.nodes[p].children[k] == i {
                        proof {
                            assert(self.kids(p as int)[k as int] == i as int);
                        }
                        break ;
                    }
                    proof {
                        assert(self.kids(p as int)[k as int] != i as int);
                    }
                    k = k + 1;
                }
                let ghost k0: int = k as int;
                let d = &mut self.nodes[p];
                d.children.remove(k);
                let d2 = &mut self.nodes[i];
                d2.parent = None;
                self.depths = Ghost(
                    Map::new(
                        |j: int| true,
                        |j: int|
                            if old(self).in_subtree(i as int, j) {
                                (old(self).dep(j) - old(self).dep(i as int)) as nat
                            } else {
                                old(self).dep(j)
                            },
                    ),
                );
                proof {
                    assert forall|j: int| old(self).valid(j) && j != i as int implies #[trigger] self
                        .par(j) == old(self).par(j) by {}
                    assert forall|j: int| old(self).valid(j) && j != p as int implies #[trigger] self
                        .kids(j) == old(self).kids(j) by {}
                    assert forall|j: int| old(self).valid(j) implies #[trigger] self.obj_of(j)
                        == old(self).obj_of(j) by {}
                    assert(self.kids(p as int) =~= old(self).kids(p as int).remove(k0));
                    assert forall|j: int| old(self).valid(j) implies #[trigger] self.dep(j)
                        == if old(self).in_subtree(i as int, j) {
                        (old(self).dep(j) - old(self).dep(i as int)) as nat
                    } else {
                        old(self).dep(j)
                    } by {}
                    Self::lemma_detach_wf(old(self), self, p as int, i as int, k0);
                    assert forall|m: int|
                        0 <= m < self.kids(p as int).len() implies #[trigger] self.kids(
                        p as int,
                    )[m] != i as int by {
                        old(self).use_wf(p as int);
                        let mo: int = if m < k0 {
                            m
                        } else {
                            m + 1
                        };
                        assert(self.kids(p as int)[m] == old(self).kids(p as int)[mo]);
                        if mo != k0 {
                            assert(old(self).kids(p as int)[mo] != old(self).kids(p as int)[k0]);
                        }
                    }
                    assert(!self.kids(p as int).contains(i as int));
                }
            },
        }
    }

    /// The depth-first, pre-order traversal from `node`: runs the
    /// behavior's own step of each visited node, then its bound
    /// callback, then recurses into each child in insertion order. A
    /// node's own step always completes before any of its children's
    /// steps begin. Behaviors are per-node logic, so each invocation is
    /// handed the visited node's own handle, not the handle the
    /// traversal started from. Returns, as ghost data, the nodes in
    /// visit order; the contract pins that order, but the behavior
    /// calls themselves are opaque trait methods, so the order stands
    /// as a specification-level certificate beside them, not as a
    /// machine-checked property of the calls.
    #[verifier::loop_isolation(false)]
    pub fn process(&self, node: Node) -> (order: Ghost<Seq<int>>)
        requires
            self.wf(),
            self.valid(node.id as int),
        ensures
            order@ == self.preorder(node.id as int),
        decreases self.n() - self.dep(node.id as int),
    {
        let i = node.id;
        proof {
            self.use_wf(i as int);
            self.lemma_depth_bound(i as int);
        }
        self.nodes[i].obj.process(node);
        self.nodes[i].obj.call_method(node);
        let ghost first: Seq<int> = seq![i as int];
        let ghost mut ord: Seq<int> = first;
        let num: usize = self.nodes[i].children.len();
        let mut k: usize = 0;
        while k < num
            invariant
                k <= num,
                num == self.kids(i as int).len(),
                ord + self.preorder_kids(i as int, k as int) == self.preorder(i as int),
            decreases num - k,
        {
            let c: usize = self.nodes[i].children[k];
            proof {
                assert(self.kids(i as int)[k as int] == c as int);
                self.use_wf(i as int);
                self.use_wf(c as int);
                self.lemma_depth_bound(c as int);
            }
            let sub = self.process(Node { id: c });
            proof {
                let pre = ord;
                ord = ord + sub@;
                assert(ord + self.preorder_kids(i as int, k as int + 1) =~= pre + (sub@
                    + self.preorder_kids(i as int, k as int + 1)));
                assert(sub@ + self.preorder_kids(i as int, k as int + 1) == self.preorder_kids(
                    i as int,
                    k as int,
                ));
            }
            k = k + 1;
        }
        proof {
            assert(self.preorder_kids(i as int, num as int) =~= Seq::<int>::empty());
            assert(ord + Seq::<int>::empty() =~= ord);
        }
        Ghost(ord)
    }
}

impl Node {
    /// Creates a node holding `obj`, either standalone or as the last
    /// child of `parent`; in the latter case the new node is appended
    /// to the parent's child list and linked back to it in the same
    /// step, so no tree with a half-attached node is ever seen.
    pub fn new<O: Processable>(tree: &mut NodeTree<O>, parent: Option<Node>, obj: O) -> (node:
        Node)
        requires
            old(tree).wf(),
            match parent {
                Some(p) => old(tree).valid(p.id as int),
                None => true,
            },
        ensures
            final(tree).wf(),
            final(tree).n() == old(tree).n() + 1,
            node.id as int == old(tree).n(),
            final(tree).kids(node.id as int) == Seq::<int>::empty(),
            final(tree).obj_of(node.id as int) == obj,
            forall|i: int|
                old(tree).valid(i) ==> #[trigger] final(tree).par(i) == old(tree).par(i),
            forall|i: int|
                old(tree).valid(i) ==> #[trigger] final(tree).obj_of(i) == old(tree).obj_of(i),
            forall|i: int|
                old(tree).valid(i) && (match parent {
                    Some(p) => i != p.id as int,
                    None => true,
                }) ==> #[trigger] final(tree).kids(i) == old(tree).kids(i),
            match parent {
                None => final(tree).par(node.id as int) is None,
                Some(p) => final(tree).par(node.id as int) == Some(p.id as int)
                    && final(tree).kids(p.id as int) == old(tree).kids(p.id as int).push(
                    node.id as int,
                ),
            },
    {
        let id: usize = tree.nodes.len();
        let pidx: Option<usize> = match parent {
            Some(p) => Some(p.id),
            None => None,
        };
        tree.nodes.push(NodeData { parent: pidx, children: Vec::new(), obj });
        tree.depths = Ghost(
            tree.depths@.insert(
                id as int,
                match parent {
                    Some(p) => (old(tree).dep(p.id as int) + 1) as nat,
                    None => 0nat,
                },
            ),
        );
        match parent {
            Some(p) => {
                let d = &mut tree.nodes[p.id];
                d.children.push(id);
            },
            None => {},
        }
        proof {
            let gparent: Option<int> = match parent {
                Some(p) => Some(p.id as int),
                None => None,
            };
            assert forall|j: int| old(tree).valid(j) implies #[trigger] tree.par(j) == old(
                tree,
            ).par(j) by {}
            assert forall|j: int|
                old(tree).valid(j) && (match gparent {
                    None => true,
                    Some(p) => j != p,
                }) implies #[trigger] tree.kids(j) == old(tree).kids(j) by {}
            assert forall|j: int| old(tree).valid(j) implies #[trigger] tree.dep(j) == old(
                tree,
            ).dep(j) by {}
            assert forall|j: int| old(tree).valid(j) implies #[trigger] tree.obj_of(j) == old(
                tree,
            ).obj_of(j) by {}
            assert(tree.kids(id as int) =~= Seq::<int>::empty());
            match gparent {
                Some(p) => {
                    assert(tree.kids(p) =~= old(tree).kids(p).push(id as int));
                },
                None => {},
            }
            NodeTree::lemma_new_node_wf(old(tree), tree, gparent, id as int);
        }
        Node { id }
    }
}

} // verus!

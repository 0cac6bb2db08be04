use std::cell::RefCell;
use std::rc::Rc;

use gfxcore::event::Callback;
use gfxcore::tree::{Node, NodeTree, Null, Processable, TreeError};

/// A callback that records which node it was invoked for.
struct Recorder {
    log: Rc<RefCell<Vec<usize>>>,
}

impl Callback<Node> for Recorder {
    fn call(&self, node: Node) {
        self.log.borrow_mut().push(node.id);
    }
}

type Tree = NodeTree<Null<Recorder>>;

fn ids(nodes: Vec<Node>) -> Vec<usize> {
    nodes.into_iter().map(|n| n.id).collect()
}

#[test]
fn new_node_attaches_atomically() {
    let mut tree = Tree::new();
    let root = Node::new(&mut tree, None, Null::new());
    let child = Node::new(&mut tree, Some(root), Null::new());
    assert_eq!(ids(tree.children_of(root)), vec![child.id]);
    assert_eq!(tree.parent_of(child), Some(root));
    assert_eq!(tree.parent_of(root), None);
}

#[test]
fn process_visits_in_preorder() {
    let log: Rc<RefCell<Vec<usize>>> = Rc::new(RefCell::new(Vec::new()));
    let mut tree = Tree::new();
    let root = Node::new(&mut tree, None, Null::new());
    let child1 = Node::new(&mut tree, Some(root), Null::new());
    let child2 = Node::new(&mut tree, Some(root), Null::new());
    let grandchild = Node::new(&mut tree, Some(child1), Null::new());
    for n in [root, child1, child2, grandchild] {
        tree.bind_method(n, Recorder { log: log.clone() });
    }
    let _ = tree.process(root);
    assert_eq!(*log.borrow(), vec![root.id, child1.id, grandchild.id, child2.id]);
}

#[test]
fn add_child_of_an_ancestor_fails_with_cycle() {
    let mut tree = Tree::new();
    let root = Node::new(&mut tree, None, Null::new());
    let child = Node::new(&mut tree, Some(root), Null::new());
    let grandchild = Node::new(&mut tree, Some(child), Null::new());
    // Attaching an ancestor (or the node itself) under a descendant
    // must fail and leave the tree as it was.
    assert_eq!(tree.add_child(grandchild, root), Err(TreeError::Cycle));
    assert_eq!(tree.add_child(child, child), Err(TreeError::Cycle));
    assert_eq!(ids(tree.children_of(root)), vec![child.id]);
    assert_eq!(ids(tree.children_of(child)), vec![grandchild.id]);
    assert_eq!(tree.parent_of(root), None);
    assert_eq!(tree.parent_of(child), Some(root));
}

#[test]
fn add_child_of_an_attached_node_fails() {
    let mut tree = Tree::new();
    let root = Node::new(&mut tree, None, Null::new());
    let child = Node::new(&mut tree, Some(root), Null::new());
    let other = Node::new(&mut tree, None, Null::new());
    assert_eq!(tree.add_child(other, child), Err(TreeError::AlreadyAttached));
    assert_eq!(ids(tree.children_of(other)), Vec::<usize>::new());
    assert_eq!(tree.parent_of(child), Some(root));
}

#[test]
fn add_child_attaches_an_unattached_node() {
    let mut tree = Tree::new();
    let root = Node::new(&mut tree, None, Null::new());
    let stray = Node::new(&mut tree, None, Null::new());
    assert_eq!(tree.add_child(root, stray), Ok(()));
    assert_eq!(ids(tree.children_of(root)), vec![stray.id]);
    assert_eq!(tree.parent_of(stray), Some(root));
}

#[test]
fn detach_then_reattach_updates_both_parents() {
    let mut tree = Tree::new();
    let root = Node::new(&mut tree, None, Null::new());
    let child1 = Node::new(&mut tree, Some(root), Null::new());
    let child2 = Node::new(&mut tree, Some(root), Null::new());
    let grandchild = Node::new(&mut tree, Some(child1), Null::new());
    tree.detach(child1);
    assert_eq!(tree.parent_of(child1), None);
    assert_eq!(ids(tree.children_of(root)), vec![child2.id]);
    // The subtree below the detached node is untouched.
    assert_eq!(ids(tree.children_of(child1)), vec![grandchild.id]);
    // Re-attaching under a new parent succeeds and updates both lists.
    assert_eq!(tree.add_child(child2, child1), Ok(()));
    assert_eq!(tree.parent_of(child1), Some(child2));
    assert_eq!(ids(tree.children_of(child2)), vec![child1.id]);
    assert_eq!(ids(tree.children_of(root)), vec![child2.id]);
}

#[test]
fn detach_of_a_root_is_a_no_op() {
    let mut tree = Tree::new();
    let root = Node::new(&mut tree, None, Null::new());
    tree.detach(root);
    assert_eq!(tree.parent_of(root), None);
}

#[test]
fn ancestor_and_sibling_queries() {
    let mut tree = Tree::new();
    let root = Node::new(&mut tree, None, Null::new());
    let child1 = Node::new(&mut tree, Some(root), Null::new());
    let child2 = Node::new(&mut tree, Some(root), Null::new());
    let grandchild = Node::new(&mut tree, Some(child1), Null::new());
    assert!(tree.is_successor_of(grandchild, root));
    assert!(tree.is_successor_of(grandchild, child1));
    assert!(!tree.is_successor_of(grandchild, child2));
    assert!(!tree.is_successor_of(root, grandchild));
    assert!(!tree.is_successor_of(root, root));
    assert!(tree.is_sibling_with(child1, child2));
    assert!(!tree.is_sibling_with(child1, grandchild));
    assert!(!tree.is_sibling_with(root, child1));
}

#[test]
fn bind_object_replaces_the_behavior() {
    let log: Rc<RefCell<Vec<usize>>> = Rc::new(RefCell::new(Vec::new()));
    let mut tree = Tree::new();
    let root = Node::new(&mut tree, None, Null::new());
    tree.bind_method(root, Recorder { log: log.clone() });
    // Binding a fresh behavior drops the old one with its callback.
    tree.bind_object(root, Null::new());
    let _ = tree.process(root);
    assert_eq!(*log.borrow(), Vec::<usize>::new());
}

#[test]
fn bind_method_rebinding_discards_the_old_callback() {
    let first: Rc<RefCell<Vec<usize>>> = Rc::new(RefCell::new(Vec::new()));
    let second: Rc<RefCell<Vec<usize>>> = Rc::new(RefCell::new(Vec::new()));
    let mut tree = Tree::new();
    let root = Node::new(&mut tree, None, Null::new());
    tree.bind_method(root, Recorder { log: first.clone() });
    tree.bind_method(root, Recorder { log: second.clone() });
    let _ = tree.process(root);
    assert_eq!(*first.borrow(), Vec::<usize>::new());
    assert_eq!(*second.borrow(), vec![root.id]);
}

#[test]
fn duplicating_a_behavior_does_not_carry_the_callback() {
    let log: Rc<RefCell<Vec<usize>>> = Rc::new(RefCell::new(Vec::new()));
    let mut original: Null<Recorder> = Null::new();
    original.bind_method(Recorder { log: log.clone() });
    let copy = original.duplicate();
    let mut tree = NodeTree::new();
    let root = Node::new(&mut tree, None, copy);
    let _ = tree.process(root);
    assert_eq!(*log.borrow(), Vec::<usize>::new());
}

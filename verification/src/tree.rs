//! Binary trees and their structural equality.

use vstd::prelude::*;
use crate::Solution;

verus! {

/// One node of a binary tree. A node owns its two subtrees.
#[derive(Debug, PartialEq, Eq)]
pub struct TreeNode {
    pub val: i32,
    pub left: Option<Box<TreeNode>>,
    pub right: Option<Box<TreeNode>>,
}

/// A binary tree: empty, or a root node with its subtrees.
pub type Tree = Option<Box<TreeNode>>;

/// One step down from a node.
pub enum Side {
    Left,
    Right,
}

/// The value found in `t` after walking down `path` from the root; `None`
/// where the walk leaves the tree.
pub open spec fn value_at(t: Tree, path: Seq<Side>) -> Option<i32>
    decreases path.len(),
{
    match t {
        None => None,
        Some(node) => if path.len() == 0 {
            Some(node.val)
        } else {
            match path[0] {
                Side::Left => value_at(node.left, path.skip(1)),
                Side::Right => value_at(node.right, path.skip(1)),
            }
        },
    }
}

/// Structural equality: the two trees have a node at the same positions,
/// and the same value at each of them. Left and right are told apart.
pub open spec fn same_tree(p: Tree, q: Tree) -> bool {
    forall|path: Seq<Side>| value_at(p, path) == value_at(q, path)
}

/// The tree whose root holds `val` above the subtrees `left` and `right`.
pub open spec fn node(val: i32, left: Tree, right: Tree) -> Tree {
    Some(Box::new(TreeNode { val, left, right }))
}

/// Two non-empty trees are the same exactly when their roots hold the same
/// value, their left subtrees are the same and their right subtrees are the
/// same.
pub proof fn lemma_same_tree_nodes(a: TreeNode, b: TreeNode)
    ensures
        same_tree(Some(Box::new(a)), Some(Box::new(b))) <==> {
            &&& a.val == b.val
            &&& same_tree(a.left, b.left)
            &&& same_tree(a.right, b.right)
        },
{
    let p: Tree = Some(Box::new(a));
    let q: Tree = Some(Box::new(b));
    if same_tree(p, q) {
        assert(value_at(p, Seq::empty()) == value_at(q, Seq::empty()));
        assert forall|path: Seq<Side>| value_at(a.left, path) == value_at(b.left, path) by {
            let down = seq![Side::Left] + path;
            assert(down.skip(1) =~= path);
            assert(value_at(p, down) == value_at(a.left, path));
            assert(value_at(q, down) == value_at(b.left, path));
        }
        assert forall|path: Seq<Side>| value_at(a.right, path) == value_at(b.right, path) by {
            let down = seq![Side::Right] + path;
            assert(down.skip(1) =~= path);
            assert(value_at(p, down) == value_at(a.right, path));
            assert(value_at(q, down) == value_at(b.right, path));
        }
    }
    if a.val == b.val && same_tree(a.left, b.left) && same_tree(a.right, b.right) {
        assert forall|path: Seq<Side>| value_at(p, path) == value_at(q, path) by {
            if path.len() > 0 {
                let rest = path.skip(1);
                assert(value_at(a.left, rest) == value_at(b.left, rest));
                assert(value_at(a.right, rest) == value_at(b.right, rest));
            }
        }
    }
}

/// An empty tree is the same as an empty tree, and as no other.
pub proof fn lemma_same_tree_empty(t: Tree)
    ensures
        same_tree(None, t) <==> t is None,
        same_tree(t, None) <==> t is None,
{
    let root = Seq::<Side>::empty();
    if t is Some {
        assert(value_at(t, root) is Some);
        assert(value_at(None, root) is None);
    }
}

/// Structural equality is the equality of trees as values.
pub proof fn lemma_same_tree_is_equality(p: Tree, q: Tree)
    ensures
        same_tree(p, q) <==> p == q,
    decreases p,
{
    match (p, q) {
        (Some(a), Some(b)) => {
            lemma_same_tree_nodes(*a, *b);
            lemma_same_tree_is_equality(a.left, b.left);
            lemma_same_tree_is_equality(a.right, b.right);
        },
        (None, _) => {
            lemma_same_tree_empty(q);
        },
        (_, None) => {
            lemma_same_tree_empty(p);
        },
    }
}

/// Every tree is the same as itself.
pub proof fn lemma_same_tree_reflexive(t: Tree)
    ensures
        same_tree(t, t),
{
}

/// Which of the two trees is named first makes no difference.
pub proof fn lemma_same_tree_symmetric(p: Tree, q: Tree)
    ensures
        same_tree(p, q) == same_tree(q, p),
{
    lemma_same_tree_is_equality(p, q);
    lemma_same_tree_is_equality(q, p);
}

/// A tree is the same as the tree with the root's two subtrees exchanged
/// exactly when those two subtrees are the same.
pub proof fn lemma_same_tree_swapped(val: i32, left: Tree, right: Tree)
    ensures
        same_tree(node(val, left, right), node(val, right, left)) <==> same_tree(left, right),
{
    lemma_same_tree_nodes(
        TreeNode { val, left, right },
        TreeNode { val, left: right, right: left },
    );
    lemma_same_tree_symmetric(left, right);
}

impl TreeNode {
    /// A leaf holding `val`.
    #[inline]
    pub fn new(val: i32) -> (leaf: Self)
        ensures
            leaf == (TreeNode { val, left: None, right: None }),
    {
        TreeNode { val, left: None, right: None }
    }
}

impl Solution {
    /// Whether `p` and `q` have the same shape and hold the same value at
    /// every position. Neither tree is changed.
    pub fn is_same_tree(p: &Tree, q: &Tree) -> (same: bool)
        ensures
            same == same_tree(*p, *q),
            same == (*p == *q),
        decreases *p,
    {
        proof {
            lemma_same_tree_is_equality(*p, *q);
        }
        match (p, q) {
            (None, None) => true,
            (Some(a), Some(b)) => {
                a.val == b.val && Self::is_same_tree(&a.left, &b.left) && Self::is_same_tree(
                    &a.right,
                    &b.right,
                )
            },
            _ => false,
        }
    }
}

} // verus!

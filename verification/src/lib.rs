//! Three small verified exercises: structural equality of binary trees,
//! pair-sum lookup, and the decimal palindrome test.
//!
//! Every function carries a contract over a mathematical model of its
//! arguments, and every contract is proved.

use vstd::prelude::*;

pub mod palindrome;
pub mod tree;
pub mod two_sum;

pub use tree::TreeNode;

verus! {

/// The namespace under which the exercises are offered.
pub struct Solution;

} // verus!

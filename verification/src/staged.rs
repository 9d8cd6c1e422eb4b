//! The output of staging: an immutable tree of resolved nodes, each holding
//! its absolute rectangle and its already-resolved staged children.
use vstd::prelude::*;

verus! {

use crate::geometry::AbsRect;

/// A resolved node, ready for downstream consumption (rendering, hit-test
/// registration): its absolute rectangle plus its staged children. Produced
/// afresh by every staging pass and never mutated; a new pass supersedes the
/// whole tree.
#[derive(PartialEq, Eq, Debug)]
pub struct Staged {
    pub area: AbsRect,
    pub children: Vec<Staged>,
}

impl Staged {
    /// The node's resolved absolute rectangle, the one thing every staged
    /// node must expose.
    pub fn area(&self) -> (out: AbsRect)
        ensures
            out == self.area,
    {
        self.area
    }
}

/// Structural equality of the geometry of two staged trees: the same
/// absolute rectangle at every node, regardless of any internal identity of
/// the values.
pub open spec fn same_geometry(s1: Staged, s2: Staged) -> bool
    decreases s1,
{
    &&& s1.area == s2.area
    &&& s1.children@.len() == s2.children@.len()
    &&& forall|i: int|
        0 <= i < s1.children@.len() ==> same_geometry(
            #[trigger] s1.children@[i],
            s2.children@[i],
        )
}

/// Depth of a staged tree: one for the node itself plus the deepest staged
/// child.
pub open spec fn staged_depth(s: Staged) -> nat
    decreases s,
{
    1 + staged_kids_depth(s.children@)
}

/// The largest depth among a sequence of staged trees; zero for none.
pub open spec fn staged_kids_depth(s: Seq<Staged>) -> nat
    decreases s,
{
    if s.len() == 0 {
        0
    } else if staged_depth(s[0]) >= staged_kids_depth(s.drop_first()) {
        staged_depth(s[0])
    } else {
        staged_kids_depth(s.drop_first())
    }
}

} // verus!

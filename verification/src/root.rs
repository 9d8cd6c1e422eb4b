//! The root binding: the descriptor that anchors an abstract layout tree to
//! the absolute area of one output surface and performs the first staging
//! step. Multiple roots coexist independently, one per surface; staging one
//! never touches another.
use vstd::prelude::*;

verus! {

use crate::geometry::{compose, compose_model, compose_ok, AbsRect, Region, URect};
use crate::node::{imposed_of, stage_ok, stages_to, Node};
use crate::staged::Staged;

/// The constraint a root imposes on its single child: the relative rectangle
/// — the fraction of the surface — the child is to occupy.
#[derive(Clone, Copy, PartialEq, Eq, Structural, Debug)]
pub struct Inherited {
    pub area: URect,
}

impl Inherited {
    /// An imposed constraint from its relative rectangle.
    pub fn new(area: URect) -> (out: Inherited)
        ensures
            out.area == area,
    {
        Inherited { area }
    }
}

/// A root node: some absolute area on the screen that contains a layout,
/// typically one per window.
#[derive(Clone, Copy, PartialEq, Eq, Structural, Debug)]
pub struct Root {
    pub area: AbsRect,
}

/// The absolute area a root bound to its area grants its child: the child's
/// imposed relative rectangle composed with the root's own area.
pub open spec fn root_child_slot(r: Root, child: Node) -> Region {
    compose_model(imposed_of(child).area, r.area@)
}

/// Staging under this root stays within machine integers.
pub open spec fn root_stage_ok(r: Root, child: Node) -> bool {
    compose_ok(imposed_of(child).area, r.area@) && stage_ok(child, root_child_slot(r, child))
}

impl Root {
    /// A root bound to the absolute area of one output surface.
    pub fn new(area: AbsRect) -> (out: Root)
        ensures
            out.area == area,
    {
        Root { area }
    }

    /// Stage the tree under this root: ask the child what relative rectangle
    /// it imposes, compose it with the root's own absolute area, and have
    /// the child stage itself there. The child's staged tree is returned as
    /// the root's own result — the root deliberately creates no staged node
    /// of its own, which would be a redundant wrapper.
    pub fn stage(&self, child: &Node) -> (out: Staged)
        requires
            root_stage_ok(*self, *child),
        ensures
            stages_to(*child, root_child_slot(*self, *child), out),
            out.area@ == root_child_slot(*self, *child),
    {
        let imp = child.get_imposed();
        let child_area = compose(&imp.area, &self.area);
        child.stage(child_area)
    }
}

} // verus!

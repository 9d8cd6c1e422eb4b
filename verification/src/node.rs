//! The abstract layout tree and its staging algorithm.
//!
//! A [`Node`] pairs a kind's configuration with its children behind one
//! uniform type, so a parent can hold children of differing kinds. Each node
//! carries the constraint it imposes on its parent's protocol — an
//! [`Inherited`] relative rectangle — and stages itself when handed the
//! absolute area its parent has granted it, recursing into its children.
//!
//! Two kinds are provided. `Basic` is the pass-through kind: it stages
//! itself at exactly the allotted area and places every child at the
//! composition of the child's imposed relative rectangle with that area.
//! `Column` is a composite kind with a multi-child placement algorithm: it
//! partitions its allotted area into consecutive horizontal bands, one per
//! child, which never overlap and never exceed the allotted area.
use vstd::prelude::*;

verus! {

use crate::geometry::{
    compose,
    compose_model,
    compose_ok,
    in_i64,
    lemma_tdiv_bounds,
    lemma_tdiv_is_ordered,
    tdiv,
    AbsRect,
    Region,
};
use crate::root::Inherited;
use crate::staged::Staged;
use vstd::arithmetic::mul::{lemma_mul_inequality, lemma_mul_unary_negation};

/// One node of the abstract layout tree: a kind tag, the constraint the node
/// imposes on its parent's protocol, and the node's own children. Cloning is
/// by value, so the same abstract tree can be staged repeatedly — across
/// window resizes, say — without being rebuilt.
pub enum Node {
    /// The pass-through kind: staged at exactly the allotted area, each
    /// child placed by its own imposed relative rectangle within it.
    Basic { imposed: Inherited, children: Vec<Node> },
    /// The composite kind: the allotted area is partitioned into one
    /// horizontal band per child, top to bottom, without overlap.
    Column { imposed: Inherited, children: Vec<Node> },
}

/// Structural equality of two abstract trees: the same kind, the same
/// imposed constraint and the same children at every node. What a clone of
/// a tree guarantees, since staging only ever reads this structure.
pub open spec fn same_tree(n1: Node, n2: Node) -> bool
    decreases n1,
{
    match n1 {
        Node::Basic { imposed, children } => match n2 {
            Node::Basic { imposed: imposed2, children: children2 } => {
                &&& imposed == imposed2
                &&& children@.len() == children2@.len()
                &&& forall|i: int|
                    0 <= i < children@.len() ==> same_tree(
                        #[trigger] children@[i],
                        children2@[i],
                    )
            },
            Node::Column { .. } => false,
        },
        Node::Column { imposed, children } => match n2 {
            Node::Column { imposed: imposed2, children: children2 } => {
                &&& imposed == imposed2
                &&& children@.len() == children2@.len()
                &&& forall|i: int|
                    0 <= i < children@.len() ==> same_tree(
                        #[trigger] children@[i],
                        children2@[i],
                    )
            },
            Node::Basic { .. } => false,
        },
    }
}

impl Clone for Node {
    /// A structurally identical copy of the tree: same kinds, same imposed
    /// constraints, same children throughout.
    #[verifier::loop_isolation(false)]
    fn clone(&self) -> (res: Self)
        ensures
            same_tree(res, *self),
        decreases *self,
    {
        match self {
            Node::Basic { imposed, children } => {
                let mut kids: Vec<Node> = Vec::new();
                let n: usize = children.len();
                let mut i: usize = 0;
                while i < n
                    invariant
                        n == children@.len(),
                        i <= n,
                        kids@.len() == i as int,
                        forall|j: int|
                            0 <= j < i as int ==> same_tree(#[trigger] kids@[j], children@[j]),
                    decreases n - i,
                {
                    kids.push(children[i].clone());
                    i = i + 1;
                }
                Node::Basic { imposed: *imposed, children: kids }
            },
            Node::Column { imposed, children } => {
                let mut kids: Vec<Node> = Vec::new();
                let n: usize = children.len();
                let mut i: usize = 0;
                while i < n
                    invariant
                        n == children@.len(),
                        i <= n,
                        kids@.len() == i as int,
                        forall|j: int|
                            0 <= j < i as int ==> same_tree(#[trigger] kids@[j], children@[j]),
                    decreases n - i,
                {
                    kids.push(children[i].clone());
                    i = i + 1;
                }
                Node::Column { imposed: *imposed, children: kids }
            },
        }
    }
}

/// The constraint a node imposes: the relative rectangle it asks its parent
/// to place it by.
pub open spec fn imposed_of(n: Node) -> Inherited {
    match n {
        Node::Basic { imposed, children: _ } => imposed,
        Node::Column { imposed, children: _ } => imposed,
    }
}

/// The node's children, uniformly over kinds.
pub open spec fn children_of(n: Node) -> Seq<Node> {
    match n {
        Node::Basic { imposed: _, children } => children@,
        Node::Column { imposed: _, children } => children@,
    }
}

/// Band `i` of `k` when a `Column` partitions area `a`: full width, and the
/// slice of the height between the rounded fractions `i/k` and `(i+1)/k`.
/// Consecutive bands tile the height without gap or overlap.
pub open spec fn band_model(a: Region, k: int, i: int) -> Region
    recommends
        0 < k,
{
    Region {
        x: a.x,
        y: a.y + tdiv(i * a.h, k),
        w: a.w,
        h: tdiv((i + 1) * a.h, k) - tdiv(i * a.h, k),
    }
}

/// Band `i` of `k` over area `a` fits in machine integers.
pub open spec fn band_ok(a: Region, k: int, i: int) -> bool {
    in_i64(a.y + tdiv(i * a.h, k)) && in_i64(tdiv((i + 1) * a.h, k) - tdiv(i * a.h, k))
}

/// Every rectangle computed while staging `n` over area `a` fits in machine
/// integers — the only precondition staging has, forced by the machine, not
/// by the layout rules.
pub open spec fn stage_ok(n: Node, a: Region) -> bool
    decreases n,
{
    match n {
        Node::Basic { imposed: _, children } => forall|i: int|
            0 <= i < children@.len() ==> compose_ok(imposed_of(#[trigger] children@[i]).area, a)
                && stage_ok(children@[i], compose_model(imposed_of(children@[i]).area, a)),
        Node::Column { imposed: _, children } => forall|i: int|
            0 <= i < children@.len() ==> band_ok(a, children@.len() as int, i) && stage_ok(
                #[trigger] children@[i],
                band_model(a, children@.len() as int, i),
            ),
    }
}

/// What staging means: `s` is the staged tree of node `n` over allotted area
/// `a`. The staged node sits at exactly `a`, has one staged child per
/// abstract child, and each staged child is in turn the staging of that
/// child over the slot its parent allots it. This pins the whole geometry
/// down as a function of `n` and `a`.
pub open spec fn stages_to(n: Node, a: Region, s: Staged) -> bool
    decreases n,
{
    &&& s.area@ == a
    &&& s.children@.len() == children_of(n).len()
    &&& match n {
        Node::Basic { imposed: _, children } => forall|i: int|
            0 <= i < children@.len() ==> stages_to(
                #[trigger] children@[i],
                compose_model(imposed_of(children@[i]).area, a),
                s.children@[i],
            ),
        Node::Column { imposed: _, children } => forall|i: int|
            0 <= i < children@.len() ==> stages_to(
                #[trigger] children@[i],
                band_model(a, children@.len() as int, i),
                s.children@[i],
            ),
    }
}

/// Depth of an abstract tree: one for the node plus the deepest child.
pub open spec fn node_depth(n: Node) -> nat
    decreases n,
{
    match n {
        Node::Basic { imposed: _, children } => 1 + node_kids_depth(children@),
        Node::Column { imposed: _, children } => 1 + node_kids_depth(children@),
    }
}

/// The largest depth among a sequence of nodes; zero for none.
pub open spec fn node_kids_depth(s: Seq<Node>) -> nat
    decreases s,
{
    if s.len() == 0 {
        0
    } else if node_depth(s[0]) >= node_kids_depth(s.drop_first()) {
        node_depth(s[0])
    } else {
        node_kids_depth(s.drop_first())
    }
}

/// Band `i` of `k` over area `a`, on machine integers.
fn band_rect(a: &AbsRect, k: usize, i: usize) -> (out: AbsRect)
    requires
        i < k,
        band_ok(a@, k as int, i as int),
    ensures
        out@ == band_model(a@, k as int, i as int),
{
    proof {
        let ii: int = i as int;
        let kk: int = k as int;
        let hh: int = a.h as int;
        assert(ii * hh <= 0x7fff_ffff_ffff_ffff_ffff_ffff_ffff_ffffint && ii * hh
            >= -0x7fff_ffff_ffff_ffff_ffff_ffff_ffff_ffffint && (ii + 1) * hh
            <= 0x7fff_ffff_ffff_ffff_ffff_ffff_ffff_ffffint && (ii + 1) * hh
            >= -0x7fff_ffff_ffff_ffff_ffff_ffff_ffff_ffffint) by (nonlinear_arith)
            requires
                0 <= ii,
                ii < kk,
                kk <= 0xffff_ffff_ffff_ffff,
                -0x8000_0000_0000_0000 <= hh <= 0x7fff_ffff_ffff_ffff,
        ;
        lemma_tdiv_bounds(ii * hh, kk);
        lemma_tdiv_bounds((ii + 1) * hh, kk);
        if hh >= 0 {
            lemma_mul_inequality(ii, ii + 1, hh);
            lemma_tdiv_is_ordered(ii * hh, (ii + 1) * hh, kk);
        } else {
            lemma_mul_inequality(ii, ii + 1, -hh);
            lemma_mul_unary_negation(ii, hh);
            lemma_mul_unary_negation(ii + 1, hh);
            lemma_tdiv_is_ordered((ii + 1) * hh, ii * hh, kk);
        }
    }
    let h: i128 = a.h as i128;
    let kk: i128 = k as i128;
    let q1: i128 = ((i as i128) * h) / kk;
    let q2: i128 = (((i as i128) + 1) * h) / kk;
    AbsRect { x: a.x, y: ((a.y as i128) + q1) as i64, w: a.w, h: (q2 - q1) as i64 }
}

impl Node {
    /// The constraint this node imposes on its parent's protocol, computed
    /// from its configuration alone; staging need not have occurred.
    pub fn get_imposed(&self) -> (out: Inherited)
        ensures
            out == imposed_of(*self),
    {
        match self {
            Node::Basic { imposed, children: _ } => *imposed,
            Node::Column { imposed, children: _ } => *imposed,
        }
    }

    /// Stage this node within the absolute area its parent has granted it:
    /// run the node's kind's staging algorithm, recursing into the children,
    /// and return the resolved subtree. Deterministic and side-effect-free;
    /// a second pass over the same inputs resolves the same geometry.
    #[verifier::loop_isolation(false)]
    pub fn stage(&self, area: AbsRect) -> (out: Staged)
        requires
            stage_ok(*self, area@),
        ensures
            stages_to(*self, area@, out),
            out.area == area,
        decreases *self,
    {
        match self {
            Node::Basic { imposed: _, children } => {
                let mut done: Vec<Staged> = Vec::new();
                let n: usize = children.len();
                let mut i: usize = 0;
                while i < n
                    invariant
                        n == children@.len(),
                        i <= n,
                        stage_ok(*self, area@),
                        children_of(*self) == children@,
                        done@.len() == i as int,
                        forall|j: int|
                            0 <= j < i as int ==> stages_to(
                                children@[j],
                                compose_model(imposed_of(children@[j]).area, area@),
                                #[trigger] done@[j],
                            ),
                    decreases n - i,
                {
                    let c = &children[i];
                    proof {
                        assert(compose_ok(imposed_of(children@[i as int]).area, area@));
                        assert(stage_ok(
                            children@[i as int],
                            compose_model(imposed_of(children@[i as int]).area, area@),
                        ));
                    }
                    let imp = c.get_imposed();
                    let ca = compose(&imp.area, &area);
                    let sc = c.stage(ca);
                    done.push(sc);
                    i = i + 1;
                }
                Staged { area, children: done }
            },
            Node::Column { imposed: _, children } => {
                let mut done: Vec<Staged> = Vec::new();
                let n: usize = children.len();
                let mut i: usize = 0;
                while i < n
                    invariant
                        n == children@.len(),
                        i <= n,
                        stage_ok(*self, area@),
                        children_of(*self) == children@,
                        done@.len() == i as int,
                        forall|j: int|
                            0 <= j < i as int ==> stages_to(
                                children@[j],
                                band_model(area@, n as int, j),
                                #[trigger] done@[j],
                            ),
                    decreases n - i,
                {
                    proof {
                        assert(stage_ok(
                            children@[i as int],
                            band_model(area@, n as int, i as int),
                        ));
                        assert(band_ok(area@, n as int, i as int));
                    }
                    let ba = band_rect(&area, n, i);
                    let sc = children[i].stage(ba);
                    done.push(sc);
                    i = i + 1;
                }
                Staged { area, children: done }
            },
        }
    }
}

} // verus!

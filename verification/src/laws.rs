//! The laws of the staging core, stated over the same spec functions the
//! staging contracts use and proved once and for all: what staging resolves,
//! that it is deterministic, that a root adds no node of its own, that roots
//! are independent of one another, and that a `Column` partitions its area
//! among its children without overlap.
use vstd::prelude::*;

verus! {

use crate::geometry::{
    compose_model,
    identity_rel,
    lemma_identity_compose,
    lemma_tdiv_is_ordered,
    lemma_tdiv_multiples_vanish,
    region_contained,
    regions_disjoint,
    Region,
};
use crate::node::{
    band_model,
    children_of,
    imposed_of,
    node_depth,
    node_kids_depth,
    same_tree,
    stages_to,
    Node,
};
use crate::root::{root_child_slot, Root};
use crate::staged::{same_geometry, staged_depth, staged_kids_depth, Staged};
use vstd::arithmetic::div_mod::lemma_div_pos_is_pos;
use vstd::arithmetic::mul::{lemma_mul_inequality, lemma_mul_nonnegative};

/// A staged tree sits at exactly the area its node was allotted, whatever
/// the node's kind.
pub proof fn lemma_stage_area(n: Node, a: Region, s: Staged)
    requires
        stages_to(n, a, s),
    ensures
        s.area@ == a,
{
}

/// Staging is deterministic: any two staged trees resolved from the same
/// abstract node over the same allotted area have identical absolute
/// rectangles at every node.
pub proof fn lemma_stage_deterministic(n: Node, a: Region, s1: Staged, s2: Staged)
    requires
        stages_to(n, a, s1),
        stages_to(n, a, s2),
    ensures
        same_geometry(s1, s2),
    decreases n,
{
    match n {
        Node::Basic { imposed: _, children } => {
            assert forall|i: int| 0 <= i < s1.children@.len() implies same_geometry(
                #[trigger] s1.children@[i],
                s2.children@[i],
            ) by {
                lemma_stage_deterministic(
                    children@[i],
                    compose_model(imposed_of(children@[i]).area, a),
                    s1.children@[i],
                    s2.children@[i],
                );
            }
        },
        Node::Column { imposed: _, children } => {
            assert forall|i: int| 0 <= i < s1.children@.len() implies same_geometry(
                #[trigger] s1.children@[i],
                s2.children@[i],
            ) by {
                lemma_stage_deterministic(
                    children@[i],
                    band_model(a, children@.len() as int, i),
                    s1.children@[i],
                    s2.children@[i],
                );
            }
        },
    }
}

/// Elementwise equal depths give equal maxima over the two sequences.
proof fn lemma_kids_depth_equal(cs: Seq<Node>, ss: Seq<Staged>)
    requires
        cs.len() == ss.len(),
        forall|i: int| 0 <= i < cs.len() ==> staged_depth(ss[i]) == node_depth(#[trigger] cs[i]),
    ensures
        staged_kids_depth(ss) == node_kids_depth(cs),
    decreases cs.len(),
{
    if cs.len() > 0 {
        assert forall|i: int| 0 <= i < cs.drop_first().len() implies staged_depth(
            ss.drop_first()[i],
        ) == node_depth(#[trigger] cs.drop_first()[i]) by {
            assert(cs.drop_first()[i] == cs[i + 1]);
            assert(ss.drop_first()[i] == ss[i + 1]);
        }
        lemma_kids_depth_equal(cs.drop_first(), ss.drop_first());
        assert(staged_depth(ss[0]) == node_depth(cs[0]));
    }
}

/// Staging preserves tree shape: the staged tree is exactly as deep as the
/// abstract tree it was resolved from — no wrapping node is ever added.
pub proof fn lemma_stage_preserves_depth(n: Node, a: Region, s: Staged)
    requires
        stages_to(n, a, s),
    ensures
        staged_depth(s) == node_depth(n),
    decreases n,
{
    match n {
        Node::Basic { imposed: _, children } => {
            assert forall|i: int| 0 <= i < children@.len() implies staged_depth(s.children@[i])
                == node_depth(#[trigger] children@[i]) by {
                lemma_stage_preserves_depth(
                    children@[i],
                    compose_model(imposed_of(children@[i]).area, a),
                    s.children@[i],
                );
            }
            lemma_kids_depth_equal(children@, s.children@);
        },
        Node::Column { imposed: _, children } => {
            assert forall|i: int| 0 <= i < children@.len() implies staged_depth(s.children@[i])
                == node_depth(#[trigger] children@[i]) by {
                lemma_stage_preserves_depth(
                    children@[i],
                    band_model(a, children@.len() as int, i),
                    s.children@[i],
                );
            }
            lemma_kids_depth_equal(children@, s.children@);
        },
    }
}

/// Root transparency: for a root bound to area `A` whose child imposes the
/// full-extent relative rectangle, the staged result sits at exactly `A`,
/// and the staged tree is as deep as the child's own tree — the root wraps
/// nothing around it.
pub proof fn lemma_root_transparency(r: Root, child: Node, s: Staged)
    requires
        imposed_of(child).area == identity_rel(),
        stages_to(child, root_child_slot(r, child), s),
    ensures
        s.area@ == r.area@,
        staged_depth(s) == node_depth(child),
{
    lemma_identity_compose(r.area@);
    lemma_stage_area(child, root_child_slot(r, child), s);
    lemma_stage_preserves_depth(child, root_child_slot(r, child), s);
}

/// Independence across roots: the staged geometry of one root's tree is a
/// function of that root's area and child alone. Whatever another root is
/// bound to and whatever was staged under it, staging the first tree again
/// resolves the same geometry as staging it by itself.
pub proof fn lemma_roots_independent(
    r1: Root,
    c1: Node,
    s1: Staged,
    r2: Root,
    c2: Node,
    s2: Staged,
    s1_alone: Staged,
)
    requires
        stages_to(c1, root_child_slot(r1, c1), s1),
        stages_to(c2, root_child_slot(r2, c2), s2),
        stages_to(c1, root_child_slot(r1, c1), s1_alone),
    ensures
        same_geometry(s1, s1_alone),
{
    lemma_stage_deterministic(c1, root_child_slot(r1, c1), s1, s1_alone);
}

/// Column partition: a `Column` with a well-formed allotted area places its
/// children inside that area without overlap — every staged child lies
/// within the parent's allotted rectangle, and no two staged siblings
/// intersect.
pub proof fn lemma_column_partition(n: Node, a: Region, s: Staged)
    requires
        n is Column,
        a.w >= 0,
        a.h >= 0,
        stages_to(n, a, s),
    ensures
        forall|i: int|
            0 <= i < s.children@.len() ==> region_contained(#[trigger] s.children@[i].area@, a),
        forall|i: int, j: int|
            0 <= i < j < s.children@.len() ==> regions_disjoint(
                s.children@[i].area@,
                s.children@[j].area@,
            ),
{
    let k: int = children_of(n).len() as int;
    assert forall|i: int| 0 <= i < s.children@.len() implies s.children@[i].area@ == band_model(
        a,
        k,
        i,
    ) by {
        assert(stages_to(children_of(n)[i], band_model(a, k, i), s.children@[i]));
        lemma_stage_area(children_of(n)[i], band_model(a, k, i), s.children@[i]);
    }
    assert forall|i: int| 0 <= i < s.children@.len() implies region_contained(
        #[trigger] s.children@[i].area@,
        a,
    ) by {
        assert(s.children@[i].area@ == band_model(a, k, i));
        lemma_mul_nonnegative(i, a.h);
        lemma_div_pos_is_pos(i * a.h, k);
        lemma_mul_inequality(i + 1, k, a.h);
        lemma_tdiv_is_ordered((i + 1) * a.h, k * a.h, k);
        lemma_tdiv_multiples_vanish(a.h, k);
        lemma_mul_nonnegative(i + 1, a.h);
        lemma_div_pos_is_pos((i + 1) * a.h, k);
    }
    assert forall|i: int, j: int| 0 <= i < j < s.children@.len() implies regions_disjoint(
        s.children@[i].area@,
        s.children@[j].area@,
    ) by {
        assert(s.children@[i].area@ == band_model(a, k, i));
        assert(s.children@[j].area@ == band_model(a, k, j));
        lemma_mul_inequality(i + 1, j, a.h);
        lemma_tdiv_is_ordered((i + 1) * a.h, j * a.h, k);
    }
}

/// Staging reads only the structure a clone preserves: two structurally
/// identical trees — a tree and its clone — staged over the same allotted
/// area resolve identical geometry.
pub proof fn lemma_same_tree_same_staging(n1: Node, n2: Node, a: Region, s1: Staged, s2: Staged)
    requires
        same_tree(n1, n2),
        stages_to(n1, a, s1),
        stages_to(n2, a, s2),
    ensures
        same_geometry(s1, s2),
    decreases n1,
{
    match n1 {
        Node::Basic { imposed: _, children } => {
            assert forall|i: int| 0 <= i < s1.children@.len() implies same_geometry(
                #[trigger] s1.children@[i],
                s2.children@[i],
            ) by {
                assert(same_tree(children@[i], children_of(n2)[i]));
                assert(imposed_of(children@[i]) == imposed_of(children_of(n2)[i]));
                lemma_same_tree_same_staging(
                    children@[i],
                    children_of(n2)[i],
                    compose_model(imposed_of(children@[i]).area, a),
                    s1.children@[i],
                    s2.children@[i],
                );
            }
        },
        Node::Column { imposed: _, children } => {
            assert forall|i: int| 0 <= i < s1.children@.len() implies same_geometry(
                #[trigger] s1.children@[i],
                s2.children@[i],
            ) by {
                assert(same_tree(children@[i], children_of(n2)[i]));
                lemma_same_tree_same_staging(
                    children@[i],
                    children_of(n2)[i],
                    band_model(a, children@.len() as int, i),
                    s1.children@[i],
                    s2.children@[i],
                );
            }
        },
    }
}

} // verus!

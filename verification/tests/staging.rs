//! Scenario tests for the staging core: the geometry composition operator,
//! root binding, constraint propagation, determinism, independence of roots,
//! and the column partition.
use feather_ui::geometry::{compose, AbsRect, URect, UNIT};
use feather_ui::node::Node;
use feather_ui::root::{Inherited, Root};
use feather_ui::staged::Staged;

fn rect(x: i64, y: i64, w: i64, h: i64) -> AbsRect {
    AbsRect { x, y, w, h }
}

fn rel(rel_x: i64, rel_y: i64, rel_w: i64, rel_h: i64) -> URect {
    URect { rel_x, rel_y, rel_w, rel_h, off_x: 0, off_y: 0, off_w: 0, off_h: 0 }
}

fn leaf(area: URect) -> Node {
    Node::Basic { imposed: Inherited::new(area), children: Vec::new() }
}

#[test]
fn identity_composition_returns_area_unchanged() {
    let areas = [
        rect(0, 0, 200, 100),
        rect(-7, 13, 640, 480),
        rect(5, 5, 0, 0),
        rect(10, 20, -30, -40),
    ];
    for a in areas {
        assert_eq!(compose(&URect::identity(), &a), a);
    }
}

#[test]
fn compose_scales_fractions_and_adds_offsets() {
    let a = rect(100, 200, 400, 800);
    let r = URect {
        rel_x: UNIT / 4,
        rel_y: UNIT / 2,
        rel_w: UNIT / 2,
        rel_h: UNIT / 4,
        off_x: 3,
        off_y: -5,
        off_w: 7,
        off_h: 9,
    };
    assert_eq!(compose(&r, &a), rect(100 + 100 + 3, 200 + 400 - 5, 200 + 7, 200 + 9));
}

#[test]
fn compose_accepts_negative_fractions() {
    let a = rect(0, 0, 200, 100);
    let r = rel(-UNIT / 2, 0, -UNIT, UNIT);
    // Degenerate geometry is propagated, not rejected.
    assert_eq!(compose(&r, &a), rect(-100, 0, -200, 100));
}

#[test]
fn root_transparency() {
    let a = rect(11, 22, 640, 480);
    let root = Root::new(a);
    let child = leaf(URect::identity());
    let staged = root.stage(&child);
    // The staged result is the child's own node at exactly the root's area:
    // no wrapping node appears around it.
    assert_eq!(staged.area(), a);
    assert_eq!(staged.children.len(), 0);
}

#[test]
fn constraint_propagation() {
    let root = Root::new(rect(0, 0, 200, 100));
    let child = leaf(rel(UNIT / 4, 0, UNIT / 2, UNIT));
    let staged = root.stage(&child);
    assert_eq!(staged.area(), rect(50, 0, 100, 100));
}

#[test]
fn nested_composition_resolves_grandchildren() {
    // A half-width child holding a half-width grandchild: the grandchild
    // resolves to a quarter of the root's width.
    let grandchild = leaf(rel(0, 0, UNIT / 2, UNIT));
    let child = Node::Basic {
        imposed: Inherited::new(rel(0, 0, UNIT / 2, UNIT)),
        children: vec![grandchild],
    };
    let root = Root::new(rect(0, 0, 400, 100));
    let staged = root.stage(&child);
    assert_eq!(staged.area(), rect(0, 0, 200, 100));
    assert_eq!(staged.children.len(), 1);
    assert_eq!(staged.children[0].area(), rect(0, 0, 100, 100));
}

#[test]
fn staging_twice_is_deterministic() {
    let tree = Node::Basic {
        imposed: Inherited::new(URect::identity()),
        children: vec![
            leaf(rel(0, 0, UNIT / 2, UNIT)),
            leaf(rel(UNIT / 2, 0, UNIT / 2, UNIT)),
        ],
    };
    let root = Root::new(rect(0, 0, 300, 150));
    let first = root.stage(&tree);
    let second = root.stage(&tree);
    assert_eq!(first, second);
}

#[test]
fn cloned_tree_stages_to_same_geometry() {
    let tree = Node::Column {
        imposed: Inherited::new(URect::identity()),
        children: vec![leaf(URect::identity()), leaf(URect::identity())],
    };
    let copy = tree.clone();
    let root = Root::new(rect(4, 8, 120, 90));
    assert_eq!(root.stage(&tree), root.stage(&copy));
}

#[test]
fn independent_roots_do_not_affect_each_other() {
    let child_a = leaf(URect::identity());
    let child_b = leaf(rel(0, 0, UNIT / 2, UNIT / 2));
    let root_a = Root::new(rect(0, 0, 100, 100));
    let root_b = Root::new(rect(500, 500, 80, 60));
    // Staged together in either order, or alone: each tree's geometry
    // depends only on its own root's area and child.
    let staged_a1 = root_a.stage(&child_a);
    let staged_b1 = root_b.stage(&child_b);
    let staged_b2 = root_b.stage(&child_b);
    let staged_a2 = root_a.stage(&child_a);
    assert_eq!(staged_a1, staged_a2);
    assert_eq!(staged_b1, staged_b2);
    assert_eq!(staged_a1.area(), rect(0, 0, 100, 100));
    assert_eq!(staged_b1.area(), rect(500 + 0, 500 + 0, 40, 30));
}

#[test]
fn column_partitions_height_among_children() {
    let tree = Node::Column {
        imposed: Inherited::new(URect::identity()),
        children: vec![
            leaf(URect::identity()),
            leaf(URect::identity()),
            leaf(URect::identity()),
        ],
    };
    let root = Root::new(rect(0, 10, 200, 100));
    let staged = root.stage(&tree);
    assert_eq!(staged.area(), rect(0, 10, 200, 100));
    assert_eq!(staged.children.len(), 3);
    assert_eq!(staged.children[0].area(), rect(0, 10, 200, 33));
    assert_eq!(staged.children[1].area(), rect(0, 43, 200, 33));
    assert_eq!(staged.children[2].area(), rect(0, 76, 200, 34));
    // Bands tile the allotted height: no overlap, nothing outside it.
    let bands: Vec<AbsRect> = staged.children.iter().map(Staged::area).collect();
    for (i, b) in bands.iter().enumerate() {
        assert!(b.y >= 10 && b.y + b.h <= 110);
        for later in &bands[i + 1..] {
            assert!(b.y + b.h <= later.y);
        }
    }
}

#[test]
fn column_with_no_children_stages_bare() {
    let tree = Node::Column { imposed: Inherited::new(URect::identity()), children: Vec::new() };
    let root = Root::new(rect(1, 2, 3, 4));
    let staged = root.stage(&tree);
    assert_eq!(staged.area(), rect(1, 2, 3, 4));
    assert_eq!(staged.children.len(), 0);
}

#[test]
fn degenerate_area_propagates_to_children() {
    let tree = Node::Basic {
        imposed: Inherited::new(rel(0, 0, -UNIT, UNIT)),
        children: vec![leaf(URect::identity())],
    };
    let root = Root::new(rect(0, 0, 50, 50));
    let staged = root.stage(&tree);
    assert_eq!(staged.area(), rect(0, 0, -50, 50));
    assert_eq!(staged.children[0].area(), rect(0, 0, -50, 50));
}

#[test]
fn get_imposed_reports_the_configured_constraint() {
    let u = rel(UNIT / 4, UNIT / 4, UNIT / 2, UNIT / 2);
    let node = leaf(u);
    assert_eq!(node.get_imposed(), Inherited::new(u));
}

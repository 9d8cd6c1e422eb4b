//! The staging core of a retained-mode UI layout engine: it converts an
//! abstract, declaratively built tree of layout nodes into a concrete tree of
//! positioned rectangles, ready for rendering and hit-testing.
//!
//! A caller builds a tree of [`node::Node`] values, binds it to an output
//! surface's absolute area with a [`root::Root`], and stages it top-down:
//! each parent computes the absolute area allotted to every child and asks
//! the child to stage itself there, bottoming out at leaves. The result is a
//! [`staged::Staged`] tree holding the resolved absolute rectangle of every
//! node.
pub mod geometry;
pub mod laws;
pub mod node;
pub mod root;
pub mod staged;

//! An arena-backed syntax tree whose nodes know the slot they occupy, and a
//! visitor framework that may edit the tree in any direction while it walks.
//!
//! - [`ast`]: handles, node kinds, parent tags, and the checked narrowing of
//!   an arena entry to a node of one kind.
//! - [`arena`]: the arena that owns the nodes of a tree.
//! - [`builder`]: construction of trees that are consistent at every step.
//! - [`tree`]: what makes the entries of an arena a consistent tree, the one
//!   structural edit, and what that edit keeps.
//! - [`cell`]: the access token and the traversable view.
//! - [`visit`]: the visitor trait.
//! - [`traverse`]: the driver that runs a visitor under a token.
//! - [`transform_typeof`]: a transform that moves `typeof` to the right of a
//!   comparison, with the proof that a second pass finds nothing to do.
//! - [`print`]: a printer.
//! - [`parser`]: the construction of one example tree.

pub mod arena;
pub mod ast;
pub mod builder;
pub mod cell;
pub mod parser;
pub mod print;
pub mod transform_typeof;
pub mod traverse;
pub mod tree;
pub mod visit;

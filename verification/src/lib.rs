//! Small, self-contained building blocks, each stated and proved on its own.
//!
//! The largest of them is a tree of reference-counted nodes with weak
//! references from child to parent: [`node`] holds the arena, and
//! [`ownership`] the model that its contracts speak of, with the laws that
//! hold of it. The others are a word count, a line search, a lazily computed
//! value, a quota that warns its owner, and a handful of smaller types and
//! functions.
//!
//! What comes from outside is behind a few functions whose contracts are
//! taken on trust: random numbers in [`chance`], and the parts of the standard
//! library that split and fold text in [`text`].

pub mod borrowing;
pub mod chance;
pub mod closures;
pub mod collections;
pub mod config;
pub mod cons;
pub mod counting;
pub mod enums;
pub mod generics;
pub mod geometry;
pub mod iterators;
pub mod lifetimes;
pub mod mybox;
pub mod node;
pub mod ownership;
pub mod quota;
pub mod recovery;
pub mod restaurant;
pub mod search;
pub mod slice;
pub mod structs;
pub mod tally;
pub mod text;
pub mod traits;

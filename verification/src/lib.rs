//! A peephole optimizer for CLVM programs, and what stands around it in a
//! compiler: the record of a run that is made step by step, and the
//! detection of the dialect that a program asks for.
//!
//! Programs are binary trees of atoms and pairs that live in an arena of
//! `clvmr`. The optimizer rewrites a program by a fixed, ordered set of
//! local rules, applied until none of them changes the tree. What each
//! function returns is stated on the trees that the nodes stand for.
//!
//! - `tree`: the trees, as contracts speak of them
//! - `arena`: the arena of `clvmr` and the helpers on its nodes
//! - `pattern_match`: templates and their matching
//! - `number`, `node_path`: numbers of any size, and paths into a tree
//! - `runner`: the evaluator that folds constants
//! - `model`: what the rules and the driver compute, on trees
//! - `optimize`: the rules and the driver, on nodes
//! - `laws`: what holds of the optimizer and of the matcher for every tree
//! - `dialect`: the dialect that a program asks for
//! - `text`, `srcloc`, `sexp`, `runtypes`, `serialize`, `cldb`: the record
//!   of a run

pub mod tree;
pub mod arena;
pub mod pattern_match;
pub mod number;
pub mod node_path;
pub mod runner;
pub mod model;
pub mod optimize;
pub mod laws;
pub mod dialect;
pub mod text;
pub mod srcloc;
pub mod sexp;
pub mod runtypes;
pub mod serialize;
pub mod cldb;

//! The evaluator that folds constants.

use vstd::prelude::*;
use clvmr::allocator::Allocator;
use clvmr::allocator::NodePtr;
use clvmr::error::EvalErr;
use clvmr::chia_dialect::ChiaDialect;
use crate::tree::Tree;
use crate::arena::{valid, tree_of, extends, arena_nodes};

verus! {

/// What a run returns: its cost and the node it evaluated to.
pub struct Reduction(pub u64, pub NodePtr);

/// How to run a program.
pub struct RunProgramOption {
    /// The most that the run may cost; `None` or zero for no limit.
    pub max_cost: Option<u64>,
}

/// An evaluator of programs. Where a run succeeds, what it returns depends
/// on the program and its arguments alone.
pub trait TRunProgram {
    /// What a successful run of `program` on `args` evaluates to.
    spec fn value(&self, program: Tree, args: Tree) -> Tree;

    /// Runs `program` on `args`. The nodes of the arena stay as they were.
    fn run_program(
        &self,
        allocator: &mut Allocator,
        program: NodePtr,
        args: NodePtr,
        option: Option<RunProgramOption>,
    ) -> (res: Result<Reduction, EvalErr>)
        requires
            valid(*old(allocator), program),
            valid(*old(allocator), args),
        ensures
            extends(*old(allocator), *final(allocator)),
            res matches Ok(reduction) ==> valid(*final(allocator), reduction.1) && tree_of(
                *final(allocator),
                reduction.1,
            ) == self.value(tree_of(*old(allocator), program), tree_of(*old(allocator), args)),
    ;
}

/// What `clvmr` evaluates `program` to on the environment `env`, where the
/// run succeeds.
pub uninterp spec fn clvm_value(program: Tree, env: Tree) -> Tree;

/// `clvmr::run_program` in the dialect `ChiaDialect::default()`. A run
/// allocates in the arena and leaves the nodes that were there as they
/// were. Where it succeeds its result is a node of the arena, and the tree
/// of that node depends on the trees of the program and of the environment
/// alone.
#[verifier::external_body]
fn clvm_run(a: &mut Allocator, program: NodePtr, env: NodePtr, max_cost: u64) -> (res: Result<
    Reduction,
    EvalErr,
>)
    requires
        arena_nodes(*old(a)).dom().contains(program),
        arena_nodes(*old(a)).dom().contains(env),
    ensures
        extends(*old(a), *final(a)),
        res matches Ok(reduction) ==> arena_nodes(*final(a)).dom().contains(reduction.1)
            && arena_nodes(*final(a))[reduction.1] == clvm_value(
            arena_nodes(*old(a))[program],
            arena_nodes(*old(a))[env],
        ),
{
    match clvmr::run_program::run_program(a, &ChiaDialect::default(), program, env, max_cost) {
        Ok(reduction) => Ok(Reduction(reduction.0, reduction.1)),
        Err(e) => Err(e),
    }
}

/// The evaluator of `clvmr` with its standard operators.
pub struct DefaultProgramRunner {}

impl DefaultProgramRunner {
    pub fn new() -> (r: DefaultProgramRunner) {
        DefaultProgramRunner {  }
    }
}

impl TRunProgram for DefaultProgramRunner {
    open spec fn value(&self, program: Tree, args: Tree) -> Tree {
        clvm_value(program, args)
    }

    fn run_program(
        &self,
        allocator: &mut Allocator,
        program: NodePtr,
        args: NodePtr,
        option: Option<RunProgramOption>,
    ) -> (res: Result<Reduction, EvalErr>) {
        let max_cost: u64 = match option {
            Some(o) => match o.max_cost {
                Some(c) => c,
                None => 0,
            },
            None => 0,
        };
        clvm_run(allocator, program, args, max_cost)
    }
}

} // verus!

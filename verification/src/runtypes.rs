//! The steps of a run and the ways in which it fails.

use vstd::prelude::*;
use std::rc::Rc;
use crate::srcloc::Srcloc;
use crate::sexp::SExp;

verus! {

/// Where a run stands.
#[derive(Clone, Debug)]
pub enum RunStep {
    /// The run has ended with a value.
    Done(Srcloc, Rc<SExp>),
    /// An operator has given its result.
    OpResult(Srcloc, Rc<SExp>, Rc<RunStep>),
    /// An operator with its context and its arguments: those still to be
    /// evaluated, and those that have been where there are any.
    Op(Rc<SExp>, Rc<SExp>, Rc<SExp>, Option<Vec<Rc<SExp>>>, Rc<RunStep>),
    /// An expression to be evaluated in a context.
    Step(Rc<SExp>, Rc<SExp>, Rc<RunStep>),
}

/// How a run fails.
#[derive(Clone, Debug)]
pub enum RunFailure {
    /// An error, with where it happened and what it says.
    RunErr(Srcloc, String),
    /// An exception that the program raised, with where and with what.
    RunExn(Srcloc, Rc<SExp>),
}

} // verus!

//! The rewrite rules and the driver that applies them, on nodes of an arena.

use vstd::prelude::*;
use clvmr::allocator::Allocator;
use clvmr::allocator::NodePtr;
use crate::tree::Tree;
use crate::arena::{
    valid,
    tree_of,
    extends,
    trees_of,
    all_valid,
    sexp,
    atom_bytes,
    nil_node,
    atom_node,
    byte_node,
    pair_node,
    non_nil,
    is_byte_atom,
    first,
    proper_list,
    enlist,
    equal_to,
    lemma_extends_trees,
    OptimizeError,
    SExp,
};
use crate::pattern_match::{match_sexp, Bindings, SEXP_MATCH, ATOM_MATCH};
use crate::runner::{TRunProgram, DefaultProgramRunner, Reduction};
use crate::number::{number_le, number_is_odd, number_shr, signed_value, lemma_value_of_byte};
use crate::tree::lemma_item_smaller;
use crate::node_path::NodePath;
use crate::model::{
    QUOTE_ATOM,
    APPLY_ATOM,
    CONS_ATOM,
    FIRST_ATOM,
    REST_ATOM,
    ENV_ATOM,
    ARGS_ATOM,
    Outcome,
    name_sexp,
    name_args,
    name_first,
    name_rest,
    name_atom,
    quote_spec,
    seems_constant_spec,
    seems_constant_tail_spec,
    constant_optimizer_spec,
    is_args_call_spec,
    cons_q_a_optimizer_pattern_spec,
    cons_q_a_optimizer_spec,
    cons_pattern_spec,
    cons_f_spec,
    cons_r_spec,
    path_from_args_spec,
    sub_args_spec,
    lemma_sub_args_list,
    non_constant,
    non_constant_count,
    cons_optimizer_pattern_first_spec,
    cons_optimizer_pattern_rest_spec,
    cons_optimizer_spec,
    first_atom_pattern_spec,
    rest_atom_pattern_spec,
    path_step_spec,
    path_optimizer_spec,
    quote_pattern_1_spec,
    quote_null_optimizer_spec,
    apply_null_pattern_1_spec,
    apply_null_optimizer_spec,
    optimize_all_spec,
    optimize_spec,
    drive_spec,
    pass_spec,
    pass_from_spec,
    rule_spec,
    rule_at,
    Rule,
    RULE_COUNT,
    children_optimizer_spec,
    var_change_optimizer_cons_eval_spec,
    lemma_optimize_all_front,
};

verus! {

/// The capture name `sexp`.
fn name_sexp_bytes() -> (v: Vec<u8>)
    ensures
        v@ == name_sexp(),
{
    let v: Vec<u8> = vec![115u8, 101u8, 120u8, 112u8];
    assert(v@ =~= name_sexp());
    v
}

/// The capture name `args`.
fn name_args_bytes() -> (v: Vec<u8>)
    ensures
        v@ == name_args(),
{
    let v: Vec<u8> = vec![97u8, 114u8, 103u8, 115u8];
    assert(v@ =~= name_args());
    v
}

/// The capture name `first`.
fn name_first_bytes() -> (v: Vec<u8>)
    ensures
        v@ == name_first(),
{
    let v: Vec<u8> = vec![102u8, 105u8, 114u8, 115u8, 116u8];
    assert(v@ =~= name_first());
    v
}

/// The capture name `rest`.
fn name_rest_bytes() -> (v: Vec<u8>)
    ensures
        v@ == name_rest(),
{
    let v: Vec<u8> = vec![114u8, 101u8, 115u8, 116u8];
    assert(v@ =~= name_rest());
    v
}

/// The capture name `atom`.
fn name_atom_bytes() -> (v: Vec<u8>)
    ensures
        v@ == name_atom(),
{
    let v: Vec<u8> = vec![97u8, 116u8, 111u8, 109u8];
    assert(v@ =~= name_atom());
    v
}

/// A new template pair `(marker . name)`.
fn capture_node(a: &mut Allocator, marker: u8, name: &[u8]) -> (res: Result<NodePtr, OptimizeError>)
    ensures
        extends(*old(a), *final(a)),
        match res {
            Ok(n) => valid(*final(a), n) && tree_of(*final(a), n) == Tree::pair(
                Tree::byte(marker),
                Tree::Atom(name@),
            ),
            Err(e) => e is Arena,
        },
{
    let m = byte_node(a, marker)?;
    let n = atom_node(a, name)?;
    pair_node(a, m, n)
}

/// A new list of one element.
fn list_1(a: &mut Allocator, x: NodePtr) -> (res: Result<NodePtr, OptimizeError>)
    requires
        valid(*old(a), x),
    ensures
        extends(*old(a), *final(a)),
        match res {
            Ok(n) => valid(*final(a), n) && tree_of(*final(a), n) == Tree::pair(
                tree_of(*old(a), x),
                Tree::nil(),
            ),
            Err(e) => e is Arena,
        },
{
    let nil = nil_node(a);
    pair_node(a, x, nil)
}

/// Whether a node is the path that stands for the whole environment.
pub fn is_args_call(a: &Allocator, r: NodePtr) -> (res: bool)
    requires
        valid(*a, r),
    ensures
        res == is_args_call_spec(tree_of(*a, r)),
{
    is_byte_atom(a, r, ARGS_ATOM)
}

/// Builds the template `(a (q . (: . sexp)) (: . args))`.
pub fn cons_q_a_optimizer_pattern(a: &mut Allocator) -> (res: Result<NodePtr, OptimizeError>)
    ensures
        extends(*old(a), *final(a)),
        match res {
            Ok(n) => valid(*final(a), n) && tree_of(*final(a), n)
                == cons_q_a_optimizer_pattern_spec(),
            Err(e) => e is Arena,
        },
{
    let name_s = name_sexp_bytes();
    let name_a = name_args_bytes();
    let apply = byte_node(a, APPLY_ATOM)?;
    let quote = byte_node(a, QUOTE_ATOM)?;
    let sexp_capture = capture_node(a, SEXP_MATCH, name_s.as_slice())?;
    let args_capture = capture_node(a, SEXP_MATCH, name_a.as_slice())?;
    let quoted = pair_node(a, quote, sexp_capture)?;
    let tail = list_1(a, args_capture)?;
    let operands = pair_node(a, quoted, tail)?;
    pair_node(a, apply, operands)
}

/// `(a (q . SEXP) 1)` becomes `SEXP`; any other node is returned as it is.
pub fn cons_q_a_optimizer<R: TRunProgram>(a: &mut Allocator, r: NodePtr, _eval_f: &R) -> (res:
    Result<NodePtr, OptimizeError>)
    requires
        valid(*old(a), r),
    ensures
        extends(*old(a), *final(a)),
        match res {
            Ok(n) => valid(*final(a), n) && tree_of(*final(a), n) == cons_q_a_optimizer_spec(
                tree_of(*old(a), r),
            ),
            Err(e) => e is Arena,
        },
{
    let pattern = cons_q_a_optimizer_pattern(a)?;
    let matched = match_sexp(a, pattern, r, Bindings::new());
    match matched {
        Some(b) => {
            let name_s = name_sexp_bytes();
            let name_a = name_args_bytes();
            match (b.get(name_a.as_slice()), b.get(name_s.as_slice())) {
                (Some(args), Some(body)) => {
                    if is_args_call(a, args) {
                        Ok(body)
                    } else {
                        Ok(r)
                    }
                },
                _ => Ok(r),
            }
        },
        None => Ok(r),
    }
}

/// Whether every element of the list `r` seems constant, and the list ends
/// in nil.
pub fn seems_constant_tail(a: &Allocator, r: NodePtr) -> (res: bool)
    requires
        valid(*a, r),
    ensures
        res == seems_constant_tail_spec(tree_of(*a, r)),
    decreases tree_of(*a, r).size(), 0nat,
{
    let mut cur = r;
    loop
        invariant
            valid(*a, cur),
            tree_of(*a, cur).size() <= tree_of(*a, r).size(),
            seems_constant_tail_spec(tree_of(*a, r)) == seems_constant_tail_spec(tree_of(*a, cur)),
        decreases tree_of(*a, cur).size(),
    {
        match sexp(a, cur) {
            SExp::Pair(l, rest) => {
                if !seems_constant(a, l) {
                    return false;
                }
                cur = rest;
            },
            SExp::Atom => {
                return !non_nil(a, cur);
            },
        }
    }
}

/// Whether the value of `r` cannot depend on the environment, as far as
/// its shape shows.
pub fn seems_constant(a: &Allocator, r: NodePtr) -> (res: bool)
    requires
        valid(*a, r),
    ensures
        res == seems_constant_spec(tree_of(*a, r)),
    decreases tree_of(*a, r).size(), 1nat,
{
    match sexp(a, r) {
        SExp::Atom => !non_nil(a, r),
        SExp::Pair(operator, operands) => {
            match sexp(a, operator) {
                SExp::Atom => {
                    if is_byte_atom(a, operator, QUOTE_ATOM) {
                        return true;
                    } else if is_byte_atom(a, operator, ENV_ATOM) {
                        return false;
                    }
                },
                SExp::Pair(_, _) => {
                    if !seems_constant(a, operator) {
                        return false;
                    }
                },
            }
            seems_constant_tail(a, operands)
        },
    }
}

/// `(q . r)`.
pub fn quote(a: &mut Allocator, r: NodePtr) -> (res: Result<NodePtr, OptimizeError>)
    requires
        valid(*old(a), r),
    ensures
        extends(*old(a), *final(a)),
        match res {
            Ok(n) => valid(*final(a), n) && tree_of(*final(a), n) == quote_spec(
                tree_of(*old(a), r),
            ),
            Err(e) => e is Arena,
        },
{
    let q = byte_node(a, QUOTE_ATOM)?;
    pair_node(a, q, r)
}

/// What the constant folder makes of the evaluator's answer: the quoted
/// result of a run that succeeded, the error of one that failed.
pub fn constant_folded(a: &mut Allocator, run: Result<Reduction, clvmr::error::EvalErr>) -> (res:
    Result<NodePtr, OptimizeError>)
    requires
        run matches Ok(reduction) ==> valid(*old(a), reduction.1),
    ensures
        extends(*old(a), *final(a)),
        match res {
            Ok(n) => run matches Ok(reduction) && valid(*final(a), n) && tree_of(*final(a), n)
                == quote_spec(tree_of(*old(a), reduction.1)),
            Err(e) => (run is Err ==> e is Evaluator) && (run is Ok ==> e is Arena),
        },
{
    match run {
        Ok(reduction) => quote(a, reduction.1),
        Err(e) => Err(OptimizeError::Evaluator(e)),
    }
}

/// Constant folding: a node that seems constant and is not nil is run on
/// the nil environment, and the quoted result takes its place. Any other
/// node is returned as it is.
pub fn constant_optimizer<R: TRunProgram>(
    a: &mut Allocator,
    r: NodePtr,
    _max_cost: u64,
    runner: &R,
) -> (res: Result<NodePtr, OptimizeError>)
    requires
        valid(*old(a), r),
    ensures
        extends(*old(a), *final(a)),
        match res {
            Ok(n) => valid(*final(a), n) && tree_of(*final(a), n) == constant_optimizer_spec(
                *runner,
                tree_of(*old(a), r),
            ),
            Err(e) => (e is Evaluator || e is Arena) && seems_constant_spec(tree_of(*old(a), r))
                && !tree_of(*old(a), r).is_nil(),
        },
        !(seems_constant_spec(tree_of(*old(a), r)) && !tree_of(*old(a), r).is_nil()) ==> res is Ok,
{
    if seems_constant(a, r) && non_nil(a, r) {
        let nil = nil_node(a);
        let run = runner.run_program(a, r, nil, None);
        constant_folded(a, run)
    } else {
        Ok(r)
    }
}

/// Builds the template `(c (: . first) (: . rest))`.
fn cons_pattern(a: &mut Allocator) -> (res: Result<NodePtr, OptimizeError>)
    ensures
        extends(*old(a), *final(a)),
        match res {
            Ok(n) => valid(*final(a), n) && tree_of(*final(a), n) == cons_pattern_spec(),
            Err(e) => e is Arena,
        },
{
    let name_f = name_first_bytes();
    let name_r = name_rest_bytes();
    let cons = byte_node(a, CONS_ATOM)?;
    let first_capture = capture_node(a, SEXP_MATCH, name_f.as_slice())?;
    let rest_capture = capture_node(a, SEXP_MATCH, name_r.as_slice())?;
    let tail = list_1(a, rest_capture)?;
    let operands = pair_node(a, first_capture, tail)?;
    pair_node(a, cons, operands)
}

/// A new list `(op x)` for the operator byte `op`.
fn unary(a: &mut Allocator, op: u8, x: NodePtr) -> (res: Result<NodePtr, OptimizeError>)
    requires
        valid(*old(a), x),
    ensures
        extends(*old(a), *final(a)),
        match res {
            Ok(n) => valid(*final(a), n) && tree_of(*final(a), n) == Tree::pair(
                Tree::byte(op),
                Tree::pair(tree_of(*old(a), x), Tree::nil()),
            ),
            Err(e) => e is Arena,
        },
{
    let operator = byte_node(a, op)?;
    let operands = list_1(a, x)?;
    pair_node(a, operator, operands)
}

/// The first of what `args` evaluates to: `A` for `(c A B)`, else `(f args)`.
fn cons_f(a: &mut Allocator, args: NodePtr) -> (res: Result<NodePtr, OptimizeError>)
    requires
        valid(*old(a), args),
    ensures
        extends(*old(a), *final(a)),
        match res {
            Ok(n) => valid(*final(a), n) && tree_of(*final(a), n) == cons_f_spec(
                tree_of(*old(a), args),
            ),
            Err(e) => e is Arena,
        },
{
    let pattern = cons_pattern(a)?;
    let name_f = name_first_bytes();
    match match_sexp(a, pattern, args, Bindings::new()) {
        Some(b) => match b.get(name_f.as_slice()) {
            Some(found) => Ok(found),
            None => unary(a, FIRST_ATOM, args),
        },
        None => unary(a, FIRST_ATOM, args),
    }
}

/// The rest of what `args` evaluates to: `B` for `(c A B)`, else `(r args)`.
fn cons_r(a: &mut Allocator, args: NodePtr) -> (res: Result<NodePtr, OptimizeError>)
    requires
        valid(*old(a), args),
    ensures
        extends(*old(a), *final(a)),
        match res {
            Ok(n) => valid(*final(a), n) && tree_of(*final(a), n) == cons_r_spec(
                tree_of(*old(a), args),
            ),
            Err(e) => e is Arena,
        },
{
    let pattern = cons_pattern(a)?;
    let name_r = name_rest_bytes();
    match match_sexp(a, pattern, args, Bindings::new()) {
        Some(b) => match b.get(name_r.as_slice()) {
            Some(found) => Ok(found),
            None => unary(a, REST_ATOM, args),
        },
        None => unary(a, REST_ATOM, args),
    }
}

/// The program that follows the path atom `n` into what `new_args`
/// evaluates to; `new_args` itself where `n` is a pair.
fn path_from_args(a: &mut Allocator, n: NodePtr, new_args: NodePtr) -> (res: Result<
    NodePtr,
    OptimizeError,
>)
    requires
        valid(*old(a), n),
        valid(*old(a), new_args),
    ensures
        extends(*old(a), *final(a)),
        match res {
            Ok(r) => valid(*final(a), r) && tree_of(*final(a), r) == (match tree_of(*old(a), n) {
                Tree::Atom(bytes) => path_from_args_spec(
                    signed_value(bytes),
                    tree_of(*old(a), new_args),
                ),
                Tree::Pair(_, _) => tree_of(*old(a), new_args),
            }),
            Err(e) => e is Arena,
        },
{
    match sexp(a, n) {
        SExp::Pair(_, _) => Ok(new_args),
        SExp::Atom => {
            let mut v = atom_bytes(a, n);
            let mut args = new_args;
            let one: Vec<u8> = vec![1u8];
            let ghost whole = path_from_args_spec(signed_value(v@), tree_of(*a, new_args));
            proof {
                lemma_value_of_byte(1u8);
                assert(one@ =~= seq![1u8]);
                vstd::arithmetic::power2::lemma2_to64();
            }
            while !number_le(v.as_slice(), one.as_slice())
                invariant
                    extends(*old(a), *a),
                    valid(*a, args),
                    signed_value(one@) == 1,
                    vstd::arithmetic::power2::pow2(1) == 2,
                    whole == path_from_args_spec(signed_value(v@), tree_of(*a, args)),
                decreases signed_value(v@),
            {
                let odd = number_is_odd(v.as_slice());
                let next = if odd {
                    cons_r(a, args)?
                } else {
                    cons_f(a, args)?
                };
                args = next;
                v = number_shr(v.as_slice(), 1);
            }
            Ok(args)
        },
    }
}

/// The body `n` of an apply, rewritten to run on what `new_args` evaluates
/// to.
fn sub_args(a: &mut Allocator, n: NodePtr, new_args: NodePtr) -> (res: Result<
    NodePtr,
    OptimizeError,
>)
    requires
        valid(*old(a), n),
        valid(*old(a), new_args),
    ensures
        extends(*old(a), *final(a)),
        match res {
            Ok(r) => valid(*final(a), r) && tree_of(*final(a), r) == sub_args_spec(
                tree_of(*old(a), n),
                tree_of(*old(a), new_args),
            ),
            Err(e) => e is Arena,
        },
    decreases tree_of(*old(a), n).size(),
{
    match sexp(a, n) {
        SExp::Atom => path_from_args(a, n, new_args),
        SExp::Pair(operator, rest) => {
            if is_byte_atom(a, operator, QUOTE_ATOM) {
                return Ok(n);
            }
            match proper_list(a, rest, true) {
                None => path_from_args(a, n, new_args),
                Some(operands) => {
                    let ghost whole = tree_of(*a, n);
                    let ghost args = tree_of(*a, new_args);
                    let ghost items = tree_of(*a, rest).items().unwrap();
                    let ghost mapped = Seq::new(items.len(), |i: int| sub_args_spec(items[i], args));
                    let head = match sexp(a, operator) {
                        SExp::Pair(_, _) => sub_args(a, operator, new_args)?,
                        SExp::Atom => operator,
                    };
                    let ghost head_tree = tree_of(*a, head);
                    let mut out: Vec<NodePtr> = Vec::new();
                    out.push(head);
                    let mut i: usize = 0;
                    proof {
                        lemma_extends_trees(*old(a), *a, operands@);
                        assert(trees_of(*a, out@) =~= seq![head_tree] + mapped.take(0));
                    }
                    while i < operands.len()
                        invariant
                            i <= operands.len(),
                            extends(*old(a), *a),
                            valid(*old(a), n),
                            valid(*old(a), new_args),
                            whole == tree_of(*old(a), n),
                            args == tree_of(*old(a), new_args),
                            whole is Pair,
                            whole.right().is_proper_list(),
                            items == whole.right().items().unwrap(),
                            all_valid(*old(a), operands@),
                            trees_of(*old(a), operands@) == items,
                            mapped == Seq::new(items.len(), |i: int| sub_args_spec(items[i], args)),
                            all_valid(*a, out@),
                            trees_of(*a, out@) == seq![head_tree] + mapped.take(i as int),
                        decreases operands.len() - i,
                    {
                        let ghost before = *a;
                        let ghost done = trees_of(*a, out@);
                        proof {
                            assert(valid(*old(a), operands@[i as int]));
                            assert(items[i as int] == tree_of(*old(a), operands@[i as int]));
                            lemma_item_smaller(whole.right(), i as int);
                        }
                        let x = sub_args(a, operands[i], new_args)?;
                        proof {
                            lemma_extends_trees(before, *a, out@);
                            assert(trees_of(*a, out@.push(x)) =~= done.push(tree_of(*a, x)));
                            assert(done.push(mapped[i as int]) =~= seq![head_tree] + mapped.take(
                                i as int + 1,
                            ));
                            assert forall|j: int| 0 <= j < out@.push(x).len() implies valid(
                                *a,
                                #[trigger] out@.push(x)[j],
                            ) by {
                                if j < out@.len() {
                                    assert(valid(*a, out@[j]));
                                }
                            }
                        }
                        out.push(x);
                        i += 1;
                    }
                    proof {
                        assert(mapped.take(i as int) =~= mapped);
                        lemma_sub_args_list(whole.right(), args);
                        let all = seq![head_tree] + mapped;
                        assert(all.subrange(1, all.len() as int) =~= mapped);
                        assert(all[0] == head_tree);
                    }
                    enlist(a, &out)
                },
            }
        },
    }
}

/// Builds the template `(a (q . (: . sexp)) (: . args))`.
fn var_change_optimizer_cons_eval_pattern(a: &mut Allocator) -> (res: Result<
    NodePtr,
    OptimizeError,
>)
    ensures
        extends(*old(a), *final(a)),
        match res {
            Ok(n) => valid(*final(a), n) && tree_of(*final(a), n)
                == cons_q_a_optimizer_pattern_spec(),
            Err(e) => e is Arena,
        },
{
    cons_q_a_optimizer_pattern(a)
}

/// Whether an optimized operand still depends on the environment, as far as
/// its shape shows.
fn is_non_constant(a: &Allocator, val: NodePtr) -> (res: bool)
    requires
        valid(*a, val),
    ensures
        res == non_constant(tree_of(*a, val)),
{
    match sexp(a, val) {
        SExp::Atom => false,
        SExp::Pair(f, _) => match sexp(a, f) {
            SExp::Atom => !is_byte_atom(a, f, QUOTE_ATOM),
            SExp::Pair(_, _) => proper_list(a, val, false).is_some(),
        },
    }
}

/// The number of operands that still depend on the environment.
fn count_non_constant(a: &Allocator, operands: &Vec<NodePtr>) -> (res: usize)
    requires
        all_valid(*a, operands@),
    ensures
        res == non_constant_count(trees_of(*a, operands@)),
{
    let mut count: usize = 0;
    let mut i: usize = 0;
    let ghost trees = trees_of(*a, operands@);
    proof {
        assert(trees.take(0) =~= Seq::<Tree>::empty());
    }
    while i < operands.len()
        invariant
            i <= operands.len(),
            all_valid(*a, operands@),
            trees == trees_of(*a, operands@),
            count <= i,
            count == non_constant_count(trees.take(i as int)),
        decreases operands.len() - i,
    {
        proof {
            assert(trees.take(i as int + 1).drop_last() =~= trees.take(i as int));
            assert(trees.take(i as int + 1).last() == tree_of(*a, operands@[i as int]));
        }
        if is_non_constant(a, operands[i]) {
            count += 1;
        }
        i += 1;
    }
    proof {
        assert(trees.take(i as int) =~= trees);
    }
    count
}

/// Builds the template `(f (c (: . first) (: . rest)))`.
fn cons_optimizer_pattern_first(a: &mut Allocator) -> (res: Result<NodePtr, OptimizeError>)
    ensures
        extends(*old(a), *final(a)),
        match res {
            Ok(n) => valid(*final(a), n) && tree_of(*final(a), n)
                == cons_optimizer_pattern_first_spec(),
            Err(e) => e is Arena,
        },
{
    let cons = cons_pattern(a)?;
    unary(a, FIRST_ATOM, cons)
}

/// Builds the template `(r (c (: . first) (: . rest)))`.
fn cons_optimizer_pattern_rest(a: &mut Allocator) -> (res: Result<NodePtr, OptimizeError>)
    ensures
        extends(*old(a), *final(a)),
        match res {
            Ok(n) => valid(*final(a), n) && tree_of(*final(a), n)
                == cons_optimizer_pattern_rest_spec(),
            Err(e) => e is Arena,
        },
{
    let cons = cons_pattern(a)?;
    unary(a, REST_ATOM, cons)
}

/// `(f (c A B))` becomes `A` and `(r (c A B))` becomes `B`; any other node
/// is returned as it is.
pub fn cons_optimizer<R: TRunProgram>(a: &mut Allocator, r: NodePtr, _eval_f: &R) -> (res: Result<
    NodePtr,
    OptimizeError,
>)
    requires
        valid(*old(a), r),
    ensures
        extends(*old(a), *final(a)),
        match res {
            Ok(n) => valid(*final(a), n) && tree_of(*final(a), n) == cons_optimizer_spec(
                tree_of(*old(a), r),
            ),
            Err(e) => e is Arena,
        },
{
    let pattern_first = cons_optimizer_pattern_first(a)?;
    let pattern_rest = cons_optimizer_pattern_rest(a)?;
    let name_f = name_first_bytes();
    let name_r = name_rest_bytes();
    let t1 = match_sexp(a, pattern_first, r, Bindings::new());
    let found_first = match t1 {
        Some(b) => b.get(name_f.as_slice()),
        None => None,
    };
    match found_first {
        Some(found) => Ok(found),
        None => {
            let t2 = match_sexp(a, pattern_rest, r, Bindings::new());
            let found_rest = match t2 {
                Some(b) => b.get(name_r.as_slice()),
                None => None,
            };
            match found_rest {
                Some(found) => Ok(found),
                None => Ok(r),
            }
        },
    }
}

/// Builds the template `(f ($ . atom))`.
fn first_atom_pattern(a: &mut Allocator) -> (res: Result<NodePtr, OptimizeError>)
    ensures
        extends(*old(a), *final(a)),
        match res {
            Ok(n) => valid(*final(a), n) && tree_of(*final(a), n) == first_atom_pattern_spec(),
            Err(e) => e is Arena,
        },
{
    let name = name_atom_bytes();
    let atom_capture = capture_node(a, ATOM_MATCH, name.as_slice())?;
    unary(a, FIRST_ATOM, atom_capture)
}

/// Builds the template `(r ($ . atom))`.
fn rest_atom_pattern(a: &mut Allocator) -> (res: Result<NodePtr, OptimizeError>)
    ensures
        extends(*old(a), *final(a)),
        match res {
            Ok(n) => valid(*final(a), n) && tree_of(*final(a), n) == rest_atom_pattern_spec(),
            Err(e) => e is Arena,
        },
{
    let name = name_atom_bytes();
    let atom_capture = capture_node(a, ATOM_MATCH, name.as_slice())?;
    unary(a, REST_ATOM, atom_capture)
}

/// A new path atom that takes one more step, to the first or to the rest,
/// from where the path atom bound in `b` ends; `r` where no atom is bound.
fn path_step(a: &mut Allocator, b: &Bindings, r: NodePtr, to_first: bool) -> (res: Result<
    NodePtr,
    OptimizeError,
>)
    requires
        valid(*old(a), r),
        b.valid(*old(a)),
    ensures
        extends(*old(a), *final(a)),
        match res {
            Ok(n) => valid(*final(a), n) && tree_of(*final(a), n) == path_step_spec(
                b.trees(*old(a)),
                tree_of(*old(a), r),
                if to_first {
                    2nat
                } else {
                    3nat
                },
            ),
            Err(e) => e is Arena,
        },
{
    let name = name_atom_bytes();
    match b.get(name.as_slice()) {
        None => Ok(r),
        Some(node) => match sexp(a, node) {
            SExp::Pair(_, _) => Ok(r),
            SExp::Atom => {
                let base = NodePath::new(Some(atom_bytes(a, node)));
                let whole = NodePath::new(None);
                let step = if to_first {
                    whole.first()
                } else {
                    whole.rest()
                };
                let path = base.add(step);
                let data = path.as_path();
                atom_node(a, data.as_slice())
            },
        },
    }
}

/// `(f N)` and `(r N)` for a path atom `N` become the one path atom that
/// takes the step from where `N` ends; any other node is returned as it is.
pub fn path_optimizer<R: TRunProgram>(a: &mut Allocator, r: NodePtr, _eval_f: &R) -> (res: Result<
    NodePtr,
    OptimizeError,
>)
    requires
        valid(*old(a), r),
    ensures
        extends(*old(a), *final(a)),
        match res {
            Ok(n) => valid(*final(a), n) && tree_of(*final(a), n) == path_optimizer_spec(
                tree_of(*old(a), r),
            ),
            Err(e) => e is Arena,
        },
{
    let pattern_first = first_atom_pattern(a)?;
    let pattern_rest = rest_atom_pattern(a)?;
    let first_match = match_sexp(a, pattern_first, r, Bindings::new());
    let rest_match = match_sexp(a, pattern_rest, r, Bindings::new());
    match (first_match, rest_match) {
        (Some(b), _) => path_step(a, &b, r, true),
        (_, Some(b)) => path_step(a, &b, r, false),
        _ => Ok(r),
    }
}

/// Builds the template `(q . 0)`.
fn quote_pattern_1(a: &mut Allocator) -> (res: Result<NodePtr, OptimizeError>)
    ensures
        extends(*old(a), *final(a)),
        match res {
            Ok(n) => valid(*final(a), n) && tree_of(*final(a), n) == quote_pattern_1_spec(),
            Err(e) => e is Arena,
        },
{
    let nil = nil_node(a);
    quote(a, nil)
}

/// `(q . 0)` becomes `0`; any other node is returned as it is.
pub fn quote_null_optimizer<R: TRunProgram>(a: &mut Allocator, r: NodePtr, _eval_f: &R) -> (res:
    Result<NodePtr, OptimizeError>)
    requires
        valid(*old(a), r),
    ensures
        extends(*old(a), *final(a)),
        match res {
            Ok(n) => valid(*final(a), n) && tree_of(*final(a), n) == quote_null_optimizer_spec(
                tree_of(*old(a), r),
            ),
            Err(e) => e is Arena,
        },
{
    let pattern = quote_pattern_1(a)?;
    match match_sexp(a, pattern, r, Bindings::new()) {
        Some(_) => Ok(nil_node(a)),
        None => Ok(r),
    }
}

/// Builds the template `(a 0 . (: . rest))`.
fn apply_null_pattern_1(a: &mut Allocator) -> (res: Result<NodePtr, OptimizeError>)
    ensures
        extends(*old(a), *final(a)),
        match res {
            Ok(n) => valid(*final(a), n) && tree_of(*final(a), n) == apply_null_pattern_1_spec(),
            Err(e) => e is Arena,
        },
{
    let name_r = name_rest_bytes();
    let apply = byte_node(a, APPLY_ATOM)?;
    let rest_capture = capture_node(a, SEXP_MATCH, name_r.as_slice())?;
    let nil = nil_node(a);
    let operands = pair_node(a, nil, rest_capture)?;
    pair_node(a, apply, operands)
}

/// `(a 0 . ARGS)` becomes `0`; any other node is returned as it is.
pub fn apply_null_optimizer<R: TRunProgram>(a: &mut Allocator, r: NodePtr, _eval_f: &R) -> (res:
    Result<NodePtr, OptimizeError>)
    requires
        valid(*old(a), r),
    ensures
        extends(*old(a), *final(a)),
        match res {
            Ok(n) => valid(*final(a), n) && tree_of(*final(a), n) == apply_null_optimizer_spec(
                tree_of(*old(a), r),
            ),
            Err(e) => e is Arena,
        },
{
    let pattern = apply_null_pattern_1(a)?;
    match match_sexp(a, pattern, r, Bindings::new()) {
        Some(_) => Ok(nil_node(a)),
        None => Ok(r),
    }
}

/// A budget that no optimization uses up before the machine's own limits
/// end it.
pub const UNBOUNDED: usize = usize::MAX;

/// Optimizes each of `items` within `budget`, in order.
fn optimize_all<R: TRunProgram>(
    a: &mut Allocator,
    items: &Vec<NodePtr>,
    runner: &R,
    budget: usize,
) -> (res: Result<Vec<NodePtr>, OptimizeError>)
    requires
        all_valid(*old(a), items@),
    ensures
        extends(*old(a), *final(a)),
        match res {
            Ok(v) => all_valid(*final(a), v@) && optimize_all_spec(
                *runner,
                budget as nat,
                trees_of(*old(a), items@),
            ) == Some(trees_of(*final(a), v@)),
            Err(e) => (e is Arena || e is Evaluator || e is BudgetExhausted) && (e
                is BudgetExhausted ==> optimize_all_spec(
                *runner,
                budget as nat,
                trees_of(*old(a), items@),
            ) is None),
        },
    decreases budget, 4nat, 0nat,
{
    let mut out: Vec<NodePtr> = Vec::new();
    let mut i: usize = 0;
    let ghost trees = trees_of(*a, items@);
    proof {
        assert(trees.take(0) =~= Seq::<Tree>::empty());
        assert(trees_of(*a, out@) =~= Seq::<Tree>::empty());
    }
    while i < items.len()
        invariant
            i <= items.len(),
            extends(*old(a), *a),
            all_valid(*old(a), items@),
            trees == trees_of(*old(a), items@),
            all_valid(*a, out@),
            optimize_all_spec(*runner, budget as nat, trees.take(i as int)) == Some(
                trees_of(*a, out@),
            ),
        decreases items.len() - i,
    {
        let ghost before = *a;
        let ghost done = trees_of(*a, out@);
        proof {
            assert(valid(*old(a), items@[i as int]));
            assert(trees.take(i as int + 1).drop_last() =~= trees.take(i as int));
            assert(trees.take(i as int + 1).last() == trees[i as int]);
        }
        match optimize_sexp_(a, items[i], runner, budget) {
            Ok(x) => {
                proof {
                    lemma_extends_trees(before, *a, out@);
                    assert(trees_of(*a, out@.push(x)) =~= done.push(tree_of(*a, x)));
                    assert forall|j: int| 0 <= j < out@.push(x).len() implies valid(
                        *a,
                        #[trigger] out@.push(x)[j],
                    ) by {
                        if j < out@.len() {
                            assert(valid(*a, out@[j]));
                        }
                    }
                }
                out.push(x);
            },
            Err(e) => {
                proof {
                    if e is BudgetExhausted {
                        lemma_optimize_all_front(*runner, budget as nat, trees, i as int + 1);
                    }
                }
                return Err(e);
            },
        }
        i += 1;
    }
    proof {
        assert(trees.take(i as int) =~= trees);
    }
    Ok(out)
}

/// Optimizes the operator and each operand of a nil-terminated list, within
/// `budget`. An empty list, a quoted one and any other node are returned as
/// they are.
pub fn children_optimizer<R: TRunProgram>(
    a: &mut Allocator,
    r: NodePtr,
    runner: &R,
    budget: usize,
) -> (res: Result<NodePtr, OptimizeError>)
    requires
        valid(*old(a), r),
    ensures
        extends(*old(a), *final(a)),
        match res {
            Ok(n) => valid(*final(a), n) && children_optimizer_spec(
                *runner,
                budget as nat,
                tree_of(*old(a), r),
            ) == Outcome::Done(tree_of(*final(a), n)),
            Err(e) => (e is Arena || e is Evaluator || e is BudgetExhausted) && (e
                is BudgetExhausted ==> children_optimizer_spec(
                *runner,
                budget as nat,
                tree_of(*old(a), r),
            ) is Exhausted),
        },
        (tree_of(*old(a), r).items() matches Some(items) ==> items.len() == 0 || items[0]
            == Tree::byte(QUOTE_ATOM)) ==> res is Ok,
    decreases budget, 0nat, 0nat,
{
    match proper_list(a, r, true) {
        None => Ok(r),
        Some(list) => {
            if list.len() == 0 {
                return Ok(r);
            }
            proof {
                assert(valid(*a, list@[0]));
                assert(trees_of(*a, list@)[0] == tree_of(*a, list@[0]));
            }
            if is_byte_atom(a, list[0], QUOTE_ATOM) {
                return Ok(r);
            }
            if budget == 0 {
                return Err(OptimizeError::BudgetExhausted);
            }
            let optimized = optimize_all(a, &list, runner, budget - 1)?;
            enlist(a, &optimized)
        },
    }
}

/// `(a (q . SEXP) ARGS)`, where `ARGS` is not the whole environment:
/// rewrites the body `SEXP` to run on `ARGS` and optimizes what comes of it,
/// within `budget`. The rewrite is kept where the new body seems constant,
/// or where none of its optimized elements still depends on the
/// environment; otherwise, and for any other node, the node is returned as
/// it is.
pub fn var_change_optimizer_cons_eval<R: TRunProgram>(
    a: &mut Allocator,
    r: NodePtr,
    runner: &R,
    budget: usize,
) -> (res: Result<NodePtr, OptimizeError>)
    requires
        valid(*old(a), r),
    ensures
        extends(*old(a), *final(a)),
        match res {
            Ok(n) => valid(*final(a), n) && var_change_optimizer_cons_eval_spec(
                *runner,
                budget as nat,
                tree_of(*old(a), r),
            ) == Outcome::Done(tree_of(*final(a), n)),
            Err(e) => (e is Arena || e is Evaluator || e is BudgetExhausted) && (e
                is BudgetExhausted ==> var_change_optimizer_cons_eval_spec(
                *runner,
                budget as nat,
                tree_of(*old(a), r),
            ) is Exhausted),
        },
    decreases budget, 0nat, 0nat,
{
    let pattern = var_change_optimizer_cons_eval_pattern(a)?;
    let t1 = match_sexp(a, pattern, r, Bindings::new());
    match t1 {
        None => Ok(r),
        Some(b) => {
            let name_s = name_sexp_bytes();
            let name_a = name_args_bytes();
            let call_args = match b.get(name_a.as_slice()) {
                Some(v) => v,
                None => nil_node(a),
            };
            let call_body = match b.get(name_s.as_slice()) {
                Some(v) => v,
                None => nil_node(a),
            };
            if is_args_call(a, call_args) {
                return Ok(r);
            }
            if budget == 0 {
                return Err(OptimizeError::BudgetExhausted);
            }
            let new_eval_sexp_args = sub_args(a, call_body, call_args)?;
            if seems_constant(a, new_eval_sexp_args) {
                optimize_sexp_(a, new_eval_sexp_args, runner, budget - 1)
            } else {
                match proper_list(a, new_eval_sexp_args, true) {
                    None => Ok(r),
                    Some(new_operands) => {
                        let opt_operands = optimize_all(a, &new_operands, runner, budget - 1)?;
                        let non_constant = count_non_constant(a, &opt_operands);
                        if non_constant < 1 {
                            enlist(a, &opt_operands)
                        } else {
                            Ok(r)
                        }
                    },
                }
            }
        },
    }
}

/// One rule of the optimizer, with its name.
pub struct OptimizerRunner {
    rule: Rule,
}

/// The name of a rule.
pub open spec fn rule_name(rule: Rule) -> Seq<char> {
    match rule {
        Rule::Cons => "cons_optimizer"@,
        Rule::Constant => "constant_optimizer"@,
        Rule::ConsQA => "cons_q_a_optimizer"@,
        Rule::VarChangeConsEval => "var_change_optimizer_cons_eval"@,
        Rule::Children => "children_optimizer"@,
        Rule::Path => "path_optimizer"@,
        Rule::QuoteNull => "quote_null_optimizer"@,
        Rule::ApplyNull => "apply_null_optimizer"@,
    }
}

impl OptimizerRunner {
    /// The rule.
    pub closed spec fn rule(&self) -> Rule {
        self.rule
    }

    pub fn new(rule: Rule) -> (o: OptimizerRunner)
        ensures
            o.rule() == rule,
    {
        OptimizerRunner { rule }
    }

    /// The name of the rule.
    pub fn name(&self) -> (name: String)
        ensures
            name@ == rule_name(self.rule()),
    {
        match self.rule {
            Rule::Cons => "cons_optimizer".to_owned(),
            Rule::Constant => "constant_optimizer".to_owned(),
            Rule::ConsQA => "cons_q_a_optimizer".to_owned(),
            Rule::VarChangeConsEval => "var_change_optimizer_cons_eval".to_owned(),
            Rule::Children => "children_optimizer".to_owned(),
            Rule::Path => "path_optimizer".to_owned(),
            Rule::QuoteNull => "quote_null_optimizer".to_owned(),
            Rule::ApplyNull => "apply_null_optimizer".to_owned(),
        }
    }

    /// Applies the rule to `r`, within `budget`.
    pub fn invoke<R: TRunProgram>(
        &self,
        a: &mut Allocator,
        r: NodePtr,
        eval_f: &R,
        budget: usize,
    ) -> (res: Result<NodePtr, OptimizeError>)
        requires
            valid(*old(a), r),
        ensures
            extends(*old(a), *final(a)),
            match res {
                Ok(n) => valid(*final(a), n) && rule_spec(
                    self.rule(),
                    *eval_f,
                    budget as nat,
                    tree_of(*old(a), r),
                ) == Outcome::Done(tree_of(*final(a), n)),
                Err(e) => (e is Arena || e is Evaluator || e is BudgetExhausted) && (e
                    is BudgetExhausted ==> rule_spec(
                    self.rule(),
                    *eval_f,
                    budget as nat,
                    tree_of(*old(a), r),
                ) is Exhausted),
            },
        decreases budget, 0nat, 1nat,
    {
        match self.rule {
            Rule::Cons => cons_optimizer(a, r, eval_f),
            Rule::Constant => constant_optimizer(a, r, 0, eval_f),
            Rule::ConsQA => cons_q_a_optimizer(a, r, eval_f),
            Rule::VarChangeConsEval => var_change_optimizer_cons_eval(a, r, eval_f, budget),
            Rule::Children => children_optimizer(a, r, eval_f, budget),
            Rule::Path => path_optimizer(a, r, eval_f),
            Rule::QuoteNull => quote_null_optimizer(a, r, eval_f),
            Rule::ApplyNull => apply_null_optimizer(a, r, eval_f),
        }
    }
}

/// The rules in the order in which a pass tries them.
pub fn optimizers() -> (list: Vec<OptimizerRunner>)
    ensures
        list@.len() == RULE_COUNT,
        forall|i: int| 0 <= i < RULE_COUNT ==> (#[trigger] list@[i]).rule() == rule_at(i as nat),
{
    let mut list: Vec<OptimizerRunner> = Vec::new();
    list.push(OptimizerRunner::new(Rule::Cons));
    list.push(OptimizerRunner::new(Rule::Constant));
    list.push(OptimizerRunner::new(Rule::ConsQA));
    list.push(OptimizerRunner::new(Rule::VarChangeConsEval));
    list.push(OptimizerRunner::new(Rule::Children));
    list.push(OptimizerRunner::new(Rule::Path));
    list.push(OptimizerRunner::new(Rule::QuoteNull));
    list.push(OptimizerRunner::new(Rule::ApplyNull));
    list
}

/// One pass over the rules in their order: the result of the first rule
/// that changes `r`, or `r` where none does.
fn pass<R: TRunProgram>(a: &mut Allocator, r: NodePtr, runner: &R, budget: usize) -> (res: Result<
    NodePtr,
    OptimizeError,
>)
    requires
        valid(*old(a), r),
    ensures
        extends(*old(a), *final(a)),
        match res {
            Ok(n) => valid(*final(a), n) && pass_spec(*runner, budget as nat, tree_of(*old(a), r))
                == Outcome::Done(tree_of(*final(a), n)),
            Err(e) => (e is Arena || e is Evaluator || e is BudgetExhausted) && (e
                is BudgetExhausted ==> pass_spec(*runner, budget as nat, tree_of(*old(a), r))
                is Exhausted),
        },
    decreases budget, 1nat, 0nat,
{
    let list = optimizers();
    let mut i: usize = 0;
    let ghost t = tree_of(*a, r);
    while i < list.len()
        invariant
            i <= RULE_COUNT,
            list@.len() == RULE_COUNT,
            forall|j: int|
                0 <= j < RULE_COUNT ==> (#[trigger] list@[j]).rule() == rule_at(j as nat),
            extends(*old(a), *a),
            valid(*old(a), r),
            t == tree_of(*old(a), r),
            pass_spec(*runner, budget as nat, t) == pass_from_spec(
                *runner,
                budget as nat,
                t,
                i as nat,
            ),
        decreases RULE_COUNT - i,
    {
        assert(list@[i as int].rule() == rule_at(i as nat));
        let res = list[i].invoke(a, r, runner, budget)?;
        if !equal_to(a, r, res) {
            return Ok(res);
        }
        i += 1;
    }
    Ok(r)
}

/// Optimizes `r_` within `budget`. An atom is returned as it is. A pair
/// goes through the rules, in their order, until it is no nil-terminated
/// list any more or no rule changes it; each rewrite takes one of `budget`
/// steps, and the optimizations inside a rule have one less to go by.
pub fn optimize_sexp_<R: TRunProgram>(
    a: &mut Allocator,
    r_: NodePtr,
    runner: &R,
    budget: usize,
) -> (res: Result<NodePtr, OptimizeError>)
    requires
        valid(*old(a), r_),
    ensures
        extends(*old(a), *final(a)),
        match res {
            Ok(n) => valid(*final(a), n) && optimize_spec(
                *runner,
                budget as nat,
                tree_of(*old(a), r_),
            ) == Outcome::Done(tree_of(*final(a), n)),
            Err(e) => (e is Arena || e is Evaluator || e is BudgetExhausted) && (e
                is BudgetExhausted ==> optimize_spec(*runner, budget as nat, tree_of(*old(a), r_))
                is Exhausted),
        },
        tree_of(*old(a), r_) is Atom || !tree_of(*old(a), r_).is_proper_list() ==> res is Ok,
    decreases budget, 3nat, 0nat,
{
    match sexp(a, r_) {
        SExp::Atom => {
            return Ok(r_);
        },
        SExp::Pair(_, _) => {},
    }
    let mut r = r_;
    let mut steps: usize = budget;
    let ghost whole = drive_spec(*runner, budget as nat, budget as nat, tree_of(*a, r_));
    loop
        invariant
            extends(*old(a), *a),
            valid(*a, r),
            tree_of(*old(a), r_) is Pair,
            valid(*old(a), r_),
            tree_of(*a, r) == tree_of(*old(a), r_) || tree_of(*old(a), r_).is_proper_list(),
            whole == optimize_spec(*runner, budget as nat, tree_of(*old(a), r_)),
            whole == drive_spec(*runner, budget as nat, steps as nat, tree_of(*a, r)),
        decreases steps,
    {
        if proper_list(a, r, false).is_none() {
            return Ok(r);
        }
        if steps == 0 {
            return Err(OptimizeError::BudgetExhausted);
        }
        let next = pass(a, r, runner, budget)?;
        if equal_to(a, r, next) {
            return Ok(r);
        }
        r = next;
        steps -= 1;
    }
}

/// Optimizes `r` within a budget that no run uses up.
pub fn optimize_sexp<R: TRunProgram>(a: &mut Allocator, r: NodePtr, runner: &R) -> (res: Result<
    NodePtr,
    OptimizeError,
>)
    requires
        valid(*old(a), r),
    ensures
        extends(*old(a), *final(a)),
        match res {
            Ok(n) => valid(*final(a), n) && optimize_spec(
                *runner,
                UNBOUNDED as nat,
                tree_of(*old(a), r),
            ) == Outcome::Done(tree_of(*final(a), n)),
            Err(e) => (e is Arena || e is Evaluator || e is BudgetExhausted) && (e
                is BudgetExhausted ==> optimize_spec(*runner, UNBOUNDED as nat, tree_of(*old(a), r))
                is Exhausted),
        },
        tree_of(*old(a), r) is Atom || !tree_of(*old(a), r).is_proper_list() ==> res is Ok,
{
    optimize_sexp_(a, r, runner, UNBOUNDED)
}

/// The optimizer as an operator of a host evaluator: its one operand is
/// the program to optimize.
pub struct DoOptProg<R: TRunProgram> {
    runner: R,
}

impl DoOptProg<DefaultProgramRunner> {
    /// The operator with the evaluator of `clvmr`.
    pub fn new() -> (p: DoOptProg<DefaultProgramRunner>)
        ensures
            p.runner() == (DefaultProgramRunner {  }),
    {
        DoOptProg { runner: DefaultProgramRunner::new() }
    }
}

impl<R: TRunProgram> DoOptProg<R> {
    /// The evaluator that folds constants.
    pub closed spec fn runner(&self) -> R {
        self.runner
    }

    /// Replaces the evaluator that folds constants.
    pub fn set_runner(&mut self, runner: R)
        ensures
            final(self).runner() == runner,
    {
        self.runner = runner;
    }

    /// Optimizes the first element of the operand list `r`, at the cost of
    /// one.
    pub fn op(&self, a: &mut Allocator, _op: NodePtr, r: NodePtr, _max_cost: u64) -> (res: Result<
        Reduction,
        OptimizeError,
    >)
        requires
            valid(*old(a), r),
        ensures
            extends(*old(a), *final(a)),
            match res {
                Ok(reduction) => {
                    &&& reduction.0 == 1
                    &&& valid(*final(a), reduction.1)
                    &&& tree_of(*old(a), r) is Pair
                    &&& optimize_spec(self.runner(), UNBOUNDED as nat, tree_of(*old(a), r).left())
                        == Outcome::Done(tree_of(*final(a), reduction.1))
                },
                Err(e) => {
                    &&& e is FirstOfNonCons <==> tree_of(*old(a), r) is Atom
                    &&& e is BudgetExhausted ==> optimize_spec(
                        self.runner(),
                        UNBOUNDED as nat,
                        tree_of(*old(a), r).left(),
                    ) is Exhausted
                },
            },
    {
        match first(a, r) {
            None => Err(OptimizeError::FirstOfNonCons(r)),
            Some(program) => {
                let optimized = optimize_sexp(a, program, &self.runner)?;
                Ok(Reduction(1, optimized))
            },
        }
    }
}

} // verus!

//! What the optimizer computes, stated on trees.
//!
//! Each rule is a function from a tree to a tree that returns its input
//! where the rule does not apply. The rules that optimize subtrees, and the
//! driver that applies the rules until none changes the tree, work within a
//! budget: the budget bounds both how deeply optimizations nest and how
//! many rewrites one tree goes through.

use vstd::prelude::*;
use crate::tree::Tree;
use crate::number::signed_value;
use crate::node_path::{index_of_number, compose_paths_spec, path_bytes};
use crate::pattern_match::{match_spec, capture, atom_capture, TreeBindings};
use crate::runner::TRunProgram;

verus! {

/// The operator `q`: its operand list is the value.
pub const QUOTE_ATOM: u8 = 1;

/// The operator `a`: runs a program on an environment.
pub const APPLY_ATOM: u8 = 2;

/// The operator `c`: makes a pair.
pub const CONS_ATOM: u8 = 4;

/// The operator `f`: the first of a pair.
pub const FIRST_ATOM: u8 = 5;

/// The operator `r`: the rest of a pair.
pub const REST_ATOM: u8 = 6;

/// The operator 8, which no expression that seems constant may have.
pub const ENV_ATOM: u8 = 8;

/// The path that stands for the whole environment.
pub const ARGS_ATOM: u8 = 1;

/// The capture name `sexp`.
pub open spec fn name_sexp() -> Seq<u8> {
    seq![115u8, 101u8, 120u8, 112u8]
}

/// The capture name `args`.
pub open spec fn name_args() -> Seq<u8> {
    seq![97u8, 114u8, 103u8, 115u8]
}

/// The capture name `first`.
pub open spec fn name_first() -> Seq<u8> {
    seq![102u8, 105u8, 114u8, 115u8, 116u8]
}

/// The capture name `rest`.
pub open spec fn name_rest() -> Seq<u8> {
    seq![114u8, 101u8, 115u8, 116u8]
}

/// The capture name `atom`.
pub open spec fn name_atom() -> Seq<u8> {
    seq![97u8, 116u8, 111u8, 109u8]
}

/// What a budgeted optimization comes to.
pub enum Outcome {
    /// The optimization ended with this tree.
    Done(Tree),
    /// The budget ran out first.
    Exhausted,
}

/// No bindings.
pub open spec fn no_bindings() -> TreeBindings {
    Map::empty()
}

/// `(q . t)`.
pub open spec fn quote_spec(t: Tree) -> Tree {
    Tree::pair(Tree::byte(QUOTE_ATOM), t)
}

/// Whether the value of `t` cannot depend on the environment, as far as
/// its shape shows: nil; a quoted value; or an operator other than the
/// environment operator, itself constant where it is a pair, on a
/// nil-terminated list of constant operands.
pub open spec fn seems_constant_spec(t: Tree) -> bool
    decreases t,
{
    match t {
        Tree::Atom(bytes) => bytes.len() == 0,
        Tree::Pair(operator, operands) => {
            if *operator == Tree::byte(QUOTE_ATOM) {
                true
            } else if *operator == Tree::byte(ENV_ATOM) {
                false
            } else {
                (*operator is Pair ==> seems_constant_spec(*operator))
                    && seems_constant_tail_spec(*operands)
            }
        },
    }
}

/// Whether `t` is a nil-terminated list of trees that seem constant.
pub open spec fn seems_constant_tail_spec(t: Tree) -> bool
    decreases t,
{
    match t {
        Tree::Atom(bytes) => bytes.len() == 0,
        Tree::Pair(first, rest) => seems_constant_spec(*first) && seems_constant_tail_spec(*rest),
    }
}

/// Constant folding: a tree that seems constant and is not nil becomes the
/// quoted result of running it on the nil environment.
pub open spec fn constant_optimizer_spec<R: TRunProgram>(runner: R, t: Tree) -> Tree {
    if seems_constant_spec(t) && !t.is_nil() {
        quote_spec(runner.value(t, Tree::nil()))
    } else {
        t
    }
}

/// Whether `t` is the path that stands for the whole environment.
pub open spec fn is_args_call_spec(t: Tree) -> bool {
    t == Tree::byte(ARGS_ATOM)
}

/// The template `(a (q . (: . sexp)) (: . args))`.
pub open spec fn cons_q_a_optimizer_pattern_spec() -> Tree {
    Tree::pair(
        Tree::byte(APPLY_ATOM),
        Tree::pair(
            Tree::pair(Tree::byte(QUOTE_ATOM), capture(name_sexp())),
            Tree::pair(capture(name_args()), Tree::nil()),
        ),
    )
}

/// `(a (q . SEXP) 1)` becomes `SEXP`.
pub open spec fn cons_q_a_optimizer_spec(t: Tree) -> Tree {
    match match_spec(cons_q_a_optimizer_pattern_spec(), t, no_bindings()) {
        Some(b) => if b.contains_key(name_args()) && b.contains_key(name_sexp())
            && is_args_call_spec(b[name_args()]) {
            b[name_sexp()]
        } else {
            t
        },
        None => t,
    }
}

/// The template `(c (: . first) (: . rest))`.
pub open spec fn cons_pattern_spec() -> Tree {
    Tree::pair(
        Tree::byte(CONS_ATOM),
        Tree::pair(capture(name_first()), Tree::pair(capture(name_rest()), Tree::nil())),
    )
}

/// The first of what `args` evaluates to: `A` for `(c A B)`, else `(f args)`.
pub open spec fn cons_f_spec(args: Tree) -> Tree {
    match match_spec(cons_pattern_spec(), args, no_bindings()) {
        Some(b) => if b.contains_key(name_first()) {
            b[name_first()]
        } else {
            Tree::pair(Tree::byte(FIRST_ATOM), Tree::pair(args, Tree::nil()))
        },
        None => Tree::pair(Tree::byte(FIRST_ATOM), Tree::pair(args, Tree::nil())),
    }
}

/// The rest of what `args` evaluates to: `B` for `(c A B)`, else `(r args)`.
pub open spec fn cons_r_spec(args: Tree) -> Tree {
    match match_spec(cons_pattern_spec(), args, no_bindings()) {
        Some(b) => if b.contains_key(name_rest()) {
            b[name_rest()]
        } else {
            Tree::pair(Tree::byte(REST_ATOM), Tree::pair(args, Tree::nil()))
        },
        None => Tree::pair(Tree::byte(REST_ATOM), Tree::pair(args, Tree::nil())),
    }
}

/// The program that follows the path `path` into what `args` evaluates to.
pub open spec fn path_from_args_spec(path: int, args: Tree) -> Tree
    decreases (if path > 1 {
        path
    } else {
        0
    }),
{
    if path <= 1 {
        args
    } else {
        path_from_args_spec(
            path / 2,
            if path % 2 == 1 {
                cons_r_spec(args)
            } else {
                cons_f_spec(args)
            },
        )
    }
}

/// The body `t` of an apply, rewritten to run on what `args` evaluates to.
/// A path becomes the program that follows it into `args`. A quoted value
/// stays as it is. Of any other operator on a nil-terminated list of
/// operands each operand is rewritten, and the operator too where it is a
/// pair. What is left, a pair whose operands end in another atom than nil,
/// gives `args` itself.
pub open spec fn sub_args_spec(t: Tree, args: Tree) -> Tree
    decreases t,
{
    match t {
        Tree::Atom(bytes) => path_from_args_spec(signed_value(bytes), args),
        Tree::Pair(operator, operands) => {
            if *operator == Tree::byte(QUOTE_ATOM) {
                t
            } else if !operands.is_proper_list() {
                args
            } else {
                Tree::pair(
                    if *operator is Pair {
                        sub_args_spec(*operator, args)
                    } else {
                        *operator
                    },
                    sub_args_list_spec(*operands, args),
                )
            }
        },
    }
}

/// The list of the operands `t`, each rewritten to run on what `args`
/// evaluates to.
pub open spec fn sub_args_list_spec(t: Tree, args: Tree) -> Tree
    decreases t,
{
    match t {
        Tree::Atom(_) => Tree::nil(),
        Tree::Pair(first, rest) => Tree::pair(
            sub_args_spec(*first, args),
            sub_args_list_spec(*rest, args),
        ),
    }
}

/// The rewritten operands as a sequence: the list of the rewritten
/// operands is the list of each operand rewritten.
pub proof fn lemma_sub_args_list(t: Tree, args: Tree)
    requires
        t.is_proper_list(),
    ensures
        sub_args_list_spec(t, args) == Tree::list(
            Seq::new(t.items().unwrap().len(), |i: int| sub_args_spec(t.items().unwrap()[i], args)),
        ),
    decreases t,
{
    let items = t.items().unwrap();
    let mapped = Seq::new(items.len(), |i: int| sub_args_spec(items[i], args));
    match t {
        Tree::Atom(_) => {},
        Tree::Pair(first, rest) => {
            lemma_sub_args_list(*rest, args);
            let tail = rest.items().unwrap();
            let mapped_tail = Seq::new(tail.len(), |i: int| sub_args_spec(tail[i], args));
            assert(mapped.subrange(1, mapped.len() as int) =~= mapped_tail);
        },
    }
}

/// Whether an optimized operand still depends on the environment, as far as
/// its shape shows: a pair whose operator is an atom other than `q`, or a
/// nil-terminated list whose operator is a pair.
pub open spec fn non_constant(t: Tree) -> bool {
    match t {
        Tree::Atom(_) => false,
        Tree::Pair(operator, _) => match *operator {
            Tree::Atom(bytes) => bytes != seq![QUOTE_ATOM],
            Tree::Pair(_, _) => t.is_proper_list(),
        },
    }
}

/// The number of operands that still depend on the environment.
pub open spec fn non_constant_count(items: Seq<Tree>) -> nat
    decreases items.len(),
{
    if items.len() == 0 {
        0
    } else {
        non_constant_count(items.drop_last()) + if non_constant(items.last()) {
            1nat
        } else {
            0nat
        }
    }
}

/// The template `(f (c (: . first) (: . rest)))`.
pub open spec fn cons_optimizer_pattern_first_spec() -> Tree {
    Tree::pair(Tree::byte(FIRST_ATOM), Tree::pair(cons_pattern_spec(), Tree::nil()))
}

/// The template `(r (c (: . first) (: . rest)))`.
pub open spec fn cons_optimizer_pattern_rest_spec() -> Tree {
    Tree::pair(Tree::byte(REST_ATOM), Tree::pair(cons_pattern_spec(), Tree::nil()))
}

/// `(f (c A B))` becomes `A`, and `(r (c A B))` becomes `B`.
pub open spec fn cons_optimizer_spec(t: Tree) -> Tree {
    match match_spec(cons_optimizer_pattern_first_spec(), t, no_bindings()) {
        Some(b) => if b.contains_key(name_first()) {
            b[name_first()]
        } else {
            cons_optimizer_rest_spec(t)
        },
        None => cons_optimizer_rest_spec(t),
    }
}

/// `(r (c A B))` becomes `B`.
pub open spec fn cons_optimizer_rest_spec(t: Tree) -> Tree {
    match match_spec(cons_optimizer_pattern_rest_spec(), t, no_bindings()) {
        Some(b) => if b.contains_key(name_rest()) {
            b[name_rest()]
        } else {
            t
        },
        None => t,
    }
}

/// The template `(f ($ . atom))`.
pub open spec fn first_atom_pattern_spec() -> Tree {
    Tree::pair(Tree::byte(FIRST_ATOM), Tree::pair(atom_capture(name_atom()), Tree::nil()))
}

/// The template `(r ($ . atom))`.
pub open spec fn rest_atom_pattern_spec() -> Tree {
    Tree::pair(Tree::byte(REST_ATOM), Tree::pair(atom_capture(name_atom()), Tree::nil()))
}

/// The path atom that takes one more step, `step` being 2 for "first" and 3
/// for "rest", from where the path atom bound in `b` ends; `t` where no
/// atom is bound.
pub open spec fn path_step_spec(b: TreeBindings, t: Tree, step: nat) -> Tree {
    if b.contains_key(name_atom()) && b[name_atom()] is Atom {
        Tree::Atom(
            path_bytes(
                compose_paths_spec(index_of_number(signed_value(b[name_atom()]->Atom_0)), step),
            ),
        )
    } else {
        t
    }
}

/// `(f N)` and `(r N)` for a path atom `N` become one path atom.
pub open spec fn path_optimizer_spec(t: Tree) -> Tree {
    match match_spec(first_atom_pattern_spec(), t, no_bindings()) {
        Some(b) => path_step_spec(b, t, 2),
        None => match match_spec(rest_atom_pattern_spec(), t, no_bindings()) {
            Some(b) => path_step_spec(b, t, 3),
            None => t,
        },
    }
}

/// The template `(q . 0)`.
pub open spec fn quote_pattern_1_spec() -> Tree {
    Tree::pair(Tree::byte(QUOTE_ATOM), Tree::nil())
}

/// `(q . 0)` becomes `0`.
pub open spec fn quote_null_optimizer_spec(t: Tree) -> Tree {
    if match_spec(quote_pattern_1_spec(), t, no_bindings()) is Some {
        Tree::nil()
    } else {
        t
    }
}

/// The template `(a 0 . (: . rest))`.
pub open spec fn apply_null_pattern_1_spec() -> Tree {
    Tree::pair(Tree::byte(APPLY_ATOM), Tree::pair(Tree::nil(), capture(name_rest())))
}

/// `(a 0 . ARGS)` becomes `0`.
pub open spec fn apply_null_optimizer_spec(t: Tree) -> Tree {
    if match_spec(apply_null_pattern_1_spec(), t, no_bindings()) is Some {
        Tree::nil()
    } else {
        t
    }
}

/// Each of `items` optimized within `budget`, in order; `None` where the
/// budget runs out for one of them.
pub open spec fn optimize_all_spec<R: TRunProgram>(
    runner: R,
    budget: nat,
    items: Seq<Tree>,
) -> Option<Seq<Tree>>
    decreases budget, 4nat, items.len(),
{
    if items.len() == 0 {
        Some(Seq::empty())
    } else {
        match optimize_all_spec(runner, budget, items.drop_last()) {
            None => None,
            Some(front) => match optimize_spec(runner, budget, items.last()) {
                Outcome::Exhausted => None,
                Outcome::Done(x) => Some(front.push(x)),
            },
        }
    }
}

/// The optimization of `t` within `budget`: an atom stays as it is, a pair
/// goes through the rules until none changes it.
pub open spec fn optimize_spec<R: TRunProgram>(runner: R, budget: nat, t: Tree) -> Outcome
    decreases budget, 3nat, 0nat,
{
    if t is Atom {
        Outcome::Done(t)
    } else {
        drive_spec(runner, budget, budget, t)
    }
}

/// The driver: while `t` is a nil-terminated list, the first rule that
/// changes `t` gives the next tree; the tree that no rule changes is the
/// result. Each rewrite takes one of `steps`.
pub open spec fn drive_spec<R: TRunProgram>(runner: R, budget: nat, steps: nat, t: Tree) -> Outcome
    decreases budget, 2nat, steps,
{
    if !t.is_proper_list() {
        Outcome::Done(t)
    } else if steps == 0 {
        Outcome::Exhausted
    } else {
        match pass_spec(runner, budget, t) {
            Outcome::Exhausted => Outcome::Exhausted,
            Outcome::Done(next) => if next == t {
                Outcome::Done(t)
            } else {
                drive_spec(runner, budget, (steps - 1) as nat, next)
            },
        }
    }
}

/// The rules of the optimizer.
#[derive(Clone, Copy, Debug)]
pub enum Rule {
    /// `(f (c A B))` becomes `A`, `(r (c A B))` becomes `B`.
    Cons,
    /// A constant expression becomes its quoted value.
    Constant,
    /// `(a (q . SEXP) 1)` becomes `SEXP`.
    ConsQA,
    /// `(a (q . SEXP) ARGS)` becomes `SEXP` rewritten to run on `ARGS`.
    VarChangeConsEval,
    /// The elements of a list are optimized.
    Children,
    /// `(f N)` and `(r N)` become one path.
    Path,
    /// `(q . 0)` becomes `0`.
    QuoteNull,
    /// `(a 0 . ARGS)` becomes `0`.
    ApplyNull,
}

/// The number of rules.
pub const RULE_COUNT: usize = 8;

/// The rules in the order in which a pass tries them.
pub open spec fn rule_at(index: nat) -> Rule {
    if index == 0 {
        Rule::Cons
    } else if index == 1 {
        Rule::Constant
    } else if index == 2 {
        Rule::ConsQA
    } else if index == 3 {
        Rule::VarChangeConsEval
    } else if index == 4 {
        Rule::Children
    } else if index == 5 {
        Rule::Path
    } else if index == 6 {
        Rule::QuoteNull
    } else {
        Rule::ApplyNull
    }
}

/// What one rule makes of `t`.
pub open spec fn rule_spec<R: TRunProgram>(rule: Rule, runner: R, budget: nat, t: Tree) -> Outcome
    decreases budget, 0nat, 1nat,
{
    match rule {
        Rule::Cons => Outcome::Done(cons_optimizer_spec(t)),
        Rule::Constant => Outcome::Done(constant_optimizer_spec(runner, t)),
        Rule::ConsQA => Outcome::Done(cons_q_a_optimizer_spec(t)),
        Rule::VarChangeConsEval => var_change_optimizer_cons_eval_spec(runner, budget, t),
        Rule::Children => children_optimizer_spec(runner, budget, t),
        Rule::Path => Outcome::Done(path_optimizer_spec(t)),
        Rule::QuoteNull => Outcome::Done(quote_null_optimizer_spec(t)),
        Rule::ApplyNull => Outcome::Done(apply_null_optimizer_spec(t)),
    }
}

/// One pass over the rules from the rule at `from` on: the result of the
/// first of them that changes `t`, or `t` where none does.
pub open spec fn pass_from_spec<R: TRunProgram>(
    runner: R,
    budget: nat,
    t: Tree,
    from: nat,
) -> Outcome
    decreases budget, 1nat, RULE_COUNT - from,
{
    if from >= RULE_COUNT {
        Outcome::Done(t)
    } else {
        match rule_spec(rule_at(from), runner, budget, t) {
            Outcome::Exhausted => Outcome::Exhausted,
            Outcome::Done(changed) => if changed != t {
                Outcome::Done(changed)
            } else {
                pass_from_spec(runner, budget, t, from + 1)
            },
        }
    }
}

/// One pass over the rules in their order: the result of the first rule
/// that changes `t`, or `t` where none does.
pub open spec fn pass_spec<R: TRunProgram>(runner: R, budget: nat, t: Tree) -> Outcome
    decreases budget, 1nat, RULE_COUNT + 1,
{
    pass_from_spec(runner, budget, t, 0)
}

/// The operator and operands of a nil-terminated list each optimized,
/// unless the list is empty or quoted.
pub open spec fn children_optimizer_spec<R: TRunProgram>(runner: R, budget: nat, t: Tree) -> Outcome
    decreases budget, 0nat, 0nat,
{
    match t.items() {
        None => Outcome::Done(t),
        Some(items) => if items.len() == 0 || items[0] == Tree::byte(QUOTE_ATOM) {
            Outcome::Done(t)
        } else if budget == 0 {
            Outcome::Exhausted
        } else {
            match optimize_all_spec(runner, (budget - 1) as nat, items) {
                None => Outcome::Exhausted,
                Some(optimized) => Outcome::Done(Tree::list(optimized)),
            }
        },
    }
}

/// `(a (q . SEXP) ARGS)`, where `ARGS` is not the whole environment: the
/// body `SEXP` is rewritten to run on `ARGS`. Where the rewritten body seems
/// constant, its optimization is the result. Otherwise its elements are
/// optimized, and the list of them is the result if none of them still
/// depends on the environment; if one does, the tree stays as it is.
pub open spec fn var_change_optimizer_cons_eval_spec<R: TRunProgram>(
    runner: R,
    budget: nat,
    t: Tree,
) -> Outcome
    decreases budget, 0nat, 0nat,
{
    match match_spec(cons_q_a_optimizer_pattern_spec(), t, no_bindings()) {
        None => Outcome::Done(t),
        Some(b) => {
            let args = if b.contains_key(name_args()) {
                b[name_args()]
            } else {
                Tree::nil()
            };
            let call = if b.contains_key(name_sexp()) {
                b[name_sexp()]
            } else {
                Tree::nil()
            };
            let body = sub_args_spec(call, args);
            if is_args_call_spec(args) {
                Outcome::Done(t)
            } else if budget == 0 {
                Outcome::Exhausted
            } else if seems_constant_spec(body) {
                optimize_spec(runner, (budget - 1) as nat, body)
            } else {
                match body.items() {
                    None => Outcome::Done(t),
                    Some(operands) => match optimize_all_spec(
                        runner,
                        (budget - 1) as nat,
                        operands,
                    ) {
                        None => Outcome::Exhausted,
                        Some(optimized) => if non_constant_count(optimized) < 1 {
                            Outcome::Done(Tree::list(optimized))
                        } else {
                            Outcome::Done(t)
                        },
                    },
                }
            }
        },
    }
}

/// Where the budget runs out for the first elements of a list, it runs out
/// for the list.
pub proof fn lemma_optimize_all_front<R: TRunProgram>(
    runner: R,
    budget: nat,
    items: Seq<Tree>,
    front: int,
)
    requires
        0 <= front <= items.len(),
        optimize_all_spec(runner, budget, items.take(front)) is None,
    ensures
        optimize_all_spec(runner, budget, items) is None,
    decreases items.len() - front,
{
    if front == items.len() {
        assert(items.take(front) =~= items);
    } else {
        assert(items.take(front + 1).drop_last() =~= items.take(front));
        lemma_optimize_all_front(runner, budget, items, front + 1);
    }
}

} // verus!

//! What holds of the optimizer and of the matcher for every tree.

use vstd::prelude::*;
use crate::tree::Tree;
use crate::pattern_match::{
    match_spec,
    unify_spec,
    capture,
    atom_capture,
    TreeBindings,
    SEXP_MATCH,
    ATOM_MATCH,
};
use crate::runner::TRunProgram;
use crate::model::{
    Outcome,
    QUOTE_ATOM,
    APPLY_ATOM,
    CONS_ATOM,
    FIRST_ATOM,
    REST_ATOM,
    optimize_spec,
    drive_spec,
    pass_spec,
    no_bindings,
    name_first,
    name_rest,
    cons_pattern_spec,
    cons_optimizer_spec,
    cons_q_a_optimizer_spec,
    cons_q_a_optimizer_pattern_spec,
    name_sexp,
    name_args,
    ARGS_ATOM,
    Rule,
    RULE_COUNT,
    rule_at,
    rule_spec,
    pass_from_spec,
    path_optimizer_spec,
    quote_null_optimizer_spec,
    apply_null_optimizer_spec,
};

verus! {

/// The tree that the driver ends with is no nil-terminated list, or a pass
/// over the rules leaves it as it is.
proof fn lemma_drive_ends_fixed<R: TRunProgram>(
    runner: R,
    budget: nat,
    steps: nat,
    t: Tree,
    once: Tree,
)
    requires
        drive_spec(runner, budget, steps, t) == Outcome::Done(once),
    ensures
        once.is_proper_list() ==> steps >= 1 && pass_spec(runner, budget, once) == Outcome::Done(
            once,
        ),
    decreases steps,
{
    if t.is_proper_list() && steps > 0 {
        match pass_spec(runner, budget, t) {
            Outcome::Exhausted => {},
            Outcome::Done(next) => {
                if next != t {
                    lemma_drive_ends_fixed(runner, budget, (steps - 1) as nat, next, once);
                }
            },
        }
    }
}

/// Optimizing is idempotent: what an optimization ends with is optimized,
/// within the same budget, to itself.
pub proof fn lemma_optimize_idempotent<R: TRunProgram>(runner: R, budget: nat, t: Tree, once: Tree)
    requires
        optimize_spec(runner, budget, t) == Outcome::Done(once),
    ensures
        optimize_spec(runner, budget, once) == Outcome::Done(once),
{
    if t is Pair {
        lemma_drive_ends_fixed(runner, budget, budget, t, once);
    }
}

/// An optimized tree is an atom, or no nil-terminated list, or a pass over
/// all the rules leaves it as it is.
pub proof fn lemma_optimize_ends_fixed<R: TRunProgram>(runner: R, budget: nat, t: Tree, once: Tree)
    requires
        optimize_spec(runner, budget, t) == Outcome::Done(once),
    ensures
        once is Atom || !once.is_proper_list() || pass_spec(runner, budget, once) == Outcome::Done(
            once,
        ),
{
    if t is Pair {
        lemma_drive_ends_fixed(runner, budget, budget, t, once);
    }
}

/// A tree that a pass over the rules leaves as it is, is left as it is by
/// each of the rules.
pub proof fn lemma_pass_fixed<R: TRunProgram>(runner: R, budget: nat, t: Tree, index: nat)
    requires
        pass_spec(runner, budget, t) == Outcome::Done(t),
        index < RULE_COUNT,
    ensures
        rule_spec(rule_at(index), runner, budget, t) == Outcome::Done(t),
{
    lemma_pass_from_fixed(runner, budget, t, 0, index);
}

/// The same, for the rules from the one at `from` on.
proof fn lemma_pass_from_fixed<R: TRunProgram>(
    runner: R,
    budget: nat,
    t: Tree,
    from: nat,
    index: nat,
)
    requires
        pass_from_spec(runner, budget, t, from) == Outcome::Done(t),
        from <= index < RULE_COUNT,
    ensures
        rule_spec(rule_at(index), runner, budget, t) == Outcome::Done(t),
    decreases RULE_COUNT - from,
{
    if from < index {
        lemma_pass_from_fixed(runner, budget, t, from + 1, index);
    }
}

/// The subtree that a sequence of steps leads to, `false` for a step to the
/// left child and `true` for one to the right; `None` where a step starts
/// at an atom.
pub open spec fn subtree(t: Tree, steps: Seq<bool>) -> Option<Tree>
    decreases steps.len(),
{
    if steps.len() == 0 {
        Some(t)
    } else {
        match t {
            Tree::Atom(_) => None,
            Tree::Pair(left, right) => subtree(
                if steps[0] {
                    *right
                } else {
                    *left
                },
                steps.drop_first(),
            ),
        }
    }
}

/// Whether a template is one of the two captures.
pub open spec fn is_capture(pattern: Tree) -> bool {
    pattern matches Tree::Pair(left, right) && *right is Atom && (*left == Tree::byte(SEXP_MATCH)
        || *left == Tree::byte(ATOM_MATCH))
}

/// Whether the capture `wanted` stands in `pattern` at the place that
/// `steps` leads to, below no other capture.
pub open spec fn holds_capture(pattern: Tree, steps: Seq<bool>, wanted: Tree) -> bool
    decreases steps.len(),
{
    if steps.len() == 0 {
        pattern == wanted && is_capture(wanted)
    } else {
        match pattern {
            Tree::Atom(_) => false,
            Tree::Pair(left, right) => !is_capture(pattern) && holds_capture(
                if steps[0] {
                    *right
                } else {
                    *left
                },
                steps.drop_first(),
                wanted,
            ),
        }
    }
}

/// A match keeps the bindings that it started from.
pub proof fn lemma_match_keeps_known(
    pattern: Tree,
    subject: Tree,
    known: TreeBindings,
    name: Seq<u8>,
)
    requires
        match_spec(pattern, subject, known) is Some,
        known.contains_key(name),
    ensures
        match_spec(pattern, subject, known).unwrap().contains_key(name),
        match_spec(pattern, subject, known).unwrap()[name] == known[name],
    decreases pattern,
{
    match pattern {
        Tree::Atom(_) => {},
        Tree::Pair(left, right) => {
            if !is_capture(pattern) {
                match subject {
                    Tree::Atom(_) => {},
                    Tree::Pair(sleft, sright) => {
                        let bound = match_spec(*left, *sleft, known).unwrap();
                        lemma_match_keeps_known(*left, *sleft, known, name);
                        lemma_match_keeps_known(*right, *sright, bound, name);
                    },
                }
            }
        },
    }
}

/// Where a subject matches a template, each capture of the template is
/// bound to the subtree of the subject at the capture's place, and a
/// capture of an atom stands at the place of an atom.
pub proof fn lemma_match_binds_captures(
    pattern: Tree,
    subject: Tree,
    known: TreeBindings,
    steps: Seq<bool>,
    name: Seq<u8>,
)
    requires
        match_spec(pattern, subject, known) is Some,
        holds_capture(pattern, steps, capture(name)) || holds_capture(
            pattern,
            steps,
            atom_capture(name),
        ),
    ensures
        match_spec(pattern, subject, known).unwrap().contains_key(name),
        subtree(subject, steps) == Some(match_spec(pattern, subject, known).unwrap()[name]),
        holds_capture(pattern, steps, atom_capture(name)) ==> subtree(subject, steps).unwrap()
            is Atom,
    decreases steps.len(),
{
    lemma_markers_differ();
    if steps.len() == 0 {
    } else {
        match pattern {
            Tree::Atom(_) => {},
            Tree::Pair(left, right) => {
                match subject {
                    Tree::Atom(_) => {},
                    Tree::Pair(sleft, sright) => {
                        let bound = match_spec(*left, *sleft, known).unwrap();
                        if steps[0] {
                            lemma_match_binds_captures(
                                *right,
                                *sright,
                                bound,
                                steps.drop_first(),
                                name,
                            );
                        } else {
                            lemma_match_binds_captures(
                                *left,
                                *sleft,
                                known,
                                steps.drop_first(),
                                name,
                            );
                            lemma_match_keeps_known(*right, *sright, bound, name);
                        }
                    },
                }
            },
        }
    }
}

/// The two capture markers are different atoms.
pub proof fn lemma_markers_differ()
    ensures
        Tree::byte(SEXP_MATCH) != Tree::byte(ATOM_MATCH),
{
    assert(seq![SEXP_MATCH][0] != seq![ATOM_MATCH][0]);
}

/// A name captured at two places of a template only matches subjects whose
/// subtrees at the two places are equal.
pub proof fn lemma_repeated_capture_matches_equal(
    pattern: Tree,
    subject: Tree,
    known: TreeBindings,
    name: Seq<u8>,
    here: Seq<bool>,
    there: Seq<bool>,
)
    requires
        match_spec(pattern, subject, known) is Some,
        holds_capture(pattern, here, capture(name)) || holds_capture(
            pattern,
            here,
            atom_capture(name),
        ),
        holds_capture(pattern, there, capture(name)) || holds_capture(
            pattern,
            there,
            atom_capture(name),
        ),
    ensures
        subtree(subject, here) is Some,
        subtree(subject, here) == subtree(subject, there),
{
    lemma_match_binds_captures(pattern, subject, known, here, name);
    lemma_match_binds_captures(pattern, subject, known, there, name);
}

/// A capture of an atom never matches a pair.
pub proof fn lemma_atom_capture_rejects_pair(
    name: Seq<u8>,
    left: Tree,
    right: Tree,
    known: TreeBindings,
)
    ensures
        match_spec(atom_capture(name), Tree::pair(left, right), known) is None,
{
    lemma_markers_differ();
}

/// A subtree is no larger than its tree, and smaller where a step leads to
/// it.
pub proof fn lemma_subtree_smaller(t: Tree, steps: Seq<bool>)
    requires
        subtree(t, steps) is Some,
    ensures
        subtree(t, steps).unwrap().size() <= t.size(),
        steps.len() > 0 ==> subtree(t, steps).unwrap().size() < t.size(),
    decreases steps.len(),
{
    if steps.len() > 0 {
        match t {
            Tree::Atom(_) => {},
            Tree::Pair(left, right) => {
                lemma_subtree_smaller(
                    if steps[0] {
                        *right
                    } else {
                        *left
                    },
                    steps.drop_first(),
                );
            },
        }
    }
}

/// The atoms of the operators and of the capture markers are all different.
pub proof fn lemma_atoms_differ()
    ensures
        Tree::byte(QUOTE_ATOM) != Tree::byte(SEXP_MATCH),
        Tree::byte(QUOTE_ATOM) != Tree::byte(ATOM_MATCH),
        Tree::byte(APPLY_ATOM) != Tree::byte(SEXP_MATCH),
        Tree::byte(APPLY_ATOM) != Tree::byte(ATOM_MATCH),
        Tree::byte(CONS_ATOM) != Tree::byte(SEXP_MATCH),
        Tree::byte(CONS_ATOM) != Tree::byte(ATOM_MATCH),
        Tree::byte(FIRST_ATOM) != Tree::byte(SEXP_MATCH),
        Tree::byte(FIRST_ATOM) != Tree::byte(ATOM_MATCH),
        Tree::byte(REST_ATOM) != Tree::byte(SEXP_MATCH),
        Tree::byte(REST_ATOM) != Tree::byte(ATOM_MATCH),
        Tree::byte(FIRST_ATOM) != Tree::byte(REST_ATOM),
        Tree::nil() != Tree::byte(SEXP_MATCH),
        Tree::nil() != Tree::byte(ATOM_MATCH),
        name_first() != name_rest(),
{
    assert(seq![QUOTE_ATOM][0] == QUOTE_ATOM);
    assert(seq![APPLY_ATOM][0] == APPLY_ATOM);
    assert(seq![CONS_ATOM][0] == CONS_ATOM);
    assert(seq![FIRST_ATOM][0] == FIRST_ATOM);
    assert(seq![REST_ATOM][0] == REST_ATOM);
    assert(seq![SEXP_MATCH][0] == SEXP_MATCH);
    assert(seq![ATOM_MATCH][0] == ATOM_MATCH);
    assert(seq![SEXP_MATCH].len() == 1);
    assert(seq![ATOM_MATCH].len() == 1);
    assert(Seq::<u8>::empty().len() == 0);
    assert(name_first().len() == 5);
    assert(name_rest().len() == 4);
}

/// `(c A B)` matches the template of a cons, which binds `first` to `A`
/// and `rest` to `B`.
pub proof fn lemma_cons_pattern_matches(first: Tree, rest: Tree, known: TreeBindings)
    requires
        !known.contains_key(name_first()),
        !known.contains_key(name_rest()),
    ensures
        match_spec(
            cons_pattern_spec(),
            Tree::pair(Tree::byte(CONS_ATOM), Tree::pair(first, Tree::pair(rest, Tree::nil()))),
            known,
        ) == Some(known.insert(name_first(), first).insert(name_rest(), rest)),
{
    lemma_atoms_differ();
    reveal_with_fuel(match_spec, 6);
}

/// `(f (c A B))` is rewritten to `A`, whatever `A` and `B` are.
pub proof fn lemma_first_of_cons(first: Tree, rest: Tree)
    ensures
        cons_optimizer_spec(
            Tree::pair(
                Tree::byte(FIRST_ATOM),
                Tree::pair(
                    Tree::pair(
                        Tree::byte(CONS_ATOM),
                        Tree::pair(first, Tree::pair(rest, Tree::nil())),
                    ),
                    Tree::nil(),
                ),
            ),
        ) == first,
{
    lemma_atoms_differ();
    lemma_cons_pattern_matches(first, rest, no_bindings());
    reveal_with_fuel(match_spec, 3);
}

/// `(r (c A B))` is rewritten to `B`, whatever `A` and `B` are.
pub proof fn lemma_rest_of_cons(first: Tree, rest: Tree)
    ensures
        cons_optimizer_spec(
            Tree::pair(
                Tree::byte(REST_ATOM),
                Tree::pair(
                    Tree::pair(
                        Tree::byte(CONS_ATOM),
                        Tree::pair(first, Tree::pair(rest, Tree::nil())),
                    ),
                    Tree::nil(),
                ),
            ),
        ) == rest,
{
    lemma_atoms_differ();
    lemma_cons_pattern_matches(first, rest, no_bindings());
    reveal_with_fuel(match_spec, 3);
}

/// `(a (q . SEXP) 1)` is rewritten to `SEXP`, whatever `SEXP` is.
pub proof fn lemma_apply_of_quote(body: Tree)
    ensures
        cons_q_a_optimizer_spec(
            Tree::pair(
                Tree::byte(APPLY_ATOM),
                Tree::pair(
                    Tree::pair(Tree::byte(QUOTE_ATOM), body),
                    Tree::pair(Tree::byte(ARGS_ATOM), Tree::nil()),
                ),
            ),
        ) == body,
{
    lemma_atoms_differ();
    assert(name_sexp() != name_args()) by {
        assert(name_sexp()[0] == 115u8);
        assert(name_args()[0] == 97u8);
    }
    reveal_with_fuel(match_spec, 6);
    let subject = Tree::pair(
        Tree::byte(APPLY_ATOM),
        Tree::pair(
            Tree::pair(Tree::byte(QUOTE_ATOM), body),
            Tree::pair(Tree::byte(ARGS_ATOM), Tree::nil()),
        ),
    );
    assert(match_spec(cons_q_a_optimizer_pattern_spec(), subject, no_bindings()) == Some(
        no_bindings().insert(name_sexp(), body).insert(name_args(), Tree::byte(ARGS_ATOM)),
    ));
}

/// `(q . 0)` is rewritten to `0`.
pub proof fn lemma_quote_of_nil()
    ensures
        quote_null_optimizer_spec(Tree::pair(Tree::byte(QUOTE_ATOM), Tree::nil())) == Tree::nil(),
{
    lemma_atoms_differ();
    reveal_with_fuel(match_spec, 3);
}

/// `(a 0 . ARGS)` is rewritten to `0`, whatever `ARGS` is.
pub proof fn lemma_apply_of_nil(args: Tree)
    ensures
        apply_null_optimizer_spec(
            Tree::pair(Tree::byte(APPLY_ATOM), Tree::pair(Tree::nil(), args)),
        ) == Tree::nil(),
{
    lemma_atoms_differ();
    reveal_with_fuel(match_spec, 4);
}

/// `(f X)`, as a tree.
pub open spec fn unary_spec(operator: u8, x: Tree) -> Tree {
    Tree::pair(Tree::byte(operator), Tree::pair(x, Tree::nil()))
}

/// `(c A B)`, as a tree.
pub open spec fn cons_spec(first: Tree, rest: Tree) -> Tree {
    Tree::pair(Tree::byte(CONS_ATOM), Tree::pair(first, Tree::pair(rest, Tree::nil())))
}

/// `(a (q . SEXP) ARGS)`, as a tree.
pub open spec fn apply_quoted_spec(body: Tree, args: Tree) -> Tree {
    Tree::pair(
        Tree::byte(APPLY_ATOM),
        Tree::pair(Tree::pair(Tree::byte(QUOTE_ATOM), body), Tree::pair(args, Tree::nil())),
    )
}

/// Only a tree `(c A B)` matches the template of a cons.
pub proof fn lemma_cons_pattern_shape(t: Tree, known: TreeBindings)
    requires
        match_spec(cons_pattern_spec(), t, known) is Some,
    ensures
        ({
            let b = match_spec(cons_pattern_spec(), t, known).unwrap();
            &&& b.contains_key(name_first())
            &&& b.contains_key(name_rest())
            &&& t == cons_spec(b[name_first()], b[name_rest()])
        }),
{
    lemma_atoms_differ();
    reveal_with_fuel(match_spec, 6);
    match t {
        Tree::Atom(_) => {},
        Tree::Pair(operator, operands) => {
            match *operands {
                Tree::Atom(_) => {},
                Tree::Pair(first, more) => {
                    match *more {
                        Tree::Atom(_) => {},
                        Tree::Pair(rest, end) => {
                            let bound = unify_spec(known, name_first(), *first).unwrap();
                            assert(bound.contains_key(name_first()));
                            assert(bound[name_first()] == *first);
                        },
                    }
                },
            }
        },
    }
}

/// Only a tree `(f (c A B))` or `(r (c A B))` is changed by the rule for
/// the first and the rest of a cons, and what is put in its place is
/// smaller than the tree.
pub proof fn lemma_cons_optimizer_shrinks(t: Tree)
    ensures
        cons_optimizer_spec(t) == t || cons_optimizer_spec(t).size() < t.size(),
        cons_optimizer_spec(t) != t ==> exists|first: Tree, rest: Tree|
            t == unary_spec(FIRST_ATOM, cons_spec(first, rest)) || t == unary_spec(
                REST_ATOM,
                cons_spec(first, rest),
            ),
{
    lemma_atoms_differ();
    reveal_with_fuel(match_spec, 3);
    reveal_with_fuel(Tree::size, 6);
    match t {
        Tree::Atom(_) => {},
        Tree::Pair(operator, operands) => {
            match *operands {
                Tree::Atom(_) => {},
                Tree::Pair(inner, end) => {
                    if match_spec(cons_pattern_spec(), *inner, no_bindings()) is Some {
                        lemma_cons_pattern_shape(*inner, no_bindings());
                        let b = match_spec(cons_pattern_spec(), *inner, no_bindings()).unwrap();
                        if cons_optimizer_spec(t) != t {
                            assert(t == unary_spec(
                                FIRST_ATOM,
                                cons_spec(b[name_first()], b[name_rest()]),
                            ) || t == unary_spec(
                                REST_ATOM,
                                cons_spec(b[name_first()], b[name_rest()]),
                            ));
                        }
                    }
                },
            }
        },
    }
}

/// Only a tree `(a (q . SEXP) 1)` is changed by the rule for an apply of a
/// quoted body on the whole environment, and what is put in its place is
/// smaller than the tree.
pub proof fn lemma_cons_q_a_optimizer_shrinks(t: Tree)
    ensures
        cons_q_a_optimizer_spec(t) == t || cons_q_a_optimizer_spec(t).size() < t.size(),
        cons_q_a_optimizer_spec(t) != t ==> t == apply_quoted_spec(
            cons_q_a_optimizer_spec(t),
            Tree::byte(ARGS_ATOM),
        ),
{
    lemma_atoms_differ();
    assert(name_sexp() != name_args()) by {
        assert(name_sexp()[0] == 115u8);
        assert(name_args()[0] == 97u8);
    }
    reveal_with_fuel(match_spec, 6);
    reveal_with_fuel(Tree::size, 6);
    match t {
        Tree::Atom(_) => {},
        Tree::Pair(operator, operands) => {
            match *operands {
                Tree::Atom(_) => {},
                Tree::Pair(quoted, more) => {
                    match (*quoted, *more) {
                        (Tree::Pair(q, body), Tree::Pair(args, end)) => {
                            let bound = unify_spec(no_bindings(), name_sexp(), *body).unwrap();
                            assert(bound.contains_key(name_sexp()));
                            assert(bound[name_sexp()] == *body);
                        },
                        _ => {},
                    }
                },
            }
        },
    }
}

/// What the rule for a quoted nil and the rule for an apply of nil put in
/// the place of a tree is smaller than the tree.
pub proof fn lemma_null_optimizers_shrink(t: Tree)
    ensures
        quote_null_optimizer_spec(t) == t || quote_null_optimizer_spec(t).size() < t.size(),
        apply_null_optimizer_spec(t) == t || apply_null_optimizer_spec(t).size() < t.size(),
{
    lemma_atoms_differ();
    reveal_with_fuel(match_spec, 2);
    reveal_with_fuel(Tree::size, 3);
}

/// What the rule for paths puts in the place of a tree is an atom, and
/// smaller than the tree.
pub proof fn lemma_path_optimizer_shrinks(t: Tree)
    ensures
        path_optimizer_spec(t) == t || (path_optimizer_spec(t) is Atom && path_optimizer_spec(
            t,
        ).size() < t.size()),
{
    lemma_atoms_differ();
    reveal_with_fuel(match_spec, 2);
    reveal_with_fuel(Tree::size, 3);
}

/// The rules that rewrite a tree by its shape alone, without the evaluator
/// and without optimizing inside, never make a tree larger: what such a
/// rule puts in the place of a tree is smaller than the tree.
pub proof fn lemma_shape_rules_shrink<R: TRunProgram>(rule: Rule, runner: R, budget: nat, t: Tree)
    requires
        rule is Cons || rule is ConsQA || rule is Path || rule is QuoteNull || rule is ApplyNull,
    ensures
        rule_spec(rule, runner, budget, t) matches Outcome::Done(changed) && (changed == t
            || changed.size() < t.size()),
{
    lemma_cons_optimizer_shrinks(t);
    lemma_cons_q_a_optimizer_shrinks(t);
    lemma_path_optimizer_shrinks(t);
    lemma_null_optimizers_shrink(t);
}

} // verus!

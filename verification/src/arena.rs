//! The arena of `clvmr` behind contracts, and the tree helpers built on it.

use vstd::prelude::*;
use clvmr::allocator::Allocator;
use clvmr::allocator::NodePtr;
use clvmr::error::EvalErr;
use crate::tree::Tree;

verus! {

/// `clvmr::allocator::Allocator`, the arena: nothing is known of what is
/// inside it but what `arena_nodes` names.
#[verifier::external_type_specification]
#[verifier::external_body]
pub struct ExAllocator(Allocator);

/// `clvmr::allocator::NodePtr`, the handle of a node of an arena.
#[verifier::external_type_specification]
#[verifier::external_body]
pub struct ExNodePtr(NodePtr);

/// `clvmr::error::EvalErr`, the error of the arena and of the evaluator. It
/// is passed on and never looked into.
#[verifier::external_type_specification]
#[verifier::external_body]
pub struct ExEvalErr(EvalErr);

/// The handles that an arena has given out, each with the tree it stands
/// for. An arena gives handles out and never takes one back, nor changes
/// what a handle stands for.
pub uninterp spec fn arena_nodes(a: Allocator) -> Map<NodePtr, Tree>;

/// `n` is a handle of `a`: the arena `a` has given it out, by one of its own
/// methods or through a function of this library.
pub open spec fn valid(a: Allocator, n: NodePtr) -> bool {
    arena_nodes(a).dom().contains(n)
}

/// The tree that the handle `n` of `a` stands for.
pub open spec fn tree_of(a: Allocator, n: NodePtr) -> Tree {
    arena_nodes(a)[n]
}

/// Every handle of `before` is a handle of `after` and stands for the same tree.
pub open spec fn extends(before: Allocator, after: Allocator) -> bool {
    forall|n: NodePtr| #[trigger]
        arena_nodes(before).dom().contains(n) ==> arena_nodes(after).dom().contains(n)
            && arena_nodes(after)[n] == arena_nodes(before)[n]
}

/// Why an optimization failed.
pub enum OptimizeError {
    /// The arena could not hold another node; its error is passed on.
    Arena(EvalErr),
    /// The evaluator failed on a constant expression; its error is passed on.
    Evaluator(EvalErr),
    /// The budget of nested optimizations and rewrites ran out.
    BudgetExhausted,
    /// The first element was asked of a node that is an atom.
    FirstOfNonCons(NodePtr),
}

/// One level of a node: an atom, or a pair of two handles.
pub(crate) enum SExp {
    Atom,
    Pair(NodePtr, NodePtr),
}

/// `Allocator::nil`: the handle of the empty atom, which every arena has.
#[verifier::external_body]
pub(crate) fn nil_node(a: &Allocator) -> (n: NodePtr)
    ensures
        arena_nodes(*a).dom().contains(n),
        arena_nodes(*a)[n] == Tree::nil(),
{
    a.nil()
}

/// `Allocator::sexp`: whether a handle is an atom or a pair, and the pair's
/// two children, which are handles of the same arena.
#[verifier::external_body]
pub(crate) fn sexp(a: &Allocator, n: NodePtr) -> (s: SExp)
    requires
        arena_nodes(*a).dom().contains(n),
    ensures
        match s {
            SExp::Atom => arena_nodes(*a)[n] is Atom,
            SExp::Pair(l, r) => {
                &&& arena_nodes(*a).dom().contains(l)
                &&& arena_nodes(*a).dom().contains(r)
                &&& arena_nodes(*a)[n] == Tree::pair(arena_nodes(*a)[l], arena_nodes(*a)[r])
            },
        },
{
    match a.sexp(n) {
        clvmr::allocator::SExp::Atom => SExp::Atom,
        clvmr::allocator::SExp::Pair(l, r) => SExp::Pair(l, r),
    }
}

/// `Allocator::atom`: the bytes of an atom.
#[verifier::external_body]
pub(crate) fn atom_bytes(a: &Allocator, n: NodePtr) -> (bytes: Vec<u8>)
    requires
        arena_nodes(*a).dom().contains(n),
        arena_nodes(*a)[n] is Atom,
    ensures
        arena_nodes(*a)[n] == Tree::Atom(bytes@),
{
    a.atom(n).as_ref().to_vec()
}

/// `Allocator::new_atom`: on success a handle of an atom with the given
/// bytes; the handles given out before stay as they were either way.
#[verifier::external_body]
pub(crate) fn new_atom(a: &mut Allocator, bytes: &[u8]) -> (res: Result<NodePtr, EvalErr>)
    ensures
        extends(*old(a), *final(a)),
        res matches Ok(n) ==> arena_nodes(*final(a)).dom().contains(n) && arena_nodes(*final(a))[n]
            == Tree::Atom(bytes@),
{
    a.new_atom(bytes)
}

/// `Allocator::new_pair`: on success a handle of the pair of the two given
/// nodes; the handles given out before stay as they were either way.
#[verifier::external_body]
pub(crate) fn new_pair(a: &mut Allocator, first: NodePtr, rest: NodePtr) -> (res: Result<NodePtr, EvalErr>)
    requires
        arena_nodes(*old(a)).dom().contains(first),
        arena_nodes(*old(a)).dom().contains(rest),
    ensures
        extends(*old(a), *final(a)),
        res matches Ok(n) ==> arena_nodes(*final(a)).dom().contains(n) && arena_nodes(*final(a))[n]
            == Tree::pair(arena_nodes(*old(a))[first], arena_nodes(*old(a))[rest]),
{
    a.new_pair(first, rest)
}

/// The trees that a sequence of handles stands for, in order.
pub open spec fn trees_of(a: Allocator, nodes: Seq<NodePtr>) -> Seq<Tree> {
    Seq::new(nodes.len(), |i: int| tree_of(a, nodes[i]))
}

/// Every handle of the sequence is a handle of `a`.
pub open spec fn all_valid(a: Allocator, nodes: Seq<NodePtr>) -> bool {
    forall|i: int| 0 <= i < nodes.len() ==> valid(a, #[trigger] nodes[i])
}

/// Handles that are valid before an arena grows stand for the same trees after.
pub proof fn lemma_extends_trees(before: Allocator, after: Allocator, nodes: Seq<NodePtr>)
    requires
        extends(before, after),
        all_valid(before, nodes),
    ensures
        all_valid(after, nodes),
        trees_of(after, nodes) == trees_of(before, nodes),
{
    assert forall|i: int| 0 <= i < nodes.len() implies valid(after, #[trigger] nodes[i]) by {
        assert(valid(before, nodes[i]));
    }
    assert forall|i: int| 0 <= i < nodes.len() implies trees_of(after, nodes)[i] == trees_of(
        before,
        nodes,
    )[i] by {
        assert(valid(before, nodes[i]));
    }
    assert(trees_of(after, nodes) =~= trees_of(before, nodes));
}

/// Whether a node is anything but the empty atom.
pub fn non_nil(a: &Allocator, n: NodePtr) -> (r: bool)
    requires
        valid(*a, n),
    ensures
        r == !tree_of(*a, n).is_nil(),
        tree_of(*a, n) matches Tree::Atom(bytes) ==> r == (bytes.len() > 0),
{
    match sexp(a, n) {
        SExp::Atom => {
            let bytes = atom_bytes(a, n);
            assert(bytes@.len() == 0 ==> bytes@ =~= Seq::<u8>::empty());
            bytes.len() > 0
        },
        SExp::Pair(_, _) => true,
    }
}

/// Whether a node is the atom made of the single byte `b`.
pub fn is_byte_atom(a: &Allocator, n: NodePtr, b: u8) -> (r: bool)
    requires
        valid(*a, n),
    ensures
        r == (tree_of(*a, n) == Tree::byte(b)),
{
    match sexp(a, n) {
        SExp::Atom => {
            let bytes = atom_bytes(a, n);
            let r = bytes.len() == 1 && bytes[0] == b;
            assert(r ==> bytes@ =~= seq![b]);
            assert(bytes@ == seq![b] ==> r);
            r
        },
        SExp::Pair(_, _) => false,
    }
}

/// The left child of a pair, or `None` for an atom.
pub fn first(a: &Allocator, n: NodePtr) -> (res: Option<NodePtr>)
    requires
        valid(*a, n),
    ensures
        res is Some <==> tree_of(*a, n) is Pair,
        res matches Some(l) ==> valid(*a, l) && tree_of(*a, l) == tree_of(*a, n).left(),
{
    match sexp(a, n) {
        SExp::Atom => None,
        SExp::Pair(l, _) => Some(l),
    }
}

/// The right child of a pair, or `None` for an atom.
pub fn rest(a: &Allocator, n: NodePtr) -> (res: Option<NodePtr>)
    requires
        valid(*a, n),
    ensures
        res is Some <==> tree_of(*a, n) is Pair,
        res matches Some(r) ==> valid(*a, r) && tree_of(*a, r) == tree_of(*a, n).right(),
{
    match sexp(a, n) {
        SExp::Atom => None,
        SExp::Pair(_, r) => Some(r),
    }
}

/// The elements of a nil-terminated list, or `None` for anything else.
/// With `store` unset the elements are not collected and the vector
/// returned for a list is empty.
pub fn proper_list(a: &Allocator, n: NodePtr, store: bool) -> (res: Option<Vec<NodePtr>>)
    requires
        valid(*a, n),
    ensures
        res is Some <==> tree_of(*a, n).is_proper_list(),
        res matches Some(v) ==> {
            &&& all_valid(*a, v@)
            &&& store ==> trees_of(*a, v@) == tree_of(*a, n).items().unwrap()
            &&& !store ==> v@.len() == 0
        },
{
    let mut args: Vec<NodePtr> = Vec::new();
    let mut cur = n;
    let ghost whole = tree_of(*a, n);
    let ghost mut seen: Seq<Tree> = Seq::empty();
    loop
        invariant
            valid(*a, cur),
            whole == tree_of(*a, n),
            all_valid(*a, args@),
            store ==> trees_of(*a, args@) == seen,
            !store ==> args@.len() == 0,
            whole.items() == match tree_of(*a, cur).items() {
                Some(tail) => Some(seen + tail),
                None => None,
            },
        decreases tree_of(*a, cur).size(),
    {
        match sexp(a, cur) {
            SExp::Atom => {
                let bytes = atom_bytes(a, cur);
                if bytes.len() == 0 {
                    proof {
                        assert(seen + Seq::<Tree>::empty() =~= seen);
                    }
                    return Some(args);
                } else {
                    return None;
                }
            },
            SExp::Pair(f, r) => {
                proof {
                    let tf = tree_of(*a, f);
                    match tree_of(*a, r).items() {
                        Some(tail) => {
                            assert(seen + (seq![tf] + tail) =~= seen.push(tf) + tail);
                        },
                        None => {},
                    }
                    if store {
                        assert(trees_of(*a, args@.push(f)) =~= seen.push(tf));
                    }
                    seen = seen.push(tf);
                }
                if store {
                    args.push(f);
                }
                cur = r;
            },
        }
    }
}

/// A new atom with the given bytes.
pub fn atom_node(a: &mut Allocator, bytes: &[u8]) -> (res: Result<NodePtr, OptimizeError>)
    ensures
        extends(*old(a), *final(a)),
        match res {
            Ok(n) => valid(*final(a), n) && tree_of(*final(a), n) == Tree::Atom(bytes@),
            Err(e) => e is Arena,
        },
{
    match new_atom(a, bytes) {
        Ok(n) => Ok(n),
        Err(e) => Err(OptimizeError::Arena(e)),
    }
}

/// A new atom of the single byte `b`.
pub fn byte_node(a: &mut Allocator, b: u8) -> (res: Result<NodePtr, OptimizeError>)
    ensures
        extends(*old(a), *final(a)),
        match res {
            Ok(n) => valid(*final(a), n) && tree_of(*final(a), n) == Tree::byte(b),
            Err(e) => e is Arena,
        },
{
    let mut bytes: Vec<u8> = Vec::new();
    bytes.push(b);
    assert(bytes@ =~= seq![b]);
    atom_node(a, bytes.as_slice())
}

/// A new pair of two nodes.
pub fn pair_node(a: &mut Allocator, first: NodePtr, rest: NodePtr) -> (res: Result<
    NodePtr,
    OptimizeError,
>)
    requires
        valid(*old(a), first),
        valid(*old(a), rest),
    ensures
        extends(*old(a), *final(a)),
        match res {
            Ok(n) => valid(*final(a), n) && tree_of(*final(a), n) == Tree::pair(
                tree_of(*old(a), first),
                tree_of(*old(a), rest),
            ),
            Err(e) => e is Arena,
        },
{
    match new_pair(a, first, rest) {
        Ok(n) => Ok(n),
        Err(e) => Err(OptimizeError::Arena(e)),
    }
}

/// Builds the nil-terminated list of the given nodes.
pub fn enlist(a: &mut Allocator, nodes: &Vec<NodePtr>) -> (res: Result<NodePtr, OptimizeError>)
    requires
        all_valid(*old(a), nodes@),
    ensures
        extends(*old(a), *final(a)),
        match res {
            Ok(n) => valid(*final(a), n) && tree_of(*final(a), n) == Tree::list(
                trees_of(*old(a), nodes@),
            ),
            Err(e) => e is Arena,
        },
{
    let ghost trees = trees_of(*a, nodes@);
    let mut built = nil_node(a);
    let mut i: usize = nodes.len();
    proof {
        assert(trees.subrange(i as int, trees.len() as int) =~= Seq::<Tree>::empty());
    }
    while i > 0
        invariant
            i <= nodes.len(),
            extends(*old(a), *a),
            all_valid(*old(a), nodes@),
            trees == trees_of(*old(a), nodes@),
            valid(*a, built),
            tree_of(*a, built) == Tree::list(trees.subrange(i as int, trees.len() as int)),
        decreases i,
    {
        i -= 1;
        let item = nodes[i];
        let ghost before = *a;
        proof {
            assert(valid(*old(a), nodes@[i as int]));
        }
        match pair_node(a, item, built) {
            Ok(p) => {
                proof {
                    let suffix = trees.subrange(i as int, trees.len() as int);
                    assert(suffix.subrange(1, suffix.len() as int) =~= trees.subrange(
                        i as int + 1,
                        trees.len() as int,
                    ));
                    assert(suffix[0] == trees[i as int]);
                    assert(tree_of(before, item) == trees[i as int]);
                }
                built = p;
            },
            Err(e) => {
                return Err(e);
            },
        }
    }
    proof {
        assert(trees.subrange(0, trees.len() as int) =~= trees);
    }
    Ok(built)
}

/// Whether two handles stand for the same tree.
pub fn equal_to(a: &Allocator, x: NodePtr, y: NodePtr) -> (r: bool)
    requires
        valid(*a, x),
        valid(*a, y),
    ensures
        r == (tree_of(*a, x) == tree_of(*a, y)),
    decreases tree_of(*a, x).size(),
{
    match sexp(a, x) {
        SExp::Atom => match sexp(a, y) {
            SExp::Atom => {
                let bx = atom_bytes(a, x);
                let by = atom_bytes(a, y);
                bytes_equal(&bx, &by)
            },
            SExp::Pair(_, _) => false,
        },
        SExp::Pair(xl, xr) => match sexp(a, y) {
            SExp::Atom => false,
            SExp::Pair(yl, yr) => equal_to(a, xl, yl) && equal_to(a, xr, yr),
        },
    }
}

/// Whether two byte strings hold the same bytes.
pub fn bytes_equal(x: &Vec<u8>, y: &Vec<u8>) -> (r: bool)
    ensures
        r == (x@ == y@),
{
    if x.len() != y.len() {
        return false;
    }
    let mut i: usize = 0;
    while i < x.len()
        invariant
            x.len() == y.len(),
            i <= x.len(),
            forall|j: int| 0 <= j < i ==> x@[j] == y@[j],
        decreases x.len() - i,
    {
        if x[i] != y[i] {
            return false;
        }
        i += 1;
    }
    assert(x@ =~= y@);
    true
}

} // verus!

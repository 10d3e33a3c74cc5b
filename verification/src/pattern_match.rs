//! Matching a template tree against a subject tree.
//!
//! A template is a tree in which a pair `(: . name)` captures any subject
//! under `name`, a pair `($ . name)` captures an atom under `name`, and
//! everything else stands for itself.

use vstd::prelude::*;
use clvmr::allocator::Allocator;
use clvmr::allocator::NodePtr;
use crate::tree::Tree;
use crate::arena::{valid, tree_of, sexp, atom_bytes, equal_to, SExp};

verus! {

/// The byte `:`, which marks a capture of any subject.
pub const SEXP_MATCH: u8 = 58;

/// The byte `$`, which marks a capture of an atom.
pub const ATOM_MATCH: u8 = 36;

/// What the captures of a template are bound to, as trees.
pub type TreeBindings = Map<Seq<u8>, Tree>;

/// The template that captures any subject under `name`.
pub open spec fn capture(name: Seq<u8>) -> Tree {
    Tree::pair(Tree::byte(SEXP_MATCH), Tree::Atom(name))
}

/// The template that captures an atom under `name`.
pub open spec fn atom_capture(name: Seq<u8>) -> Tree {
    Tree::pair(Tree::byte(ATOM_MATCH), Tree::Atom(name))
}

/// Binds `name` to `value`: a name bound before must be bound to an equal tree.
pub open spec fn unify_spec(known: TreeBindings, name: Seq<u8>, value: Tree) -> Option<
    TreeBindings,
> {
    if known.contains_key(name) {
        if known[name] == value {
            Some(known)
        } else {
            None
        }
    } else {
        Some(known.insert(name, value))
    }
}

/// The bindings under which `subject` matches `pattern`, starting from
/// `known`, or `None` where it does not match.
pub open spec fn match_spec(pattern: Tree, subject: Tree, known: TreeBindings) -> Option<
    TreeBindings,
>
    decreases pattern,
{
    match pattern {
        Tree::Atom(bytes) => if subject == pattern {
            Some(known)
        } else {
            None
        },
        Tree::Pair(left, right) => {
            if *left == Tree::byte(SEXP_MATCH) && *right is Atom {
                unify_spec(known, right->Atom_0, subject)
            } else if *left == Tree::byte(ATOM_MATCH) && *right is Atom {
                if subject is Atom {
                    unify_spec(known, right->Atom_0, subject)
                } else {
                    None
                }
            } else {
                match subject {
                    Tree::Atom(_) => None,
                    Tree::Pair(sleft, sright) => match match_spec(*left, *sleft, known) {
                        Some(bound) => match_spec(*right, *sright, bound),
                        None => None,
                    },
                }
            }
        },
    }
}

/// One capture: a name and the node bound to it.
pub struct Binding {
    pub name: Vec<u8>,
    pub node: NodePtr,
}

/// What the captures of a template are bound to: at most one node a name.
pub struct Bindings {
    entries: Vec<Binding>,
}

/// The map that a sequence of bindings stands for.
pub closed spec fn entries_map(entries: Seq<Binding>) -> Map<Seq<u8>, NodePtr>
    decreases entries.len(),
{
    if entries.len() == 0 {
        Map::empty()
    } else {
        entries_map(entries.drop_last()).insert(entries.last().name@, entries.last().node)
    }
}

impl Bindings {
    /// The node bound to each name.
    pub closed spec fn view(&self) -> Map<Seq<u8>, NodePtr> {
        entries_map(self.entries@)
    }

    /// Every bound node is a handle of `a`.
    pub open spec fn valid(&self, a: Allocator) -> bool {
        forall|name: Seq<u8>| #[trigger] self@.contains_key(name) ==> valid(a, self@[name])
    }

    /// The tree bound to each name.
    pub open spec fn trees(&self, a: Allocator) -> TreeBindings {
        Map::new(|name: Seq<u8>| self@.contains_key(name), |name: Seq<u8>| tree_of(a, self@[name]))
    }

    /// No bindings.
    pub fn new() -> (b: Bindings)
        ensures
            b@ == Map::<Seq<u8>, NodePtr>::empty(),
            forall|a: Allocator| #[trigger] b.trees(a) == Map::<Seq<u8>, Tree>::empty(),
            forall|a: Allocator| #[trigger] b.valid(a),
    {
        let b = Bindings { entries: Vec::new() };
        assert forall|a: Allocator| #[trigger] b.trees(a) == Map::<Seq<u8>, Tree>::empty() by {
            assert(b.trees(a) =~= Map::<Seq<u8>, Tree>::empty());
        }
        b
    }

    /// The node bound to `name`, if there is one.
    pub fn get(&self, name: &[u8]) -> (res: Option<NodePtr>)
        ensures
            match res {
                Some(n) => self@.contains_key(name@) && self@[name@] == n,
                None => !self@.contains_key(name@),
            },
    {
        let mut i: usize = self.entries.len();
        proof {
            assert(self.entries@.take(i as int) =~= self.entries@);
        }
        while i > 0
            invariant
                i <= self.entries.len(),
                self@.contains_key(name@) == entries_map(self.entries@.take(i as int)).contains_key(
                    name@,
                ),
                self@.contains_key(name@) ==> self@[name@] == entries_map(
                    self.entries@.take(i as int),
                )[name@],
            decreases i,
        {
            i -= 1;
            proof {
                let upto = self.entries@.take(i as int + 1);
                assert(upto.drop_last() =~= self.entries@.take(i as int));
                assert(upto.last() == self.entries@[i as int]);
            }
            if slice_equal(self.entries[i].name.as_slice(), name) {
                return Some(self.entries[i].node);
            }
        }
        None
    }

    /// Binds `name` to `node`.
    pub fn insert(&mut self, name: Vec<u8>, node: NodePtr)
        ensures
            final(self)@ == old(self)@.insert(name@, node),
    {
        proof {
            assert(self.entries@.push(Binding { name, node }).drop_last() =~= self.entries@);
        }
        self.entries.push(Binding { name, node });
    }
}

/// Whether two slices hold the same bytes.
pub fn slice_equal(x: &[u8], y: &[u8]) -> (r: bool)
    ensures
        r == (x@ == y@),
{
    if x.len() != y.len() {
        return false;
    }
    let mut i: usize = 0;
    while i < x.len()
        invariant
            x.len() == y.len(),
            i <= x.len(),
            forall|j: int| 0 <= j < i ==> x@[j] == y@[j],
        decreases x.len() - i,
    {
        if x[i] != y[i] {
            return false;
        }
        i += 1;
    }
    assert(x@ =~= y@);
    true
}

/// Binds `name` to `node` unless the name is bound to an unequal tree.
pub fn unify_bindings(a: &Allocator, known: Bindings, name: Vec<u8>, node: NodePtr) -> (res:
    Option<Bindings>)
    requires
        known.valid(*a),
        valid(*a, node),
    ensures
        match res {
            Some(b) => b.valid(*a) && Some(b.trees(*a)) == unify_spec(
                known.trees(*a),
                name@,
                tree_of(*a, node),
            ),
            None => unify_spec(known.trees(*a), name@, tree_of(*a, node)) is None,
        },
{
    match known.get(name.as_slice()) {
        Some(bound) => {
            if equal_to(a, bound, node) {
                Some(known)
            } else {
                None
            }
        },
        None => {
            let ghost before = known;
            let mut bound = known;
            let ghost key = name@;
            bound.insert(name, node);
            proof {
                assert(bound.trees(*a) =~= before.trees(*a).insert(key, tree_of(*a, node)));
            }
            Some(bound)
        },
    }
}

/// Matches the subject `subject` against the template `pattern`, starting
/// from the bindings `known`.
pub fn match_sexp(a: &Allocator, pattern: NodePtr, subject: NodePtr, known: Bindings) -> (res:
    Option<Bindings>)
    requires
        valid(*a, pattern),
        valid(*a, subject),
        known.valid(*a),
    ensures
        match res {
            Some(b) => b.valid(*a) && Some(b.trees(*a)) == match_spec(
                tree_of(*a, pattern),
                tree_of(*a, subject),
                known.trees(*a),
            ),
            None => match_spec(tree_of(*a, pattern), tree_of(*a, subject), known.trees(*a)) is None,
        },
    decreases tree_of(*a, pattern).size(),
{
    match sexp(a, pattern) {
        SExp::Atom => {
            if equal_to(a, pattern, subject) {
                Some(known)
            } else {
                None
            }
        },
        SExp::Pair(pleft, pright) => {
            let marker = marker_of(a, pleft, pright);
            match marker {
                Some(m) => {
                    let name = atom_bytes(a, pright);
                    if m == SEXP_MATCH {
                        unify_bindings(a, known, name, subject)
                    } else {
                        assert(Tree::byte(ATOM_MATCH) != Tree::byte(SEXP_MATCH)) by {
                            assert(seq![ATOM_MATCH][0] != seq![SEXP_MATCH][0]);
                        }
                        match sexp(a, subject) {
                            SExp::Atom => unify_bindings(a, known, name, subject),
                            SExp::Pair(_, _) => None,
                        }
                    }
                },
                None => match sexp(a, subject) {
                    SExp::Atom => None,
                    SExp::Pair(sleft, sright) => match match_sexp(a, pleft, sleft, known) {
                        Some(bound) => match_sexp(a, pright, sright, bound),
                        None => None,
                    },
                },
            }
        },
    }
}

/// Which capture a template pair is, by its marker byte; `None` where it
/// is an ordinary pair.
fn marker_of(a: &Allocator, left: NodePtr, right: NodePtr) -> (res: Option<u8>)
    requires
        valid(*a, left),
        valid(*a, right),
    ensures
        match res {
            Some(m) => (m == SEXP_MATCH || m == ATOM_MATCH) && tree_of(*a, left) == Tree::byte(m)
                && tree_of(*a, right) is Atom,
            None => !(tree_of(*a, right) is Atom && (tree_of(*a, left) == Tree::byte(SEXP_MATCH)
                || tree_of(*a, left) == Tree::byte(ATOM_MATCH))),
        },
{
    match sexp(a, right) {
        SExp::Pair(_, _) => None,
        SExp::Atom => match sexp(a, left) {
            SExp::Pair(_, _) => None,
            SExp::Atom => {
                let bytes = atom_bytes(a, left);
                if bytes.len() == 1 && (bytes[0] == SEXP_MATCH || bytes[0] == ATOM_MATCH) {
                    assert(bytes@ =~= seq![bytes@[0]]);
                    Some(bytes[0])
                } else {
                    assert(bytes@ != seq![SEXP_MATCH]) by {
                        if bytes@ == seq![SEXP_MATCH] {
                            assert(bytes@.len() == 1 && bytes@[0] == SEXP_MATCH);
                        }
                    }
                    assert(bytes@ != seq![ATOM_MATCH]) by {
                        if bytes@ == seq![ATOM_MATCH] {
                            assert(bytes@.len() == 1 && bytes@[0] == ATOM_MATCH);
                        }
                    }
                    None
                }
            },
        },
    }
}

} // verus!

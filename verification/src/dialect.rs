//! Which dialect a program asks for.
//!
//! A program asks for a dialect by a form `(include NAME)` among its forms,
//! at any depth, where `NAME` is the name of a known dialect.

use vstd::prelude::*;
use clvmr::allocator::Allocator;
use clvmr::allocator::NodePtr;
use crate::tree::Tree;
use crate::arena::{valid, tree_of, all_valid, trees_of, sexp, atom_bytes, proper_list, SExp};
use crate::pattern_match::slice_equal;

verus! {

/// How the language is spoken.
#[derive(Clone, Debug)]
pub struct AcceptedDialect {
    pub stepping: Option<i32>,
}

impl Default for AcceptedDialect {
    fn default() -> (d: AcceptedDialect)
        ensures
            d.stepping is None,
    {
        AcceptedDialect { stepping: None }
    }
}

/// What is put in place of the include of a dialect, and how the language
/// is spoken from there.
#[derive(Clone, Debug)]
pub struct DialectDescription {
    pub accepted: AcceptedDialect,
    pub content: String,
}

/// The bytes of the word `include`.
pub open spec fn include_keyword() -> Seq<u8> {
    seq![105u8, 110u8, 99u8, 108u8, 117u8, 100u8, 101u8]
}

/// The bytes of the name `*standard-cl-21*`.
pub open spec fn standard_cl_21() -> Seq<u8> {
    seq![
        42u8,
        115u8,
        116u8,
        97u8,
        110u8,
        100u8,
        97u8,
        114u8,
        100u8,
        45u8,
        99u8,
        108u8,
        45u8,
        50u8,
        49u8,
        42u8,
    ]
}

/// The bytes of the name `*standard-cl-22*`.
pub open spec fn standard_cl_22() -> Seq<u8> {
    seq![
        42u8,
        115u8,
        116u8,
        97u8,
        110u8,
        100u8,
        97u8,
        114u8,
        100u8,
        45u8,
        99u8,
        108u8,
        45u8,
        50u8,
        50u8,
        42u8,
    ]
}

/// The stepping of the dialect of the given name, if the name is known.
pub open spec fn known_stepping(name: Seq<u8>) -> Option<i32> {
    if name == standard_cl_21() {
        Some(21i32)
    } else if name == standard_cl_22() {
        Some(22i32)
    } else {
        None
    }
}

/// The dialect that the two elements of a form `(include NAME)` ask for.
pub open spec fn include_dialect_spec(keyword: Tree, name: Tree) -> Option<i32> {
    match (keyword, name) {
        (Tree::Atom(k), Tree::Atom(n)) => if k == include_keyword() {
            known_stepping(n)
        } else {
            None
        },
        _ => None,
    }
}

/// The dialect that a form asks for by itself: it must be a list of two
/// elements.
pub open spec fn include_of(form: Tree) -> Option<i32> {
    match form.items() {
        Some(e) => if e.len() == 2 {
            include_dialect_spec(e[0], e[1])
        } else {
            None
        },
        None => None,
    }
}

/// The dialect that a nil-terminated list of forms asks for: that of the
/// first form that asks for one, inside itself or by itself.
pub open spec fn detect_modern_spec(t: Tree) -> Option<i32>
    decreases t, 1nat,
{
    if t.is_proper_list() {
        detect_in_forms(t)
    } else {
        None
    }
}

/// The dialect that the forms from `t` on ask for.
pub open spec fn detect_in_forms(t: Tree) -> Option<i32>
    decreases t, 0nat,
{
    match t {
        Tree::Atom(_) => None,
        Tree::Pair(form, rest) => {
            if detect_modern_spec(*form) is Some {
                detect_modern_spec(*form)
            } else if include_of(*form) is Some {
                include_of(*form)
            } else {
                detect_in_forms(*rest)
            }
        },
    }
}

/// The description of the dialect of the given name, if the name is known.
pub fn known_dialect(name: &[u8]) -> (res: Option<DialectDescription>)
    ensures
        res is Some <==> known_stepping(name@) is Some,
        res matches Some(d) ==> d.accepted.stepping == known_stepping(name@),
        res matches Some(d) ==> d.content@ == (if name@ == standard_cl_21() {
            "(\n    (defconstant *chialisp-version* 21)\n)"@
        } else {
            "(\n    (defconstant *chialisp-version* 22)\n)"@
        }),
{
    let name_21: Vec<u8> = vec![
        42u8,
        115u8,
        116u8,
        97u8,
        110u8,
        100u8,
        97u8,
        114u8,
        100u8,
        45u8,
        99u8,
        108u8,
        45u8,
        50u8,
        49u8,
        42u8,
    ];
    let name_22: Vec<u8> = vec![
        42u8,
        115u8,
        116u8,
        97u8,
        110u8,
        100u8,
        97u8,
        114u8,
        100u8,
        45u8,
        99u8,
        108u8,
        45u8,
        50u8,
        50u8,
        42u8,
    ];
    assert(name_21@ =~= standard_cl_21());
    assert(name_22@ =~= standard_cl_22());
    if slice_equal(name, name_21.as_slice()) {
        Some(
            DialectDescription {
                accepted: AcceptedDialect { stepping: Some(21) },
                content: "(\n    (defconstant *chialisp-version* 21)\n)".to_owned(),
            },
        )
    } else if slice_equal(name, name_22.as_slice()) {
        Some(
            DialectDescription {
                accepted: AcceptedDialect { stepping: Some(22) },
                content: "(\n    (defconstant *chialisp-version* 22)\n)".to_owned(),
            },
        )
    } else {
        None
    }
}

/// The dialect that the two elements `e` of a form `(include NAME)` ask for.
fn include_dialect(a: &Allocator, e: &Vec<NodePtr>) -> (res: Option<AcceptedDialect>)
    requires
        e@.len() == 2,
        all_valid(*a, e@),
    ensures
        res is Some <==> include_dialect_spec(tree_of(*a, e@[0]), tree_of(*a, e@[1])) is Some,
        res matches Some(d) ==> d.stepping == include_dialect_spec(
            tree_of(*a, e@[0]),
            tree_of(*a, e@[1]),
        ),
{
    let include_keyword_sexp = e[0];
    let name_sexp = e[1];
    assert(valid(*a, e@[0]));
    assert(valid(*a, e@[1]));
    match (sexp(a, include_keyword_sexp), sexp(a, name_sexp)) {
        (SExp::Atom, SExp::Atom) => {
            let keyword: Vec<u8> = vec![105u8, 110u8, 99u8, 108u8, 117u8, 100u8, 101u8];
            assert(keyword@ =~= include_keyword());
            let found = atom_bytes(a, include_keyword_sexp);
            if slice_equal(found.as_slice(), keyword.as_slice()) {
                let name = atom_bytes(a, name_sexp);
                match known_dialect(name.as_slice()) {
                    Some(dialect) => Some(dialect.accepted),
                    None => None,
                }
            } else {
                None
            }
        },
        _ => None,
    }
}

/// The dialect that the program `node` asks for; the default, without a
/// stepping, where it asks for none.
pub fn detect_modern(a: &Allocator, node: NodePtr) -> (res: AcceptedDialect)
    requires
        valid(*a, node),
    ensures
        res.stepping == detect_modern_spec(tree_of(*a, node)),
    decreases tree_of(*a, node).size(),
{
    let mut result = AcceptedDialect::default();
    match proper_list(a, node, true) {
        None => {},
        Some(l) => {
            let mut i: usize = 0;
            let mut cur = node;
            while i < l.len()
                invariant
                    i <= l.len(),
                    valid(*a, cur),
                    all_valid(*a, l@),
                    tree_of(*a, cur).is_proper_list(),
                    tree_of(*a, cur).items().unwrap() == trees_of(*a, l@).skip(i as int),
                    tree_of(*a, cur).size() <= tree_of(*a, node).size(),
                    result.stepping is None,
                    detect_modern_spec(tree_of(*a, node)) == detect_in_forms(tree_of(*a, cur)),
                decreases l.len() - i,
            {
                let elt = l[i];
                assert(valid(*a, l@[i as int]));
                proof {
                    let items = tree_of(*a, cur).items().unwrap();
                    assert(items.len() == l@.len() - i);
                    assert(tree_of(*a, cur) is Atom ==> items.len() == 0);
                }
                let next = match sexp(a, cur) {
                    SExp::Pair(_, rest) => rest,
                    SExp::Atom => {
                        assert(false);
                        cur
                    },
                };
                proof {
                    let items = tree_of(*a, cur).items().unwrap();
                    let tail = tree_of(*a, next).items().unwrap();
                    assert(items == seq![tree_of(*a, cur).left()] + tail);
                    assert(items[0] == trees_of(*a, l@)[i as int]);
                    assert(tree_of(*a, cur).left() == tree_of(*a, elt));
                    assert(tail =~= items.skip(1));
                    assert(tail =~= trees_of(*a, l@).skip(i as int + 1));
                }
                let detect_modern_result = detect_modern(a, elt);
                if detect_modern_result.stepping.is_some() {
                    return detect_modern_result;
                }
                match proper_list(a, elt, true) {
                    None => {},
                    Some(e) => {
                        if e.len() == 2 {
                            proof {
                                assert(trees_of(*a, e@)[0] == tree_of(*a, e@[0]));
                                assert(trees_of(*a, e@)[1] == tree_of(*a, e@[1]));
                            }
                            match include_dialect(a, &e) {
                                Some(dialect) => {
                                    return dialect;
                                },
                                None => {},
                            }
                        }
                    },
                }
                cur = next;
                i += 1;
            }
        },
    }
    result
}

} // verus!

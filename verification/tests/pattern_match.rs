use clvm_peephole::arena::{enlist, equal_to, first, non_nil, proper_list, rest};
use clvm_peephole::pattern_match::{match_sexp, unify_bindings, Bindings, ATOM_MATCH, SEXP_MATCH};
use clvmr::allocator::{Allocator, NodePtr};

fn atom(a: &mut Allocator, bytes: &[u8]) -> NodePtr {
    a.new_atom(bytes).unwrap()
}

fn pair(a: &mut Allocator, l: NodePtr, r: NodePtr) -> NodePtr {
    a.new_pair(l, r).unwrap()
}

fn list(a: &mut Allocator, items: &[NodePtr]) -> NodePtr {
    let mut out = a.nil();
    for item in items.iter().rev() {
        out = a.new_pair(*item, out).unwrap();
    }
    out
}

fn capture(a: &mut Allocator, name: &[u8]) -> NodePtr {
    let marker = atom(a, &[SEXP_MATCH]);
    let name = atom(a, name);
    pair(a, marker, name)
}

fn atom_capture(a: &mut Allocator, name: &[u8]) -> NodePtr {
    let marker = atom(a, &[ATOM_MATCH]);
    let name = atom(a, name);
    pair(a, marker, name)
}

#[test]
fn a_literal_matches_itself_only() {
    let mut a = Allocator::new();
    let five = atom(&mut a, &[5]);
    let other_five = atom(&mut a, &[5]);
    let six = atom(&mut a, &[6]);
    let p = pair(&mut a, five, six);
    assert!(match_sexp(&a, five, other_five, Bindings::new()).is_some());
    assert!(match_sexp(&a, five, six, Bindings::new()).is_none());
    assert!(match_sexp(&a, five, p, Bindings::new()).is_none());
    assert!(match_sexp(&a, p, five, Bindings::new()).is_none());
    let same = pair(&mut a, other_five, six);
    let swapped = pair(&mut a, six, five);
    assert!(match_sexp(&a, p, same, Bindings::new()).is_some());
    assert!(match_sexp(&a, p, swapped, Bindings::new()).is_none());
}

#[test]
fn a_capture_binds_what_it_matches() {
    let mut a = Allocator::new();
    let template = capture(&mut a, b"x");
    let five = atom(&mut a, &[5]);
    let six = atom(&mut a, &[6]);
    let subject = pair(&mut a, five, six);
    let bound = match_sexp(&a, template, subject, Bindings::new()).unwrap();
    let x = bound.get(b"x").unwrap();
    assert!(equal_to(&a, x, subject));
    assert!(bound.get(b"y").is_none());
    let bound = match_sexp(&a, template, five, Bindings::new()).unwrap();
    assert!(equal_to(&a, bound.get(b"x").unwrap(), five));
}

#[test]
fn a_name_captured_twice_needs_equal_subtrees() {
    let mut a = Allocator::new();
    let x1 = capture(&mut a, b"x");
    let x2 = capture(&mut a, b"x");
    let template = list(&mut a, &[x1, x2]);
    let five = atom(&mut a, &[5]);
    let also_five = atom(&mut a, &[5]);
    let six = atom(&mut a, &[6]);
    let deep = list(&mut a, &[five, six]);
    let also_deep = list(&mut a, &[also_five, six]);
    let equal = list(&mut a, &[five, also_five]);
    let unequal = list(&mut a, &[five, six]);
    let equal_deep = list(&mut a, &[deep, also_deep]);
    let unequal_deep = list(&mut a, &[deep, five]);
    assert!(match_sexp(&a, template, equal, Bindings::new()).is_some());
    assert!(match_sexp(&a, template, unequal, Bindings::new()).is_none());
    let bound = match_sexp(&a, template, equal_deep, Bindings::new()).unwrap();
    assert!(equal_to(&a, bound.get(b"x").unwrap(), deep));
    assert!(match_sexp(&a, template, unequal_deep, Bindings::new()).is_none());
}

#[test]
fn an_atom_capture_never_matches_a_pair() {
    let mut a = Allocator::new();
    let template = atom_capture(&mut a, b"atom");
    let five = atom(&mut a, &[5]);
    let nil = a.nil();
    let p = pair(&mut a, five, nil);
    assert!(match_sexp(&a, template, p, Bindings::new()).is_none());
    let bound = match_sexp(&a, template, five, Bindings::new()).unwrap();
    assert!(equal_to(&a, bound.get(b"atom").unwrap(), five));
    let bound = match_sexp(&a, template, nil, Bindings::new()).unwrap();
    assert!(!non_nil(&a, bound.get(b"atom").unwrap()));
}

#[test]
fn a_template_of_several_captures() {
    let mut a = Allocator::new();
    let op = atom(&mut a, &[4]);
    let x = capture(&mut a, b"first");
    let y = atom_capture(&mut a, b"rest");
    let template = list(&mut a, &[op, x, y]);
    let other_op = atom(&mut a, &[4]);
    let seven = atom(&mut a, &[7]);
    let eight = atom(&mut a, &[8]);
    let inner = list(&mut a, &[seven, eight]);
    let subject = list(&mut a, &[other_op, inner, eight]);
    let bound = match_sexp(&a, template, subject, Bindings::new()).unwrap();
    assert!(equal_to(&a, bound.get(b"first").unwrap(), inner));
    assert!(equal_to(&a, bound.get(b"rest").unwrap(), eight));
    let too_long = list(&mut a, &[other_op, inner, eight, eight]);
    assert!(match_sexp(&a, template, too_long, Bindings::new()).is_none());
    let pair_for_atom = list(&mut a, &[other_op, inner, inner]);
    assert!(match_sexp(&a, template, pair_for_atom, Bindings::new()).is_none());
}

#[test]
fn known_bindings_are_kept_and_checked() {
    let mut a = Allocator::new();
    let five = atom(&mut a, &[5]);
    let six = atom(&mut a, &[6]);
    let known = unify_bindings(&a, Bindings::new(), b"x".to_vec(), five).unwrap();
    let template = capture(&mut a, b"x");
    assert!(match_sexp(&a, template, six, known).is_none());
    let known = unify_bindings(&a, Bindings::new(), b"x".to_vec(), five).unwrap();
    let again = atom(&mut a, &[5]);
    let bound = match_sexp(&a, template, again, known).unwrap();
    assert!(equal_to(&a, bound.get(b"x").unwrap(), five));
    let known = unify_bindings(&a, Bindings::new(), b"y".to_vec(), six).unwrap();
    let bound = match_sexp(&a, template, five, known).unwrap();
    assert!(equal_to(&a, bound.get(b"x").unwrap(), five));
    assert!(equal_to(&a, bound.get(b"y").unwrap(), six));
    let mut by_hand = Bindings::new();
    by_hand.insert(b"z".to_vec(), six);
    assert!(equal_to(&a, by_hand.get(b"z").unwrap(), six));
}

#[test]
fn lists_come_apart_and_together() {
    let mut a = Allocator::new();
    let five = atom(&mut a, &[5]);
    let six = atom(&mut a, &[6]);
    let l = list(&mut a, &[five, six, five]);
    let items = proper_list(&a, l, true).unwrap();
    assert_eq!(items.len(), 3);
    assert!(equal_to(&a, items[1], six));
    assert_eq!(proper_list(&a, l, false).unwrap().len(), 0);
    let again = enlist(&mut a, &items).unwrap_or_else(|_| panic!());
    assert!(equal_to(&a, l, again));
    let improper = pair(&mut a, five, six);
    assert!(proper_list(&a, improper, true).is_none());
    assert!(proper_list(&a, five, true).is_none());
    let nil = a.nil();
    assert_eq!(proper_list(&a, nil, true).unwrap().len(), 0);
    let empty = enlist(&mut a, &vec![]).unwrap_or_else(|_| panic!());
    assert!(!non_nil(&a, empty));
    assert!(equal_to(&a, first(&a, l).unwrap(), five));
    let tail = rest(&a, l).unwrap();
    assert_eq!(proper_list(&a, tail, true).unwrap().len(), 2);
    assert!(first(&a, five).is_none());
    assert!(rest(&a, nil).is_none());
    assert!(!equal_to(&a, l, improper));
}

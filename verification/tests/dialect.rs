use clvm_peephole::dialect::{detect_modern, known_dialect, AcceptedDialect, DialectDescription};
use clvmr::allocator::{Allocator, NodePtr};

fn atom(a: &mut Allocator, text: &str) -> NodePtr {
    a.new_atom(text.as_bytes()).unwrap()
}

fn list(a: &mut Allocator, items: &[NodePtr]) -> NodePtr {
    let mut out = a.nil();
    for item in items.iter().rev() {
        out = a.new_pair(*item, out).unwrap();
    }
    out
}

fn asks_for(a: &mut Allocator, name: &str) -> NodePtr {
    let keyword = atom(a, "include");
    let name = atom(a, name);
    list(a, &[keyword, name])
}

#[test]
fn the_default_has_no_stepping() {
    assert_eq!(AcceptedDialect::default().stepping, None);
}

#[test]
fn the_known_dialects() {
    let d: DialectDescription = known_dialect(b"*standard-cl-21*").unwrap();
    assert_eq!(d.accepted.stepping, Some(21));
    assert_eq!(d.content, "(\n    (defconstant *chialisp-version* 21)\n)");
    let d = known_dialect(b"*standard-cl-22*").unwrap();
    assert_eq!(d.accepted.stepping, Some(22));
    assert_eq!(d.content, "(\n    (defconstant *chialisp-version* 22)\n)");
    assert!(known_dialect(b"*standard-cl-23*").is_none());
    assert!(known_dialect(b"").is_none());
}

#[test]
fn a_program_without_an_include_asks_for_nothing() {
    let mut a = Allocator::new();
    let m = atom(&mut a, "mod");
    let args = a.nil();
    let body = atom(&mut a, "x");
    let program = list(&mut a, &[m, args, body]);
    assert_eq!(detect_modern(&a, program).stepping, None);
    let nil = a.nil();
    assert_eq!(detect_modern(&a, nil).stepping, None);
    assert_eq!(detect_modern(&a, body).stepping, None);
}

#[test]
fn an_include_of_a_known_dialect_is_found() {
    let mut a = Allocator::new();
    let m = atom(&mut a, "mod");
    let args = a.nil();
    let inc = asks_for(&mut a, "*standard-cl-21*");
    let body = atom(&mut a, "x");
    let program = list(&mut a, &[m, args, inc, body]);
    assert_eq!(detect_modern(&a, program).stepping, Some(21));
    let inc = asks_for(&mut a, "*standard-cl-22*");
    let program = list(&mut a, &[m, inc]);
    assert_eq!(detect_modern(&a, program).stepping, Some(22));
}

#[test]
fn the_first_include_decides() {
    let mut a = Allocator::new();
    let one = asks_for(&mut a, "*standard-cl-22*");
    let two = asks_for(&mut a, "*standard-cl-21*");
    let program = list(&mut a, &[one, two]);
    assert_eq!(detect_modern(&a, program).stepping, Some(22));
}

#[test]
fn an_include_inside_a_form_is_found() {
    let mut a = Allocator::new();
    let inc = asks_for(&mut a, "*standard-cl-21*");
    let inner = list(&mut a, &[inc]);
    let x = atom(&mut a, "x");
    let middle = list(&mut a, &[x, inner]);
    let program = list(&mut a, &[x, middle]);
    assert_eq!(detect_modern(&a, program).stepping, Some(21));
}

#[test]
fn what_is_no_include_is_passed_over() {
    let mut a = Allocator::new();
    let unknown = asks_for(&mut a, "*standard-cl-1*");
    let keyword = atom(&mut a, "include");
    let name = atom(&mut a, "*standard-cl-21*");
    let three = list(&mut a, &[keyword, name, name]);
    let wrong_word = list(&mut a, &[name, name]);
    let improper = a.new_pair(keyword, name).unwrap();
    let nested_name = list(&mut a, &[name]);
    let pair_name = list(&mut a, &[keyword, nested_name]);
    let program = list(&mut a, &[unknown, three, wrong_word, improper, pair_name]);
    assert_eq!(detect_modern(&a, program).stepping, None);
    let top = asks_for(&mut a, "*standard-cl-21*");
    assert_eq!(detect_modern(&a, top).stepping, None);
    let not_a_list = a.new_pair(top, keyword).unwrap();
    assert_eq!(detect_modern(&a, not_a_list).stepping, None);
}

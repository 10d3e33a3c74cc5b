use clvm_peephole::cldb::{
    format_arg_inputs, get_arg_associations, hex_to_modern_sexp, sha256tree_of_node, Associations,
    CldbEnvironment, CldbNoOverride, CldbOverrideBespokeCode, CldbRun, CldbRunEnv, CldbRunnable,
    CldbSingleBespokeOverride, NamedOverride, PriorResult,
};
use clvm_peephole::runtypes::{RunFailure, RunStep};
use clvm_peephole::sexp::{sha256tree, SExp};
use clvm_peephole::srcloc::{Srcloc, Until};
use clvm_peephole::text::{bytes_to_hex, TextMap};
use clvmr::allocator::Allocator;
use std::rc::Rc;

fn loc(line: usize, col: usize) -> Srcloc {
    Srcloc { file: Rc::new("test.clsp".to_string()), line, col, until: None }
}

fn integer(l: Srcloc, v: u8) -> Rc<SExp> {
    Rc::new(SExp::Integer(l, vec![v]))
}

fn nil() -> Rc<SExp> {
    Rc::new(SExp::Nil(loc(1, 1)))
}

fn cons(a: Rc<SExp>, b: Rc<SExp>) -> Rc<SExp> {
    Rc::new(SExp::Cons(a.loc(), a, b))
}

fn list(items: &[Rc<SExp>]) -> Rc<SExp> {
    let mut out = nil();
    for item in items.iter().rev() {
        out = cons(item.clone(), out);
    }
    out
}

fn parent() -> Rc<RunStep> {
    Rc::new(RunStep::Step(nil(), nil(), Rc::new(RunStep::Done(loc(1, 1), nil()))))
}

fn env() -> CldbRunEnv<CldbNoOverride> {
    CldbRunEnv::new(
        Some("test.clsp".to_string()),
        vec!["(+ 1 2)".to_string(), "  (sha256 3 7)".to_string()],
        CldbNoOverride::new(),
    )
}

#[test]
fn places_as_text() {
    assert_eq!(loc(3, 14).to_string(), "test.clsp(3):14");
    let mut l = loc(3, 14);
    l.until = Some(Until { line: 4, col: 2 });
    assert_eq!(l.to_string(), "test.clsp(3):14-test.clsp(4):2");
    let s = Srcloc::start("a.clvm");
    assert_eq!(s.to_string(), "a.clvm(1):1");
    assert_eq!(s.copy().to_string(), "a.clvm(1):1");
}

#[test]
fn expressions_as_text() {
    assert_eq!(nil().to_string(), "()");
    assert_eq!(integer(loc(1, 1), 17).to_string(), "17");
    assert_eq!(SExp::Integer(loc(1, 1), vec![0xff]).to_string(), "-1");
    assert_eq!(SExp::Integer(loc(1, 1), vec![0x01, 0x00]).to_string(), "256");
    assert_eq!(SExp::Integer(loc(1, 1), vec![]).to_string(), "0");
    assert_eq!(SExp::Atom(loc(1, 1), b"hello".to_vec()).to_string(), "hello");
    assert_eq!(SExp::QuotedString(loc(1, 1), b'"', b"hi there".to_vec()).to_string(), "\"hi there\"");
    let l = list(&[integer(loc(1, 1), 1), integer(loc(1, 1), 2), integer(loc(1, 1), 3)]);
    assert_eq!(l.to_string(), "(1 2 3)");
    let nested = list(&[l.clone(), nil(), l.clone()]);
    assert_eq!(nested.to_string(), "((1 2 3) () (1 2 3))");
    let improper = cons(integer(loc(1, 1), 1), integer(loc(1, 1), 2));
    assert_eq!(improper.to_string(), "(1 . 2)");
    let longer = cons(integer(loc(1, 1), 1), improper);
    assert_eq!(longer.to_string(), "(1 1 . 2)");
}

#[test]
fn numbers_of_expressions() {
    assert_eq!(integer(loc(1, 1), 5).get_number(), Some(vec![5]));
    assert_eq!(nil().get_number(), Some(vec![]));
    assert_eq!(SExp::Atom(loc(1, 1), vec![1, 2]).get_number(), Some(vec![1, 2]));
    assert_eq!(SExp::QuotedString(loc(1, 1), b'"', vec![9]).get_number(), Some(vec![9]));
    assert_eq!(cons(nil(), nil()).get_number(), None);
    assert_eq!(integer(loc(7, 9), 5).loc().to_string(), "test.clsp(7):9");
}

#[test]
fn tree_hashes() {
    assert_eq!(
        bytes_to_hex(&sha256tree(&nil())),
        "4bf5122f344554c53bde2ebb8cd2b7e3d1600ad631c385a5d7cce23c7785459a"
    );
    assert_eq!(
        bytes_to_hex(&sha256tree(&integer(loc(1, 1), 1))),
        "9dcf97a184f32623d11a73124ceb99a5709b083721e878a16d78f596718ba7b2"
    );
    let mut a = Allocator::new();
    let one = a.new_atom(&[1]).unwrap();
    let two = a.new_atom(&[2]).unwrap();
    let p = a.new_pair(one, two).unwrap();
    let by_node = sha256tree_of_node(&a, p);
    let by_expression = sha256tree(&cons(integer(loc(1, 1), 1), integer(loc(1, 1), 2)));
    assert_eq!(by_node, by_expression);
    assert_eq!(by_node.len(), 32);
    assert_ne!(by_node, sha256tree_of_node(&a, one));
}

#[test]
fn rows_are_joined_by_commas() {
    assert_eq!(format_arg_inputs(&[]), "");
    assert_eq!(format_arg_inputs(&[PriorResult { reference: 4 }]), "4");
    let three = [
        PriorResult { reference: 1 },
        PriorResult { reference: 20 },
        PriorResult { reference: 3 },
    ];
    assert_eq!(format_arg_inputs(&three), "1, 20, 3");
}

#[test]
fn arguments_that_were_shown_before_are_found() {
    let mut associations = Associations::new();
    associations.insert(vec![3], PriorResult { reference: 0 });
    associations.insert(vec![0, 200], PriorResult { reference: 1 });
    associations.insert(vec![3], PriorResult { reference: 2 });
    assert_eq!(associations.get(&[3]).unwrap().reference, 2);
    assert_eq!(associations.get(&[0, 3]).unwrap().reference, 2);
    assert_eq!(associations.get(&[0, 200]).unwrap().reference, 1);
    assert!(associations.get(&[200]).is_none());
    let args = list(&[
        integer(loc(1, 1), 3),
        integer(loc(1, 1), 4),
        Rc::new(SExp::Atom(loc(1, 1), vec![0, 200])),
        list(&[integer(loc(1, 1), 3)]),
        integer(loc(1, 1), 3),
    ]);
    let found = get_arg_associations(&associations, args);
    let rows: Vec<usize> = found.iter().map(|p| p.reference).collect();
    assert_eq!(rows, vec![2, 1, 2]);
    let not_a_list = integer(loc(1, 1), 3);
    assert_eq!(get_arg_associations(&associations, not_a_list).len(), 0);
}

#[test]
fn text_of_the_source_at_a_place() {
    let e = env();
    assert_eq!(e.extract_text(&loc(1, 1)), Some("(".to_string()));
    assert_eq!(e.extract_text(&loc(1, 2)), Some("+".to_string()));
    assert_eq!(e.extract_text(&loc(1, 7)), Some(")".to_string()));
    assert_eq!(e.extract_text(&loc(1, 8)), None);
    assert_eq!(e.extract_text(&loc(0, 1)), None);
    assert_eq!(e.extract_text(&loc(1, 0)), None);
    assert_eq!(e.extract_text(&loc(3, 1)), None);
    let mut l = loc(2, 4);
    l.until = Some(Until { line: 2, col: 10 });
    assert_eq!(e.extract_text(&l), Some("sha256".to_string()));
    l.until = Some(Until { line: 2, col: 100 });
    assert_eq!(e.extract_text(&l), Some("sha256 3 7)".to_string()));
    l.until = Some(Until { line: 2, col: 4 });
    assert_eq!(e.extract_text(&l), Some("".to_string()));
    l.until = Some(Until { line: 2, col: 3 });
    assert_eq!(e.extract_text(&l), None);
    l.until = Some(Until { line: 2, col: 0 });
    assert_eq!(e.extract_text(&l), None);
    let umlaut = CldbRunEnv::new(None, vec!["a\u{e4}b".to_string()], CldbNoOverride::new());
    assert_eq!(umlaut.extract_text(&loc(1, 2)), None);
    assert_eq!(umlaut.extract_text(&loc(1, 3)), None);
    assert_eq!(umlaut.extract_text(&loc(1, 4)), Some("b".to_string()));
    let mut wide = loc(1, 2);
    wide.until = Some(Until { line: 1, col: 4 });
    assert_eq!(umlaut.extract_text(&wide), Some("\u{e4}".to_string()));
}

#[test]
fn the_apply_operator_is_the_number_two() {
    let e = env();
    assert!(e.whether_is_apply(&SExp::Integer(loc(1, 1), vec![2])));
    assert!(e.whether_is_apply(&SExp::Integer(loc(1, 1), vec![0, 2])));
    assert!(!e.whether_is_apply(&SExp::Integer(loc(1, 1), vec![3])));
    assert!(!e.whether_is_apply(&SExp::Atom(loc(1, 1), vec![2])));
    assert!(!e.whether_is_apply(&SExp::Nil(loc(1, 1))));
}

#[test]
fn what_an_environment_adds() {
    let e = env();
    let mut shown = TextMap::new();
    let apply = SExp::Integer(loc(1, 1), vec![2]);
    let context = cons(integer(loc(1, 1), 5), integer(loc(1, 1), 6));
    e.add_context(&apply, &context, Some(nil()), &mut shown);
    assert_eq!(shown.get("Env"), Some("5".to_string()));
    assert_eq!(shown.get("Env-Args"), Some("6".to_string()));
    assert_eq!(shown.get("Arguments"), None);
    let mut shown = TextMap::new();
    e.add_context(&apply, &integer(loc(1, 1), 9), None, &mut shown);
    assert_eq!(shown.get("Function-Context"), Some("9".to_string()));
    let mut shown = TextMap::new();
    let plus = SExp::Integer(loc(1, 2), vec![16]);
    e.add_context(&plus, &context, Some(list(&[integer(loc(1, 1), 1)])), &mut shown);
    assert_eq!(shown.get("Arguments"), Some("(1)".to_string()));
    assert_eq!(shown.get("Env"), None);
    e.add_context(&plus, &context, None, &mut shown);
    assert_eq!(shown.len(), 1);
    e.add_function(&plus, &mut shown);
    assert_eq!(shown.get("Function"), Some("+".to_string()));
    let mut shown = TextMap::new();
    e.add_function(&apply, &mut shown);
    assert_eq!(shown.len(), 0);
    let elsewhere = SExp::Integer(Srcloc::start("other.clsp"), vec![16]);
    e.add_function(&elsewhere, &mut shown);
    assert_eq!(shown.len(), 0);
    assert!(e.get_override(&RunStep::Done(loc(1, 1), nil())).is_none());
}

#[test]
fn a_run_is_recorded_step_by_step() {
    let start = RunStep::Step(nil(), nil(), parent());
    let mut run = CldbRun::new(env(), start);
    assert!(!run.is_ended());
    assert!(run.final_result().is_none());
    assert!(run.get_override().is_none());
    assert!(matches!(run.current_step(), RunStep::Step(_, _, _)));

    let quiet = run.step(Ok(RunStep::Step(nil(), nil(), parent())));
    assert!(quiet.is_none());

    let plus = integer(loc(1, 2), 16);
    let args = list(&[integer(loc(1, 4), 1), integer(loc(1, 6), 2)]);
    let op = RunStep::Op(plus.clone(), nil(), args.clone(), None, parent());
    assert!(run.step(Ok(op)).is_none());
    assert!(matches!(run.current_step(), RunStep::Op(_, _, _, _, _)));

    let evaluated = RunStep::Op(plus.clone(), nil(), args.clone(), Some(vec![]), parent());
    assert!(run.step(Ok(evaluated)).is_none());

    let shown = run.step(Ok(RunStep::OpResult(loc(1, 1), integer(loc(1, 1), 3), parent()))).unwrap();
    assert_eq!(shown.get("Operator-Location"), Some("test.clsp(1):4".to_string()));
    assert_eq!(shown.get("Operator"), Some("16".to_string()));
    assert_eq!(shown.get("Arguments"), Some("(1 2)".to_string()));
    assert_eq!(shown.get("Function"), Some("+".to_string()));
    assert_eq!(shown.get("Result-Location"), Some("test.clsp(1):1".to_string()));
    assert_eq!(shown.get("Value"), Some("3".to_string()));
    assert_eq!(shown.get("Row"), Some("0".to_string()));
    assert_eq!(shown.get("Argument-Refs"), None);

    let unasked = run.step(Ok(RunStep::OpResult(loc(1, 1), integer(loc(1, 1), 3), parent())));
    assert!(unasked.is_none());

    let hash = integer(loc(2, 4), 11);
    let hashed = list(&[integer(loc(2, 11), 3), integer(loc(2, 13), 7)]);
    assert!(run.step(Ok(RunStep::Op(hash, nil(), hashed, None, parent()))).is_none());
    let shown = run.step(Ok(RunStep::OpResult(loc(2, 3), integer(loc(2, 3), 7), parent()))).unwrap();
    assert_eq!(shown.get("Argument-Refs"), Some("0".to_string()));
    assert_eq!(shown.get("Row"), Some("1".to_string()));
    assert_eq!(shown.get("Operator"), Some("11".to_string()));
    assert_eq!(shown.get("Function"), Some("s".to_string()));

    let hash = integer(loc(2, 4), 11);
    let hashed = list(&[integer(loc(2, 11), 3), integer(loc(2, 13), 7)]);
    assert!(run.step(Ok(RunStep::Op(hash, nil(), hashed, None, parent()))).is_none());
    let shown = run.step(Ok(RunStep::OpResult(loc(2, 3), cons(nil(), nil()), parent()))).unwrap();
    assert_eq!(shown.get("Argument-Refs"), Some("0, 1".to_string()));
    assert_eq!(shown.get("Value"), Some("(())".to_string()));
    assert_eq!(shown.get("Row"), Some("2".to_string()));

    assert!(!run.is_ended());
    let shown = run.step(Ok(RunStep::Done(loc(1, 1), integer(loc(1, 1), 3)))).unwrap();
    assert_eq!(shown.get("Final-Location"), Some("test.clsp(1):1".to_string()));
    assert_eq!(shown.get("Final"), Some("3".to_string()));
    assert_eq!(shown.get("Row"), None);
    assert!(run.is_ended());
    assert_eq!(run.final_result().unwrap().to_string(), "3");
    assert!(matches!(run.current_step(), RunStep::Done(_, _)));
}

#[test]
fn failures_end_a_run() {
    let start = RunStep::Step(nil(), nil(), parent());
    let mut run = CldbRun::new(env(), start);
    let shown = run.step(Err(RunFailure::RunErr(loc(2, 1), "path into atom".to_string())));
    let shown = shown.unwrap();
    assert_eq!(shown.get("Failure-Location"), Some("test.clsp(2):1".to_string()));
    assert_eq!(shown.get("Failure"), Some("path into atom".to_string()));
    assert!(run.is_ended());
    assert!(run.final_result().is_none());
    assert!(matches!(run.current_step(), RunStep::Step(_, _, _)));

    let mut run = CldbRun::new(env(), RunStep::Step(nil(), nil(), parent()));
    let raised = list(&[integer(loc(1, 1), 1), integer(loc(1, 1), 2)]);
    let shown = run.step(Err(RunFailure::RunExn(loc(1, 3), raised))).unwrap();
    assert_eq!(shown.get("Throw-Location"), Some("test.clsp(1):3".to_string()));
    assert_eq!(shown.get("Throw"), Some("(1 2)".to_string()));
    assert!(run.is_ended());
}

struct Fixed(u8);

impl CldbSingleBespokeOverride for Fixed {
    fn get_override(&self, env: Rc<SExp>) -> Result<Rc<SExp>, RunFailure> {
        if self.0 == 0 {
            Err(RunFailure::RunErr(env.loc(), "refused".to_string()))
        } else {
            Ok(Rc::new(SExp::Integer(env.loc(), vec![self.0])))
        }
    }
}

#[test]
fn overrides_take_the_place_of_calls() {
    let code = list(&[integer(loc(1, 1), 16), integer(loc(1, 1), 2), integer(loc(1, 1), 5)]);
    let hash = bytes_to_hex(&sha256tree(&code));
    let mut symbols = TextMap::new();
    symbols.insert(hash, "add".to_string());
    symbols.insert("00".to_string(), "other".to_string());
    let overrides = vec![
        NamedOverride { name: "sub".to_string(), action: Fixed(1) },
        NamedOverride { name: "add".to_string(), action: Fixed(42) },
    ];
    let bespoke = CldbOverrideBespokeCode::new(symbols, overrides);
    let apply = integer(loc(3, 3), 2);
    let arguments = cons(code.clone(), integer(loc(1, 1), 1));
    let call = RunStep::Op(apply.clone(), nil(), arguments.clone(), None, parent());
    match bespoke.replace_step(&call) {
        Some(Ok(RunStep::OpResult(l, x, _))) => {
            assert_eq!(l.to_string(), "test.clsp(3):3");
            assert_eq!(x.to_string(), "42");
        }
        _ => panic!(),
    }
    let other_code = cons(integer(loc(1, 1), 9), arguments.clone());
    let unknown = RunStep::Op(apply.clone(), nil(), other_code, None, parent());
    assert!(bespoke.replace_step(&unknown).is_none());
    let evaluated = RunStep::Op(apply.clone(), nil(), arguments.clone(), Some(vec![]), parent());
    assert!(bespoke.replace_step(&evaluated).is_none());
    let not_apply = RunStep::Op(integer(loc(1, 1), 16), nil(), arguments.clone(), None, parent());
    assert!(bespoke.replace_step(&not_apply).is_none());
    let no_arguments = RunStep::Op(apply.clone(), nil(), nil(), None, parent());
    assert!(bespoke.replace_step(&no_arguments).is_none());
    assert!(bespoke.replace_step(&RunStep::Done(loc(1, 1), nil())).is_none());

    let mut symbols = TextMap::new();
    symbols.insert(bytes_to_hex(&sha256tree(&code)), "add".to_string());
    let refusing = CldbOverrideBespokeCode::new(
        symbols,
        vec![NamedOverride { name: "add".to_string(), action: Fixed(0) }],
    );
    match refusing.replace_step(&call) {
        Some(Err(RunFailure::RunErr(_, text))) => assert_eq!(text, "refused"),
        _ => panic!(),
    }
    let mut symbols = TextMap::new();
    symbols.insert(bytes_to_hex(&sha256tree(&code)), "add".to_string());
    let unnamed: CldbOverrideBespokeCode<Fixed> = CldbOverrideBespokeCode::new(symbols, vec![]);
    assert!(unnamed.replace_step(&call).is_none());

    let env = CldbRunEnv::new(None, vec![], bespoke);
    let mut run = CldbRun::new(env, call);
    let replaced = run.get_override().unwrap();
    let shown = run.step(replaced);
    assert!(shown.is_none());
    assert!(matches!(run.current_step(), RunStep::OpResult(_, _, _)));
}

#[test]
fn no_override_replaces_nothing() {
    let call = RunStep::Op(integer(loc(1, 1), 2), nil(), list(&[nil()]), None, parent());
    assert!(CldbNoOverride::new().replace_step(&call).is_none());
    assert!(CldbNoOverride::new_symbols(TextMap::new()).replace_step(&call).is_none());
    assert!(CldbNoOverride::default().replace_step(&call).is_none());
}

#[test]
fn hex_becomes_an_expression() {
    let mut a = Allocator::new();
    let symbols = TextMap::new();
    let e = hex_to_modern_sexp(&mut a, &symbols, loc(1, 1), "ff01ff8200c880");
    let e = e.unwrap_or_else(|_| panic!());
    assert_eq!(e.to_string(), "(1 200)");
    match &*e {
        SExp::Cons(l, first, _) => {
            assert_eq!(l.to_string(), "test.clsp(1):1");
            assert!(matches!(&**first, SExp::Integer(_, _)));
        }
        _ => panic!(),
    }
    let e = hex_to_modern_sexp(&mut a, &symbols, loc(1, 1), "ff820001ff8568656c6c6f80");
    let e = e.unwrap_or_else(|_| panic!());
    match &*e {
        SExp::Cons(_, first, rest) => {
            assert!(matches!(&**first, SExp::Atom(_, _)));
            match &**rest {
                SExp::Cons(_, second, end) => {
                    assert!(matches!(&**second, SExp::Integer(_, _)));
                    assert!(matches!(&**end, SExp::Nil(_)));
                }
                _ => panic!(),
            }
        }
        _ => panic!(),
    }
    for bad in ["f", "zz", "ff01", ""] {
        match hex_to_modern_sexp(&mut a, &symbols, loc(4, 2), bad) {
            Err(RunFailure::RunErr(l, text)) => {
                assert_eq!(text, "Bad conversion from hex");
                assert_eq!(l.to_string(), "test.clsp(4):2");
            }
            _ => panic!("{}", bad),
        }
    }
}

#[test]
fn symbols_place_the_functions_of_a_program() {
    let mut a = Allocator::new();
    let inner = list(&[integer(loc(1, 1), 5), integer(loc(1, 1), 6)]);
    let mut symbols = TextMap::new();
    symbols.insert(bytes_to_hex(&sha256tree(&inner)), "fun.clsp".to_string());
    let e = hex_to_modern_sexp(&mut a, &symbols, loc(9, 9), "ff01ffff05ff068080");
    let e = e.unwrap_or_else(|_| panic!());
    assert_eq!(e.to_string(), "(1 (5 6))");
    assert_eq!(e.loc().to_string(), "test.clsp(9):9");
    match &*e {
        SExp::Cons(_, _, rest) => match &**rest {
            SExp::Cons(l, function, _) => {
                assert_eq!(l.to_string(), "test.clsp(9):9");
                assert_eq!(function.loc().to_string(), "fun.clsp(1):1");
                match &**function {
                    SExp::Cons(_, five, _) => {
                        assert_eq!(five.loc().to_string(), "fun.clsp(1):1")
                    }
                    _ => panic!(),
                }
            }
            _ => panic!(),
        },
        _ => panic!(),
    }
}

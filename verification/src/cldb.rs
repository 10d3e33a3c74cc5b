//! Running a program step by step, with a record of what each step shows.
//!
//! The run itself is made elsewhere: this module keeps the state of the
//! record, takes each new step of the run as it comes and says what is to
//! be shown for it.

use vstd::prelude::*;
use vstd::string::StringExecFns;
use vstd::string::StringSliceAdditionalSpecFns;
use vstd::utf8::{decode_utf8, encode_utf8, is_char_boundary};
use std::rc::Rc;
use clvmr::allocator::Allocator;
use clvmr::allocator::NodePtr;
use crate::tree::Tree;
use crate::arena::{valid, tree_of, extends, sexp as node_sexp, atom_bytes, SExp as Node};
use crate::number::{number_le, signed_value, is_shortest_signed, lemma_value_of_byte};
use crate::text::{TextMap, decimal, hex, unhex, usize_to_string, bytes_to_hex, hex_to_bytes};
use crate::srcloc::Srcloc;
use crate::sexp::{SExp, sha256tree, sha256tree_from_atom, sha256tree_from_pair, tree_hash};
use crate::runtypes::{RunStep, RunFailure};
use crate::serialize::{node_from_bytes, parsed};

verus! {

/// What a map from text to text holds.
pub type Shown = Map<Seq<char>, Seq<char>>;

/// The row of the record in which a value was shown.
#[derive(Clone, Copy, Debug)]
pub struct PriorResult {
    pub reference: usize,
}

/// The rows of the given results in decimal, with `, ` between them.
pub open spec fn format_arg_inputs_spec(args: Seq<PriorResult>) -> Seq<char>
    decreases args.len(),
{
    if args.len() == 0 {
        Seq::empty()
    } else if args.len() == 1 {
        decimal(args[0].reference as nat)
    } else {
        format_arg_inputs_spec(args.drop_last()) + ", "@ + decimal(args.last().reference as nat)
    }
}

/// The rows of the given results as text.
pub fn format_arg_inputs(args: &[PriorResult]) -> (s: String)
    ensures
        s@ == format_arg_inputs_spec(args@),
{
    let mut s = String::new();
    let mut i: usize = 0;
    assert(args@.take(0) =~= Seq::<PriorResult>::empty());
    while i < args.len()
        invariant
            i <= args.len(),
            s@ == format_arg_inputs_spec(args@.take(i as int)),
        decreases args.len() - i,
    {
        proof {
            let upto = args@.take(i as int + 1);
            assert(upto.drop_last() =~= args@.take(i as int));
            assert(upto.last() == args@[i as int]);
            assert(upto[0] == args@[0]);
        }
        if i > 0 {
            s.append(", ");
        } else {
            assert(s@ + decimal(args@[0].reference as nat) =~= decimal(args@[0].reference as nat));
        }
        s.append(usize_to_string(args[i].reference).as_str());
        i += 1;
    }
    assert(args@.take(i as int) =~= args@);
    s
}

/// A number with the result that was shown for it.
pub struct Association {
    pub number: Vec<u8>,
    pub result: PriorResult,
}

/// For the numbers that a run has shown, the row of each one's last showing.
pub struct Associations {
    entries: Vec<Association>,
}

/// The map that a sequence of associations stands for.
pub closed spec fn associations_map(entries: Seq<Association>) -> Map<int, PriorResult>
    decreases entries.len(),
{
    if entries.len() == 0 {
        Map::empty()
    } else {
        associations_map(entries.drop_last()).insert(
            signed_value(entries.last().number@),
            entries.last().result,
        )
    }
}

impl Associations {
    /// The result of each number.
    pub closed spec fn view(&self) -> Map<int, PriorResult> {
        associations_map(self.entries@)
    }

    pub fn new() -> (a: Associations)
        ensures
            a@ == Map::<int, PriorResult>::empty(),
    {
        Associations { entries: Vec::new() }
    }

    /// Sets the result of the number that `number` spells in two's
    /// complement.
    pub fn insert(&mut self, number: Vec<u8>, result: PriorResult)
        ensures
            final(self)@ == old(self)@.insert(signed_value(number@), result),
    {
        proof {
            assert(self.entries@.push(Association { number, result }).drop_last()
                =~= self.entries@);
        }
        self.entries.push(Association { number, result });
    }

    /// The result of the number that `number` spells in two's complement.
    pub fn get(&self, number: &[u8]) -> (res: Option<PriorResult>)
        ensures
            match res {
                Some(r) => self@.contains_key(signed_value(number@)) && self@[signed_value(
                    number@,
                )] == r,
                None => !self@.contains_key(signed_value(number@)),
            },
    {
        let ghost wanted = signed_value(number@);
        let mut i: usize = self.entries.len();
        proof {
            assert(self.entries@.take(i as int) =~= self.entries@);
        }
        while i > 0
            invariant
                i <= self.entries.len(),
                wanted == signed_value(number@),
                self@.contains_key(wanted) == associations_map(
                    self.entries@.take(i as int),
                ).contains_key(wanted),
                self@.contains_key(wanted) ==> self@[wanted] == associations_map(
                    self.entries@.take(i as int),
                )[wanted],
            decreases i,
        {
            i -= 1;
            proof {
                let upto = self.entries@.take(i as int + 1);
                assert(upto.drop_last() =~= self.entries@.take(i as int));
                assert(upto.last() == self.entries@[i as int]);
            }
            let held = self.entries[i].number.as_slice();
            if number_le(held, number) && number_le(number, held) {
                return Some(self.entries[i].result);
            }
        }
        None
    }
}

/// The results of those elements of the list `args` that are numbers with
/// a result, in the order of the list.
pub open spec fn arg_associations_spec(associations: Map<int, PriorResult>, args: SExp) -> Seq<
    PriorResult,
>
    decreases args,
{
    match args {
        SExp::Cons(_, arg, rest) => {
            let found = match arg.number() {
                Some(n) => if associations.contains_key(n) {
                    seq![associations[n]]
                } else {
                    Seq::empty()
                },
                None => Seq::empty(),
            };
            found + arg_associations_spec(associations, *rest)
        },
        _ => Seq::empty(),
    }
}

/// The results of those elements of the list `args` that are numbers with
/// a result.
pub open spec fn arg_associations_of(associations: Map<int, PriorResult>, args: Rc<SExp>) -> Seq<
    PriorResult,
> {
    arg_associations_spec(associations, *args)
}

/// The results of the numbers among the elements of the list `args`.
pub fn get_arg_associations(associations: &Associations, args: Rc<SExp>) -> (result: Vec<
    PriorResult,
>)
    ensures
        result@ == arg_associations_spec(associations@, *args),
{
    let mut arg_exp: Rc<SExp> = args;
    let mut result: Vec<PriorResult> = Vec::new();
    let ghost whole = arg_associations_of(associations@, args);
    assert(result@ + whole =~= whole);
    loop
        invariant
            whole == result@ + arg_associations_of(associations@, arg_exp),
        ensures
            result@ == whole,
        decreases *arg_exp,
    {
        let next = match &*arg_exp {
            SExp::Cons(_, arg, rest) => {
                let ghost before = result@;
                let ghost tail = arg_associations_of(associations@, *rest);
                match arg.get_number() {
                    Some(n) => match associations.get(n.as_slice()) {
                        Some(found) => {
                            result.push(found);
                            assert(before + (seq![found] + tail) =~= before.push(found) + tail);
                        },
                        None => {
                            assert(before + (Seq::<PriorResult>::empty() + tail) =~= before + tail);
                        },
                    },
                    None => {
                        assert(before + (Seq::<PriorResult>::empty() + tail) =~= before + tail);
                    },
                }
                rest.clone()
            },
            _ => {
                assert(result@ + Seq::<PriorResult>::empty() =~= result@);
                break ;
            },
        };
        arg_exp = next;
    }
    result
}

/// A way to put a step of one's own in the place of a step of the run.
pub trait CldbRunnable {
    /// The step to take in place of `step`, or `None` to let the run go on.
    fn replace_step(&self, step: &RunStep) -> Option<Result<RunStep, RunFailure>>;
}

/// What a run is shown in: it adds what it knows of an operator to the
/// record, and may put steps of its own in the place of steps of the run.
pub trait CldbEnvironment {
    /// The record with what is known of the context of the operator `s`.
    spec fn context_added(
        &self,
        s: SExp,
        c: SExp,
        args: Option<Rc<SExp>>,
        before: Shown,
    ) -> Shown;

    /// The record with what is known of the function of the operator `s`.
    spec fn function_added(&self, s: SExp, before: Shown) -> Shown;

    fn add_context(
        &self,
        s: &SExp,
        c: &SExp,
        args: Option<Rc<SExp>>,
        context_result: &mut TextMap,
    )
        ensures
            final(context_result)@ == self.context_added(*s, *c, args, old(context_result)@),
    ;

    fn add_function(&self, s: &SExp, context_result: &mut TextMap)
        ensures
            final(context_result)@ == self.function_added(*s, old(context_result)@),
    ;

    fn get_override(&self, s: &RunStep) -> Option<Result<RunStep, RunFailure>>;
}

/// What the record of a run holds.
pub struct CldbRunState {
    pub step: RunStep,
    pub ended: bool,
    pub final_result: Option<Rc<SExp>>,
    pub to_print: Shown,
    pub in_expr: bool,
    pub row: nat,
    pub outputs_to_step: Map<int, PriorResult>,
}

/// The record of a run: it takes the steps of the run one by one and gives
/// out, for the steps that show something, a map of what they show.
pub struct CldbRun<E: CldbEnvironment> {
    env: E,
    step: RunStep,
    ended: bool,
    final_result: Option<Rc<SExp>>,
    to_print: TextMap,
    in_expr: bool,
    row: usize,
    outputs_to_step: Associations,
}

/// The number of the operator that hashes its arguments.
pub open spec fn is_hash_operator(s: SExp) -> bool {
    s.number() == Some(11int)
}

/// What the result of an operator adds to the record.
pub open spec fn shown_result(before: Shown, l: Srcloc, x: SExp, row: nat) -> Shown {
    before.insert("Result-Location"@, l.render()).insert("Value"@, x.render()).insert(
        "Row"@,
        decimal(row),
    )
}

/// What an operator adds to the record.
pub open spec fn shown_operator<E: CldbEnvironment>(
    env: E,
    before: Shown,
    outputs_to_step: Map<int, PriorResult>,
    sexp: SExp,
    c: SExp,
    a: Rc<SExp>,
) -> Shown {
    let located = before.insert("Operator-Location"@, a.loc_spec().render()).insert(
        "Operator"@,
        sexp.render(),
    );
    let with_refs = if is_hash_operator(sexp) {
        located.insert(
            "Argument-Refs"@,
            format_arg_inputs_spec(arg_associations_spec(outputs_to_step, *a)),
        )
    } else {
        located
    };
    env.function_added(sexp, env.context_added(sexp, c, Some(a), with_refs))
}

/// The state after the step `new_step`, and what the step shows.
pub open spec fn step_spec<E: CldbEnvironment>(
    env: E,
    s: CldbRunState,
    new_step: Result<RunStep, RunFailure>,
) -> (CldbRunState, Option<Shown>) {
    let next = match new_step {
        Ok(step) => step,
        Err(_) => s.step,
    };
    let quiet = (CldbRunState { step: next, ..s }, None::<Shown>);
    match new_step {
        Ok(RunStep::OpResult(l, x, _)) => if s.in_expr {
            (
                CldbRunState {
                    step: next,
                    in_expr: false,
                    to_print: Map::empty(),
                    row: s.row + 1,
                    outputs_to_step: match x.number() {
                        Some(n) => s.outputs_to_step.insert(n, PriorResult { reference: s.row as usize }),
                        None => s.outputs_to_step,
                    },
                    ..s
                },
                Some(shown_result(s.to_print, l, *x, s.row)),
            )
        } else {
            quiet
        },
        Ok(RunStep::Done(l, x)) => (
            CldbRunState {
                step: next,
                ended: true,
                final_result: Some(x),
                to_print: Map::empty(),
                row: s.row + 1,
                ..s
            },
            Some(s.to_print.insert("Final-Location"@, l.render()).insert("Final"@, x.render())),
        ),
        Ok(RunStep::Step(_, _, _)) => quiet,
        Ok(RunStep::Op(sexp, c, a, None, _)) => (
            CldbRunState {
                step: next,
                in_expr: true,
                to_print: shown_operator(env, s.to_print, s.outputs_to_step, *sexp, *c, a),
                ..s
            },
            None,
        ),
        Ok(RunStep::Op(_, _, _, Some(_), _)) => quiet,
        Err(RunFailure::RunExn(l, x)) => (
            CldbRunState { ended: true, to_print: Map::empty(), row: s.row + 1, ..s },
            Some(s.to_print.insert("Throw-Location"@, l.render()).insert("Throw"@, x.render())),
        ),
        Err(RunFailure::RunErr(l, text)) => (
            CldbRunState { ended: true, to_print: Map::empty(), row: s.row + 1, ..s },
            Some(s.to_print.insert("Failure-Location"@, l.render()).insert("Failure"@, text@)),
        ),
    }
}

impl<E: CldbEnvironment> CldbRun<E> {
    /// The state of the record.
    pub closed spec fn view(&self) -> CldbRunState {
        CldbRunState {
            step: self.step,
            ended: self.ended,
            final_result: self.final_result,
            to_print: self.to_print@,
            in_expr: self.in_expr,
            row: self.row as nat,
            outputs_to_step: self.outputs_to_step@,
        }
    }

    /// What the run is shown in.
    pub closed spec fn env(&self) -> E {
        self.env
    }

    /// The record of a run that starts at `step`.
    pub fn new(env: E, step: RunStep) -> (run: CldbRun<E>)
        ensures
            run.env() == env,
            run@ == (CldbRunState {
                step,
                ended: false,
                final_result: None,
                to_print: Map::empty(),
                in_expr: false,
                row: 0,
                outputs_to_step: Map::empty(),
            }),
    {
        CldbRun {
            env,
            step,
            ended: false,
            final_result: None,
            to_print: TextMap::new(),
            in_expr: false,
            row: 0,
            outputs_to_step: Associations::new(),
        }
    }

    /// Whether the run has ended.
    pub fn is_ended(&self) -> (ended: bool)
        ensures
            ended == self@.ended,
    {
        self.ended
    }

    /// What the run ended with, once it has ended with a value.
    pub fn final_result(&self) -> (res: Option<Rc<SExp>>)
        ensures
            res == self@.final_result,
    {
        match &self.final_result {
            Some(x) => Some(x.clone()),
            None => None,
        }
    }

    /// The number of maps that the record has given out.
    pub fn row(&self) -> (row: usize)
        ensures
            row == self@.row,
    {
        self.row
    }

    /// The step at which the run stands.
    pub fn current_step(&self) -> (step: &RunStep)
        ensures
            *step == self@.step,
    {
        &self.step
    }

    /// The step that the environment puts in the place of the next step of
    /// the run, if it puts one: what the environment's own `get_override`
    /// gives for the step at which the run stands.
    pub fn get_override(&self) -> (res: Option<Result<RunStep, RunFailure>>)
        ensures
            call_ensures(E::get_override, (&self.env(), &self@.step), res),
    {
        self.env.get_override(&self.step)
    }

    /// Takes the next step of the run and says what it shows, if anything.
    pub fn step(&mut self, new_step: Result<RunStep, RunFailure>) -> (shown: Option<TextMap>)
        requires
            old(self)@.row < usize::MAX,
        ensures
            final(self).env() == old(self).env(),
            final(self)@ == step_spec(old(self).env(), old(self)@, new_step).0,
            match shown {
                Some(m) => step_spec(old(self).env(), old(self)@, new_step).1 == Some(m@),
                None => step_spec(old(self).env(), old(self)@, new_step).1 is None,
            },
    {
        let mut produce_result = false;
        let mut result = TextMap::new();
        match &new_step {
            Ok(RunStep::OpResult(l, x, _p)) => {
                if self.in_expr {
                    self.to_print.insert(String::from_str("Result-Location"), l.to_string());
                    self.to_print.insert(String::from_str("Value"), x.to_string());
                    self.to_print.insert(String::from_str("Row"), usize_to_string(self.row));
                    match x.get_number() {
                        Some(n) => {
                            self.outputs_to_step.insert(n, PriorResult { reference: self.row });
                        },
                        None => {},
                    }
                    self.in_expr = false;
                    result = self.to_print.take();
                    produce_result = true;
                }
            },
            Ok(RunStep::Done(l, x)) => {
                self.to_print.insert(String::from_str("Final-Location"), l.to_string());
                self.to_print.insert(String::from_str("Final"), x.to_string());
                self.ended = true;
                self.final_result = Some(x.clone());
                result = self.to_print.take();
                produce_result = true;
            },
            Ok(RunStep::Step(_sexp, _c, _p)) => {},
            Ok(RunStep::Op(sexp, c, a, None, _p)) => {
                self.to_print.insert(String::from_str("Operator-Location"), a.loc().to_string());
                self.to_print.insert(String::from_str("Operator"), sexp.to_string());
                match sexp.get_number() {
                    Some(v) => {
                        let eleven: Vec<u8> = vec![11u8];
                        proof {
                            lemma_value_of_byte(11u8);
                            assert(eleven@ =~= seq![11u8]);
                        }
                        if number_le(v.as_slice(), eleven.as_slice()) && number_le(
                            eleven.as_slice(),
                            v.as_slice(),
                        ) {
                            let arg_associations = get_arg_associations(
                                &self.outputs_to_step,
                                a.clone(),
                            );
                            let args = format_arg_inputs(arg_associations.as_slice());
                            self.to_print.insert(String::from_str("Argument-Refs"), args);
                        }
                    },
                    None => {},
                }
                self.env.add_context(sexp, c, Some(a.clone()), &mut self.to_print);
                self.env.add_function(sexp, &mut self.to_print);
                self.in_expr = true;
            },
            Ok(RunStep::Op(_sexp, _c, _a, Some(_v), _p)) => {},
            Err(RunFailure::RunExn(l, s)) => {
                self.to_print.insert(String::from_str("Throw-Location"), l.to_string());
                self.to_print.insert(String::from_str("Throw"), s.to_string());
                result = self.to_print.take();
                self.ended = true;
                produce_result = true;
            },
            Err(RunFailure::RunErr(l, s)) => {
                self.to_print.insert(String::from_str("Failure-Location"), l.to_string());
                self.to_print.insert(String::from_str("Failure"), s.clone());
                result = self.to_print.take();
                self.ended = true;
                produce_result = true;
            },
        }
        match new_step {
            Ok(step) => {
                self.step = step;
            },
            Err(_) => {},
        }
        if produce_result {
            self.row += 1;
            Some(result)
        } else {
            None
        }
    }
}

/// An environment of overrides that replaces no step.
pub struct CldbNoOverride {}

impl CldbRunnable for CldbNoOverride {
    fn replace_step(&self, _step: &RunStep) -> (res: Option<Result<RunStep, RunFailure>>)
        ensures
            res is None,
    {
        None
    }
}

impl CldbNoOverride {
    pub fn new() -> (r: CldbNoOverride) {
        CldbNoOverride {  }
    }

    /// The same, for a program with the given symbols.
    pub fn new_symbols(_symbol_table: TextMap) -> (r: CldbNoOverride) {
        CldbNoOverride {  }
    }
}

impl Default for CldbNoOverride {
    fn default() -> (r: CldbNoOverride) {
        CldbNoOverride::new()
    }
}

/// What takes the place of a call of one function: it sees the arguments
/// of the call and gives the value that the call is to have.
pub trait CldbSingleBespokeOverride {
    fn get_override(&self, env: Rc<SExp>) -> Result<Rc<SExp>, RunFailure>;
}

/// The override of the function of one name.
pub struct NamedOverride<O: CldbSingleBespokeOverride> {
    pub name: String,
    pub action: O,
}

/// Overrides of the functions of a program, by their names; the program's
/// symbols give the name of a function by the hash of its code in hex.
pub struct CldbOverrideBespokeCode<O: CldbSingleBespokeOverride> {
    symbol_table: TextMap,
    overrides: Vec<NamedOverride<O>>,
}

/// Whether an override of the name `name` is among `overrides`.
pub open spec fn overridden<O: CldbSingleBespokeOverride>(
    overrides: Seq<NamedOverride<O>>,
    name: Seq<char>,
) -> bool {
    exists|i: int| 0 <= i < overrides.len() && (#[trigger] overrides[i]).name@ == name
}

impl<O: CldbSingleBespokeOverride> CldbOverrideBespokeCode<O> {
    /// The symbols of the program.
    pub closed spec fn symbols(&self) -> Shown {
        self.symbol_table@
    }

    /// The overrides.
    pub closed spec fn overrides(&self) -> Seq<NamedOverride<O>> {
        self.overrides@
    }

    /// Whether the function with the code `f` has an override: its hash in
    /// hex is a symbol, and the name under that symbol has an override.
    pub open spec fn overrides_function(&self, f: SExp) -> bool {
        self.symbols().contains_key(hex(tree_hash(f.tree()))) && overridden(
            self.overrides(),
            self.symbols()[hex(tree_hash(f.tree()))],
        )
    }

    pub fn new(symbol_table: TextMap, overrides: Vec<NamedOverride<O>>) -> (r:
        CldbOverrideBespokeCode<O>)
        ensures
            r.symbols() == symbol_table@,
            r.overrides() == overrides@,
    {
        CldbOverrideBespokeCode { symbol_table, overrides }
    }

    /// The index of the first override of the name `name`.
    fn find_override(&self, name: &String) -> (res: Option<usize>)
        ensures
            match res {
                Some(i) => i < self.overrides().len() && self.overrides()[i as int].name@
                    == name@,
                None => !overridden(self.overrides(), name@),
            },
    {
        let mut i: usize = 0;
        while i < self.overrides.len()
            invariant
                i <= self.overrides.len(),
                forall|j: int| 0 <= j < i ==> (#[trigger] self.overrides@[j]).name@ != name@,
            decreases self.overrides.len() - i,
        {
            if self.overrides[i].name == *name {
                return Some(i);
            }
            i += 1;
        }
        None
    }

    /// Where the function with the code `f` has an override, what the
    /// override makes of the arguments `args`: the result of the operator
    /// `sexp`, or a failure.
    fn find_function_and_override_if_needed(
        &self,
        sexp: Rc<SExp>,
        _c: Rc<SExp>,
        f: Rc<SExp>,
        args: Rc<SExp>,
        p: Rc<RunStep>,
    ) -> (res: Option<Result<RunStep, RunFailure>>)
        ensures
            res is Some <==> self.overrides_function(*f),
            res matches Some(Ok(step)) ==> step matches RunStep::OpResult(l, _, parent) && l
                == sexp.loc_spec() && parent == p,
    {
        let fun_hash = sha256tree(&f);
        let fun_hash_str = bytes_to_hex(fun_hash.as_slice());
        match self.symbol_table.get(fun_hash_str.as_str()) {
            None => None,
            Some(funname) => match self.find_override(&funname) {
                None => None,
                Some(i) => match self.overrides[i].action.get_override(args) {
                    Ok(new_exp) => Some(Ok(RunStep::OpResult(sexp.loc(), new_exp, p))),
                    Err(e) => Some(Err(e)),
                },
            },
        }
    }
}

/// Whether a step is the apply of a function: an operator 2 whose
/// arguments, none of them evaluated yet, start with the function's code.
/// The code is what is returned.
pub open spec fn applied_function(step: RunStep) -> Option<SExp> {
    match step {
        RunStep::Op(sexp, _, arguments, None, _) => if is_apply_operator(*sexp) {
            match *arguments {
                SExp::Cons(_, first, _) => Some(*first),
                _ => None,
            }
        } else {
            None
        },
        _ => None,
    }
}

/// Whether an expression is the number 2, the operator that applies a
/// function.
pub open spec fn is_apply_operator(s: SExp) -> bool {
    s matches SExp::Integer(_, bytes) && signed_value(bytes@) == 2
}

/// Whether the two's complement bytes spell the number 2.
fn is_two(bytes: &[u8]) -> (r: bool)
    ensures
        r == (signed_value(bytes@) == 2),
{
    let two: Vec<u8> = vec![2u8];
    proof {
        lemma_value_of_byte(2u8);
        assert(two@ =~= seq![2u8]);
    }
    number_le(bytes, two.as_slice()) && number_le(two.as_slice(), bytes)
}

impl<O: CldbSingleBespokeOverride> CldbRunnable for CldbOverrideBespokeCode<O> {
    /// An apply of a function that has an override is replaced by what the
    /// override makes of the arguments; no other step is replaced.
    fn replace_step(&self, step: &RunStep) -> (res: Option<Result<RunStep, RunFailure>>)
        ensures
            res is Some <==> (applied_function(*step) matches Some(f)
                && self.overrides_function(f)),
    {
        match step {
            RunStep::Op(sexp, context, arguments, None, parent) => match &**sexp {
                SExp::Integer(_, i) => {
                    if is_two(i.as_slice()) {
                        match &**arguments {
                            SExp::Cons(_, first, args) => self.find_function_and_override_if_needed(
                                sexp.clone(),
                                context.clone(),
                                first.clone(),
                                args.clone(),
                                parent.clone(),
                            ),
                            _ => None,
                        }
                    } else {
                        None
                    }
                },
                _ => None,
            },
            _ => None,
        }
    }
}

/// What is known of the program that runs: the name of its source file,
/// the lines of the source, and the overrides of its steps.
pub struct CldbRunEnv<R: CldbRunnable> {
    input_file: Option<String>,
    program_lines: Vec<String>,
    overrides: R,
}

/// The stretch of the line `line` that starts at the column `col` and ends
/// before the column `until_col`, or one column on without one; columns
/// count bytes from one. `None` where a column is zero, the start is
/// beyond the line or after the end, or either falls inside a character.
pub open spec fn stretch_of_line(line: Seq<char>, col: usize, until_col: Option<usize>) -> Option<
    Seq<u8>,
> {
    let bytes = encode_utf8(line);
    if col < 1 || until_col == Some(0usize) {
        None
    } else {
        let from = col - 1;
        let wanted = match until_col {
            Some(c) => c - 1,
            None => from + 1,
        };
        let to = if wanted >= bytes.len() {
            bytes.len() as int
        } else {
            wanted
        };
        if from >= bytes.len() || to < from || !is_char_boundary(bytes, from)
            || !is_char_boundary(bytes, to) {
            None
        } else {
            Some(bytes.subrange(from, to))
        }
    }
}

impl<R: CldbRunnable> CldbRunEnv<R> {
    /// The name of the source file.
    pub closed spec fn input_file(&self) -> Option<String> {
        self.input_file
    }

    /// The lines of the source.
    pub closed spec fn lines(&self) -> Seq<String> {
        self.program_lines@
    }

    /// The overrides of the steps of the run.
    pub closed spec fn overrides(&self) -> R {
        self.overrides
    }

    pub fn new(input_file: Option<String>, program_lines: Vec<String>, runnable: R) -> (env:
        CldbRunEnv<R>)
        ensures
            env.input_file() == input_file,
            env.lines() == program_lines@,
            env.overrides() == runnable,
    {
        CldbRunEnv { input_file, program_lines, overrides: runnable }
    }

    /// The text of the source at the place `l`.
    pub open spec fn extract_text_spec(&self, l: Srcloc) -> Option<Seq<u8>> {
        if l.line < 1 || l.line - 1 >= self.lines().len() {
            None
        } else {
            stretch_of_line(
                self.lines()[l.line - 1]@,
                l.col,
                match l.until {
                    Some(u) => Some(u.col),
                    None => None,
                },
            )
        }
    }

    /// The text of the source at the place `l`.
    pub fn extract_text(&self, l: &Srcloc) -> (res: Option<String>)
        ensures
            match res {
                Some(text) => self.extract_text_spec(*l) == Some(encode_utf8(text@)),
                None => self.extract_text_spec(*l) is None,
            },
    {
        if l.line < 1 || l.col < 1 {
            return None;
        }
        let use_line = l.line - 1;
        let use_col = l.col - 1;
        let wanted = match l.until {
            Some(u) => {
                if u.col < 1 {
                    return None;
                }
                u.col - 1
            },
            None => use_col + 1,
        };
        if use_line >= self.program_lines.len() {
            return None;
        }
        let line_text = self.program_lines[use_line].as_str();
        let line_len = line_text.as_bytes().len();
        if use_col >= line_len {
            return None;
        }
        let end_col = if wanted >= line_len {
            line_len
        } else {
            wanted
        };
        if end_col < use_col || !line_text.is_char_boundary(use_col) || !line_text.is_char_boundary(
            end_col,
        ) {
            return None;
        }
        let (head, _) = line_text.split_at(end_col);
        proof {
            let bytes = line_text.spec_bytes();
            vstd::utf8::encode_utf8_valid_utf8(line_text@);
            vstd::utf8::valid_utf8_split(bytes, end_col as int);
            vstd::utf8::encode_utf8_valid_utf8(head@);
            if use_col < end_col {
                vstd::utf8::is_char_boundary_iff_not_is_continuation_byte(bytes, use_col as int);
                vstd::utf8::is_char_boundary_iff_not_is_continuation_byte(
                    head.spec_bytes(),
                    use_col as int,
                );
            } else {
                vstd::utf8::is_char_boundary_start_end_of_seq(head.spec_bytes());
            }
        }
        let (_, stretch) = head.split_at(use_col);
        proof {
            assert(stretch.spec_bytes() =~= line_text.spec_bytes().subrange(
                use_col as int,
                end_col as int,
            ));
        }
        Some(stretch.to_owned())
    }

    /// Whether `s` is the operator that applies a function.
    pub fn whether_is_apply(&self, s: &SExp) -> (r: bool)
        ensures
            r == is_apply_operator(*s),
    {
        match s {
            SExp::Integer(_, i) => is_two(i.as_slice()),
            _ => false,
        }
    }
}

impl<R: CldbRunnable> CldbEnvironment for CldbRunEnv<R> {
    /// For the operator that applies a function, the environment of the
    /// call: its first and its rest where it is a pair, else the whole of
    /// it. For any other operator, its arguments.
    open spec fn context_added(
        &self,
        s: SExp,
        c: SExp,
        args: Option<Rc<SExp>>,
        before: Shown,
    ) -> Shown {
        if is_apply_operator(s) {
            match c {
                SExp::Cons(_, a, b) => before.insert("Env"@, a.render()).insert(
                    "Env-Args"@,
                    b.render(),
                ),
                _ => before.insert("Function-Context"@, c.render()),
            }
        } else {
            match args {
                Some(a) => before.insert("Arguments"@, a.render()),
                None => before,
            }
        }
    }

    /// For an operator other than the one that applies a function, the
    /// text of the source at the operator's place, where the place is in
    /// the source file.
    open spec fn function_added(&self, s: SExp, before: Shown) -> Shown {
        if is_apply_operator(s) {
            before
        } else {
            match (self.extract_text_spec(s.loc_spec()), self.input_file()) {
                (Some(bytes), Some(file)) => if file@ == s.loc_spec().file@ {
                    before.insert("Function"@, decode_utf8(bytes))
                } else {
                    before
                },
                _ => before,
            }
        }
    }

    fn add_context(
        &self,
        s: &SExp,
        c: &SExp,
        args: Option<Rc<SExp>>,
        context_result: &mut TextMap,
    ) {
        if self.whether_is_apply(s) {
            match c {
                SExp::Cons(_, a, b) => {
                    context_result.insert(String::from_str("Env"), a.to_string());
                    context_result.insert(String::from_str("Env-Args"), b.to_string());
                },
                _ => {
                    context_result.insert(String::from_str("Function-Context"), c.to_string());
                },
            }
        } else {
            match args {
                Some(a) => {
                    context_result.insert(String::from_str("Arguments"), a.to_string());
                },
                None => {},
            }
        }
    }

    fn add_function(&self, s: &SExp, context_result: &mut TextMap) {
        if !self.whether_is_apply(s) {
            let l = s.loc();
            match self.extract_text(&l) {
                Some(name) => {
                    match &self.input_file {
                        Some(file) => {
                            if *l.file == *file {
                                proof {
                                    vstd::utf8::encode_utf8_decode_utf8(name@);
                                }
                                context_result.insert(String::from_str("Function"), name);
                            }
                        },
                        None => {},
                    }
                },
                None => {},
            }
        }
    }

    /// What the overrides of the environment put in the place of `s`: what
    /// their `replace_step` gives for it.
    fn get_override(&self, s: &RunStep) -> (res: Option<Result<RunStep, RunFailure>>)
        ensures
            call_ensures(R::replace_step, (&self.overrides(), s), res),
    {
        self.overrides.replace_step(s)
    }
}

/// The hash of the tree of a node.
pub fn sha256tree_of_node(a: &Allocator, n: NodePtr) -> (hash: Vec<u8>)
    requires
        valid(*a, n),
    ensures
        hash@ == tree_hash(tree_of(*a, n)),
        hash@.len() == 32,
    decreases tree_of(*a, n).size(),
{
    match node_sexp(a, n) {
        Node::Atom => {
            let bytes = atom_bytes(a, n);
            sha256tree_from_atom(bytes.as_slice())
        },
        Node::Pair(l, r) => {
            let t1 = sha256tree_of_node(a, l);
            let t2 = sha256tree_of_node(a, r);
            sha256tree_from_pair(&t1, &t2)
        },
    }
}

/// Whether `here` is the place of an expression for the tree `t`: the
/// start of the file that the symbols name for the hash of `t`, or `loc`
/// where they name none.
pub open spec fn placed(symbols: Shown, loc: Srcloc, t: Tree, here: Srcloc) -> bool {
    if symbols.contains_key(hex(tree_hash(t))) {
        &&& here.file@ == symbols[hex(tree_hash(t))]
        &&& here.line == 1
        &&& here.col == 1
        &&& here.until is None
    } else {
        here == loc
    }
}

/// Whether `e` is the expression for the tree `t`: each of its nodes has
/// the place that `placed` gives it, with the place of the node above in
/// the place of `loc`; an empty atom is nil, an atom whose bytes are the
/// shortest two's complement form of a number is that number, and any
/// other atom an atom.
pub open spec fn is_modern_of(symbols: Shown, loc: Srcloc, t: Tree, e: SExp) -> bool
    decreases t,
{
    &&& placed(symbols, loc, t, e.loc_spec())
    &&& match t {
        Tree::Pair(left, right) => e matches SExp::Cons(_, a, b) && is_modern_of(
            symbols,
            e.loc_spec(),
            *left,
            *a,
        ) && is_modern_of(symbols, e.loc_spec(), *right, *b),
        Tree::Atom(bytes) => if bytes.len() == 0 {
            e is Nil
        } else if is_shortest_signed(bytes) {
            e matches SExp::Integer(_, held) && held@ == bytes
        } else {
            e matches SExp::Atom(_, held) && held@ == bytes
        },
    }
}

/// Whether the bytes are the shortest two's complement form of a number.
fn shortest_signed(bytes: &[u8]) -> (r: bool)
    ensures
        r == is_shortest_signed(bytes@),
{
    if bytes.len() == 0 {
        false
    } else if bytes.len() == 1 {
        true
    } else {
        !(bytes[0] == 0 && bytes[1] < 128) && !(bytes[0] == 255 && bytes[1] >= 128)
    }
}

/// The expression for the program `program`, with the places that the
/// symbols give to its nodes.
fn hex_to_modern_sexp_inner(
    a: &Allocator,
    symbol_table: &TextMap,
    loc: Srcloc,
    program: NodePtr,
) -> (e: Rc<SExp>)
    requires
        valid(*a, program),
    ensures
        is_modern_of(symbol_table@, loc, tree_of(*a, program), *e),
    decreases tree_of(*a, program).size(),
{
    let hash = sha256tree_of_node(a, program);
    let hash_str = bytes_to_hex(hash.as_slice());
    let srcloc = match symbol_table.get(hash_str.as_str()) {
        Some(f) => Srcloc::start(f.as_str()),
        None => loc,
    };
    match node_sexp(a, program) {
        Node::Pair(l, r) => {
            let left = hex_to_modern_sexp_inner(a, symbol_table, srcloc.copy(), l);
            let right = hex_to_modern_sexp_inner(a, symbol_table, srcloc.copy(), r);
            Rc::new(SExp::Cons(srcloc, left, right))
        },
        Node::Atom => {
            let bytes = atom_bytes(a, program);
            if bytes.len() == 0 {
                Rc::new(SExp::Nil(srcloc))
            } else if shortest_signed(bytes.as_slice()) {
                Rc::new(SExp::Integer(srcloc, bytes))
            } else {
                Rc::new(SExp::Atom(srcloc, bytes))
            }
        },
    }
}

/// The expression for the program that the hex digits `input_program`
/// spell, with `loc` as the place of every node that the symbols give no
/// place of its own or of a node above.
pub fn hex_to_modern_sexp(
    a: &mut Allocator,
    symbol_table: &TextMap,
    loc: Srcloc,
    input_program: &str,
) -> (res: Result<Rc<SExp>, RunFailure>)
    ensures
        extends(*old(a), *final(a)),
        match res {
            Ok(e) => unhex(input_program.spec_bytes()) matches Some(bytes) && parsed(bytes)
                matches Some(t) && is_modern_of(symbol_table@, loc, t, *e),
            Err(failure) => failure matches RunFailure::RunErr(l, text) && l == loc && text@
                == "Bad conversion from hex"@,
        },
        (unhex(input_program.spec_bytes()) matches Some(bytes) ==> parsed(bytes) is None)
            ==> res is Err,
{
    let input_serialized = match hex_to_bytes(input_program.as_bytes()) {
        Some(bytes) => bytes,
        None => {
            return Err(RunFailure::RunErr(loc, String::from_str("Bad conversion from hex")));
        },
    };
    match node_from_bytes(a, input_serialized.as_slice()) {
        Ok(program) => Ok(hex_to_modern_sexp_inner(a, symbol_table, loc, program)),
        Err(_) => Err(RunFailure::RunErr(loc, String::from_str("Bad conversion from hex"))),
    }
}

} // verus!

//! A small programming-language engine: a lexer, a recursive-descent
//! parser with multi-error recovery, a tree-walking evaluator whose
//! signature feature is the self-healing `live` block (bounded retries
//! with environment rollback), and an independent static type checker.
//!
//! Every component is specified by a mathematical model and the
//! executable code is proved to match it exactly.
use vstd::prelude::*;

pub mod arith;
pub mod ast;
pub mod floatbits;
pub mod interp;
pub mod laws;
pub mod lexer;
pub mod parser;
pub mod text;
pub mod token;
pub mod typechecker;
pub mod value;

use crate::ast::Node;
use crate::ast::NodeModel;
use crate::interp::DEFAULT_FUEL;
use crate::interp::Interpreter;
use crate::interp::eval_spec;
use crate::parser::ParseError;
use crate::parser::ParseErrorModel;
use crate::parser::Parser;
use crate::parser::new_parser_state;
use crate::parser::parse_program_full;
use crate::typechecker::TypeChecker;
use crate::value::EnvModel;
use crate::value::Failure;
use crate::value::FailureModel;
use crate::value::Value;
use crate::value::ValueModel;

verus! {

/// Total number of attempts a `live` block makes before giving up.
pub const MAX_ATTEMPTS: u64 = 3;

/// What `run` can fail with: a type-checking fault (when checking was
/// requested), kept distinct from a runtime failure.
#[derive(Debug)]
pub enum RunError {
    Typing(crate::typechecker::TypeError),
    Runtime(Failure),
}

/// Mathematical model of a run fault.
#[verifier::ext_equal]
pub enum RunErrorModel {
    Typing(crate::typechecker::TypeErrorModel),
    Runtime(FailureModel),
}

impl DeepView for RunError {
    type V = RunErrorModel;

    open spec fn deep_view(&self) -> RunErrorModel {
        match self {
            RunError::Typing(e) => RunErrorModel::Typing(e.deep_view()),
            RunError::Runtime(f) => RunErrorModel::Runtime(f.deep_view()),
        }
    }
}

/// Parsing a whole source text: the program and the recorded errors.
pub open spec fn parse_source_spec(text: Seq<char>) -> (NodeModel, Seq<ParseErrorModel>) {
    let full = parse_program_full(new_parser_state(text, 0));
    (full.0, full.1.errs)
}

/// Parses a source text into a best-effort program and the list of
/// syntax errors; the program is handed back even when errors are
/// present, so callers decide whether to go on.
pub fn parse_source(text: String) -> (r: (Node, Vec<ParseError>))
    ensures
        r.0.deep_view() == parse_source_spec(text@).0,
        r.1.deep_view() == parse_source_spec(text@).1,
{
    let lexer = crate::lexer::Lexer::new(text);
    let mut parser = Parser::new(lexer);
    parser.parse_full()
}

/// Evaluating a program from a fresh empty environment.
pub open spec fn run_eval_spec(n: NodeModel, fuel: nat) -> Result<ValueModel, RunErrorModel> {
    let r = eval_spec(
        n,
        EnvModel { store: Seq::<(Seq<char>, ValueModel)>::empty(), outer: None },
        fuel,
    );
    match r.outcome {
        Ok(v) => Ok(v),
        Err(f) => Err(RunErrorModel::Runtime(f)),
    }
}

/// Running a program: optionally type-check first (against a fresh
/// checker) and stop on its fault; otherwise evaluate with a fresh
/// evaluator and environment.
pub open spec fn run_spec(n: NodeModel, type_check: bool, fuel: nat) -> Result<
    ValueModel,
    RunErrorModel,
> {
    if type_check {
        let c = crate::typechecker::check_program_spec(n, crate::typechecker::initial_tenv());
        match c.outcome {
            Err(e) => Err(RunErrorModel::Typing(e)),
            Ok(_) => run_eval_spec(n, fuel),
        }
    } else {
        run_eval_spec(n, fuel)
    }
}

/// Runs a program.  With `type_check` set the type checker runs first and
/// its fault is returned as a distinct failure mode, without evaluating;
/// otherwise the program is evaluated directly with a fresh evaluator.
pub fn run(program: &Node, type_check: bool) -> (r: Result<Value, RunError>)
    ensures
        ({
            let s = run_spec(program.deep_view(), type_check, DEFAULT_FUEL as nat);
            match (r, s) {
                (Ok(v), Ok(vm)) => v.deep_view() == vm,
                (Err(e), Err(em)) => e.deep_view() == em,
                _ => false,
            }
        }),
{
    if type_check {
        let mut checker = TypeChecker::new();
        match checker.check_program(program) {
            Err(e) => {
                return Err(RunError::Typing(e));
            },
            Ok(_) => {},
        }
    }
    let mut interp = Interpreter::new();
    match interp.eval(program) {
        Ok(v) => Ok(v),
        Err(f) => Err(RunError::Runtime(f)),
    }
}

} // verus!

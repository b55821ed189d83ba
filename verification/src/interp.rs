//! The evaluator: a tree walk over the AST against an environment of
//! values, including the live-block retry/rollback controller.
//!
//! [`eval_spec`] is the mathematical big-step semantics; the executable
//! interpreter is proved to return exactly its outcome and final
//! environment.  Nesting of user-function calls is bounded by an explicit
//! fuel; a call at exhausted fuel fails with a depth failure, which an
//! enclosing live block treats like any other runtime failure.
use crate::MAX_ATTEMPTS;
use crate::ast::Node;
use crate::ast::NodeModel;
use crate::floatbits::float_add;
use crate::floatbits::float_div;
use crate::floatbits::float_eq;
use crate::floatbits::float_is_zero;
use crate::floatbits::float_lt;
use crate::floatbits::float_mul;
use crate::floatbits::float_neg;
use crate::floatbits::float_of_int;
use crate::floatbits::float_sub;
use crate::floatbits::float_text;
use crate::text::int_text;
use crate::text::int_to_string;
use crate::text::str_eq_lit;
use crate::floatbits::float_add_exec;
use crate::floatbits::float_sub_exec;
use crate::floatbits::float_mul_exec;
use crate::floatbits::float_div_exec;
use crate::floatbits::float_eq_exec;
use crate::floatbits::float_lt_exec;
use crate::floatbits::float_is_zero_exec;
use crate::floatbits::float_neg_exec;
use crate::floatbits::float_of_int_exec;
use crate::floatbits::float_to_string;
use crate::value::value_to_string;
use crate::value::EnvModel;
use crate::value::Environment;
use crate::value::Failure;
use crate::value::FailureModel;
use crate::value::Value;
use crate::value::ValueModel;
use crate::value::env_get;
use crate::value::env_set;
use crate::value::truthy;
use crate::value::value_text;
use vstd::prelude::*;

verus! {

/// Bound on the nesting depth of user-function calls for the default entry
/// points; a call past it fails with a depth failure.
pub const DEFAULT_FUEL: u64 = 256;

/// Outcome of evaluating a node: the produced value or the failure, and
/// the environment left behind.
#[verifier::ext_equal]
pub struct EvalResult {
    pub outcome: Result<ValueModel, FailureModel>,
    pub env: EnvModel,
}

/// The printed text of a boolean.
pub open spec fn bool_text(b: bool) -> Seq<char> {
    if b {
        "true"@
    } else {
        "false"@
    }
}

/// Truncating 64-bit signed division (the host's `/`), wrapping on the one
/// overflowing case.
pub open spec fn int_div_trunc(l: i64, r: i64) -> i64 {
    if l == i64::MIN && r == -1 {
        i64::MIN
    } else {
        int_div_trunc_plain(l, r)
    }
}

/// Truncating division outside the overflowing case.
pub open spec fn int_div_trunc_plain(l: i64, r: i64) -> i64 {
    let la = if l < 0 {
        -(l as int)
    } else {
        l as int
    };
    let ra = if r < 0 {
        -(r as int)
    } else {
        r as int
    };
    let q = la / ra;
    if (l < 0) != (r < 0) {
        (-q) as i64
    } else {
        q as i64
    }
}

/// Integer arithmetic and comparison; `/` fails on a zero divisor; an
/// operator outside the integer vocabulary fails.
pub open spec fn int_infix_spec(op: Seq<char>, l: i64, r: i64) -> Result<
    ValueModel,
    FailureModel,
> {
    if op == "+"@ {
        Ok(ValueModel::Int(vstd::wrapping::i64_specs::wrapping_add(l, r)))
    } else if op == "-"@ {
        Ok(ValueModel::Int(vstd::wrapping::i64_specs::wrapping_sub(l, r)))
    } else if op == "*"@ {
        Ok(ValueModel::Int(vstd::wrapping::i64_specs::wrapping_mul(l, r)))
    } else if op == "/"@ {
        if r == 0 {
            Err(FailureModel::DivisionByZero)
        } else {
            Ok(ValueModel::Int(int_div_trunc(l, r)))
        }
    } else if op == "=="@ {
        Ok(ValueModel::Bool(l == r))
    } else if op == "!="@ {
        Ok(ValueModel::Bool(l != r))
    } else if op == "<"@ {
        Ok(ValueModel::Bool(l < r))
    } else if op == ">"@ {
        Ok(ValueModel::Bool(l > r))
    } else if op == "<="@ {
        Ok(ValueModel::Bool(l <= r))
    } else if op == ">="@ {
        Ok(ValueModel::Bool(l >= r))
    } else {
        Err(FailureModel::UnknownOperator { left: int_text(l), operator: op, right: int_text(r) })
    }
}

/// Float arithmetic and IEEE comparison; `/` fails when the divisor is an
/// IEEE zero.
pub open spec fn float_infix_spec(op: Seq<char>, l: u64, r: u64) -> Result<
    ValueModel,
    FailureModel,
> {
    if op == "+"@ {
        Ok(ValueModel::Float(float_add(l, r)))
    } else if op == "-"@ {
        Ok(ValueModel::Float(float_sub(l, r)))
    } else if op == "*"@ {
        Ok(ValueModel::Float(float_mul(l, r)))
    } else if op == "/"@ {
        if float_is_zero(r) {
            Err(FailureModel::DivisionByZero)
        } else {
            Ok(ValueModel::Float(float_div(l, r)))
        }
    } else if op == "=="@ {
        Ok(ValueModel::Bool(float_eq(l, r)))
    } else if op == "!="@ {
        Ok(ValueModel::Bool(!float_eq(l, r)))
    } else if op == "<"@ {
        Ok(ValueModel::Bool(float_lt(l, r)))
    } else if op == ">"@ {
        Ok(ValueModel::Bool(float_lt(r, l)))
    } else if op == "<="@ {
        Ok(ValueModel::Bool(float_lt(l, r) || float_eq(l, r)))
    } else if op == ">="@ {
        Ok(ValueModel::Bool(float_lt(r, l) || float_eq(l, r)))
    } else {
        Err(FailureModel::UnknownOperator {
            left: float_text(l),
            operator: op,
            right: float_text(r),
        })
    }
}

/// `+` concatenates strings; equality compares them; nothing else applies.
pub open spec fn string_infix_spec(op: Seq<char>, l: Seq<char>, r: Seq<char>) -> Result<
    ValueModel,
    FailureModel,
> {
    if op == "+"@ {
        Ok(ValueModel::Str(l + r))
    } else if op == "=="@ {
        Ok(ValueModel::Bool(l == r))
    } else if op == "!="@ {
        Ok(ValueModel::Bool(l != r))
    } else {
        Err(FailureModel::UnknownOperator { left: l, operator: op, right: r })
    }
}

/// Booleans compare for equality; nothing else applies.
pub open spec fn bool_infix_spec(op: Seq<char>, l: bool, r: bool) -> Result<
    ValueModel,
    FailureModel,
> {
    if op == "=="@ {
        Ok(ValueModel::Bool(l == r))
    } else if op == "!="@ {
        Ok(ValueModel::Bool(l != r))
    } else {
        Err(FailureModel::UnknownOperator {
            left: bool_text(l),
            operator: op,
            right: bool_text(r),
        })
    }
}

/// Binary operator semantics: like types use their own rules, an
/// integer-float mix promotes the integer to float, anything else is a
/// type mismatch.
pub open spec fn infix_spec(op: Seq<char>, l: ValueModel, r: ValueModel) -> Result<
    ValueModel,
    FailureModel,
> {
    match (l, r) {
        (ValueModel::Int(a), ValueModel::Int(b)) => int_infix_spec(op, a, b),
        (ValueModel::Float(a), ValueModel::Float(b)) => float_infix_spec(op, a, b),
        (ValueModel::Int(a), ValueModel::Float(b)) => float_infix_spec(op, float_of_int(a), b),
        (ValueModel::Float(a), ValueModel::Int(b)) => float_infix_spec(op, a, float_of_int(b)),
        (ValueModel::Str(a), ValueModel::Str(b)) => string_infix_spec(op, a, b),
        (ValueModel::Bool(a), ValueModel::Bool(b)) => bool_infix_spec(op, a, b),
        _ => Err(FailureModel::TypeMismatch {
            left: value_text(l),
            operator: op,
            right: value_text(r),
        }),
    }
}

/// `!`: the negated truthiness of booleans, numbers and strings; `false`
/// on everything else.
pub open spec fn bang_spec(v: ValueModel) -> bool {
    match v {
        ValueModel::Bool(b) => !b,
        ValueModel::Int(i) => i == 0,
        ValueModel::Float(bits) => float_is_zero(bits),
        ValueModel::Str(s) => s.len() == 0,
        _ => false,
    }
}

/// Unary operator semantics.
pub open spec fn prefix_spec(op: Seq<char>, v: ValueModel) -> Result<ValueModel, FailureModel> {
    if op == "!"@ {
        Ok(ValueModel::Bool(bang_spec(v)))
    } else if op == "-"@ {
        match v {
            ValueModel::Int(i) => Ok(
                ValueModel::Int(vstd::wrapping::i64_specs::wrapping_sub(0, i)),
            ),
            ValueModel::Float(bits) => Ok(ValueModel::Float(float_neg(bits))),
            _ => Err(
                FailureModel::UnknownPrefixOperator { operator: op, right: value_text(v) },
            ),
        }
    } else {
        Err(FailureModel::UnknownPrefixOperator { operator: op, right: value_text(v) })
    }
}

/// The message a failed assertion carries: a string value as itself, any
/// other value rendered behind a fixed prefix.
pub open spec fn assert_message_spec(mv: ValueModel) -> Seq<char> {
    match mv {
        ValueModel::Str(s) => s,
        other => "Assertion failed with message: "@ + value_text(other),
    }
}

/// Binds parameter names to arguments, in order, in the given scope;
/// parameters past the argument list stay unbound.
pub open spec fn bind_params(
    env: EnvModel,
    params: Seq<(Seq<char>, Seq<char>)>,
    args: Seq<ValueModel>,
) -> EnvModel
    decreases params.len(),
{
    if params.len() == 0 || args.len() == 0 {
        env
    } else {
        bind_params(
            env_set(env, params[0].1, args[0]),
            params.drop_first(),
            args.drop_first(),
        )
    }
}

/// Big-step evaluation of one node: the outcome and the environment left
/// behind.
pub open spec fn eval_spec(n: NodeModel, env: EnvModel, fuel: nat) -> EvalResult
    decreases fuel, 1nat, n,
{
    match n {
        NodeModel::Program(stmts) => eval_stmts_spec(stmts, env, fuel, ValueModel::Void, true),
        NodeModel::Block(stmts) => eval_stmts_spec(stmts, env, fuel, ValueModel::Void, false),
        NodeModel::Function { name, parameters, body } => {
            let closure = ValueModel::Function { parameters, body: *body, env };
            EvalResult { outcome: Ok(ValueModel::Void), env: env_set(env, name, closure) }
        },
        NodeModel::LiveBlock { body } => {
            let attempt = eval_spec(*body, env, fuel);
            match attempt.outcome {
                Ok(v) => attempt,
                Err(f) => EvalResult {
                    outcome: Err(
                        FailureModel::Exhausted { attempts: MAX_ATTEMPTS, cause: Box::new(f) },
                    ),
                    env: attempt.env,
                },
            }
        },
        NodeModel::Assert { condition, message } => {
            let rc = eval_spec(*condition, env, fuel);
            match rc.outcome {
                Err(_) => rc,
                Ok(cv) => {
                    if truthy(cv) {
                        EvalResult { outcome: Ok(ValueModel::Void), env: rc.env }
                    } else {
                        match message {
                            None => EvalResult {
                                outcome: Err(
                                    FailureModel::AssertionFailed {
                                        message: "Assertion failed"@,
                                        condition: value_text(cv),
                                    },
                                ),
                                env: rc.env,
                            },
                            Some(m) => {
                                let rm = eval_spec(*m, rc.env, fuel);
                                match rm.outcome {
                                    Err(_) => rm,
                                    Ok(mv) => EvalResult {
                                        outcome: Err(
                                            FailureModel::AssertionFailed {
                                                message: assert_message_spec(mv),
                                                condition: value_text(cv),
                                            },
                                        ),
                                        env: rm.env,
                                    },
                                }
                            },
                        }
                    }
                },
            }
        },
        NodeModel::LetStatement { name, value } => {
            let rv = eval_spec(*value, env, fuel);
            match rv.outcome {
                Err(_) => rv,
                Ok(v) => EvalResult {
                    outcome: Ok(ValueModel::Void),
                    env: env_set(rv.env, name, v),
                },
            }
        },
        NodeModel::ReturnStatement { value } => {
            let rv = eval_spec(*value, env, fuel);
            match rv.outcome {
                Err(_) => rv,
                Ok(v) => EvalResult {
                    outcome: Ok(ValueModel::Return(Box::new(v))),
                    env: rv.env,
                },
            }
        },
        NodeModel::IfStatement { condition, consequence, alternative } => {
            let rc = eval_spec(*condition, env, fuel);
            match rc.outcome {
                Err(_) => rc,
                Ok(cv) => {
                    if truthy(cv) {
                        eval_spec(*consequence, rc.env, fuel)
                    } else {
                        match alternative {
                            Some(a) => eval_spec(*a, rc.env, fuel),
                            None => EvalResult { outcome: Ok(ValueModel::Void), env: rc.env },
                        }
                    }
                },
            }
        },
        NodeModel::ExpressionStatement(e) => eval_spec(*e, env, fuel),
        NodeModel::Identifier(name) => {
            match env_get(env, name) {
                Some(v) => EvalResult { outcome: Ok(v), env },
                None => EvalResult {
                    outcome: Err(FailureModel::IdentifierNotFound { name }),
                    env,
                },
            }
        },
        NodeModel::IntegerLiteral(i) => EvalResult { outcome: Ok(ValueModel::Int(i)), env },
        NodeModel::FloatLiteral(b) => EvalResult { outcome: Ok(ValueModel::Float(b)), env },
        NodeModel::StringLiteral(s) => EvalResult { outcome: Ok(ValueModel::Str(s)), env },
        NodeModel::BooleanLiteral(b) => EvalResult { outcome: Ok(ValueModel::Bool(b)), env },
        NodeModel::Void => EvalResult { outcome: Ok(ValueModel::Void), env },
        NodeModel::PrefixExpression { operator, right } => {
            let rr = eval_spec(*right, env, fuel);
            match rr.outcome {
                Err(_) => rr,
                Ok(rv) => EvalResult { outcome: prefix_spec(operator, rv), env: rr.env },
            }
        },
        NodeModel::InfixExpression { left, operator, right } => {
            let rl = eval_spec(*left, env, fuel);
            match rl.outcome {
                Err(_) => rl,
                Ok(lv) => {
                    let rr = eval_spec(*right, rl.env, fuel);
                    match rr.outcome {
                        Err(_) => rr,
                        Ok(rv) => EvalResult {
                            outcome: infix_spec(operator, lv, rv),
                            env: rr.env,
                        },
                    }
                },
            }
        },
        NodeModel::CallExpression { function, arguments } => {
            let rf = eval_spec(*function, env, fuel);
            match rf.outcome {
                Err(_) => rf,
                Ok(fv) => {
                    let (ra, env2) = eval_args_spec(arguments, rf.env, fuel);
                    match ra {
                        Err(e) => EvalResult { outcome: Err(e), env: env2 },
                        Ok(avs) => EvalResult { outcome: apply_spec(fv, avs, fuel), env: env2 },
                    }
                },
            }
        },
    }
}

/// Evaluates statements in order in a shared environment, carrying the
/// last produced value.  A failure stops the walk; a `Return` marker stops
/// it early and, for a program (`unwrap_return`), is unwrapped into its
/// value — for a block it propagates as the marker itself.
pub open spec fn eval_stmts_spec(
    stmts: Seq<NodeModel>,
    env: EnvModel,
    fuel: nat,
    last: ValueModel,
    unwrap_return: bool,
) -> EvalResult
    decreases fuel, 1nat, stmts,
{
    if stmts.len() == 0 {
        EvalResult { outcome: Ok(last), env }
    } else {
        let r = eval_spec(stmts[0], env, fuel);
        match r.outcome {
            Err(_) => r,
            Ok(v) => match v {
                ValueModel::Return(inner) => {
                    if unwrap_return {
                        EvalResult { outcome: Ok(*inner), env: r.env }
                    } else {
                        r
                    }
                },
                _ => eval_stmts_spec(stmts.drop_first(), r.env, fuel, v, unwrap_return),
            },
        }
    }
}

/// Evaluates call arguments left to right, threading the environment.
pub open spec fn eval_args_spec(args: Seq<NodeModel>, env: EnvModel, fuel: nat) -> (Result<
    Seq<ValueModel>,
    FailureModel,
>, EnvModel)
    decreases fuel, 1nat, args,
{
    if args.len() == 0 {
        (Ok(Seq::<ValueModel>::empty()), env)
    } else {
        let r = eval_spec(args[0], env, fuel);
        match r.outcome {
            Err(e) => (Err(e), r.env),
            Ok(v) => {
                let (rest, env2) = eval_args_spec(args.drop_first(), r.env, fuel);
                match rest {
                    Err(e) => (Err(e), env2),
                    Ok(vs) => (Ok(seq![v] + vs), env2),
                }
            },
        }
    }
}

/// Applies a value to arguments.  A closure gets a fresh scope enclosed in
/// its captured environment, parameters bound in order; a `Return` marker
/// coming out of the body is unwrapped at this boundary.  Calling a
/// non-function fails; a call at exhausted fuel fails with a depth
/// failure.
pub open spec fn apply_spec(f: ValueModel, args: Seq<ValueModel>, fuel: nat) -> Result<
    ValueModel,
    FailureModel,
>
    decreases fuel, 0nat, f,
{
    match f {
        ValueModel::Function { parameters, body, env } => {
            if fuel == 0 {
                Err(FailureModel::DepthExceeded)
            } else {
                let child = bind_params(
                    EnvModel {
                        store: Seq::<(Seq<char>, ValueModel)>::empty(),
                        outer: Some(Box::new(env)),
                    },
                    parameters,
                    args,
                );
                let r = eval_spec(body, child, (fuel - 1) as nat);
                match r.outcome {
                    Err(e) => Err(e),
                    Ok(v) => match v {
                        ValueModel::Return(inner) => Ok(*inner),
                        _ => Ok(v),
                    },
                }
            }
        },
        _ => Err(FailureModel::NotAFunction { value: value_text(f) }),
    }
}

/// Whether an executable outcome carries exactly the model outcome.
pub open spec fn res_matches(r: Result<Value, Failure>, m: Result<ValueModel, FailureModel>) -> bool {
    match (r, m) {
        (Ok(v), Ok(vm)) => v.deep_view() == vm,
        (Err(f), Err(fm)) => f.deep_view() == fm,
        _ => false,
    }
}

/// Truncating 64-bit division, as the host's `/` behaves, wrapping on the
/// one overflowing case.
pub fn int_div_trunc_exec(l: i64, r: i64) -> (q: i64)
    requires
        r != 0,
    ensures
        q == int_div_trunc(l, r),
{
    if l == i64::MIN && r == -1 {
        return i64::MIN;
    }
    let ul: u64 = if l >= 0 {
        l as u64
    } else if l == i64::MIN {
        9223372036854775808u64
    } else {
        (-l) as u64
    };
    let ur: u64 = if r >= 0 {
        r as u64
    } else if r == i64::MIN {
        9223372036854775808u64
    } else {
        (-r) as u64
    };
    let uq: u64 = ul / ur;
    proof {
        let la = if l < 0 {
            -(l as int)
        } else {
            l as int
        };
        let ra = if r < 0 {
            -(r as int)
        } else {
            r as int
        };
        assert(ul == la && ur == ra);
        vstd::arithmetic::div_mod::lemma_fundamental_div_mod(la, ra);
        assert(la / ra <= la) by (nonlinear_arith)
            requires
                ra >= 1,
                la >= 0,
        ;
        if ra >= 2 {
            assert(ra * (la / ra) >= 2 * (la / ra)) by (nonlinear_arith)
                requires
                    ra >= 2,
                    la / ra >= 0,
            ;
        }
    }
    if (l < 0) != (r < 0) {
        if uq >= 9223372036854775808u64 {
            i64::MIN
        } else {
            -(uq as i64)
        }
    } else {
        uq as i64
    }
}

/// Exec mirror of [`int_infix_spec`].
pub fn int_infix_exec(op: &String, l: i64, r: i64) -> (res: Result<Value, Failure>)
    ensures
        res_matches(res, int_infix_spec(op@, l, r)),
{
    if str_eq_lit(op.as_str(), "+") {
        Ok(Value::Int(l.wrapping_add(r)))
    } else if str_eq_lit(op.as_str(), "-") {
        Ok(Value::Int(l.wrapping_sub(r)))
    } else if str_eq_lit(op.as_str(), "*") {
        Ok(Value::Int(l.wrapping_mul(r)))
    } else if str_eq_lit(op.as_str(), "/") {
        if r == 0 {
            Err(Failure::DivisionByZero)
        } else {
            Ok(Value::Int(int_div_trunc_exec(l, r)))
        }
    } else if str_eq_lit(op.as_str(), "==") {
        Ok(Value::Bool(l == r))
    } else if str_eq_lit(op.as_str(), "!=") {
        Ok(Value::Bool(l != r))
    } else if str_eq_lit(op.as_str(), "<") {
        Ok(Value::Bool(l < r))
    } else if str_eq_lit(op.as_str(), ">") {
        Ok(Value::Bool(l > r))
    } else if str_eq_lit(op.as_str(), "<=") {
        Ok(Value::Bool(l <= r))
    } else if str_eq_lit(op.as_str(), ">=") {
        Ok(Value::Bool(l >= r))
    } else {
        Err(
            Failure::UnknownOperator {
                left: int_to_string(l),
                operator: op.clone(),
                right: int_to_string(r),
            },
        )
    }
}

/// Exec mirror of [`float_infix_spec`].
pub fn float_infix_exec(op: &String, l: u64, r: u64) -> (res: Result<Value, Failure>)
    ensures
        res_matches(res, float_infix_spec(op@, l, r)),
{
    if str_eq_lit(op.as_str(), "+") {
        Ok(Value::Float(float_add_exec(l, r)))
    } else if str_eq_lit(op.as_str(), "-") {
        Ok(Value::Float(float_sub_exec(l, r)))
    } else if str_eq_lit(op.as_str(), "*") {
        Ok(Value::Float(float_mul_exec(l, r)))
    } else if str_eq_lit(op.as_str(), "/") {
        if float_is_zero_exec(r) {
            Err(Failure::DivisionByZero)
        } else {
            Ok(Value::Float(float_div_exec(l, r)))
        }
    } else if str_eq_lit(op.as_str(), "==") {
        Ok(Value::Bool(float_eq_exec(l, r)))
    } else if str_eq_lit(op.as_str(), "!=") {
        Ok(Value::Bool(!float_eq_exec(l, r)))
    } else if str_eq_lit(op.as_str(), "<") {
        Ok(Value::Bool(float_lt_exec(l, r)))
    } else if str_eq_lit(op.as_str(), ">") {
        Ok(Value::Bool(float_lt_exec(r, l)))
    } else if str_eq_lit(op.as_str(), "<=") {
        Ok(Value::Bool(float_lt_exec(l, r) || float_eq_exec(l, r)))
    } else if str_eq_lit(op.as_str(), ">=") {
        Ok(Value::Bool(float_lt_exec(r, l) || float_eq_exec(l, r)))
    } else {
        Err(
            Failure::UnknownOperator {
                left: float_to_string(l),
                operator: op.clone(),
                right: float_to_string(r),
            },
        )
    }
}

/// Exec mirror of [`string_infix_spec`].
pub fn string_infix_exec(op: &String, l: String, r: String) -> (res: Result<Value, Failure>)
    ensures
        res_matches(res, string_infix_spec(op@, l@, r@)),
{
    if str_eq_lit(op.as_str(), "+") {
        Ok(Value::Str(l.concat(r.as_str())))
    } else if str_eq_lit(op.as_str(), "==") {
        Ok(Value::Bool(l.eq(&r)))
    } else if str_eq_lit(op.as_str(), "!=") {
        Ok(Value::Bool(!l.eq(&r)))
    } else {
        Err(Failure::UnknownOperator { left: l, operator: op.clone(), right: r })
    }
}

/// Exec mirror of [`bool_infix_spec`].
pub fn bool_infix_exec(op: &String, l: bool, r: bool) -> (res: Result<Value, Failure>)
    ensures
        res_matches(res, bool_infix_spec(op@, l, r)),
{
    if str_eq_lit(op.as_str(), "==") {
        Ok(Value::Bool(l == r))
    } else if str_eq_lit(op.as_str(), "!=") {
        Ok(Value::Bool(l != r))
    } else {
        let lt = if l {
            String::from_str("true")
        } else {
            String::from_str("false")
        };
        let rt = if r {
            String::from_str("true")
        } else {
            String::from_str("false")
        };
        Err(Failure::UnknownOperator { left: lt, operator: op.clone(), right: rt })
    }
}

/// Exec mirror of [`infix_spec`].
pub fn infix_exec(op: &String, l: Value, r: Value) -> (res: Result<Value, Failure>)
    ensures
        res_matches(res, infix_spec(op@, l.deep_view(), r.deep_view())),
{
    match (l, r) {
        (Value::Int(a), Value::Int(b)) => int_infix_exec(op, a, b),
        (Value::Float(a), Value::Float(b)) => float_infix_exec(op, a, b),
        (Value::Int(a), Value::Float(b)) => float_infix_exec(
            op,
            float_of_int_exec(a),
            b,
        ),
        (Value::Float(a), Value::Int(b)) => float_infix_exec(
            op,
            a,
            float_of_int_exec(b),
        ),
        (Value::Str(a), Value::Str(b)) => string_infix_exec(op, a, b),
        (Value::Bool(a), Value::Bool(b)) => bool_infix_exec(op, a, b),
        (lo, ro) => Err(
            Failure::TypeMismatch {
                left: value_to_string(&lo),
                operator: op.clone(),
                right: value_to_string(&ro),
            },
        ),
    }
}

/// Exec mirror of [`prefix_spec`].
pub fn prefix_exec(op: &String, v: Value) -> (res: Result<Value, Failure>)
    ensures
        res_matches(res, prefix_spec(op@, v.deep_view())),
{
    if str_eq_lit(op.as_str(), "!") {
        let b = match &v {
            Value::Bool(b) => !*b,
            Value::Int(i) => *i == 0,
            Value::Float(bits) => float_is_zero_exec(*bits),
            Value::Str(s) => s.as_str().is_empty(),
            _ => false,
        };
        Ok(Value::Bool(b))
    } else if str_eq_lit(op.as_str(), "-") {
        match v {
            Value::Int(i) => Ok(Value::Int((0 as i64).wrapping_sub(i))),
            Value::Float(bits) => Ok(Value::Float(float_neg_exec(bits))),
            other => Err(
                Failure::UnknownPrefixOperator {
                    operator: op.clone(),
                    right: value_to_string(&other),
                },
            ),
        }
    } else {
        Err(
            Failure::UnknownPrefixOperator {
                operator: op.clone(),
                right: value_to_string(&v),
            },
        )
    }
}

/// Evaluates the statements of a program or block in order, in the shared
/// environment.
#[verifier::loop_isolation(false)]
fn eval_stmts_exec(stmts: &Vec<Node>, env: &mut Environment, fuel: u64, unwrap_return: bool) -> (r:
    Result<Value, Failure>)
    ensures
        ({
            let res = eval_stmts_spec(
                crate::ast::nodes_view(stmts@),
                old(env).deep_view(),
                fuel as nat,
                ValueModel::Void,
                unwrap_return,
            );
            final(env).deep_view() == res.env && res_matches(r, res.outcome)
        }),
    decreases fuel, stmts, 0nat,
{
    let ghost sm = crate::ast::nodes_view(stmts@);
    let ghost env0 = env.deep_view();
    let mut last = Value::Void;
    let mut i: usize = 0;
    proof {
        crate::ast::lemma_nodes_view(stmts@);
        assert(sm.skip(0) =~= sm);
    }
    while i < stmts.len()
        invariant
            i <= stmts@.len(),
            sm == crate::ast::nodes_view(stmts@),
            sm.len() == stmts@.len(),
            forall|j: int| 0 <= j < stmts@.len() ==> sm[j] == crate::ast::node_view(
                #[trigger] stmts@[j],
            ),
            eval_stmts_spec(sm, env0, fuel as nat, ValueModel::Void, unwrap_return)
                == eval_stmts_spec(
                sm.skip(i as int),
                env.deep_view(),
                fuel as nat,
                last.deep_view(),
                unwrap_return,
            ),
        decreases stmts@.len() - i,
    {
        let ghost env_i = env.deep_view();
        let ghost last_i = last.deep_view();
        let r = eval_node(&stmts[i], env, fuel);
        proof {
            assert(sm.skip(i as int)[0] == sm[i as int]);
            assert(sm.skip(i as int).len() == sm.len() - i);
        }
        let ghost step = eval_spec(sm[i as int], env_i, fuel as nat);
        match r {
            Err(f) => {
                proof {
                    assert(eval_stmts_spec(
                        sm.skip(i as int),
                        env_i,
                        fuel as nat,
                        last_i,
                        unwrap_return,
                    ) == step);
                    assert(eval_stmts_spec(sm, env0, fuel as nat, ValueModel::Void, unwrap_return)
                        == step);
                    assert(eval_stmts_spec(
                        crate::ast::nodes_view(stmts@),
                        old(env).deep_view(),
                        fuel as nat,
                        ValueModel::Void,
                        unwrap_return,
                    ) == step);
                }
                return Err(f);
            },
            Ok(v) => {
                proof {
                    assert(step.outcome matches Ok(vm) && vm == v.deep_view());
                }
                match v {
                    Value::Return(inner) => {
                        proof {
                            assert(v.deep_view() matches ValueModel::Return(bm) && *bm
                                == inner.deep_view());
                        }
                        if unwrap_return {
                            proof {
                                assert(eval_stmts_spec(
                                    sm.skip(i as int),
                                    env_i,
                                    fuel as nat,
                                    last_i,
                                    unwrap_return,
                                ) == (EvalResult {
                                    outcome: Ok(inner.deep_view()),
                                    env: step.env,
                                }));
                            }
                            return Ok(*inner);
                        } else {
                            proof {
                                assert(eval_stmts_spec(
                                    sm.skip(i as int),
                                    env_i,
                                    fuel as nat,
                                    last_i,
                                    unwrap_return,
                                ) == step);
                            }
                            return Ok(Value::Return(inner));
                        }
                    },
                    other => {
                        proof {
                            assert(!(other.deep_view() is Return));
                        }
                        last = other;
                    },
                }
            },
        }
        proof {
            assert(sm.skip(i as int).drop_first() =~= sm.skip(i + 1));
        }
        i += 1;
    }
    proof {
        assert(sm.skip(i as int) =~= Seq::<NodeModel>::empty());
    }
    Ok(last)
}

/// Evaluates call arguments left to right, threading the environment.
#[verifier::loop_isolation(false)]
fn eval_args_exec(args: &Vec<Node>, env: &mut Environment, fuel: u64) -> (r: Result<
    Vec<Value>,
    Failure,
>)
    ensures
        ({
            let (ra, env2) = eval_args_spec(
                crate::ast::nodes_view(args@),
                old(env).deep_view(),
                fuel as nat,
            );
            &&& final(env).deep_view() == env2
            &&& match (r, ra) {
                (Ok(vs), Ok(vsm)) => vs.deep_view() == vsm,
                (Err(f), Err(fm)) => f.deep_view() == fm,
                _ => false,
            }
        }),
    decreases fuel, args, 0nat,
{
    let ghost am = crate::ast::nodes_view(args@);
    let ghost env0 = env.deep_view();
    let mut out: Vec<Value> = Vec::new();
    let mut i: usize = 0;
    proof {
        crate::ast::lemma_nodes_view(args@);
        assert(am.skip(0) =~= am);
        assert(out.deep_view() =~= Seq::<ValueModel>::empty());
    }
    while i < args.len()
        invariant
            i <= args@.len(),
            am == crate::ast::nodes_view(args@),
            am.len() == args@.len(),
            forall|j: int| 0 <= j < args@.len() ==> am[j] == crate::ast::node_view(
                #[trigger] args@[j],
            ),
            ({
                let (ra, env2) = eval_args_spec(am.skip(i as int), env.deep_view(), fuel as nat);
                let (full, fenv) = eval_args_spec(am, env0, fuel as nat);
                &&& fenv == env2
                &&& match (full, ra) {
                    (Ok(fvs), Ok(vs)) => fvs == out.deep_view() + vs,
                    (Err(fe), Err(e)) => fe == e,
                    _ => false,
                }
            }),
        decreases args@.len() - i,
    {
        let r = eval_node(&args[i], env, fuel);
        proof {
            assert(am.skip(i as int)[0] == am[i as int]);
        }
        match r {
            Err(f) => {
                return Err(f);
            },
            Ok(v) => {
                let ghost out0 = out.deep_view();
                let ghost vm = v.deep_view();
                out.push(v);
                proof {
                    assert(out.deep_view() =~= out0.push(vm));
                    assert(am.skip(i as int).drop_first() =~= am.skip(i + 1));
                    let (ra2, _e2) = eval_args_spec(am.skip(i + 1), env.deep_view(), fuel as nat);
                    if let Ok(vs2) = ra2 {
                        assert(out0 + (seq![vm] + vs2) =~= out.deep_view() + vs2);
                    }
                }
            },
        }
        i += 1;
    }
    proof {
        assert(am.skip(i as int) =~= Seq::<NodeModel>::empty());
        assert(out.deep_view() + Seq::<ValueModel>::empty() =~= out.deep_view());
    }
    Ok(out)
}

/// The live-block controller: takes a deep snapshot of the environment,
/// attempts the body, and on failure rolls the environment back to the
/// snapshot and retries, up to the fixed total number of attempts.  When
/// they are used up, the last failure propagates, wrapped with the attempt
/// count; the mutations of that last attempt remain.
#[verifier::loop_isolation(false)]
fn eval_live_exec(node: &Node, env: &mut Environment, fuel: u64) -> (r: Result<Value, Failure>)
    requires
        node matches Node::LiveBlock { .. },
    ensures
        ({
            let attempt = eval_spec(node->LiveBlock_body.deep_view(), old(env).deep_view(), fuel as nat);
            &&& final(env).deep_view() == attempt.env
            &&& match attempt.outcome {
                Ok(_) => res_matches(r, attempt.outcome),
                Err(fm) => r matches Err(e) && e.deep_view() == (FailureModel::Exhausted {
                    attempts: MAX_ATTEMPTS,
                    cause: Box::new(fm),
                }),
            }
        }),
    decreases fuel, node, 0nat,
{
    let body: &Node = match node {
        Node::LiveBlock { body } => &**body,
        _ => node,
    };
    let snapshot = crate::value::duplicate_env(env);
    let mut attempts: u64 = 0;
    loop
        invariant
            attempts < MAX_ATTEMPTS,
            snapshot.deep_view() == old(env).deep_view(),
            env.deep_view() == old(env).deep_view(),
        decreases MAX_ATTEMPTS - attempts,
    {
        let r = eval_node(body, env, fuel);
        match r {
            Ok(v) => {
                return Ok(v);
            },
            Err(f) => {
                attempts = attempts + 1;
                if attempts >= MAX_ATTEMPTS {
                    return Err(
                        Failure::Exhausted { attempts: MAX_ATTEMPTS, cause: Box::new(f) },
                    );
                }
                *env = crate::value::duplicate_env(&snapshot);
            },
        }
    }
}

/// Evaluates one node against the environment: the heart of the
/// interpreter.  Returns exactly what the big-step semantics prescribes
/// and leaves the environment in exactly its prescribed state.
#[verifier::rlimit(100)]
#[verifier::loop_isolation(false)]
pub fn eval_node(node: &Node, env: &mut Environment, fuel: u64) -> (r: Result<Value, Failure>)
    ensures
        ({
            let res = eval_spec(node.deep_view(), old(env).deep_view(), fuel as nat);
            final(env).deep_view() == res.env && res_matches(r, res.outcome)
        }),
    decreases fuel, node, 1nat,
{
    match node {
        Node::Program(stmts) => eval_stmts_exec(stmts, env, fuel, true),
        Node::Block(stmts) => eval_stmts_exec(stmts, env, fuel, false),
        Node::Function { name, parameters, body } => {
            let closure = Value::Function {
                parameters: crate::ast::duplicate_params(parameters),
                body: Box::new(crate::ast::duplicate_node(body)),
                env: crate::value::duplicate_env(env),
            };
            env.set(name.clone(), closure);
            Ok(Value::Void)
        },
        Node::LiveBlock { .. } => eval_live_exec(node, env, fuel),
        Node::Assert { condition, message } => {
            let cv = match eval_node(&**condition, env, fuel) {
                Err(f) => {
                    return Err(f);
                },
                Ok(v) => v,
            };
            if is_truthy_local(&cv) {
                Ok(Value::Void)
            } else {
                let condition_text = value_to_string(&cv);
                match message {
                    None => Err(
                        Failure::AssertionFailed {
                            message: String::from_str("Assertion failed"),
                            condition: condition_text,
                        },
                    ),
                    Some(m) => {
                        let mv = match eval_node(&**m, env, fuel) {
                            Err(f) => {
                                return Err(f);
                            },
                            Ok(v) => v,
                        };
                        let msg = match mv {
                            Value::Str(s) => s,
                            other => {
                                let mut t = String::from_str("Assertion failed with message: ");
                                let vt = value_to_string(&other);
                                t.append(vt.as_str());
                                t
                            },
                        };
                        Err(Failure::AssertionFailed { message: msg, condition: condition_text })
                    },
                }
            }
        },
        Node::LetStatement { name, value } => {
            let v = match eval_node(&**value, env, fuel) {
                Err(f) => {
                    return Err(f);
                },
                Ok(v) => v,
            };
            env.set(name.clone(), v);
            Ok(Value::Void)
        },
        Node::ReturnStatement { value } => {
            let v = match eval_node(&**value, env, fuel) {
                Err(f) => {
                    return Err(f);
                },
                Ok(v) => v,
            };
            Ok(Value::Return(Box::new(v)))
        },
        Node::IfStatement { condition, consequence, alternative } => {
            let cv = match eval_node(&**condition, env, fuel) {
                Err(f) => {
                    return Err(f);
                },
                Ok(v) => v,
            };
            if is_truthy_local(&cv) {
                eval_node(&**consequence, env, fuel)
            } else {
                match alternative {
                    Some(a) => eval_node(&**a, env, fuel),
                    None => Ok(Value::Void),
                }
            }
        },
        Node::ExpressionStatement(e) => eval_node(&**e, env, fuel),
        Node::Identifier(name) => {
            match env.get(name) {
                Some(v) => Ok(v),
                None => Err(Failure::IdentifierNotFound { name: name.clone() }),
            }
        },
        Node::IntegerLiteral(i) => Ok(Value::Int(*i)),
        Node::FloatLiteral(b) => Ok(Value::Float(*b)),
        Node::StringLiteral(s) => Ok(Value::Str(s.clone())),
        Node::BooleanLiteral(b) => Ok(Value::Bool(*b)),
        Node::Void => Ok(Value::Void),
        Node::PrefixExpression { operator, right } => {
            let rv = match eval_node(&**right, env, fuel) {
                Err(f) => {
                    return Err(f);
                },
                Ok(v) => v,
            };
            prefix_exec(operator, rv)
        },
        Node::InfixExpression { left, operator, right } => {
            let lv = match eval_node(&**left, env, fuel) {
                Err(f) => {
                    return Err(f);
                },
                Ok(v) => v,
            };
            let rv = match eval_node(&**right, env, fuel) {
                Err(f) => {
                    return Err(f);
                },
                Ok(v) => v,
            };
            infix_exec(operator, lv, rv)
        },
        Node::CallExpression { .. } => eval_call_exec(node, env, fuel),
    }
}

/// Evaluates a call: the callee, then the arguments, then the
/// application.
#[verifier::loop_isolation(false)]
#[verifier::rlimit(100)]
fn eval_call_exec(node: &Node, env: &mut Environment, fuel: u64) -> (r: Result<Value, Failure>)
    requires
        node matches Node::CallExpression { .. },
    ensures
        ({
            let res = eval_spec(node.deep_view(), old(env).deep_view(), fuel as nat);
            final(env).deep_view() == res.env && res_matches(r, res.outcome)
        }),
    decreases fuel, node, 0nat,
{
    match node {
        Node::CallExpression { function, arguments } => {
            let fv = match eval_node(&**function, env, fuel) {
                Err(f) => {
                    return Err(f);
                },
                Ok(v) => v,
            };
            let args = match eval_args_exec(arguments, env, fuel) {
                Err(f) => {
                    return Err(f);
                },
                Ok(a) => a,
            };
            proof {
                reveal_with_fuel(eval_spec, 3);
            }
            match fv {
                Value::Function { parameters, body, env: fenv } => {
                    if fuel == 0 {
                        return Err(Failure::DepthExceeded);
                    }
                    let mut child = Environment::new_enclosed(fenv);
                    let ghost child0 = child.deep_view();
                    let ghost pm = parameters.deep_view();
                    let ghost am = args.deep_view();
                    let n = if parameters.len() < args.len() {
                        parameters.len()
                    } else {
                        args.len()
                    };
                    let mut i: usize = 0;
                    proof {
                        assert(pm.skip(0) =~= pm);
                        assert(am.skip(0) =~= am);
                    }
                    while i < n
                        invariant
                            i <= n,
                            n == if pm.len() < am.len() {
                                pm.len()
                            } else {
                                am.len()
                            },
                            pm == parameters.deep_view(),
                            am == args.deep_view(),
                            pm.len() == parameters@.len(),
                            am.len() == args@.len(),
                            bind_params(child0, pm, am) == bind_params(
                                child.deep_view(),
                                pm.skip(i as int),
                                am.skip(i as int),
                            ),
                        decreases n - i,
                    {
                        let pname = parameters[i].1.clone();
                        let av = crate::value::duplicate_value(&args[i]);
                        proof {
                            assert(pm.skip(i as int)[0] == pm[i as int]);
                            assert(am.skip(i as int)[0] == am[i as int]);
                            assert(pm[i as int] == parameters@[i as int].deep_view());
                            assert(am[i as int] == args@[i as int].deep_view());
                        }
                        child.set(pname, av);
                        proof {
                            assert(pm.skip(i as int).drop_first() =~= pm.skip(i + 1));
                            assert(am.skip(i as int).drop_first() =~= am.skip(i + 1));
                        }
                        i += 1;
                    }
                    proof {
                        if pm.len() < am.len() {
                            assert(pm.skip(i as int) =~= Seq::<(Seq<char>, Seq<char>)>::empty());
                        } else {
                            assert(am.skip(i as int) =~= Seq::<ValueModel>::empty());
                        }
                        assert(bind_params(child0, pm, am) == child.deep_view());
                    }
                    let r = eval_node(&body, &mut child, fuel - 1);
                    match r {
                        Err(f) => Err(f),
                        Ok(v) => match v {
                            Value::Return(inner) => Ok(*inner),
                            other => Ok(other),
                        },
                    }
                },
                other => Err(Failure::NotAFunction { value: value_to_string(&other) }),
            }
        },
        _ => Err(Failure::DepthExceeded),
    }
}

/// Exec mirror of [`truthy`], local alias.
fn is_truthy_local(v: &Value) -> (r: bool)
    ensures
        r == truthy(v.deep_view()),
{
    crate::value::is_truthy(v)
}

/// The interpreter: owns the top-level environment, which persists across
/// successive `eval` calls (the REPL reuses one interpreter).
pub struct Interpreter {
    pub env: Environment,
}

impl Interpreter {
    /// An interpreter with an empty top-level environment.
    pub fn new() -> (r: Interpreter)
        ensures
            r.env.deep_view() == (EnvModel {
                store: Seq::<(Seq<char>, ValueModel)>::empty(),
                outer: None,
            }),
    {
        Interpreter { env: Environment::new() }
    }

    /// Evaluates a node with the default depth bound.
    pub fn eval(&mut self, node: &Node) -> (r: Result<Value, Failure>)
        ensures
            ({
                let res = eval_spec(
                    node.deep_view(),
                    old(self).env.deep_view(),
                    DEFAULT_FUEL as nat,
                );
                final(self).env.deep_view() == res.env && res_matches(r, res.outcome)
            }),
    {
        eval_node(node, &mut self.env, DEFAULT_FUEL)
    }

    /// Evaluates a node with an explicit bound on call nesting.
    pub fn eval_with_fuel(&mut self, node: &Node, fuel: u64) -> (r: Result<Value, Failure>)
        ensures
            ({
                let res = eval_spec(node.deep_view(), old(self).env.deep_view(), fuel as nat);
                final(self).env.deep_view() == res.env && res_matches(r, res.outcome)
            }),
    {
        eval_node(node, &mut self.env, fuel)
    }
}

} // verus!

//! The laws the engine states about itself, each proved against the
//! mathematical semantics that the executable code is proved to match.
use crate::MAX_ATTEMPTS;
use crate::ast::NodeModel;
use crate::token::TokenModel;
use crate::floatbits::float_is_zero;
use crate::interp::eval_spec;
use crate::interp::infix_spec;
use crate::typechecker::CheckResult;
use crate::typechecker::TEnvModel;
use crate::typechecker::TypeErrorModel;
use crate::typechecker::TypeModel;
use crate::typechecker::check_spec;
use crate::value::EnvModel;
use crate::value::FailureModel;
use crate::value::ValueModel;
use vstd::prelude::*;

verus! {

broadcast use vstd::string::group_string_axioms;

/// Integer arithmetic is closed: an arithmetic operator on two integer
/// values yields an integer value, except division by zero, which fails
/// with the division failure.
pub proof fn lemma_int_arithmetic_closed(op: Seq<char>, l: i64, r: i64)
    requires
        op == "+"@ || op == "-"@ || op == "*"@ || op == "/"@,
    ensures
        op == "/"@ && r == 0 ==> infix_spec(op, ValueModel::Int(l), ValueModel::Int(r))
            == Err::<ValueModel, FailureModel>(FailureModel::DivisionByZero),
        !(op == "/"@ && r == 0) ==> (infix_spec(op, ValueModel::Int(l), ValueModel::Int(r))
            matches Ok(v) && v is Int),
{
    reveal_strlit("+");
    reveal_strlit("-");
    reveal_strlit("*");
    reveal_strlit("/");
    assert("+"@[0] == '+');
    assert("/"@[0] == '/');
    assert("+"@ != "/"@);
    assert("-"@ != "/"@);
    assert("*"@ != "/"@);
}

/// A float operand promotes the result: an arithmetic operator on two
/// numeric values with at least one float yields a float, except a
/// division that fails with the division failure.
pub proof fn lemma_float_promotion(op: Seq<char>, l: ValueModel, r: ValueModel)
    requires
        op == "+"@ || op == "-"@ || op == "*"@ || op == "/"@,
        l is Float || r is Float,
        l is Int || l is Float,
        r is Int || r is Float,
    ensures
        op != "/"@ ==> (infix_spec(op, l, r) matches Ok(v) && v is Float),
        op == "/"@ ==> (infix_spec(op, l, r) matches Ok(v) && v is Float) || infix_spec(op, l, r)
            == Err::<ValueModel, FailureModel>(FailureModel::DivisionByZero),
{
    reveal_strlit("+");
    reveal_strlit("-");
    reveal_strlit("*");
    reveal_strlit("/");
}

/// Division by zero always fails with the division failure: for integer
/// operands a zero divisor, for float operands an IEEE-zero divisor, and
/// for an integer dividend with a float-zero divisor likewise.  It never
/// produces a value.
pub proof fn lemma_division_by_zero(l: ValueModel, rz: ValueModel)
    requires
        (l is Int && rz == ValueModel::Int(0)) || ((l is Int || l is Float) && (
        rz matches ValueModel::Float(b) && float_is_zero(b))),
    ensures
        infix_spec("/"@, l, rz) == Err::<ValueModel, FailureModel>(FailureModel::DivisionByZero),
{
    reveal_strlit("+");
    reveal_strlit("-");
    reveal_strlit("*");
    reveal_strlit("/");
    assert("+"@[0] == '+');
    assert("-"@[0] == '-');
    assert("*"@[0] == '*');
    assert("/"@[0] == '/');
}

/// A live block whose body fails uses up all its attempts and then fails
/// with the exhaustion failure: it carries the fixed total attempt count
/// and the underlying failure.  Since evaluation is deterministic and the
/// environment is rolled back to the entry snapshot before every retry,
/// each attempt is the same attempt.
pub proof fn lemma_live_block_exhaustion(body: NodeModel, env: EnvModel, fuel: nat)
    requires
        eval_spec(body, env, fuel).outcome is Err,
    ensures
        match (
            eval_spec(body, env, fuel).outcome,
            eval_spec(NodeModel::LiveBlock { body: Box::new(body) }, env, fuel).outcome,
        ) {
            (Err(cause), Err(f)) => f == (FailureModel::Exhausted {
                attempts: MAX_ATTEMPTS,
                cause: Box::new(cause),
            }),
            _ => false,
        },
        MAX_ATTEMPTS == 3,
{
}

/// Rollback on retry: when a live block exhausts its attempts, the
/// environment it leaves behind is exactly what one failed attempt from
/// the entry environment leaves — mutations do not accumulate across
/// retries.
pub proof fn lemma_live_block_rollback(body: NodeModel, env: EnvModel, fuel: nat)
    requires
        eval_spec(body, env, fuel).outcome is Err,
    ensures
        eval_spec(NodeModel::LiveBlock { body: Box::new(body) }, env, fuel).env == eval_spec(
            body,
            env,
            fuel,
        ).env,
{
}

/// A live block whose body succeeds on the first attempt is transparent:
/// it produces exactly the body's value and environment, with no
/// retry-related effects.
pub proof fn lemma_live_block_transparent(body: NodeModel, env: EnvModel, fuel: nat)
    requires
        eval_spec(body, env, fuel).outcome is Ok,
    ensures
        eval_spec(NodeModel::LiveBlock { body: Box::new(body) }, env, fuel) == eval_spec(
            body,
            env,
            fuel,
        ),
{
}

/// A run of decimal digits lexes as one numeric literal: the count of
/// numeric characters from the start is the whole run.
proof fn lemma_digits_num_count(s: Seq<char>, pos: nat)
    requires
        pos <= s.len(),
        forall|i: int| 0 <= i < s.len() ==> crate::text::is_digit_char(#[trigger] s[i]),
    ensures
        crate::lexer::num_count(s, pos) == s.len() - pos,
    decreases s.len() - pos,
{
    if pos < s.len() {
        lemma_digits_num_count(s, pos + 1);
    }
}

/// Round trip for integer values, at the token level: rendering a
/// nonnegative integer and lexing the rendered text yields exactly its
/// literal token (a negative rendering carries a sign, which is not a
/// numeric literal of the language).  Together with the evaluator's
/// literal rule, a printed integer value evaluates back to itself.
pub proof fn lemma_int_render_then_lex(i: i64)
    requires
        0 <= i,
    ensures
        crate::lexer::lex_text(crate::text::int_text(i)) == Ok::<_, crate::lexer::LexErrorModel>(
            seq![TokenModel::IntLiteral(i), TokenModel::Eof],
        ),
{
    let d = crate::text::int_text(i);
    crate::text::lemma_dec_digits_value(i as nat);
    assert(d == crate::text::dec_digits(i as nat));
    assert(d.len() >= 1);
    assert(forall|j: int| 0 <= j < d.len() ==> crate::text::is_digit_char(#[trigger] d[j]));
    // The first character is a digit, so no whitespace is skipped and no
    // comment starts here.
    assert(crate::lexer::ws_count(d, 0) == 0);
    lemma_digits_num_count(d, 0);
    // The scan takes the numeric branch: a digit matches no operator or
    // delimiter and is not a letter.
    assert(d.subrange(0, d.len() as int) =~= d);
    assert(!d.contains('.')) by {
        assert(forall|j: int| 0 <= j < d.len() ==> #[trigger] d[j] != '.');
    }
    assert(crate::lexer::next_token_spec(d, 0) == (crate::lexer::LexStep::Tok {
        t: TokenModel::IntLiteral(i),
        next: d.len(),
    }));
    // Past the digits only the end marker remains.
    assert(crate::lexer::ws_count(d, d.len()) == 0);
    assert(crate::lexer::next_token_spec(d, d.len()) == (crate::lexer::LexStep::Tok {
        t: TokenModel::Eof,
        next: d.len(),
    }));
    assert(crate::lexer::lex_from(d, d.len()) == Ok::<_, crate::lexer::LexErrorModel>(
        seq![TokenModel::Eof],
    ));
    assert(seq![TokenModel::IntLiteral(i)] + seq![TokenModel::Eof] =~= seq![
        TokenModel::IntLiteral(i),
        TokenModel::Eof,
    ]);
}

/// Round trip for boolean values, at the token level: rendering a boolean
/// and lexing the rendered word yields exactly its literal token back.
pub proof fn lemma_bool_render_then_lex(b: bool)
    ensures
        crate::lexer::lex_text(crate::value::value_text(ValueModel::Bool(b))) == Ok::<
            _,
            crate::lexer::LexErrorModel,
        >(seq![TokenModel::BoolLiteral(b), TokenModel::Eof]),
{
    reveal_strlit("true");
    reveal_strlit("false");
    reveal_strlit("fn");
    reveal_strlit("let");
    reveal_strlit("static");
    reveal_strlit("live");
    reveal_strlit("assert");
    reveal_strlit("if");
    reveal_strlit("else");
    reveal_strlit("return");
    reveal_with_fuel(crate::lexer::ident_count, 7);
    let d = crate::value::value_text(ValueModel::Bool(b));
    if b {
        assert(d == "true"@);
        assert(d.len() == 4 && d[0] == 't' && d[1] == 'r' && d[2] == 'u' && d[3] == 'e');
        assert("live"@[0] == 'l' && "else"@[0] == 'e');
        assert(crate::lexer::ws_count(d, 0) == 0);
        assert(crate::lexer::ident_count(d, 0) == 4);
        assert(d.subrange(0, 4) =~= d);
        assert(crate::lexer::keyword_token(d) == TokenModel::BoolLiteral(true));
        assert(crate::lexer::next_token_spec(d, 0) == (crate::lexer::LexStep::Tok {
            t: TokenModel::BoolLiteral(true),
            next: 4nat,
        }));
        assert(crate::lexer::ws_count(d, 4) == 0);
        assert(crate::lexer::next_token_spec(d, 4) == (crate::lexer::LexStep::Tok {
            t: TokenModel::Eof,
            next: 4nat,
        }));
        assert(crate::lexer::lex_from(d, 4) == Ok::<_, crate::lexer::LexErrorModel>(
            seq![TokenModel::Eof],
        ));
        assert(seq![TokenModel::BoolLiteral(b)] + seq![TokenModel::Eof] =~= seq![
            TokenModel::BoolLiteral(b),
            TokenModel::Eof,
        ]);
    } else {
        assert(d == "false"@);
        assert(d.len() == 5 && d[0] == 'f' && d[1] == 'a' && d[2] == 'l' && d[3] == 's' && d[4]
            == 'e');
        assert("fn"@.len() == 2 && "let"@.len() == 3 && "static"@.len() == 6 && "live"@.len() == 4
            && "assert"@.len() == 6 && "if"@.len() == 2 && "else"@.len() == 4 && "return"@.len()
            == 6 && "true"@.len() == 4);
        assert(crate::lexer::ws_count(d, 0) == 0);
        assert(crate::lexer::ident_count(d, 0) == 5);
        assert(d.subrange(0, 5) =~= d);
        assert(crate::lexer::keyword_token(d) == TokenModel::BoolLiteral(false));
        assert(crate::lexer::next_token_spec(d, 0) == (crate::lexer::LexStep::Tok {
            t: TokenModel::BoolLiteral(false),
            next: 5nat,
        }));
        assert(crate::lexer::ws_count(d, 5) == 0);
        assert(crate::lexer::next_token_spec(d, 5) == (crate::lexer::LexStep::Tok {
            t: TokenModel::Eof,
            next: 5nat,
        }));
        assert(crate::lexer::lex_from(d, 5) == Ok::<_, crate::lexer::LexErrorModel>(
            seq![TokenModel::Eof],
        ));
        assert(seq![TokenModel::BoolLiteral(b)] + seq![TokenModel::Eof] =~= seq![
            TokenModel::BoolLiteral(b),
            TokenModel::Eof,
        ]);
    }
}

/// A literal body free of quotes, backslashes and NULs scans verbatim up
/// to its closing quote.
proof fn lemma_str_scan_clean(t: Seq<char>, pos: nat, end: nat)
    requires
        pos <= end < t.len(),
        t[end as int] == '"',
        forall|i: int| pos <= i < end ==> #[trigger] t[i] != '"' && t[i] != '\\' && t[i] != '\0',
    ensures
        crate::lexer::str_scan(t, pos) == (t.subrange(pos as int, end as int), end),
    decreases end - pos,
{
    if pos == end {
        assert(t.subrange(pos as int, end as int) =~= Seq::<char>::empty());
    } else {
        lemma_str_scan_clean(t, pos + 1, end);
        assert(t.subrange(pos as int, end as int) =~= seq![t[pos as int]] + t.subrange(
            pos + 1 as int,
            end as int,
        ));
    }
}

/// Round trip for string values, at the token level: rendering a string
/// that holds no quote, backslash or NUL, and lexing the rendered quoted
/// text, yields exactly its literal token back.  A quote would end the
/// literal early and a backslash would start an escape, so those
/// renderings do not survive the trip.
pub proof fn lemma_string_render_then_lex(s: Seq<char>)
    requires
        forall|i: int| 0 <= i < s.len() ==> #[trigger] s[i] != '"' && s[i] != '\\' && s[i] != '\0',
    ensures
        crate::lexer::lex_text(crate::value::value_text(ValueModel::Str(s))) == Ok::<
            _,
            crate::lexer::LexErrorModel,
        >(seq![TokenModel::StringLiteral(s), TokenModel::Eof]),
{
    reveal_strlit("\"");
    assert("\""@.len() == 1 && "\""@[0] == '"');
    let t = crate::value::value_text(ValueModel::Str(s));
    assert(t == "\""@ + s + "\""@);
    let n = s.len();
    assert(t.len() == n + 2);
    assert(t[0] == '"');
    assert(t[n + 1 as int] == '"');
    assert(forall|i: int| 1 <= i < n + 1 ==> #[trigger] t[i] == s[i - 1]);
    assert(crate::lexer::ws_count(t, 0) == 0);
    lemma_str_scan_clean(t, 1, (n + 1) as nat);
    assert(t.subrange(1, (n + 1) as int) =~= s);
    assert(crate::lexer::next_token_spec(t, 0) == (crate::lexer::LexStep::Tok {
        t: TokenModel::StringLiteral(s),
        next: (n + 2) as nat,
    }));
    assert(crate::lexer::ws_count(t, (n + 2) as nat) == 0);
    assert(crate::lexer::next_token_spec(t, (n + 2) as nat) == (crate::lexer::LexStep::Tok {
        t: TokenModel::Eof,
        next: (n + 2) as nat,
    }));
    assert(crate::lexer::lex_from(t, (n + 2) as nat) == Ok::<_, crate::lexer::LexErrorModel>(
        seq![TokenModel::Eof],
    ));
    assert(seq![TokenModel::StringLiteral(s)] + seq![TokenModel::Eof] =~= seq![
        TokenModel::StringLiteral(s),
        TokenModel::Eof,
    ]);
}

/// The checker rejects an `if` whose condition has a type that is
/// neither boolean nor `Any`.
pub proof fn lemma_if_non_boolean_condition_rejected(
    condition: NodeModel,
    consequence: NodeModel,
    alternative: Option<Box<NodeModel>>,
    env: TEnvModel,
)
    requires
        ({
            let rc = check_spec(condition, env);
            rc.outcome matches Ok(t) && t != TypeModel::Bool && t != TypeModel::Any
        }),
    ensures
        match check_spec(condition, env).outcome {
            Ok(t) => check_spec(
                NodeModel::IfStatement {
                    condition: Box::new(condition),
                    consequence: Box::new(consequence),
                    alternative,
                },
                env,
            ) == (CheckResult {
                outcome: Err(TypeErrorModel::IfConditionNotBool { found: t }),
                env: check_spec(condition, env).env,
            }),
            _ => false,
        },
{
}

/// The checker rejects a call whose argument count differs from the
/// callee's parameter count.
pub proof fn lemma_call_arity_rejected(
    function: NodeModel,
    arguments: Seq<NodeModel>,
    env: TEnvModel,
)
    requires
        ({
            let rf = check_spec(function, env);
            rf.outcome matches Ok(t) && (t matches TypeModel::Function { params, .. }
                && params.len() != arguments.len())
        }),
    ensures
        match check_spec(function, env).outcome {
            Ok(TypeModel::Function { params, .. }) => check_spec(
                NodeModel::CallExpression { function: Box::new(function), arguments },
                env,
            ) == (CheckResult {
                outcome: Err(
                    TypeErrorModel::WrongArgumentCount {
                        expected_count: params.len(),
                        got_count: arguments.len(),
                    },
                ),
                env: check_spec(function, env).env,
            }),
            _ => false,
        },
{
}

/// A callee of type `Any` always passes the checker, whatever the
/// arguments, and the call has type `Any`.
pub proof fn lemma_any_callee_accepted(
    function: NodeModel,
    arguments: Seq<NodeModel>,
    env: TEnvModel,
)
    requires
        check_spec(function, env).outcome == Ok::<TypeModel, TypeErrorModel>(TypeModel::Any),
    ensures
        check_spec(NodeModel::CallExpression { function: Box::new(function), arguments }, env)
            == (CheckResult {
            outcome: Ok(TypeModel::Any),
            env: check_spec(function, env).env,
        }),
{
}

/// An `if` condition of type `Any` passes the condition rule: the check
/// goes on to the consequence.
pub proof fn lemma_any_condition_accepted(
    condition: NodeModel,
    consequence: NodeModel,
    env: TEnvModel,
)
    requires
        check_spec(condition, env).outcome == Ok::<TypeModel, TypeErrorModel>(TypeModel::Any),
        check_spec(consequence, check_spec(condition, env).env).outcome is Ok,
    ensures
        check_spec(
            NodeModel::IfStatement {
                condition: Box::new(condition),
                consequence: Box::new(consequence),
                alternative: None,
            },
            env,
        ) == check_spec(consequence, check_spec(condition, env).env),
{
    let rcons = check_spec(consequence, check_spec(condition, env).env);
    assert(check_spec(
        NodeModel::IfStatement {
            condition: Box::new(condition),
            consequence: Box::new(consequence),
            alternative: None,
        },
        env,
    ) =~= rcons);
}

} // verus!

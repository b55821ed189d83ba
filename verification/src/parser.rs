//! The parser: recursive descent over the token stream with
//! precedence-climbing expressions and per-statement error recovery.
//!
//! Every parsing step is specified exactly by a matching spec function
//! over [`PState`], the mathematical parser state.  Nesting is bounded by
//! an explicit fuel, generous enough that any real program never reaches
//! it; running out records an ordinary parse error.
use crate::ast::Node;
use crate::ast::NodeModel;
use crate::lexer::LexErrorModel;
use crate::lexer::Lexer;
use crate::lexer::lex_from;
use crate::text::chars_to_string;
use crate::token::Token;
use crate::token::TokenModel;
use vstd::prelude::*;

verus! {

/// A recoverable syntax fault: the message, the offending token, and a
/// best-effort position.
#[derive(Debug)]
pub struct ParseError {
    pub message: String,
    pub token: Token,
    pub line: usize,
    pub column: usize,
}

/// Mathematical model of a parse error.
#[verifier::ext_equal]
pub enum ParseErrorModel {
    Fault { message: Seq<char>, token: TokenModel, line: usize, column: usize },
}

impl DeepView for ParseError {
    type V = ParseErrorModel;

    open spec fn deep_view(&self) -> ParseErrorModel {
        ParseErrorModel::Fault {
            message: self.message@,
            token: self.token.deep_view(),
            line: self.line,
            column: self.column,
        }
    }
}

impl ParseError {
    /// Renders the error as one line of text.
    pub fn to_text(&self) -> (s: String)
        ensures
            s@ == parse_error_text(self.deep_view()),
    {
        let mut out = String::from_str("Parse error at line ");
        let l = crate::text::u64_to_string(self.line as u64);
        out.append(l.as_str());
        out.append(", column ");
        let c = crate::text::u64_to_string(self.column as u64);
        out.append(c.as_str());
        out.append(": ");
        out.append(self.message.as_str());
        out
    }

    /// An owned copy.
    pub fn duplicate(&self) -> (r: ParseError)
        ensures
            r.deep_view() == self.deep_view(),
    {
        ParseError {
            message: self.message.clone(),
            token: self.token.duplicate(),
            line: self.line,
            column: self.column,
        }
    }
}

/// The rendered text of a parse error.
pub open spec fn parse_error_text(e: ParseErrorModel) -> Seq<char> {
    match e {
        ParseErrorModel::Fault { message, token, line, column } => "Parse error at line "@
            + crate::text::dec_digits(line as nat) + ", column "@ + crate::text::dec_digits(
            column as nat,
        ) + ": "@ + message,
    }
}

/// An owned copy of an error list.
#[verifier::loop_isolation(false)]
pub fn duplicate_errors(v: &Vec<ParseError>) -> (r: Vec<ParseError>)
    ensures
        r.deep_view() == v.deep_view(),
{
    let mut r: Vec<ParseError> = Vec::new();
    let mut i: usize = 0;
    while i < v.len()
        invariant
            i <= v@.len(),
            r.deep_view() =~= v.deep_view().subrange(0, i as int),
        decreases v@.len() - i,
    {
        let ghost r0 = r.deep_view();
        r.push(v[i].duplicate());
        proof {
            assert(r.deep_view() =~= r0.push(v.deep_view()[i as int]));
            assert(r.deep_view() =~= v.deep_view().subrange(0, i + 1));
        }
        i += 1;
    }
    proof {
        assert(r.deep_view() =~= v.deep_view());
    }
    r
}

/// The mathematical parser state: the fixed token stream, the position,
/// the best-effort line and column, and the errors recorded so far.
#[verifier::ext_equal]
pub struct PState {
    pub toks: Seq<TokenModel>,
    pub pos: nat,
    pub line: usize,
    pub col: usize,
    pub errs: Seq<ParseErrorModel>,
}

/// The token at a position; past the end, the end marker.
pub open spec fn tok_at(toks: Seq<TokenModel>, pos: nat) -> TokenModel {
    if pos < toks.len() {
        toks[pos as int]
    } else {
        TokenModel::Eof
    }
}

/// The current token of a state.
pub open spec fn cur(st: PState) -> TokenModel {
    tok_at(st.toks, st.pos)
}

/// The token one past the current one.
pub open spec fn peek(st: PState) -> TokenModel {
    tok_at(st.toks, st.pos + 1)
}

/// A saturating increment, for position counters.
pub open spec fn bump(x: usize) -> usize {
    if x < usize::MAX {
        (x + 1) as usize
    } else {
        x
    }
}

/// Walks the characters of a string literal, advancing the line on each
/// newline and the column otherwise.
pub open spec fn lc_chars(line: usize, col: usize, s: Seq<char>) -> (usize, usize)
    decreases s.len(),
{
    if s.len() == 0 {
        (line, col)
    } else if s[0] == '\n' {
        lc_chars(bump(line), 1usize, s.drop_first())
    } else {
        lc_chars(line, bump(col), s.drop_first())
    }
}

/// The best-effort position update for one newly current token: a string
/// literal walks its characters; a semicolon starts a new line; anything
/// else advances the column.
pub open spec fn lc_update(line: usize, col: usize, t: TokenModel) -> (usize, usize) {
    match t {
        TokenModel::StringLiteral(s) => lc_chars(line, col, s),
        TokenModel::Semicolon => (bump(line), 1usize),
        _ => (line, bump(col)),
    }
}

/// Advances past the current token, updating the position estimate from
/// the newly current one; at the end of the stream the position stays.
pub open spec fn advance(st: PState) -> PState {
    let p2 = if st.pos < st.toks.len() {
        st.pos + 1
    } else {
        st.pos
    };
    let lc = lc_update(st.line, st.col, tok_at(st.toks, p2));
    PState { pos: p2, line: lc.0, col: lc.1, ..st }
}

/// A parse error at the current token.
pub open spec fn error_here(st: PState, message: Seq<char>) -> ParseErrorModel {
    ParseErrorModel::Fault { message, token: cur(st), line: st.line, column: st.col }
}

/// Records an error.
pub open spec fn push_err(st: PState, e: ParseErrorModel) -> PState {
    PState { errs: st.errs.push(e), ..st }
}

/// The error recorded when the fuel bound is reached.
pub open spec fn depth_error(st: PState) -> ParseErrorModel {
    error_here(st, "Nesting depth limit exceeded"@)
}

/// Whether a token plausibly starts a new statement.
pub open spec fn starts_statement(t: TokenModel) -> bool {
    t == TokenModel::Function || t == TokenModel::Let || t == TokenModel::Return || t
        == TokenModel::Live || t == TokenModel::Assert || t == TokenModel::If
}

/// The synchronization walk after the initial skip: advances until a
/// semicolon is consumed, a statement-starting keyword is reached, or the
/// input ends.
pub open spec fn sync_loop(st: PState, fuel: nat) -> PState
    decreases fuel,
{
    if fuel == 0 {
        st
    } else if cur(st) == TokenModel::Eof {
        st
    } else if cur(st) == TokenModel::Semicolon {
        advance(st)
    } else if starts_statement(cur(st)) {
        st
    } else {
        sync_loop(advance(st), (fuel - 1) as nat)
    }
}

/// Error recovery: skip past the offending token, then to the next
/// plausible statement boundary.
pub open spec fn synchronize_spec(st: PState, fuel: nat) -> PState {
    sync_loop(advance(st), fuel)
}

/// Operator binding power: equality binds weakest, then relational,
/// additive, multiplicative; a call binds tightest.
pub open spec fn precedence_of(t: TokenModel) -> u8 {
    match t {
        TokenModel::Equal => 2,
        TokenModel::NotEqual => 2,
        TokenModel::Less => 3,
        TokenModel::Greater => 3,
        TokenModel::LessEqual => 3,
        TokenModel::GreaterEqual => 3,
        TokenModel::Plus => 4,
        TokenModel::Minus => 4,
        TokenModel::Multiply => 5,
        TokenModel::Divide => 5,
        TokenModel::LeftParen => 6,
        _ => 0,
    }
}

/// The message of a fatal lexical fault, as the parser records it.
pub open spec fn lex_error_message(e: LexErrorModel) -> Seq<char> {
    match e {
        LexErrorModel::UnexpectedChar { ch, at } => "Unexpected character: "@ + seq![ch],
        LexErrorModel::IntegerOverflow { at } => "Integer literal out of range"@,
        LexErrorModel::BadFloatLiteral { at } => "Malformed float literal"@,
    }
}

/// The parser state a fresh parser starts in: at the first token, with
/// the position estimate advanced once for the initial window shift and
/// once for the first token.
pub open spec fn init_state(toks: Seq<TokenModel>, errs: Seq<ParseErrorModel>) -> PState {
    let lc0 = lc_update(1, 1, TokenModel::Eof);
    let lc1 = lc_update(lc0.0, lc0.1, tok_at(toks, 0));
    PState { toks, pos: 0, line: lc1.0, col: lc1.1, errs }
}

/// The state `Parser::new` reaches for a lexer over the given text: the
/// whole text is tokenized up front; a fatal lexical fault leaves an
/// empty stream with the fault recorded as a parse error.
pub open spec fn new_parser_state(text: Seq<char>, from: nat) -> PState {
    match lex_from(text, from) {
        Ok(toks) => init_state(toks, Seq::<ParseErrorModel>::empty()),
        Err(e) => init_state(
            seq![TokenModel::Eof],
            seq![
                ParseErrorModel::Fault {
                    message: lex_error_message(e),
                    token: TokenModel::Eof,
                    line: 1,
                    column: 1,
                },
            ],
        ),
    }
}

/// Whether a token is a binary operator.
pub open spec fn is_binop(t: TokenModel) -> bool {
    t == TokenModel::Plus || t == TokenModel::Minus || t == TokenModel::Multiply || t
        == TokenModel::Divide || t == TokenModel::Equal || t == TokenModel::NotEqual || t
        == TokenModel::Less || t == TokenModel::Greater || t == TokenModel::LessEqual || t
        == TokenModel::GreaterEqual
}

/// The source text of an operator token; empty for anything else.
pub open spec fn op_string(t: TokenModel) -> Seq<char> {
    match t {
        TokenModel::Plus => "+"@,
        TokenModel::Minus => "-"@,
        TokenModel::Multiply => "*"@,
        TokenModel::Divide => "/"@,
        TokenModel::Equal => "=="@,
        TokenModel::NotEqual => "!="@,
        TokenModel::Less => "<"@,
        TokenModel::Greater => ">"@,
        TokenModel::LessEqual => "<="@,
        TokenModel::GreaterEqual => ">="@,
        _ => Seq::<char>::empty(),
    }
}

/// The operator texts are nonempty.
pub proof fn lemma_op_strings()
    ensures
        "+"@.len() == 1,
        "-"@.len() == 1,
        "*"@.len() == 1,
        "/"@.len() == 1,
        "=="@.len() == 2,
        "!="@.len() == 2,
        "<"@.len() == 1,
        ">"@.len() == 1,
        "<="@.len() == 2,
        ">="@.len() == 2,
{
    reveal_strlit("+");
    reveal_strlit("-");
    reveal_strlit("*");
    reveal_strlit("/");
    reveal_strlit("==");
    reveal_strlit("!=");
    reveal_strlit("<");
    reveal_strlit(">");
    reveal_strlit("<=");
    reveal_strlit(">=");
}

/// Parses one expression with the given minimum binding power: a prefix
/// atom (a literal, an identifier, or a parenthesized expression), then a
/// precedence climb over infix operators and calls.  `None` records an
/// error and produces no node.
pub open spec fn parse_expression_spec(st: PState, prec: u8, fuel: nat) -> (
    Option<NodeModel>,
    PState,
)
    decreases fuel, 2nat,
{
    if fuel == 0 {
        (None, push_err(st, depth_error(st)))
    } else {
        let f2 = (fuel - 1) as nat;
        if cur(st) == TokenModel::LeftParen {
            let r = parse_expression_spec(advance(st), 0, f2);
            if peek(r.1) != TokenModel::RightParen {
                (None, push_err(r.1, error_here(r.1, "Expected ')'"@)))
            } else {
                let st2 = advance(r.1);
                match r.0 {
                    None => (None, push_err(st2, error_here(st2, "No prefix parse function"@))),
                    Some(e) => parse_climb_spec(e, prec, st2, f2),
                }
            }
        } else {
            let atom = match cur(st) {
                TokenModel::Identifier(n) => Some(NodeModel::Identifier(n)),
                TokenModel::IntLiteral(v) => Some(NodeModel::IntegerLiteral(v)),
                TokenModel::FloatLiteral(b) => Some(NodeModel::FloatLiteral(b)),
                TokenModel::StringLiteral(s) => Some(NodeModel::StringLiteral(s)),
                TokenModel::BoolLiteral(b) => Some(NodeModel::BooleanLiteral(b)),
                _ => None,
            };
            match atom {
                None => (None, push_err(st, error_here(st, "No prefix parse function"@))),
                Some(a) => parse_climb_spec(a, prec, st, f2),
            }
        }
    }
}

/// The precedence climb: while the next token binds tighter than `prec`,
/// extends `left` with an infix application or a call.
pub open spec fn parse_climb_spec(left: NodeModel, prec: u8, st: PState, fuel: nat) -> (
    Option<NodeModel>,
    PState,
)
    decreases fuel, 1nat,
{
    if fuel == 0 {
        (None, push_err(st, depth_error(st)))
    } else {
        let f2 = (fuel - 1) as nat;
        let p = peek(st);
        if p == TokenModel::Semicolon || !(prec < precedence_of(p)) {
            (Some(left), st)
        } else if is_binop(p) {
            let r = parse_infix_spec(left, advance(st), f2);
            match r.0 {
                None => (None, r.1),
                Some(l2) => parse_climb_spec(l2, prec, r.1, f2),
            }
        } else if p == TokenModel::LeftParen {
            let r = parse_call_spec(left, advance(st), f2);
            match r.0 {
                None => (None, r.1),
                Some(l2) => parse_climb_spec(l2, prec, r.1, f2),
            }
        } else {
            (Some(left), st)
        }
    }
}

/// Parses the right side of an infix operator, which binds at the
/// operator's own power, and builds the application.
pub open spec fn parse_infix_spec(left: NodeModel, st: PState, fuel: nat) -> (
    Option<NodeModel>,
    PState,
)
    decreases fuel, 3nat,
{
    if op_string(cur(st)).len() == 0 {
        (None, push_err(st, error_here(st, "Invalid operator"@)))
    } else {
        let op = op_string(cur(st));
        let prec = precedence_of(cur(st));
        let r = parse_expression_spec(advance(st), prec, fuel);
        match r.0 {
            None => (None, push_err(r.1, error_here(r.1, "Expected right-hand expression"@))),
            Some(right) => (
                Some(
                    NodeModel::InfixExpression {
                        left: Box::new(left),
                        operator: op,
                        right: Box::new(right),
                    },
                ),
                r.1,
            ),
        }
    }
}

/// Parses a call's argument list and builds the call.
pub open spec fn parse_call_spec(callee: NodeModel, st: PState, fuel: nat) -> (
    Option<NodeModel>,
    PState,
)
    decreases fuel, 2nat,
{
    let r = parse_call_args_spec(st, fuel);
    match r.0 {
        None => (None, r.1),
        Some(args) => (
            Some(NodeModel::CallExpression { function: Box::new(callee), arguments: args }),
            r.1,
        ),
    }
}

/// Parses the comma-separated arguments between the parentheses of a
/// call; the current token is the opening parenthesis.
pub open spec fn parse_call_args_spec(st: PState, fuel: nat) -> (Option<Seq<NodeModel>>, PState)
    decreases fuel, 1nat,
{
    if fuel == 0 {
        (None, push_err(st, depth_error(st)))
    } else {
        let f2 = (fuel - 1) as nat;
        if peek(st) == TokenModel::RightParen {
            (Some(Seq::<NodeModel>::empty()), advance(st))
        } else {
            let st1 = advance(st);
            let r = parse_expression_spec(st1, 0, f2);
            match r.0 {
                None => (
                    None,
                    push_err(r.1, error_here(r.1, "Expected expression in function arguments"@)),
                ),
                Some(a0) => args_loop_spec(seq![a0], r.1, f2),
            }
        }
    }
}

/// The rest of an argument list after the first argument.
pub open spec fn args_loop_spec(acc: Seq<NodeModel>, st: PState, fuel: nat) -> (
    Option<Seq<NodeModel>>,
    PState,
)
    decreases fuel, 0nat,
{
    if fuel == 0 {
        (None, push_err(st, depth_error(st)))
    } else {
        let f2 = (fuel - 1) as nat;
        if peek(st) == TokenModel::Comma {
            let st1 = advance(advance(st));
            let r = parse_expression_spec(st1, 0, f2);
            match r.0 {
                None => (
                    None,
                    push_err(
                        r.1,
                        error_here(r.1, "Expected expression after comma in function arguments"@),
                    ),
                ),
                Some(a) => args_loop_spec(acc.push(a), r.1, f2),
            }
        } else if peek(st) != TokenModel::RightParen {
            (
                None,
                push_err(
                    st,
                    ParseErrorModel::Fault {
                        message: "Expected ')' after arguments"@,
                        token: peek(st),
                        line: st.line,
                        column: st.col,
                    },
                ),
            )
        } else {
            (Some(acc), advance(st))
        }
    }
}

/// Parses one statement, dispatching on the current token.
pub open spec fn parse_statement_spec(st: PState, fuel: nat) -> (
    Result<NodeModel, ParseErrorModel>,
    PState,
)
    decreases fuel, 1nat,
{
    if fuel == 0 {
        (Err(depth_error(st)), st)
    } else {
        let f2 = (fuel - 1) as nat;
        match cur(st) {
            TokenModel::Function => parse_function_spec(st, f2),
            TokenModel::Let => parse_let_spec(st, f2),
            TokenModel::Static => {
                let st1 = advance(st);
                if cur(st1) == TokenModel::Let {
                    parse_let_spec(st1, f2)
                } else {
                    (Err(error_here(st1, "Expected 'let' after 'static'"@)), st1)
                }
            },
            TokenModel::Return => parse_return_spec(st, f2),
            TokenModel::Live => parse_live_spec(st, f2),
            TokenModel::Assert => parse_assert_spec(st, f2),
            TokenModel::If => parse_if_spec(st, f2),
            _ => parse_expr_stmt_spec(st, f2),
        }
    }
}

/// Parses a function declaration: name, parenthesized parameter list,
/// block body.  A missing parenthesis after `main` gets the friendlier
/// message.
pub open spec fn parse_function_spec(st: PState, fuel: nat) -> (
    Result<NodeModel, ParseErrorModel>,
    PState,
)
    decreases fuel, 3nat,
{
    let st1 = advance(st);
    match cur(st1) {
        TokenModel::Identifier(name) => {
            let st2 = advance(st1);
            if cur(st2) != TokenModel::LeftParen {
                if name == "main"@ {
                    (
                        Err(
                            error_here(
                                st2,
                                "Expected '(' after function name 'main'. Functions in Resilient must have parameters, even if unused. Try: fn main(int dummy) { ... }"@,
                            ),
                        ),
                        st2,
                    )
                } else {
                    (Err(error_here(st2, "Expected '(' after function name"@)), st2)
                }
            } else {
                let st3 = advance(st2);
                let r = params_loop_spec(Seq::<(Seq<char>, Seq<char>)>::empty(), st3, fuel);
                match r.0 {
                    Err(e) => (Err(e), r.1),
                    Ok(params) => {
                        if cur(r.1) != TokenModel::LeftBrace {
                            (
                                Err(error_here(r.1, "Expected '{' after function parameters"@)),
                                r.1,
                            )
                        } else {
                            let b = parse_block_spec(r.1, fuel);
                            match b.0 {
                                Err(e) => (Err(e), b.1),
                                Ok(body) => (
                                    Ok(
                                        NodeModel::Function {
                                            name,
                                            parameters: params,
                                            body: Box::new(body),
                                        },
                                    ),
                                    b.1,
                                ),
                            }
                        }
                    },
                }
            }
        },
        _ => (Err(error_here(st1, "Expected identifier after 'fn'"@)), st1),
    }
}

/// Parses the parameter list: each parameter is an explicit
/// (type-name, parameter-name) pair; a trailing type with no name gets a
/// placeholder name.
pub open spec fn params_loop_spec(
    acc: Seq<(Seq<char>, Seq<char>)>,
    st: PState,
    fuel: nat,
) -> (Result<Seq<(Seq<char>, Seq<char>)>, ParseErrorModel>, PState)
    decreases fuel, 1nat,
{
    if cur(st) == TokenModel::RightParen {
        (Ok(acc), advance(st))
    } else if cur(st) == TokenModel::Eof {
        (Err(error_here(st, "Unclosed parameter list, expected ')'"@)), st)
    } else if fuel == 0 {
        (Err(depth_error(st)), st)
    } else {
        match cur(st) {
            TokenModel::Identifier(ty) => {
                let st1 = advance(st);
                if cur(st1) == TokenModel::RightParen {
                    (Ok(acc.push((ty, "_unnamed"@))), advance(st1))
                } else {
                    match cur(st1) {
                        TokenModel::Identifier(nm) => {
                            let st2 = advance(st1);
                            if cur(st2) == TokenModel::Comma {
                                params_loop_spec(
                                    acc.push((ty, nm)),
                                    advance(st2),
                                    (fuel - 1) as nat,
                                )
                            } else if cur(st2) == TokenModel::RightParen {
                                (Ok(acc.push((ty, nm))), advance(st2))
                            } else {
                                (
                                    Err(error_here(st2, "Expected ',' or ')' after parameter"@)),
                                    st2,
                                )
                            }
                        },
                        _ => (Err(error_here(st1, "Expected parameter name after type"@)), st1),
                    }
                }
            },
            _ => (Err(error_here(st, "Expected parameter type"@)), st),
        }
    }
}

/// Parses a brace-delimited block: statements until the closing brace,
/// with per-statement error recovery; an unterminated block at the end of
/// input is an explicit error.  The current token must be the opening
/// brace; afterwards it is the closing one.
pub open spec fn parse_block_spec(st: PState, fuel: nat) -> (
    Result<NodeModel, ParseErrorModel>,
    PState,
)
    decreases fuel, 1nat,
{
    block_loop_spec(Seq::<NodeModel>::empty(), advance(st), fuel)
}

/// The statements of a block.
pub open spec fn block_loop_spec(acc: Seq<NodeModel>, st: PState, fuel: nat) -> (
    Result<NodeModel, ParseErrorModel>,
    PState,
)
    decreases fuel, 0nat,
{
    if cur(st) == TokenModel::RightBrace {
        (Ok(NodeModel::Block(acc)), st)
    } else if cur(st) == TokenModel::Eof {
        (Err(error_here(st, "Unclosed block, expected '}'"@)), st)
    } else if fuel == 0 {
        (Err(depth_error(st)), st)
    } else {
        let f2 = (fuel - 1) as nat;
        let r = parse_statement_spec(st, f2);
        match r.0 {
            Ok(n) => {
                let st3 = if cur(r.1) == TokenModel::Eof {
                    r.1
                } else {
                    advance(r.1)
                };
                block_loop_spec(acc.push(n), st3, f2)
            },
            Err(e) => block_loop_spec(acc, synchronize_spec(push_err(r.1, e), f2), f2),
        }
    }
}

/// Parses `let name = expression ;`.
pub open spec fn parse_let_spec(st: PState, fuel: nat) -> (
    Result<NodeModel, ParseErrorModel>,
    PState,
)
    decreases fuel, 3nat,
{
    let st1 = advance(st);
    match cur(st1) {
        TokenModel::Identifier(name) => {
            let st2 = advance(st1);
            if cur(st2) != TokenModel::Assign {
                (Err(error_here(st2, "Expected '=' after identifier in let statement"@)), st2)
            } else {
                let r = parse_expression_spec(advance(st2), 0, fuel);
                match r.0 {
                    None => (
                        Err(
                            error_here(r.1, "Expected expression after '=' in let statement"@),
                        ),
                        r.1,
                    ),
                    Some(v) => {
                        let st5 = if peek(r.1) == TokenModel::Semicolon {
                            advance(r.1)
                        } else {
                            r.1
                        };
                        (Ok(NodeModel::LetStatement { name, value: Box::new(v) }), st5)
                    },
                }
            }
        },
        _ => (Err(error_here(st1, "Expected identifier after 'let'"@)), st1),
    }
}

/// Parses `return ;` or `return expression ;`.
pub open spec fn parse_return_spec(st: PState, fuel: nat) -> (
    Result<NodeModel, ParseErrorModel>,
    PState,
)
    decreases fuel, 3nat,
{
    let st1 = advance(st);
    if cur(st1) == TokenModel::Semicolon {
        (Ok(NodeModel::ReturnStatement { value: Box::new(NodeModel::Void) }), st1)
    } else {
        let r = parse_expression_spec(st1, 0, fuel);
        match r.0 {
            None => (Err(error_here(r.1, "Expected expression after 'return'"@)), r.1),
            Some(v) => {
                let st5 = if peek(r.1) == TokenModel::Semicolon {
                    advance(r.1)
                } else {
                    r.1
                };
                (Ok(NodeModel::ReturnStatement { value: Box::new(v) }), st5)
            },
        }
    }
}

/// Parses `live { ... }`.
pub open spec fn parse_live_spec(st: PState, fuel: nat) -> (
    Result<NodeModel, ParseErrorModel>,
    PState,
)
    decreases fuel, 3nat,
{
    let st1 = advance(st);
    if cur(st1) != TokenModel::LeftBrace {
        (Err(error_here(st1, "Expected '{' after 'live'"@)), st1)
    } else {
        let b = parse_block_spec(st1, fuel);
        match b.0 {
            Err(e) => (Err(e), b.1),
            Ok(body) => (Ok(NodeModel::LiveBlock { body: Box::new(body) }), b.1),
        }
    }
}

/// Parses `assert(condition)` or `assert(condition, message)`, with an
/// optional trailing semicolon.
pub open spec fn parse_assert_spec(st: PState, fuel: nat) -> (
    Result<NodeModel, ParseErrorModel>,
    PState,
)
    decreases fuel, 3nat,
{
    let st1 = advance(st);
    if cur(st1) != TokenModel::LeftParen {
        (Err(error_here(st1, "Expected '(' after 'assert'"@)), st1)
    } else {
        let r = parse_expression_spec(advance(st1), 0, fuel);
        match r.0 {
            None => (
                Err(error_here(r.1, "Expected condition expression in assert statement"@)),
                r.1,
            ),
            Some(cond) => {
                if peek(r.1) == TokenModel::Comma {
                    let m = parse_expression_spec(advance(advance(r.1)), 0, fuel);
                    match m.0 {
                        None => (
                            Err(
                                error_here(
                                    m.1,
                                    "Expected message expression after comma in assert statement"@,
                                ),
                            ),
                            m.1,
                        ),
                        Some(msg) => assert_close_spec(cond, Some(msg), m.1),
                    }
                } else {
                    assert_close_spec(cond, None, r.1)
                }
            },
        }
    }
}

/// The closing parenthesis and optional semicolon of an assert.
pub open spec fn assert_close_spec(
    cond: NodeModel,
    message: Option<NodeModel>,
    st: PState,
) -> (Result<NodeModel, ParseErrorModel>, PState) {
    if peek(st) != TokenModel::RightParen {
        (Err(error_here(st, "Expected ')' after assert condition"@)), st)
    } else {
        let st2 = advance(st);
        let st3 = if peek(st2) == TokenModel::Semicolon {
            advance(st2)
        } else {
            st2
        };
        let msg = match message {
            Some(m) => Some(Box::new(m)),
            None => None,
        };
        (Ok(NodeModel::Assert { condition: Box::new(cond), message: msg }), st3)
    }
}

/// Parses `if condition { ... } else { ... }`, with or without
/// parentheses around the condition, the alternative optional.
pub open spec fn parse_if_spec(st: PState, fuel: nat) -> (
    Result<NodeModel, ParseErrorModel>,
    PState,
)
    decreases fuel, 3nat,
{
    let st1 = advance(st);
    let head = if cur(st1) == TokenModel::LeftParen {
        let r = parse_expression_spec(advance(st1), 0, fuel);
        match r.0 {
            None => (
                Err(error_here(r.1, "Expected condition expression after 'if'"@)),
                r.1,
            ),
            Some(c) => {
                if peek(r.1) != TokenModel::RightParen {
                    (Err(error_here(r.1, "Expected ')' after if condition"@)), r.1)
                } else {
                    (Ok(c), advance(advance(r.1)))
                }
            },
        }
    } else {
        let r = parse_expression_spec(st1, 0, fuel);
        match r.0 {
            None => (
                Err(error_here(r.1, "Expected condition expression after 'if'"@)),
                r.1,
            ),
            Some(c) => (Ok(c), advance(r.1)),
        }
    };
    match head.0 {
        Err(e) => (Err(e), head.1),
        Ok(cond) => {
            if cur(head.1) != TokenModel::LeftBrace {
                (Err(error_here(head.1, "Expected '{' after if condition"@)), head.1)
            } else {
                let b = parse_block_spec(head.1, fuel);
                match b.0 {
                    Err(e) => (Err(e), b.1),
                    Ok(cons) => {
                        if peek(b.1) == TokenModel::Else {
                            let st6 = advance(advance(b.1));
                            if cur(st6) != TokenModel::LeftBrace {
                                (Err(error_here(st6, "Expected '{' after 'else'"@)), st6)
                            } else {
                                let a = parse_block_spec(st6, fuel);
                                match a.0 {
                                    Err(e) => (Err(e), a.1),
                                    Ok(alt) => (
                                        Ok(
                                            NodeModel::IfStatement {
                                                condition: Box::new(cond),
                                                consequence: Box::new(cons),
                                                alternative: Some(Box::new(alt)),
                                            },
                                        ),
                                        a.1,
                                    ),
                                }
                            }
                        } else {
                            (
                                Ok(
                                    NodeModel::IfStatement {
                                        condition: Box::new(cond),
                                        consequence: Box::new(cons),
                                        alternative: None,
                                    },
                                ),
                                b.1,
                            )
                        }
                    },
                }
            }
        },
    }
}

/// Parses an expression in statement position, with an optional trailing
/// semicolon.
pub open spec fn parse_expr_stmt_spec(st: PState, fuel: nat) -> (
    Result<NodeModel, ParseErrorModel>,
    PState,
)
    decreases fuel, 3nat,
{
    let r = parse_expression_spec(st, 0, fuel);
    match r.0 {
        None => (Err(error_here(r.1, "Expected expression"@)), r.1),
        Some(e) => {
            let st5 = if peek(r.1) == TokenModel::Semicolon {
                advance(r.1)
            } else {
                r.1
            };
            (Ok(NodeModel::ExpressionStatement(Box::new(e))), st5)
        },
    }
}

/// The top-level statement walk: statements until the end marker.  A
/// malformed statement records its error and synchronizes to the next
/// plausible statement boundary, so one pass can surface several
/// independent errors.
pub open spec fn parse_program_loop(st: PState, acc: Seq<NodeModel>, fuel: nat) -> (
    Seq<NodeModel>,
    PState,
)
    decreases fuel,
{
    if cur(st) == TokenModel::Eof {
        (acc, st)
    } else if fuel == 0 {
        (acc, push_err(st, depth_error(st)))
    } else {
        let f2 = (fuel - 1) as nat;
        let r = parse_statement_spec(st, f2);
        match r.0 {
            Ok(n) => {
                let st3 = if cur(r.1) == TokenModel::Eof {
                    r.1
                } else {
                    advance(r.1)
                };
                parse_program_loop(st3, acc.push(n), f2)
            },
            Err(e) => parse_program_loop(synchronize_spec(push_err(r.1, e), f2), acc, f2),
        }
    }
}

/// The fuel bound a program parse starts with: ample for any real input.
pub open spec fn program_fuel(len: nat) -> nat {
    if 10 * len + 16 <= u64::MAX {
        10 * len + 16
    } else {
        u64::MAX as nat
    }
}

/// A whole program: the collected top-level statements, and all recorded
/// errors.  The program node is handed back even when errors were
/// recorded.
pub open spec fn parse_program_full(st: PState) -> (NodeModel, PState) {
    let r = parse_program_loop(st, Seq::<NodeModel>::empty(), program_fuel(st.toks.len()));
    (NodeModel::Program(r.0), r.1)
}

/// The parser: the tokenized input, the current position, the best-effort
/// line and column, and the errors collected so far.
pub struct Parser {
    pub tokens: Vec<Token>,
    pub position: usize,
    pub line: usize,
    pub column: usize,
    pub errors: Vec<ParseError>,
}

/// The model of a parser.
pub open spec fn parser_view(p: Parser) -> PState {
    PState {
        toks: p.tokens.deep_view(),
        pos: p.position as nat,
        line: p.line,
        col: p.column,
        errs: p.errors.deep_view(),
    }
}

impl Parser {
    /// A parser over the lexer's text.  The whole text is tokenized up
    /// front; a fatal lexical fault is recorded as a parse error and
    /// leaves an empty token stream.
    pub fn new(lexer: Lexer) -> (p: Parser)
        ensures
            parser_view(p) == new_parser_state(
                lexer.input@,
                if lexer.position <= lexer.input@.len() {
                    lexer.position as nat
                } else {
                    lexer.input@.len()
                },
            ),
    {
        let mut lx = lexer;
        if lx.position > lx.input.len() {
            lx.position = lx.input.len();
        }
        let (tokens, errors) = match lx.lex_all() {
            Ok(toks) => (toks, Vec::<ParseError>::new()),
            Err(e) => {
                let msg: String = match e {
                    crate::lexer::LexError::UnexpectedChar { ch, at } => {
                        let mut m = String::from_str("Unexpected character: ");
                        let mut cv: Vec<char> = Vec::new();
                        cv.push(ch);
                        let cs = chars_to_string(&cv);
                        m.append(cs.as_str());
                        proof {
                            assert(cv@ =~= seq![ch]);
                        }
                        m
                    },
                    crate::lexer::LexError::IntegerOverflow { at } => String::from_str(
                        "Integer literal out of range",
                    ),
                    crate::lexer::LexError::BadFloatLiteral { at } => String::from_str(
                        "Malformed float literal",
                    ),
                };
                let mut toks: Vec<Token> = Vec::new();
                toks.push(Token::Eof);
                let mut errs: Vec<ParseError> = Vec::new();
                errs.push(ParseError { message: msg, token: Token::Eof, line: 1, column: 1 });
                proof {
                    assert(toks.deep_view() =~= seq![TokenModel::Eof]);
                }
                (toks, errs)
            },
        };
        let mut p = Parser { tokens, position: 0, line: 1, column: 1, errors };
        p.note_current_token_position(&Token::Eof);
        let first = p.current();
        p.note_current_token_position(&first);
        proof {
            assert(parser_view(p) =~= new_parser_state(
                lexer.input@,
                if lexer.position <= lexer.input@.len() {
                    lexer.position as nat
                } else {
                    lexer.input@.len()
                },
            ));
        }
        p
    }

    /// An owned copy of the current token.
    pub fn current(&self) -> (t: Token)
        ensures
            t.deep_view() == cur(parser_view(*self)),
    {
        if self.position < self.tokens.len() {
            self.tokens[self.position].duplicate()
        } else {
            Token::Eof
        }
    }

    /// An owned copy of the token after the current one.
    pub fn peek(&self) -> (t: Token)
        ensures
            t.deep_view() == peek(parser_view(*self)),
    {
        let n = self.tokens.len();
        if self.position < n && self.position + 1 < n {
            self.tokens[self.position + 1].duplicate()
        } else {
            proof {
                assert(self.tokens.deep_view().len() == self.tokens@.len());
                assert(self.position as nat + 1 >= self.tokens.deep_view().len());
            }
            Token::Eof
        }
    }

    /// Updates the best-effort line and column for a newly current token.
    #[verifier::loop_isolation(false)]
    fn note_current_token_position(&mut self, t: &Token)
        ensures
            final(self).tokens == old(self).tokens,
            final(self).position == old(self).position,
            final(self).errors == old(self).errors,
            (final(self).line, final(self).column) == lc_update(
                old(self).line,
                old(self).column,
                t.deep_view(),
            ),
    {
        match t {
            Token::StringLiteral(s) => {
                let n = s.as_str().unicode_len();
                let mut i: usize = 0;
                let ghost sv = s@;
                proof {
                    assert(sv.skip(0) =~= sv);
                }
                while i < n
                    invariant
                        i <= n,
                        n == sv.len(),
                        sv == s@,
                        self.tokens == old(self).tokens,
                        self.position == old(self).position,
                        self.errors == old(self).errors,
                        lc_chars(old(self).line, old(self).column, sv) == lc_chars(
                            self.line,
                            self.column,
                            sv.skip(i as int),
                        ),
                    decreases n - i,
                {
                    let c = s.as_str().get_char(i);
                    proof {
                        assert(sv.skip(i as int)[0] == sv[i as int]);
                        assert(sv.skip(i as int).drop_first() =~= sv.skip(i + 1));
                    }
                    if c == '\n' {
                        self.line = if self.line < usize::MAX {
                            self.line + 1
                        } else {
                            self.line
                        };
                        self.column = 1;
                    } else {
                        self.column = if self.column < usize::MAX {
                            self.column + 1
                        } else {
                            self.column
                        };
                    }
                    i += 1;
                }
                proof {
                    assert(sv.skip(i as int) =~= Seq::<char>::empty());
                }
            },
            Token::Semicolon => {
                self.line = if self.line < usize::MAX {
                    self.line + 1
                } else {
                    self.line
                };
                self.column = 1;
            },
            _ => {
                self.column = if self.column < usize::MAX {
                    self.column + 1
                } else {
                    self.column
                };
            },
        }
    }

    /// Advances past the current token, updating the position estimate;
    /// past the end of the stream the position stays put and only the
    /// estimate moves.
    pub fn next_token(&mut self)
        ensures
            parser_view(*final(self)) == advance(parser_view(*old(self))),
    {
        if self.position < self.tokens.len() {
            self.position = self.position + 1;
        }
        let t = self.current();
        self.note_current_token_position(&t);
    }

    /// A parse error at the current token.
    fn error_here(&self, message: &str) -> (e: ParseError)
        ensures
            e.deep_view() == error_here(parser_view(*self), message@),
    {
        ParseError {
            message: String::from_str(message),
            token: self.current(),
            line: self.line,
            column: self.column,
        }
    }

    /// Records an error against the stream.
    fn push_error(&mut self, e: ParseError)
        ensures
            parser_view(*final(self)) == push_err(parser_view(*old(self)), e.deep_view()),
    {
        let ghost e0 = e.deep_view();
        let ghost pre = self.errors.deep_view();
        self.errors.push(e);
        proof {
            assert(self.errors.deep_view() =~= pre.push(e0));
            assert(parser_view(*self) =~= push_err(parser_view(*old(self)), e0));
        }
    }

    /// Error recovery: skips past the offending token and keeps advancing
    /// until a statement-terminating semicolon is consumed or a token that
    /// plausibly starts a new statement is reached.
    #[verifier::loop_isolation(false)]
    fn synchronize(&mut self, fuel: u64)
        ensures
            parser_view(*final(self)) == synchronize_spec(parser_view(*old(self)), fuel as nat),
    {
        self.next_token();
        let mut remaining = fuel;
        loop
            invariant
                sync_loop(parser_view(*self), remaining as nat) == synchronize_spec(
                    parser_view(*old(self)),
                    fuel as nat,
                ),
            decreases remaining,
        {
            if remaining == 0 {
                return ;
            }
            let c = self.current();
            if matches!(c, Token::Eof) {
                return ;
            }
            if matches!(c, Token::Semicolon) {
                self.next_token();
                return ;
            }
            if matches!(
                c,
                Token::Function | Token::Let | Token::Return | Token::Live | Token::Assert
                    | Token::If
            ) {
                return ;
            }
            self.next_token();
            remaining = remaining - 1;
        }
    }

    /// Exec mirror of [`precedence_of`].
    fn precedence_exec(t: &Token) -> (p: u8)
        ensures
            p == precedence_of(t.deep_view()),
    {
        match t {
            Token::Equal => 2,
            Token::NotEqual => 2,
            Token::Less => 3,
            Token::Greater => 3,
            Token::LessEqual => 3,
            Token::GreaterEqual => 3,
            Token::Plus => 4,
            Token::Minus => 4,
            Token::Multiply => 5,
            Token::Divide => 5,
            Token::LeftParen => 6,
            _ => 0,
        }
    }

    /// Exec mirror of [`is_binop`].
    fn is_binop_exec(t: &Token) -> (r: bool)
        ensures
            r == is_binop(t.deep_view()),
    {
        matches!(
            t,
            Token::Plus | Token::Minus | Token::Multiply | Token::Divide | Token::Equal
                | Token::NotEqual | Token::Less | Token::Greater | Token::LessEqual
                | Token::GreaterEqual
        )
    }

    /// Exec mirror of [`op_string`].
    fn op_string_exec(t: &Token) -> (s: String)
        ensures
            s@ == op_string(t.deep_view()),
    {
        match t {
            Token::Plus => String::from_str("+"),
            Token::Minus => String::from_str("-"),
            Token::Multiply => String::from_str("*"),
            Token::Divide => String::from_str("/"),
            Token::Equal => String::from_str("=="),
            Token::NotEqual => String::from_str("!="),
            Token::Less => String::from_str("<"),
            Token::Greater => String::from_str(">"),
            Token::LessEqual => String::from_str("<="),
            Token::GreaterEqual => String::from_str(">="),
            _ => String::new(),
        }
    }

    /// Records the depth-bound error.
    fn push_depth_error(&mut self)
        ensures
            parser_view(*final(self)) == push_err(
                parser_view(*old(self)),
                depth_error(parser_view(*old(self))),
            ),
    {
        let e = self.error_here("Nesting depth limit exceeded");
        self.push_error(e);
    }

    /// Parses one expression with the given minimum binding power.
    fn parse_expression(&mut self, prec: u8, fuel: u64) -> (r: Option<Node>)
        ensures
            ({
                let s = parse_expression_spec(parser_view(*old(self)), prec, fuel as nat);
                &&& parser_view(*final(self)) == s.1
                &&& match (r, s.0) {
                    (Some(n), Some(nm)) => n.deep_view() == nm,
                    (None, None) => true,
                    _ => false,
                }
            }),
        decreases fuel, 2nat,
    {
        if fuel == 0 {
            self.push_depth_error();
            return None;
        }
        let f2 = fuel - 1;
        let c = self.current();
        if matches!(c, Token::LeftParen) {
            self.next_token();
            let e = self.parse_expression(0, f2);
            if !matches!(self.peek(), Token::RightParen) {
                let pe = self.error_here("Expected ')'");
                self.push_error(pe);
                return None;
            }
            self.next_token();
            match e {
                None => {
                    let pe = self.error_here("No prefix parse function");
                    self.push_error(pe);
                    None
                },
                Some(inner) => self.parse_climb(inner, prec, f2),
            }
        } else {
            let atom: Option<Node> = match c {
                Token::Identifier(n) => Some(Node::Identifier(n)),
                Token::IntLiteral(v) => Some(Node::IntegerLiteral(v)),
                Token::FloatLiteral(b) => Some(Node::FloatLiteral(b)),
                Token::StringLiteral(s) => Some(Node::StringLiteral(s)),
                Token::BoolLiteral(b) => Some(Node::BooleanLiteral(b)),
                _ => None,
            };
            match atom {
                None => {
                    let pe = self.error_here("No prefix parse function");
                    self.push_error(pe);
                    None
                },
                Some(a) => self.parse_climb(a, prec, f2),
            }
        }
    }

    /// The precedence climb over infix operators and calls.
    fn parse_climb(&mut self, left: Node, prec: u8, fuel: u64) -> (r: Option<Node>)
        ensures
            ({
                let s = parse_climb_spec(left.deep_view(), prec, parser_view(*old(self)), fuel as nat);
                &&& parser_view(*final(self)) == s.1
                &&& match (r, s.0) {
                    (Some(n), Some(nm)) => n.deep_view() == nm,
                    (None, None) => true,
                    _ => false,
                }
            }),
        decreases fuel, 1nat,
    {
        if fuel == 0 {
            self.push_depth_error();
            return None;
        }
        let f2 = fuel - 1;
        let p = self.peek();
        let pprec = Self::precedence_exec(&p);
        if matches!(p, Token::Semicolon) || !(prec < pprec) {
            return Some(left);
        }
        if Self::is_binop_exec(&p) {
            self.next_token();
            match self.parse_infix(left, f2) {
                None => None,
                Some(l2) => self.parse_climb(l2, prec, f2),
            }
        } else if matches!(p, Token::LeftParen) {
            self.next_token();
            match self.parse_call(left, f2) {
                None => None,
                Some(l2) => self.parse_climb(l2, prec, f2),
            }
        } else {
            Some(left)
        }
    }

    /// Parses the right side of an infix operator and builds the
    /// application.
    fn parse_infix(&mut self, left: Node, fuel: u64) -> (r: Option<Node>)
        ensures
            ({
                let s = parse_infix_spec(left.deep_view(), parser_view(*old(self)), fuel as nat);
                &&& parser_view(*final(self)) == s.1
                &&& match (r, s.0) {
                    (Some(n), Some(nm)) => n.deep_view() == nm,
                    (None, None) => true,
                    _ => false,
                }
            }),
        decreases fuel, 3nat,
    {
        let c = self.current();
        if !Self::is_binop_exec(&c) {
            proof {
                assert(op_string(c.deep_view()).len() == 0);
            }
            let pe = self.error_here("Invalid operator");
            self.push_error(pe);
            return None;
        }
        proof {
            lemma_op_strings();
        }
        let op = Self::op_string_exec(&c);
        let pr = Self::precedence_exec(&c);
        self.next_token();
        match self.parse_expression(pr, fuel) {
            None => {
                let pe = self.error_here("Expected right-hand expression");
                self.push_error(pe);
                None
            },
            Some(right) => Some(
                Node::InfixExpression {
                    left: Box::new(left),
                    operator: op,
                    right: Box::new(right),
                },
            ),
        }
    }

    /// Parses a call's argument list and builds the call.
    fn parse_call(&mut self, callee: Node, fuel: u64) -> (r: Option<Node>)
        ensures
            ({
                let s = parse_call_spec(callee.deep_view(), parser_view(*old(self)), fuel as nat);
                &&& parser_view(*final(self)) == s.1
                &&& match (r, s.0) {
                    (Some(n), Some(nm)) => n.deep_view() == nm,
                    (None, None) => true,
                    _ => false,
                }
            }),
        decreases fuel, 2nat,
    {
        match self.parse_call_args(fuel) {
            None => None,
            Some(args) => {
                proof {
                    crate::ast::lemma_vec_nodes_view(args);
                }
                Some(Node::CallExpression { function: Box::new(callee), arguments: args })
            },
        }
    }

    /// Parses the arguments between a call's parentheses.
    fn parse_call_args(&mut self, fuel: u64) -> (r: Option<Vec<Node>>)
        ensures
            ({
                let s = parse_call_args_spec(parser_view(*old(self)), fuel as nat);
                &&& parser_view(*final(self)) == s.1
                &&& match (r, s.0) {
                    (Some(v), Some(vm)) => v.deep_view() == vm,
                    (None, None) => true,
                    _ => false,
                }
            }),
        decreases fuel, 1nat,
    {
        if fuel == 0 {
            self.push_depth_error();
            return None;
        }
        let f2 = fuel - 1;
        if matches!(self.peek(), Token::RightParen) {
            self.next_token();
            let r: Vec<Node> = Vec::new();
            proof {
                assert(r.deep_view() =~= Seq::<NodeModel>::empty());
            }
            return Some(r);
        }
        self.next_token();
        match self.parse_expression(0, f2) {
            None => {
                let pe = self.error_here("Expected expression in function arguments");
                self.push_error(pe);
                None
            },
            Some(a0) => {
                let mut acc: Vec<Node> = Vec::new();
                let ghost a0m = a0.deep_view();
                acc.push(a0);
                proof {
                    assert(acc.deep_view() =~= seq![a0m]);
                }
                self.args_loop(acc, f2)
            },
        }
    }

    /// The rest of an argument list after the first argument.
    fn args_loop(&mut self, acc: Vec<Node>, fuel: u64) -> (r: Option<Vec<Node>>)
        ensures
            ({
                let s = args_loop_spec(acc.deep_view(), parser_view(*old(self)), fuel as nat);
                &&& parser_view(*final(self)) == s.1
                &&& match (r, s.0) {
                    (Some(v), Some(vm)) => v.deep_view() == vm,
                    (None, None) => true,
                    _ => false,
                }
            }),
        decreases fuel, 0nat,
    {
        if fuel == 0 {
            self.push_depth_error();
            return None;
        }
        let f2 = fuel - 1;
        if matches!(self.peek(), Token::Comma) {
            self.next_token();
            self.next_token();
            match self.parse_expression(0, f2) {
                None => {
                    let pe = self.error_here("Expected expression after comma in function arguments");
                    self.push_error(pe);
                    None
                },
                Some(a) => {
                    let mut acc2 = acc;
                    let ghost pre = acc2.deep_view();
                    let ghost am = a.deep_view();
                    acc2.push(a);
                    proof {
                        assert(acc2.deep_view() =~= pre.push(am));
                    }
                    self.args_loop(acc2, f2)
                },
            }
        } else if !matches!(self.peek(), Token::RightParen) {
            let pe = ParseError {
                message: String::from_str("Expected ')' after arguments"),
                token: self.peek(),
                line: self.line,
                column: self.column,
            };
            self.push_error(pe);
            None
        } else {
            self.next_token();
            Some(acc)
        }
    }

    /// Parses one statement, dispatching on the current token.
    #[verifier::rlimit(100)]
    fn parse_statement(&mut self, fuel: u64) -> (r: Result<Node, ParseError>)
        ensures
            ({
                let s = parse_statement_spec(parser_view(*old(self)), fuel as nat);
                &&& parser_view(*final(self)) == s.1
                &&& match (r, s.0) {
                    (Ok(n), Ok(nm)) => n.deep_view() == nm,
                    (Err(e), Err(em)) => e.deep_view() == em,
                    _ => false,
                }
            }),
        decreases fuel, 1nat,
    {
        if fuel == 0 {
            return Err(self.error_here("Nesting depth limit exceeded"));
        }
        let f2 = fuel - 1;
        let c = self.current();
        if matches!(c, Token::Function) {
            self.parse_function(f2)
        } else if matches!(c, Token::Let) {
            self.parse_let(f2)
        } else if matches!(c, Token::Static) {
            self.next_token();
            if matches!(self.current(), Token::Let) {
                self.parse_let(f2)
            } else {
                Err(self.error_here("Expected 'let' after 'static'"))
            }
        } else if matches!(c, Token::Return) {
            self.parse_return(f2)
        } else if matches!(c, Token::Live) {
            self.parse_live(f2)
        } else if matches!(c, Token::Assert) {
            self.parse_assert(f2)
        } else if matches!(c, Token::If) {
            self.parse_if(f2)
        } else {
            self.parse_expr_stmt(f2)
        }
    }

    /// Parses a function declaration.
    #[verifier::rlimit(100)]
    fn parse_function(&mut self, fuel: u64) -> (r: Result<Node, ParseError>)
        ensures
            ({
                let s = parse_function_spec(parser_view(*old(self)), fuel as nat);
                &&& parser_view(*final(self)) == s.1
                &&& match (r, s.0) {
                    (Ok(n), Ok(nm)) => n.deep_view() == nm,
                    (Err(e), Err(em)) => e.deep_view() == em,
                    _ => false,
                }
            }),
        decreases fuel, 3nat,
    {
        self.next_token();
        let name: String = match self.current() {
            Token::Identifier(n) => n,
            _ => {
                return Err(self.error_here("Expected identifier after 'fn'"));
            },
        };
        self.next_token();
        if !matches!(self.current(), Token::LeftParen) {
            if crate::text::str_eq_lit(name.as_str(), "main") {
                return Err(
                    self.error_here(
                        "Expected '(' after function name 'main'. Functions in Resilient must have parameters, even if unused. Try: fn main(int dummy) { ... }",
                    ),
                );
            } else {
                return Err(self.error_here("Expected '(' after function name"));
            }
        }
        self.next_token();
        let acc0: Vec<(String, String)> = Vec::new();
        proof {
            assert(acc0.deep_view() =~= Seq::<(Seq<char>, Seq<char>)>::empty());
        }
        let params = match self.params_loop(acc0, fuel) {
            Err(e) => {
                return Err(e);
            },
            Ok(p) => p,
        };
        if !matches!(self.current(), Token::LeftBrace) {
            return Err(self.error_here("Expected '{' after function parameters"));
        }
        match self.parse_block(fuel) {
            Err(e) => Err(e),
            Ok(body) => Ok(Node::Function { name, parameters: params, body: Box::new(body) }),
        }
    }

    /// Parses the parameter list after the opening parenthesis.
    fn params_loop(&mut self, acc: Vec<(String, String)>, fuel: u64) -> (r: Result<
        Vec<(String, String)>,
        ParseError,
    >)
        ensures
            ({
                let s = params_loop_spec(acc.deep_view(), parser_view(*old(self)), fuel as nat);
                &&& parser_view(*final(self)) == s.1
                &&& match (r, s.0) {
                    (Ok(v), Ok(vm)) => v.deep_view() == vm,
                    (Err(e), Err(em)) => e.deep_view() == em,
                    _ => false,
                }
            }),
        decreases fuel, 1nat,
    {
        let c = self.current();
        if matches!(c, Token::RightParen) {
            self.next_token();
            return Ok(acc);
        }
        if matches!(c, Token::Eof) {
            return Err(self.error_here("Unclosed parameter list, expected ')'"));
        }
        if fuel == 0 {
            return Err(self.error_here("Nesting depth limit exceeded"));
        }
        let ty: String = match c {
            Token::Identifier(t) => t,
            _ => {
                return Err(self.error_here("Expected parameter type"));
            },
        };
        self.next_token();
        if matches!(self.current(), Token::RightParen) {
            self.next_token();
            let mut acc2 = acc;
            let ghost pre = acc2.deep_view();
            let ghost tym = ty@;
            acc2.push((ty, String::from_str("_unnamed")));
            proof {
                assert(acc2.deep_view() =~= pre.push((tym, "_unnamed"@)));
            }
            return Ok(acc2);
        }
        let nm: String = match self.current() {
            Token::Identifier(n) => n,
            _ => {
                return Err(self.error_here("Expected parameter name after type"));
            },
        };
        self.next_token();
        let mut acc2 = acc;
        let ghost pre = acc2.deep_view();
        let ghost tym = ty@;
        let ghost nmm = nm@;
        acc2.push((ty, nm));
        proof {
            assert(acc2.deep_view() =~= pre.push((tym, nmm)));
        }
        if matches!(self.current(), Token::Comma) {
            self.next_token();
            self.params_loop(acc2, fuel - 1)
        } else if matches!(self.current(), Token::RightParen) {
            self.next_token();
            Ok(acc2)
        } else {
            Err(self.error_here("Expected ',' or ')' after parameter"))
        }
    }

    /// Parses a brace-delimited block; the current token must be the
    /// opening brace, and afterwards it is the closing one.
    fn parse_block(&mut self, fuel: u64) -> (r: Result<Node, ParseError>)
        ensures
            ({
                let s = parse_block_spec(parser_view(*old(self)), fuel as nat);
                &&& parser_view(*final(self)) == s.1
                &&& match (r, s.0) {
                    (Ok(n), Ok(nm)) => n.deep_view() == nm,
                    (Err(e), Err(em)) => e.deep_view() == em,
                    _ => false,
                }
            }),
        decreases fuel, 1nat,
    {
        self.next_token();
        let acc: Vec<Node> = Vec::new();
        proof {
            assert(acc.deep_view() =~= Seq::<NodeModel>::empty());
        }
        self.block_loop(acc, fuel)
    }

    /// The statements of a block, with per-statement recovery.
    fn block_loop(&mut self, acc: Vec<Node>, fuel: u64) -> (r: Result<Node, ParseError>)
        ensures
            ({
                let s = block_loop_spec(acc.deep_view(), parser_view(*old(self)), fuel as nat);
                &&& parser_view(*final(self)) == s.1
                &&& match (r, s.0) {
                    (Ok(n), Ok(nm)) => n.deep_view() == nm,
                    (Err(e), Err(em)) => e.deep_view() == em,
                    _ => false,
                }
            }),
        decreases fuel, 0nat,
    {
        let c = self.current();
        if matches!(c, Token::RightBrace) {
            proof {
                crate::ast::lemma_vec_nodes_view(acc);
            }
            return Ok(Node::Block(acc));
        }
        if matches!(c, Token::Eof) {
            return Err(self.error_here("Unclosed block, expected '}'"));
        }
        if fuel == 0 {
            return Err(self.error_here("Nesting depth limit exceeded"));
        }
        let f2 = fuel - 1;
        let mut acc2 = acc;
        match self.parse_statement(f2) {
            Ok(n) => {
                let ghost pre = acc2.deep_view();
                let ghost nm = n.deep_view();
                acc2.push(n);
                proof {
                    assert(acc2.deep_view() =~= pre.push(nm));
                }
                if !matches!(self.current(), Token::Eof) {
                    self.next_token();
                }
            },
            Err(e) => {
                self.push_error(e);
                self.synchronize(f2);
            },
        }
        self.block_loop(acc2, f2)
    }

    /// Parses `let name = expression ;`.
    fn parse_let(&mut self, fuel: u64) -> (r: Result<Node, ParseError>)
        ensures
            ({
                let s = parse_let_spec(parser_view(*old(self)), fuel as nat);
                &&& parser_view(*final(self)) == s.1
                &&& match (r, s.0) {
                    (Ok(n), Ok(nm)) => n.deep_view() == nm,
                    (Err(e), Err(em)) => e.deep_view() == em,
                    _ => false,
                }
            }),
        decreases fuel, 3nat,
    {
        self.next_token();
        let name: String = match self.current() {
            Token::Identifier(n) => n,
            _ => {
                return Err(self.error_here("Expected identifier after 'let'"));
            },
        };
        self.next_token();
        if !matches!(self.current(), Token::Assign) {
            return Err(self.error_here("Expected '=' after identifier in let statement"));
        }
        self.next_token();
        match self.parse_expression(0, fuel) {
            None => Err(self.error_here("Expected expression after '=' in let statement")),
            Some(v) => {
                if matches!(self.peek(), Token::Semicolon) {
                    self.next_token();
                }
                Ok(Node::LetStatement { name, value: Box::new(v) })
            },
        }
    }

    /// Parses `return ;` or `return expression ;`.
    fn parse_return(&mut self, fuel: u64) -> (r: Result<Node, ParseError>)
        ensures
            ({
                let s = parse_return_spec(parser_view(*old(self)), fuel as nat);
                &&& parser_view(*final(self)) == s.1
                &&& match (r, s.0) {
                    (Ok(n), Ok(nm)) => n.deep_view() == nm,
                    (Err(e), Err(em)) => e.deep_view() == em,
                    _ => false,
                }
            }),
        decreases fuel, 3nat,
    {
        self.next_token();
        if matches!(self.current(), Token::Semicolon) {
            proof {
                reveal_with_fuel(crate::ast::node_view, 2);
            }
            return Ok(Node::ReturnStatement { value: Box::new(Node::Void) });
        }
        match self.parse_expression(0, fuel) {
            None => Err(self.error_here("Expected expression after 'return'")),
            Some(v) => {
                if matches!(self.peek(), Token::Semicolon) {
                    self.next_token();
                }
                Ok(Node::ReturnStatement { value: Box::new(v) })
            },
        }
    }

    /// Parses `live { ... }`.
    fn parse_live(&mut self, fuel: u64) -> (r: Result<Node, ParseError>)
        ensures
            ({
                let s = parse_live_spec(parser_view(*old(self)), fuel as nat);
                &&& parser_view(*final(self)) == s.1
                &&& match (r, s.0) {
                    (Ok(n), Ok(nm)) => n.deep_view() == nm,
                    (Err(e), Err(em)) => e.deep_view() == em,
                    _ => false,
                }
            }),
        decreases fuel, 3nat,
    {
        self.next_token();
        if !matches!(self.current(), Token::LeftBrace) {
            return Err(self.error_here("Expected '{' after 'live'"));
        }
        match self.parse_block(fuel) {
            Err(e) => Err(e),
            Ok(body) => Ok(Node::LiveBlock { body: Box::new(body) }),
        }
    }

    /// Parses an assertion, with an optional message expression.
    #[verifier::rlimit(100)]
    fn parse_assert(&mut self, fuel: u64) -> (r: Result<Node, ParseError>)
        ensures
            ({
                let s = parse_assert_spec(parser_view(*old(self)), fuel as nat);
                &&& parser_view(*final(self)) == s.1
                &&& match (r, s.0) {
                    (Ok(n), Ok(nm)) => n.deep_view() == nm,
                    (Err(e), Err(em)) => e.deep_view() == em,
                    _ => false,
                }
            }),
        decreases fuel, 3nat,
    {
        self.next_token();
        if !matches!(self.current(), Token::LeftParen) {
            return Err(self.error_here("Expected '(' after 'assert'"));
        }
        self.next_token();
        let cond = match self.parse_expression(0, fuel) {
            None => {
                return Err(self.error_here("Expected condition expression in assert statement"));
            },
            Some(c) => c,
        };
        if matches!(self.peek(), Token::Comma) {
            self.next_token();
            self.next_token();
            match self.parse_expression(0, fuel) {
                None => Err(
                    self.error_here("Expected message expression after comma in assert statement"),
                ),
                Some(msg) => self.assert_close(cond, Some(Box::new(msg))),
            }
        } else {
            self.assert_close(cond, None)
        }
    }

    /// The closing parenthesis and optional semicolon of an assertion.
    fn assert_close(&mut self, cond: Node, message: Option<Box<Node>>) -> (r: Result<
        Node,
        ParseError,
    >)
        ensures
            ({
                let s = assert_close_spec(
                    cond.deep_view(),
                    message.deep_view(),
                    parser_view(*old(self)),
                );
                &&& parser_view(*final(self)) == s.1
                &&& match (r, s.0) {
                    (Ok(n), Ok(nm)) => n.deep_view() == nm,
                    (Err(e), Err(em)) => e.deep_view() == em,
                    _ => false,
                }
            }),
    {
        if !matches!(self.peek(), Token::RightParen) {
            return Err(self.error_here("Expected ')' after assert condition"));
        }
        self.next_token();
        if matches!(self.peek(), Token::Semicolon) {
            self.next_token();
        }
        Ok(Node::Assert { condition: Box::new(cond), message })
    }

    /// Parses an `if` statement.
    #[verifier::rlimit(100)]
    fn parse_if(&mut self, fuel: u64) -> (r: Result<Node, ParseError>)
        ensures
            ({
                let s = parse_if_spec(parser_view(*old(self)), fuel as nat);
                &&& parser_view(*final(self)) == s.1
                &&& match (r, s.0) {
                    (Ok(n), Ok(nm)) => n.deep_view() == nm,
                    (Err(e), Err(em)) => e.deep_view() == em,
                    _ => false,
                }
            }),
        decreases fuel, 3nat,
    {
        self.next_token();
        let cond: Node = if matches!(self.current(), Token::LeftParen) {
            self.next_token();
            match self.parse_expression(0, fuel) {
                None => {
                    return Err(self.error_here("Expected condition expression after 'if'"));
                },
                Some(c) => {
                    if !matches!(self.peek(), Token::RightParen) {
                        return Err(self.error_here("Expected ')' after if condition"));
                    }
                    self.next_token();
                    self.next_token();
                    c
                },
            }
        } else {
            match self.parse_expression(0, fuel) {
                None => {
                    return Err(self.error_here("Expected condition expression after 'if'"));
                },
                Some(c) => {
                    self.next_token();
                    c
                },
            }
        };
        if !matches!(self.current(), Token::LeftBrace) {
            return Err(self.error_here("Expected '{' after if condition"));
        }
        let cons = match self.parse_block(fuel) {
            Err(e) => {
                return Err(e);
            },
            Ok(b) => b,
        };
        if matches!(self.peek(), Token::Else) {
            self.next_token();
            self.next_token();
            if !matches!(self.current(), Token::LeftBrace) {
                return Err(self.error_here("Expected '{' after 'else'"));
            }
            match self.parse_block(fuel) {
                Err(e) => Err(e),
                Ok(alt) => Ok(
                    Node::IfStatement {
                        condition: Box::new(cond),
                        consequence: Box::new(cons),
                        alternative: Some(Box::new(alt)),
                    },
                ),
            }
        } else {
            Ok(
                Node::IfStatement {
                    condition: Box::new(cond),
                    consequence: Box::new(cons),
                    alternative: None,
                },
            )
        }
    }

    /// Parses an expression in statement position.
    fn parse_expr_stmt(&mut self, fuel: u64) -> (r: Result<Node, ParseError>)
        ensures
            ({
                let s = parse_expr_stmt_spec(parser_view(*old(self)), fuel as nat);
                &&& parser_view(*final(self)) == s.1
                &&& match (r, s.0) {
                    (Ok(n), Ok(nm)) => n.deep_view() == nm,
                    (Err(e), Err(em)) => e.deep_view() == em,
                    _ => false,
                }
            }),
        decreases fuel, 3nat,
    {
        match self.parse_expression(0, fuel) {
            None => Err(self.error_here("Expected expression")),
            Some(e) => {
                if matches!(self.peek(), Token::Semicolon) {
                    self.next_token();
                }
                Ok(Node::ExpressionStatement(Box::new(e)))
            },
        }
    }

    /// The fuel bound for a whole program parse.
    fn fuel_for(len: usize) -> (f: u64)
        ensures
            f as nat == program_fuel(len as nat),
    {
        let l = len as u64;
        match l.checked_mul(10) {
            None => u64::MAX,
            Some(x) => match x.checked_add(16) {
                None => u64::MAX,
                Some(y) => y,
            },
        }
    }

    /// Parses the whole program: top-level statements until the end of
    /// input, with per-statement error recovery.  The collected errors are
    /// handed back when any were recorded, the program node otherwise.
    #[verifier::loop_isolation(false)]
    #[verifier::rlimit(100)]
    pub fn parse_full(&mut self) -> (r: (Node, Vec<ParseError>))
        ensures
            ({
                let full = parse_program_full(parser_view(*old(self)));
                &&& parser_view(*final(self)) == full.1
                &&& r.0.deep_view() == full.0
                &&& r.1.deep_view() == full.1.errs
            }),
    {
        let ghost st0 = parser_view(*self);
        let total: u64 = Self::fuel_for(self.tokens.len());
        proof {
            assert(self.tokens.deep_view().len() == self.tokens@.len());
        }
        let mut program: Vec<Node> = Vec::new();
        let mut remaining: u64 = total;
        proof {
            assert(program.deep_view() =~= Seq::<NodeModel>::empty());
        }
        loop
            invariant
                parse_program_loop(parser_view(*self), program.deep_view(), remaining as nat)
                    == parse_program_loop(
                    st0,
                    Seq::<NodeModel>::empty(),
                    program_fuel(st0.toks.len()),
                ),
            decreases remaining,
        {
            if matches!(self.current(), Token::Eof) {
                break ;
            }
            if remaining == 0 {
                self.push_depth_error();
                proof {
                    assert(parse_program_loop(st0, Seq::<NodeModel>::empty(), program_fuel(st0.toks.len()))
                        == (program.deep_view(), parser_view(*self)));
                }
                break ;
            }
            let f2 = remaining - 1;
            match self.parse_statement(f2) {
                Ok(stmt) => {
                    let ghost pre = program.deep_view();
                    let ghost sm = stmt.deep_view();
                    program.push(stmt);
                    proof {
                        assert(program.deep_view() =~= pre.push(sm));
                    }
                    if !matches!(self.current(), Token::Eof) {
                        self.next_token();
                    }
                },
                Err(e) => {
                    self.push_error(e);
                    self.synchronize(f2);
                },
            }
            remaining = f2;
        }
        let ghost full = parse_program_full(st0);
        proof {
            crate::ast::lemma_vec_nodes_view(program);
        }
        let errs = duplicate_errors(&self.errors);
        (Node::Program(program), errs)
    }

    /// Parses the whole program, handing back the collected errors when
    /// any were recorded and the program node otherwise.
    pub fn parse_program(&mut self) -> (r: Result<Node, Vec<ParseError>>)
        ensures
            ({
                let full = parse_program_full(parser_view(*old(self)));
                &&& parser_view(*final(self)) == full.1
                &&& if full.1.errs.len() > 0 {
                    r matches Err(es) && es.deep_view() == full.1.errs
                } else {
                    r matches Ok(n) && n.deep_view() == full.0
                }
            }),
    {
        let (program, errs) = self.parse_full();
        if errs.len() > 0 {
            proof {
                assert(errs.deep_view().len() == errs@.len());
            }
            Err(errs)
        } else {
            proof {
                assert(errs.deep_view().len() == errs@.len());
            }
            Ok(program)
        }
    }
}

} // verus!

//! The lexer: turns source text into tokens.
//!
//! `next_token` is specified exactly by [`next_token_spec`], a mathematical
//! tokenizer over the character sequence.  A lexical fault (an unrecognized
//! character, a bare `!`, a malformed or overflowing numeric literal) is
//! fatal to the whole compilation: there is no lexer-level recovery.
use crate::floatbits::float_of_decimal;
use crate::floatbits::float_from_decimal;
use crate::text::chars_to_string;
use crate::text::dec_value;
use crate::text::digit_value;
use crate::text::is_digit_char;
use crate::text::is_digit_char_exec;
use crate::token::Token;
use crate::token::TokenModel;
use vstd::prelude::*;

verus! {

/// A fatal lexical fault, aborting the whole compilation.
#[derive(Debug)]
pub enum LexError {
    /// An unrecognized character, or a bare `!` not followed by `=`.
    UnexpectedChar { ch: char, at: usize },
    /// An integer literal that does not fit in 64 signed bits.
    IntegerOverflow { at: usize },
    /// A numeric literal with a dot that is not a well-formed decimal.
    BadFloatLiteral { at: usize },
}

/// Mathematical model of a lexical fault.
#[verifier::ext_equal]
pub enum LexErrorModel {
    UnexpectedChar { ch: char, at: nat },
    IntegerOverflow { at: nat },
    BadFloatLiteral { at: nat },
}

impl DeepView for LexError {
    type V = LexErrorModel;

    open spec fn deep_view(&self) -> LexErrorModel {
        match self {
            LexError::UnexpectedChar { ch, at } => LexErrorModel::UnexpectedChar {
                ch: *ch,
                at: *at as nat,
            },
            LexError::IntegerOverflow { at } => LexErrorModel::IntegerOverflow { at: *at as nat },
            LexError::BadFloatLiteral { at } => LexErrorModel::BadFloatLiteral { at: *at as nat },
        }
    }
}

/// One step of the mathematical tokenizer: a token and the position after
/// it, or a fatal fault.
#[verifier::ext_equal]
pub enum LexStep {
    Tok { t: TokenModel, next: nat },
    Fault { e: LexErrorModel },
}

/// Whitespace, as the lexer skips it.
pub open spec fn is_ws(c: char) -> bool {
    c == ' ' || c == '\t' || c == '\n' || c == '\r'
}

/// Characters that may start an identifier or keyword.
pub open spec fn is_letter(c: char) -> bool {
    ('a' <= c && c <= 'z') || ('A' <= c && c <= 'Z') || c == '_'
}

/// Exec mirror of [`is_ws`].
pub fn is_ws_exec(c: char) -> (r: bool)
    ensures
        r == is_ws(c),
{
    c == ' ' || c == '\t' || c == '\n' || c == '\r'
}

/// Exec mirror of [`is_letter`].
pub fn is_letter_exec(c: char) -> (r: bool)
    ensures
        r == is_letter(c),
{
    ('a' <= c && c <= 'z') || ('A' <= c && c <= 'Z') || c == '_'
}

/// Number of consecutive whitespace characters at `pos`.
pub open spec fn ws_count(s: Seq<char>, pos: nat) -> nat
    decreases s.len() - pos,
    when pos <= s.len()
{
    if pos < s.len() && is_ws(s[pos as int]) {
        1 + ws_count(s, pos + 1)
    } else {
        0
    }
}

/// Number of characters a `//` comment occupies from `pos`, up to but not
/// including the terminating newline (or NUL, or the end of input).
pub open spec fn comment_count(s: Seq<char>, pos: nat) -> nat
    decreases s.len() - pos,
    when pos <= s.len()
{
    if pos < s.len() && s[pos as int] != '\n' && s[pos as int] != '\0' {
        1 + comment_count(s, pos + 1)
    } else {
        0
    }
}

/// Number of identifier characters (letters, digits, underscores) at `pos`.
pub open spec fn ident_count(s: Seq<char>, pos: nat) -> nat
    decreases s.len() - pos,
    when pos <= s.len()
{
    if pos < s.len() && (is_letter(s[pos as int]) || is_digit_char(s[pos as int])) {
        1 + ident_count(s, pos + 1)
    } else {
        0
    }
}

/// Number of numeric-literal characters (digits and dots) at `pos`.
pub open spec fn num_count(s: Seq<char>, pos: nat) -> nat
    decreases s.len() - pos,
    when pos <= s.len()
{
    if pos < s.len() && (is_digit_char(s[pos as int]) || s[pos as int] == '.') {
        1 + num_count(s, pos + 1)
    } else {
        0
    }
}

pub proof fn lemma_ws_count(s: Seq<char>, pos: nat)
    requires
        pos <= s.len(),
    ensures
        pos + ws_count(s, pos) <= s.len(),
    decreases s.len() - pos,
{
    if pos < s.len() && is_ws(s[pos as int]) {
        lemma_ws_count(s, pos + 1);
    }
}

pub proof fn lemma_comment_count(s: Seq<char>, pos: nat)
    requires
        pos <= s.len(),
    ensures
        pos + comment_count(s, pos) <= s.len(),
    decreases s.len() - pos,
{
    if pos < s.len() && s[pos as int] != '\n' && s[pos as int] != '\0' {
        lemma_comment_count(s, pos + 1);
    }
}

pub proof fn lemma_ident_count(s: Seq<char>, pos: nat)
    requires
        pos <= s.len(),
    ensures
        pos + ident_count(s, pos) <= s.len(),
    decreases s.len() - pos,
{
    if pos < s.len() && (is_letter(s[pos as int]) || is_digit_char(s[pos as int])) {
        lemma_ident_count(s, pos + 1);
    }
}

pub proof fn lemma_num_count(s: Seq<char>, pos: nat)
    requires
        pos <= s.len(),
    ensures
        pos + num_count(s, pos) <= s.len(),
        forall|i: int|
            pos <= i < pos + num_count(s, pos) ==> is_digit_char(#[trigger] s[i]) || s[i] == '.',
    decreases s.len() - pos,
{
    if pos < s.len() && (is_digit_char(s[pos as int]) || s[pos as int] == '.') {
        lemma_num_count(s, pos + 1);
    }
}

/// The characters a string literal denotes when a backslash precedes `c`:
/// recognized escapes map to their control character, anything else keeps
/// the backslash literally.
pub open spec fn escape_seq(c: char) -> Seq<char> {
    if c == 'n' {
        seq!['\n']
    } else if c == 't' {
        seq!['\t']
    } else if c == 'r' {
        seq!['\r']
    } else if c == '\\' {
        seq!['\\']
    } else if c == '"' {
        seq!['"']
    } else {
        seq!['\\', c]
    }
}

/// Scans a string literal body starting at `pos` (just past the opening
/// quote): the content after escape processing, and the position of the
/// terminator (closing quote, NUL, or end of input).
pub open spec fn str_scan(s: Seq<char>, pos: nat) -> (Seq<char>, nat)
    decreases s.len() - pos,
    when pos <= s.len()
{
    if pos >= s.len() {
        (Seq::<char>::empty(), pos)
    } else if s[pos as int] == '"' || s[pos as int] == '\0' {
        (Seq::<char>::empty(), pos)
    } else if s[pos as int] == '\\' && pos + 1 < s.len() {
        let rest = str_scan(s, pos + 2);
        (escape_seq(s[pos + 1 as int]) + rest.0, rest.1)
    } else {
        let rest = str_scan(s, pos + 1);
        (seq![s[pos as int]] + rest.0, rest.1)
    }
}

pub proof fn lemma_str_scan(s: Seq<char>, pos: nat)
    requires
        pos <= s.len(),
    ensures
        pos <= str_scan(s, pos).1 <= s.len(),
    decreases s.len() - pos,
{
    if pos >= s.len() || s[pos as int] == '"' || s[pos as int] == '\0' {
    } else if s[pos as int] == '\\' && pos + 1 < s.len() {
        lemma_str_scan(s, pos + 2);
    } else {
        lemma_str_scan(s, pos + 1);
    }
}

/// The keyword or identifier token for the word `w`.
pub open spec fn keyword_token(w: Seq<char>) -> TokenModel {
    if w == "fn"@ {
        TokenModel::Function
    } else if w == "let"@ {
        TokenModel::Let
    } else if w == "static"@ {
        TokenModel::Static
    } else if w == "live"@ {
        TokenModel::Live
    } else if w == "assert"@ {
        TokenModel::Assert
    } else if w == "if"@ {
        TokenModel::If
    } else if w == "else"@ {
        TokenModel::Else
    } else if w == "return"@ {
        TokenModel::Return
    } else if w == "true"@ {
        TokenModel::BoolLiteral(true)
    } else if w == "false"@ {
        TokenModel::BoolLiteral(false)
    } else {
        TokenModel::Identifier(w)
    }
}

/// Scans one token at `pos`, which must not sit on whitespace or on a
/// comment opener.  Two-character operators are recognized by one-character
/// lookahead; a bare `!` is a fault; a NUL acts as an end-of-input marker.
pub open spec fn scan_simple(s: Seq<char>, p: nat) -> LexStep {
    if p >= s.len() {
        LexStep::Tok { t: TokenModel::Eof, next: p }
    } else {
        let c = s[p as int];
        if c == '=' {
            if p + 1 < s.len() && s[p + 1 as int] == '=' {
                LexStep::Tok { t: TokenModel::Equal, next: p + 2 }
            } else {
                LexStep::Tok { t: TokenModel::Assign, next: p + 1 }
            }
        } else if c == '+' {
            LexStep::Tok { t: TokenModel::Plus, next: p + 1 }
        } else if c == '-' {
            LexStep::Tok { t: TokenModel::Minus, next: p + 1 }
        } else if c == '*' {
            LexStep::Tok { t: TokenModel::Multiply, next: p + 1 }
        } else if c == '/' {
            LexStep::Tok { t: TokenModel::Divide, next: p + 1 }
        } else if c == '>' {
            if p + 1 < s.len() && s[p + 1 as int] == '=' {
                LexStep::Tok { t: TokenModel::GreaterEqual, next: p + 2 }
            } else {
                LexStep::Tok { t: TokenModel::Greater, next: p + 1 }
            }
        } else if c == '<' {
            if p + 1 < s.len() && s[p + 1 as int] == '=' {
                LexStep::Tok { t: TokenModel::LessEqual, next: p + 2 }
            } else {
                LexStep::Tok { t: TokenModel::Less, next: p + 1 }
            }
        } else if c == '!' {
            if p + 1 < s.len() && s[p + 1 as int] == '=' {
                LexStep::Tok { t: TokenModel::NotEqual, next: p + 2 }
            } else {
                LexStep::Fault { e: LexErrorModel::UnexpectedChar { ch: '!', at: p } }
            }
        } else if c == '(' {
            LexStep::Tok { t: TokenModel::LeftParen, next: p + 1 }
        } else if c == ')' {
            LexStep::Tok { t: TokenModel::RightParen, next: p + 1 }
        } else if c == '{' {
            LexStep::Tok { t: TokenModel::LeftBrace, next: p + 1 }
        } else if c == '}' {
            LexStep::Tok { t: TokenModel::RightBrace, next: p + 1 }
        } else if c == ',' {
            LexStep::Tok { t: TokenModel::Comma, next: p + 1 }
        } else if c == ';' {
            LexStep::Tok { t: TokenModel::Semicolon, next: p + 1 }
        } else if c == ':' {
            LexStep::Tok { t: TokenModel::Colon, next: p + 1 }
        } else if c == '"' {
            let scanned = str_scan(s, p + 1);
            let after = if scanned.1 < s.len() {
                scanned.1 + 1
            } else {
                scanned.1
            };
            LexStep::Tok { t: TokenModel::StringLiteral(scanned.0), next: after }
        } else if c == '\0' {
            LexStep::Tok { t: TokenModel::Eof, next: p + 1 }
        } else if is_letter(c) {
            let n = ident_count(s, p);
            LexStep::Tok { t: keyword_token(s.subrange(p as int, (p + n) as int)), next: p + n }
        } else if is_digit_char(c) {
            let n = num_count(s, p);
            let run = s.subrange(p as int, (p + n) as int);
            if run.contains('.') {
                match float_of_decimal(run) {
                    Some(bits) => LexStep::Tok { t: TokenModel::FloatLiteral(bits), next: p + n },
                    None => LexStep::Fault { e: LexErrorModel::BadFloatLiteral { at: p } },
                }
            } else if dec_value(run) > i64::MAX as nat {
                LexStep::Fault { e: LexErrorModel::IntegerOverflow { at: p } }
            } else {
                LexStep::Tok { t: TokenModel::IntLiteral(dec_value(run) as i64), next: p + n }
            }
        } else {
            LexStep::Fault { e: LexErrorModel::UnexpectedChar { ch: c, at: p } }
        }
    }
}

/// The next token from `pos`: whitespace is skipped, comments are skipped
/// entirely, then one token is scanned.
pub open spec fn next_token_spec(s: Seq<char>, pos: nat) -> LexStep
    decreases s.len() - pos,
    when pos <= s.len()
{
    let p = pos + ws_count(s, pos);
    if p < s.len() && s[p as int] == '/' && p + 1 < s.len() && s[p + 1 as int] == '/' {
        let q = p + comment_count(s, p);
        proof {
            lemma_ws_count(s, pos);
            lemma_comment_count(s, p);
        }
        next_token_spec(s, q)
    } else {
        proof {
            lemma_ws_count(s, pos);
        }
        scan_simple(s, p)
    }
}

/// Every position a token step reports stays within the text, and every
/// token but the final end marker makes progress.
pub proof fn lemma_next_token_bounds(s: Seq<char>, pos: nat)
    requires
        pos <= s.len(),
    ensures
        match next_token_spec(s, pos) {
            LexStep::Tok { t, next } => pos <= next <= s.len() && (t != TokenModel::Eof
                ==> next > pos),
            LexStep::Fault { .. } => true,
        },
    decreases s.len() - pos,
{
    lemma_ws_count(s, pos);
    let p = pos + ws_count(s, pos);
    if p < s.len() && s[p as int] == '/' && p + 1 < s.len() && s[p + 1 as int] == '/' {
        lemma_comment_count(s, p);
        let q = p + comment_count(s, p);
        lemma_next_token_bounds(s, q);
    } else {
        if p < s.len() {
            let c = s[p as int];
            if c == '"' {
                lemma_str_scan(s, p + 1);
            } else if is_letter(c) {
                lemma_ident_count(s, p);
            } else if is_digit_char(c) {
                lemma_num_count(s, p);
            }
        }
    }
}

/// The whole token stream from `pos`: the tokens up to and including the
/// end marker, or the first fatal fault.
pub open spec fn lex_from(s: Seq<char>, pos: nat) -> Result<Seq<TokenModel>, LexErrorModel>
    decreases s.len() - pos,
    when pos <= s.len()
{
    match next_token_spec(s, pos) {
        LexStep::Fault { e } => Err(e),
        LexStep::Tok { t, next } => {
            if t == TokenModel::Eof {
                Ok(seq![t])
            } else {
                proof {
                    lemma_next_token_bounds(s, pos);
                }
                match lex_from(s, next) {
                    Err(e) => Err(e),
                    Ok(rest) => Ok(seq![t] + rest),
                }
            }
        },
    }
}

/// The token stream of a whole source text.
pub open spec fn lex_text(s: Seq<char>) -> Result<Seq<TokenModel>, LexErrorModel> {
    lex_from(s, 0)
}

/// The lexer: holds the decoded source text and the current position.
pub struct Lexer {
    pub input: Vec<char>,
    pub position: usize,
}

impl Lexer {
    /// A lexer at the start of the given source text.
    pub fn new(input: String) -> (l: Lexer)
        ensures
            l.input@ == input@,
            l.position == 0,
    {
        let n = input.as_str().unicode_len();
        let mut v: Vec<char> = Vec::new();
        let mut i: usize = 0;
        while i < n
            invariant
                i <= n,
                n == input@.len(),
                v@ =~= input@.subrange(0, i as int),
            decreases n - i,
        {
            v.push(input.as_str().get_char(i));
            proof {
                assert(v@ =~= input@.subrange(0, i + 1 as int));
            }
            i += 1;
        }
        proof {
            assert(v@ =~= input@);
        }
        Lexer { input: v, position: 0 }
    }

    /// Skips whitespace and comments; afterwards the position sits on the
    /// start of the next token (or at the end of the text).
    fn skip_trivia(&mut self)
        requires
            old(self).position <= old(self).input@.len(),
        ensures
            final(self).input@ == old(self).input@,
            final(self).position <= final(self).input@.len(),
            next_token_spec(final(self).input@, old(self).position as nat) == scan_simple(
                final(self).input@,
                final(self).position as nat,
            ),
    {
        let ghost s = self.input@;
        let ghost pos0 = self.position as nat;
        loop
            invariant
                self.input@ == s,
                s == old(self).input@,
                pos0 == old(self).position as nat,
                pos0 <= s.len(),
                self.position <= s.len(),
                next_token_spec(s, pos0) == next_token_spec(s, self.position as nat),
            decreases s.len() - self.position,
        {
            let ghost round0 = self.position as nat;
            // Skip whitespace.
            while self.position < self.input.len() && is_ws_exec(self.input[self.position])
                invariant
                    self.input@ == s,
                    pos0 <= s.len(),
                    round0 <= self.position <= s.len(),
                    next_token_spec(s, pos0) == next_token_spec(s, self.position as nat),
                decreases s.len() - self.position,
            {
                proof {
                    assert(ws_count(s, self.position as nat) == 1 + ws_count(
                        s,
                        (self.position + 1) as nat,
                    ));
                }
                self.position += 1;
            }
            // A comment runs to the end of the line and is skipped entirely.
            if self.position < self.input.len() && self.input[self.position] == '/'
                && self.position + 1 < self.input.len() && self.input[self.position + 1] == '/' {
                proof {
                    assert(ws_count(s, self.position as nat) == 0);
                }
                let ghost p = self.position as nat;
                while self.position < self.input.len() && self.input[self.position] != '\n'
                    && self.input[self.position] != '\0'
                    invariant
                        self.input@ == s,
                        p <= self.position <= s.len(),
                        p + comment_count(s, p) == self.position + comment_count(
                            s,
                            self.position as nat,
                        ),
                    decreases s.len() - self.position,
                {
                    proof {
                        assert(comment_count(s, self.position as nat) == 1 + comment_count(
                            s,
                            (self.position + 1) as nat,
                        ));
                    }
                    self.position += 1;
                }
                proof {
                    assert(comment_count(s, self.position as nat) == 0);
                    assert(self.position == p + comment_count(s, p));
                    assert(comment_count(s, p) >= 1);
                }
            } else {
                proof {
                    assert(ws_count(s, self.position as nat) == 0);
                    let p = self.position as nat;
                    assert(!(p < s.len() && s[p as int] == '/' && p + 1 < s.len() && s[p + 1 as int]
                        == '/'));
                    assert(next_token_spec(s, p) == scan_simple(s, p));
                }
                return ;
            }
        }
    }

    /// Whether `c` continues an identifier run (when `idents`) or a
    /// numeric-literal run (when not).
    fn is_run_char(c: char, idents: bool) -> (r: bool)
        ensures
            idents ==> r == (is_letter(c) || is_digit_char(c)),
            !idents ==> r == (is_digit_char(c) || c == '.'),
    {
        if idents {
            is_letter_exec(c) || is_digit_char_exec(c)
        } else {
            is_digit_char_exec(c) || c == '.'
        }
    }

    /// Reads the longest run at the current position whose characters
    /// satisfy the continuation test selected by `idents` (identifier
    /// characters when true, numeric characters when false), returning
    /// them and leaving the position after the run.
    fn read_run(&mut self, idents: bool) -> (r: Vec<char>)
        requires
            old(self).position <= old(self).input@.len(),
        ensures
            final(self).input@ == old(self).input@,
            ({
                let n = if idents {
                    ident_count(old(self).input@, old(self).position as nat)
                } else {
                    num_count(old(self).input@, old(self).position as nat)
                };
                &&& final(self).position == old(self).position + n
                &&& final(self).position <= final(self).input@.len()
                &&& r@ == final(self).input@.subrange(
                    old(self).position as int,
                    old(self).position + n,
                )
            }),
    {
        let ghost s = self.input@;
        let ghost p0 = self.position as nat;
        let start = self.position;
        while self.position < self.input.len() && Self::is_run_char(
            self.input[self.position],
            idents,
        )
            invariant
                self.input@ == s,
                start == p0,
                p0 <= self.position <= s.len(),
                idents ==> p0 + ident_count(s, p0) == self.position + ident_count(
                    s,
                    self.position as nat,
                ),
                !idents ==> p0 + num_count(s, p0) == self.position + num_count(
                    s,
                    self.position as nat,
                ),
            decreases s.len() - self.position,
        {
            proof {
                if idents {
                    assert(ident_count(s, self.position as nat) == 1 + ident_count(
                        s,
                        (self.position + 1) as nat,
                    ));
                } else {
                    assert(num_count(s, self.position as nat) == 1 + num_count(
                        s,
                        (self.position + 1) as nat,
                    ));
                }
            }
            self.position += 1;
        }
        proof {
            if idents {
                assert(ident_count(s, self.position as nat) == 0);
            } else {
                assert(num_count(s, self.position as nat) == 0);
            }
        }
        let mut r: Vec<char> = Vec::new();
        let mut i: usize = start;
        while i < self.position
            invariant
                self.input@ == s,
                start <= i <= self.position <= s.len(),
                r@ =~= s.subrange(start as int, i as int),
            decreases self.position - i,
        {
            r.push(self.input[i]);
            proof {
                assert(r@ =~= s.subrange(start as int, i + 1 as int));
            }
            i += 1;
        }
        r
    }

    /// Whether the collected word equals the literal.
    fn word_is(w: &Vec<char>, lit: &str) -> (r: bool)
        ensures
            r == (w@ == lit@),
    {
        let n = lit.unicode_len();
        if w.len() != n {
            proof {
                assert(w@ != lit@);
            }
            return false;
        }
        let mut i: usize = 0;
        while i < n
            invariant
                i <= n,
                n == lit@.len(),
                n == w@.len(),
                forall|j: int| 0 <= j < i ==> w@[j] == lit@[j],
            decreases n - i,
        {
            if w[i] != lit.get_char(i) {
                proof {
                    assert(w@ != lit@);
                }
                return false;
            }
            i += 1;
        }
        proof {
            assert(w@ =~= lit@);
        }
        true
    }

    /// The keyword or identifier token for the collected word.
    fn word_token(w: Vec<char>) -> (t: Token)
        ensures
            t.deep_view() == keyword_token(w@),
    {
        if Self::word_is(&w, "fn") {
            Token::Function
        } else if Self::word_is(&w, "let") {
            Token::Let
        } else if Self::word_is(&w, "static") {
            Token::Static
        } else if Self::word_is(&w, "live") {
            Token::Live
        } else if Self::word_is(&w, "assert") {
            Token::Assert
        } else if Self::word_is(&w, "if") {
            Token::If
        } else if Self::word_is(&w, "else") {
            Token::Else
        } else if Self::word_is(&w, "return") {
            Token::Return
        } else if Self::word_is(&w, "true") {
            Token::BoolLiteral(true)
        } else if Self::word_is(&w, "false") {
            Token::BoolLiteral(false)
        } else {
            Token::Identifier(chars_to_string(&w))
        }
    }

    /// Parses the collected digit run as a 64-bit signed integer, detecting
    /// overflow exactly.
    fn digits_value(run: &Vec<char>) -> (r: Option<i64>)
        requires
            forall|i: int| 0 <= i < run@.len() ==> is_digit_char(#[trigger] run@[i]),
        ensures
            match r {
                Some(v) => dec_value(run@) <= i64::MAX as nat && v == dec_value(run@) as i64,
                None => dec_value(run@) > i64::MAX as nat,
            },
    {
        let mut acc: u64 = 0;
        let mut over: bool = false;
        let mut i: usize = 0;
        while i < run.len()
            invariant
                i <= run@.len(),
                forall|j: int| 0 <= j < run@.len() ==> is_digit_char(#[trigger] run@[j]),
                !over ==> acc as nat == dec_value(run@.subrange(0, i as int)) && acc <= i64::MAX
                    as u64,
                over ==> dec_value(run@.subrange(0, i as int)) > i64::MAX as nat,
            decreases run@.len() - i,
        {
            let c = run[i];
            let d: u64 = (c as u64) - ('0' as u64);
            proof {
                assert(is_digit_char(c));
                assert(d == digit_value(c));
                assert(run@.subrange(0, i + 1 as int) =~= run@.subrange(0, i as int).push(c));
                crate::text::lemma_dec_value_push(run@.subrange(0, i as int), c);
            }
            if !over {
                let next = match acc.checked_mul(10) {
                    Some(x) => x.checked_add(d),
                    None => None,
                };
                match next {
                    Some(y) => {
                        if y > 0x7fff_ffff_ffff_ffffu64 {
                            over = true;
                        } else {
                            acc = y;
                        }
                    },
                    None => {
                        over = true;
                    },
                }
            }
            i += 1;
        }
        proof {
            assert(run@.subrange(0, run@.len() as int) =~= run@);
        }
        if over {
            None
        } else {
            Some(acc as i64)
        }
    }

    /// Scans a string literal body from just past the opening quote,
    /// processing escape sequences; leaves the position past the
    /// terminating quote.
    fn read_string(&mut self) -> (r: Vec<char>)
        requires
            old(self).position <= old(self).input@.len(),
        ensures
            final(self).input@ == old(self).input@,
            final(self).position <= final(self).input@.len(),
            ({
                let scanned = str_scan(old(self).input@, old(self).position as nat);
                &&& r@ == scanned.0
                &&& final(self).position == if scanned.1 < final(self).input@.len() {
                    scanned.1 + 1
                } else {
                    scanned.1
                }
            }),
    {
        let ghost s = self.input@;
        let ghost p0 = self.position as nat;
        let mut r: Vec<char> = Vec::new();
        while self.position < self.input.len() && self.input[self.position] != '"'
            && self.input[self.position] != '\0'
            invariant
                self.input@ == s,
                p0 <= self.position <= s.len(),
                str_scan(s, p0).0 == r@ + str_scan(s, self.position as nat).0,
                str_scan(s, p0).1 == str_scan(s, self.position as nat).1,
            decreases s.len() - self.position,
        {
            let c = self.input[self.position];
            let ghost pos = self.position as nat;
            if c == '\\' && self.position + 1 < self.input.len() {
                let e = self.input[self.position + 1];
                if e == 'n' {
                    r.push('\n');
                } else if e == 't' {
                    r.push('\t');
                } else if e == 'r' {
                    r.push('\r');
                } else if e == '\\' {
                    r.push('\\');
                } else if e == '"' {
                    r.push('"');
                } else {
                    r.push('\\');
                    r.push(e);
                }
                proof {
                    assert(str_scan(s, pos).0 == escape_seq(s[pos + 1 as int]) + str_scan(s, pos + 2).0);
                    assert(r@ + str_scan(s, pos + 2).0 =~= str_scan(s, p0).0);
                }
                self.position += 2;
            } else {
                r.push(c);
                proof {
                    assert(str_scan(s, pos).0 == seq![s[pos as int]] + str_scan(s, pos + 1).0);
                    assert(r@ + str_scan(s, pos + 1).0 =~= str_scan(s, p0).0);
                }
                self.position += 1;
            }
        }
        proof {
            assert(str_scan(s, self.position as nat).0 =~= Seq::<char>::empty());
            assert(str_scan(s, self.position as nat).1 == self.position as nat);
            assert(r@ + Seq::<char>::empty() =~= r@);
        }
        if self.position < self.input.len() {
            self.position += 1;
        }
        r
    }

    /// Returns the next token, advancing past it; after the end of input it
    /// keeps returning the end marker.  A lexical fault is fatal: no token
    /// stream is produced past it.
    pub fn next_token(&mut self) -> (r: Result<Token, LexError>)
        requires
            old(self).position <= old(self).input@.len(),
        ensures
            final(self).input@ == old(self).input@,
            final(self).position <= final(self).input@.len(),
            match next_token_spec(old(self).input@, old(self).position as nat) {
                LexStep::Tok { t, next } => r matches Ok(tok) && tok.deep_view() == t
                    && final(self).position == next,
                LexStep::Fault { e } => r matches Err(err) && err.deep_view() == e,
            },
    {
        let ghost s = self.input@;
        let ghost pos0 = self.position as nat;
        self.skip_trivia();
        let ghost p = self.position as nat;
        if self.position >= self.input.len() {
            return Ok(Token::Eof);
        }
        let c = self.input[self.position];
        if c == '=' {
            if self.position + 1 < self.input.len() && self.input[self.position + 1] == '=' {
                self.position += 2;
                Ok(Token::Equal)
            } else {
                self.position += 1;
                Ok(Token::Assign)
            }
        } else if c == '+' {
            self.position += 1;
            Ok(Token::Plus)
        } else if c == '-' {
            self.position += 1;
            Ok(Token::Minus)
        } else if c == '*' {
            self.position += 1;
            Ok(Token::Multiply)
        } else if c == '/' {
            self.position += 1;
            Ok(Token::Divide)
        } else if c == '>' {
            if self.position + 1 < self.input.len() && self.input[self.position + 1] == '=' {
                self.position += 2;
                Ok(Token::GreaterEqual)
            } else {
                self.position += 1;
                Ok(Token::Greater)
            }
        } else if c == '<' {
            if self.position + 1 < self.input.len() && self.input[self.position + 1] == '=' {
                self.position += 2;
                Ok(Token::LessEqual)
            } else {
                self.position += 1;
                Ok(Token::Less)
            }
        } else if c == '!' {
            if self.position + 1 < self.input.len() && self.input[self.position + 1] == '=' {
                self.position += 2;
                Ok(Token::NotEqual)
            } else {
                Err(LexError::UnexpectedChar { ch: '!', at: self.position })
            }
        } else if c == '(' {
            self.position += 1;
            Ok(Token::LeftParen)
        } else if c == ')' {
            self.position += 1;
            Ok(Token::RightParen)
        } else if c == '{' {
            self.position += 1;
            Ok(Token::LeftBrace)
        } else if c == '}' {
            self.position += 1;
            Ok(Token::RightBrace)
        } else if c == ',' {
            self.position += 1;
            Ok(Token::Comma)
        } else if c == ';' {
            self.position += 1;
            Ok(Token::Semicolon)
        } else if c == ':' {
            self.position += 1;
            Ok(Token::Colon)
        } else if c == '"' {
            self.position += 1;
            let content = self.read_string();
            Ok(Token::StringLiteral(chars_to_string(&content)))
        } else if c == '\0' {
            self.position += 1;
            Ok(Token::Eof)
        } else if is_letter_exec(c) {
            let w = self.read_run(true);
            Ok(Self::word_token(w))
        } else if is_digit_char_exec(c) {
            let at = self.position;
            let run = self.read_run(false);
            let mut has_dot: bool = false;
            let mut i: usize = 0;
            while i < run.len()
                invariant
                    i <= run@.len(),
                    has_dot == exists|j: int| 0 <= j < i && run@[j] == '.',
                decreases run@.len() - i,
            {
                if run[i] == '.' {
                    has_dot = true;
                }
                i += 1;
            }
            proof {
                assert(has_dot == run@.contains('.'));
            }
            if has_dot {
                let text = chars_to_string(&run);
                match float_from_decimal(text.as_str()) {
                    Some(bits) => Ok(Token::FloatLiteral(bits)),
                    None => Err(LexError::BadFloatLiteral { at }),
                }
            } else {
                proof {
                    lemma_num_count(s, p);
                }
                match Self::digits_value(&run) {
                    Some(v) => Ok(Token::IntLiteral(v)),
                    None => Err(LexError::IntegerOverflow { at }),
                }
            }
        } else {
            Err(LexError::UnexpectedChar { ch: c, at: self.position })
        }
    }

    /// The whole token stream of the text, ending with the end marker, or
    /// the first fatal fault.
    pub fn lex_all(&mut self) -> (r: Result<Vec<Token>, LexError>)
        requires
            old(self).position <= old(self).input@.len(),
        ensures
            final(self).input@ == old(self).input@,
            match lex_from(old(self).input@, old(self).position as nat) {
                Ok(toks) => r matches Ok(v) && v.deep_view() == toks,
                Err(e) => r matches Err(err) && err.deep_view() == e,
            },
    {
        let ghost s = self.input@;
        let ghost pos0 = self.position as nat;
        let mut out: Vec<Token> = Vec::new();
        loop
            invariant
                self.input@ == s,
                s == old(self).input@,
                pos0 == old(self).position as nat,
                pos0 <= s.len(),
                self.position <= s.len(),
                forall|i: int| 0 <= i < out.deep_view().len() ==> out.deep_view()[i]
                    != TokenModel::Eof,
                match lex_from(s, self.position as nat) {
                    Ok(rest) => lex_from(s, pos0) == Ok::<_, LexErrorModel>(
                        out.deep_view() + rest,
                    ),
                    Err(e) => lex_from(s, pos0) == Err::<Seq<TokenModel>, _>(e),
                },
            decreases s.len() - self.position,
        {
            let ghost cur = self.position as nat;
            proof {
                lemma_next_token_bounds(s, cur);
            }
            match self.next_token() {
                Err(e) => {
                    return Err(e);
                },
                Ok(t) => {
                    let is_eof = matches!(t, Token::Eof);
                    let ghost tv = t.deep_view();
                    let ghost out0 = out.deep_view();
                    out.push(t);
                    proof {
                        assert(out.deep_view() =~= out0.push(tv));
                    }
                    if is_eof {
                        proof {
                            assert(lex_from(s, cur) == Ok::<_, LexErrorModel>(seq![tv]));
                            assert(out0 + seq![tv] =~= out.deep_view());
                        }
                        return Ok(out);
                    }
                    proof {
                        if let Ok(rest) = lex_from(s, self.position as nat) {
                            assert(out0 + (seq![tv] + rest) =~= out.deep_view() + rest);
                        }
                    }
                },
            }
        }
    }
}

} // verus!

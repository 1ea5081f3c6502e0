use vstd::prelude::*;

use crate::ast::{Expression, ExpressionM, ExpressionStatement, ExpressionStatementM, Identifier,
    IdentifierM, Infix, InfixM, IntegerLiteral, IntegerLiteralM, LetStatement, LetStatementM,
    Postfix, PostfixM, Prefix, PrefixM, Program, ProgramM, ReturnStatement, ReturnStatementM,
    Statement, StatementM};
use crate::chars::is_white;
use crate::digits::{parse_i64_digits, spec_parse_i64};
use crate::lexer::{Lexer, LexerM, char_at, lemma_spec_next_range, skip_ws, spec_next};
use crate::token::{Token, TokenM, TokenType};

verus! {

// ---------------------------------------------------------------------------
// Precedence
// ---------------------------------------------------------------------------
/// The precedence levels, lowest first. `Call` and `Index` are reserved for
/// function calls and subscripts; no production consumes them yet.
#[derive(Debug, PartialEq, Eq, Clone, Copy, Structural)]
pub enum Precedence {
    Lowest,
    Ternary,
    Equals,
    LessGreater,
    Sum,
    Product,
    Prefix,
    Call,
    Index,
}

/// The rank of a precedence level, for comparison.
pub open spec fn prec_val(p: Precedence) -> int {
    match p {
        Precedence::Lowest => 0,
        Precedence::Ternary => 1,
        Precedence::Equals => 2,
        Precedence::LessGreater => 3,
        Precedence::Sum => 4,
        Precedence::Product => 5,
        Precedence::Prefix => 6,
        Precedence::Call => 7,
        Precedence::Index => 8,
    }
}

fn prec_byte(p: Precedence) -> (r: u8)
    ensures
        r as int == prec_val(p),
{
    match p {
        Precedence::Lowest => 0,
        Precedence::Ternary => 1,
        Precedence::Equals => 2,
        Precedence::LessGreater => 3,
        Precedence::Sum => 4,
        Precedence::Product => 5,
        Precedence::Prefix => 6,
        Precedence::Call => 7,
        Precedence::Index => 8,
    }
}

/// Decides whether `a` binds less tightly than `b`.
fn prec_lt(a: Precedence, b: Precedence) -> (r: bool)
    ensures
        r == (prec_val(a) < prec_val(b)),
{
    prec_byte(a) < prec_byte(b)
}

/// The precedence an operator token takes in infix position; tokens that are
/// no operator sit at `Lowest`.
pub open spec fn spec_precedence_for_op(op: TokenType) -> Precedence {
    match op {
        TokenType::Question => Precedence::Ternary,
        TokenType::Equal | TokenType::NotEqual => Precedence::Equals,
        TokenType::LessThan | TokenType::GreaterThan | TokenType::LessThanOrEqual
            | TokenType::GreaterThanOrEqual => Precedence::LessGreater,
        TokenType::Plus | TokenType::Minus => Precedence::Sum,
        TokenType::Asterisk | TokenType::Slash | TokenType::Percent => Precedence::Product,
        TokenType::LeftParen => Precedence::Call,
        TokenType::LeftSquareBracket => Precedence::Index,
        _ => Precedence::Lowest,
    }
}

fn precedence_for_op(op: TokenType) -> (r: Precedence)
    ensures
        r == spec_precedence_for_op(op),
{
    match op {
        TokenType::Question => Precedence::Ternary,
        TokenType::Equal | TokenType::NotEqual => Precedence::Equals,
        TokenType::LessThan | TokenType::GreaterThan | TokenType::LessThanOrEqual
            | TokenType::GreaterThanOrEqual => Precedence::LessGreater,
        TokenType::Plus | TokenType::Minus => Precedence::Sum,
        TokenType::Asterisk | TokenType::Slash | TokenType::Percent => Precedence::Product,
        TokenType::LeftParen => Precedence::Call,
        TokenType::LeftSquareBracket => Precedence::Index,
        _ => Precedence::Lowest,
    }
}

/// The recognized binary infix operators.
pub open spec fn spec_is_infix_op(op: TokenType) -> bool {
    match op {
        TokenType::Plus | TokenType::Minus | TokenType::Asterisk | TokenType::Slash
            | TokenType::Percent | TokenType::Equal | TokenType::NotEqual | TokenType::LessThan
            | TokenType::GreaterThan | TokenType::LessThanOrEqual
            | TokenType::GreaterThanOrEqual => true,
        _ => false,
    }
}

fn is_infix_op(op: TokenType) -> (r: bool)
    ensures
        r == spec_is_infix_op(op),
{
    match op {
        TokenType::Plus | TokenType::Minus | TokenType::Asterisk | TokenType::Slash
            | TokenType::Percent | TokenType::Equal | TokenType::NotEqual | TokenType::LessThan
            | TokenType::GreaterThan | TokenType::LessThanOrEqual
            | TokenType::GreaterThanOrEqual => true,
        _ => false,
    }
}

/// The postfix operators.
pub open spec fn spec_is_postfix_op(op: TokenType) -> bool {
    match op {
        TokenType::Increment | TokenType::Decrement => true,
        _ => false,
    }
}

fn is_postfix_op(op: TokenType) -> (r: bool)
    ensures
        r == spec_is_postfix_op(op),
{
    match op {
        TokenType::Increment | TokenType::Decrement => true,
        _ => false,
    }
}

// ---------------------------------------------------------------------------
// Token helpers and error messages
// ---------------------------------------------------------------------------
/// The image of an optional token.
pub open spec fn opt_token_view(t: Option<Token>) -> Option<TokenM> {
    match t {
        Some(tok) => Some(tok@),
        None => None,
    }
}

/// The token inside an option, or a harmless placeholder where there is none;
/// the parser only reads it where the option is known to hold a token.
pub open spec fn tok_of(o: Option<TokenM>) -> TokenM {
    match o {
        Some(t) => t,
        None => TokenM { ttype: TokenType::Illegal, literal: Seq::empty() },
    }
}

/// The display name of a token kind, for error messages.
pub open spec fn spec_token_type_name(t: TokenType) -> Seq<char> {
    match t {
        TokenType::Let => "Let"@,
        TokenType::Fn => "Fn"@,
        TokenType::True => "True"@,
        TokenType::False => "False"@,
        TokenType::If => "If"@,
        TokenType::Else => "Else"@,
        TokenType::Return => "Return"@,
        TokenType::Identifier => "Identifier"@,
        TokenType::Integer => "Integer"@,
        TokenType::String => "String"@,
        TokenType::Plus => "Plus"@,
        TokenType::Increment => "Increment"@,
        TokenType::Minus => "Minus"@,
        TokenType::Decrement => "Decrement"@,
        TokenType::Asterisk => "Asterisk"@,
        TokenType::Slash => "Slash"@,
        TokenType::Question => "Question"@,
        TokenType::Percent => "Percent"@,
        TokenType::Assign => "Assign"@,
        TokenType::Bang => "Bang"@,
        TokenType::Equal => "Equal"@,
        TokenType::NotEqual => "NotEqual"@,
        TokenType::LessThan => "LessThan"@,
        TokenType::GreaterThan => "GreaterThan"@,
        TokenType::LessThanOrEqual => "LessThanOrEqual"@,
        TokenType::GreaterThanOrEqual => "GreaterThanOrEqual"@,
        TokenType::Comma => "Comma"@,
        TokenType::Semicolon => "Semicolon"@,
        TokenType::Colon => "Colon"@,
        TokenType::LeftParen => "LeftParen"@,
        TokenType::RightParen => "RightParen"@,
        TokenType::LeftSquareBracket => "LeftSquareBracket"@,
        TokenType::RightSquareBracket => "RightSquareBracket"@,
        TokenType::LeftCurlyBracket => "LeftCurlyBracket"@,
        TokenType::RightCurlyBracket => "RightCurlyBracket"@,
        TokenType::Eof => "Eof"@,
        TokenType::Illegal => "Illegal"@,
    }
}

fn token_type_name(t: TokenType) -> (r: &'static str)
    ensures
        r@ == spec_token_type_name(t),
{
    match t {
        TokenType::Let => "Let",
        TokenType::Fn => "Fn",
        TokenType::True => "True",
        TokenType::False => "False",
        TokenType::If => "If",
        TokenType::Else => "Else",
        TokenType::Return => "Return",
        TokenType::Identifier => "Identifier",
        TokenType::Integer => "Integer",
        TokenType::String => "String",
        TokenType::Plus => "Plus",
        TokenType::Increment => "Increment",
        TokenType::Minus => "Minus",
        TokenType::Decrement => "Decrement",
        TokenType::Asterisk => "Asterisk",
        TokenType::Slash => "Slash",
        TokenType::Question => "Question",
        TokenType::Percent => "Percent",
        TokenType::Assign => "Assign",
        TokenType::Bang => "Bang",
        TokenType::Equal => "Equal",
        TokenType::NotEqual => "NotEqual",
        TokenType::LessThan => "LessThan",
        TokenType::GreaterThan => "GreaterThan",
        TokenType::LessThanOrEqual => "LessThanOrEqual",
        TokenType::GreaterThanOrEqual => "GreaterThanOrEqual",
        TokenType::Comma => "Comma",
        TokenType::Semicolon => "Semicolon",
        TokenType::Colon => "Colon",
        TokenType::LeftParen => "LeftParen",
        TokenType::RightParen => "RightParen",
        TokenType::LeftSquareBracket => "LeftSquareBracket",
        TokenType::RightSquareBracket => "RightSquareBracket",
        TokenType::LeftCurlyBracket => "LeftCurlyBracket",
        TokenType::RightCurlyBracket => "RightCurlyBracket",
        TokenType::Eof => "Eof",
        TokenType::Illegal => "Illegal",
    }
}

/// How a token (or its absence) reads in an error message.
pub open spec fn spec_describe_token(t: Option<TokenM>) -> Seq<char> {
    match t {
        Some(tm) => spec_token_type_name(tm.ttype) + " '"@ + tm.literal + "'"@,
        None => "end of input"@,
    }
}

fn describe_token(t: &Option<Token>) -> (r: String)
    ensures
        r@ == spec_describe_token(opt_token_view(*t)),
{
    match t {
        Some(tok) => {
            let mut s = String::from_str(token_type_name(tok.ttype));
            s.append(" '");
            s.append(tok.literal.as_str());
            s.append("'");
            proof {
                assert(s@ =~= spec_describe_token(opt_token_view(*t)));
            }
            s
        },
        None => String::from_str("end of input"),
    }
}

/// The message a lookahead mismatch reports.
pub open spec fn msg_expect_peek(want: TokenType, got: Option<TokenM>) -> Seq<char> {
    "expected next token to be "@ + spec_token_type_name(want) + ", got "@ + spec_describe_token(
        got,
    ) + " instead"@
}

/// The message reported when no token is left to start a statement.
pub open spec fn msg_no_statement() -> Seq<char> {
    "no token is left to start a statement"@
}

/// The message reported when no expression can start with the current token.
pub open spec fn msg_no_expression(got: TokenM) -> Seq<char> {
    "no expression can start with "@ + spec_describe_token(Some(got))
}

/// The message reported when a prefix operator is applied to a string literal.
pub open spec fn msg_prefix_on_string(op: Option<TokenM>) -> Seq<char> {
    "the prefix operator "@ + spec_describe_token(op) + " cannot be applied to a string literal"@
}

/// The message reported when an integer literal does not fit in 64 bits.
pub open spec fn msg_bad_integer(lit: Seq<char>) -> Seq<char> {
    "integer literal out of range: "@ + lit
}

// ---------------------------------------------------------------------------
// The parser state, mathematically
// ---------------------------------------------------------------------------
/// The mathematical image of a parser: the source characters, the scan cursor,
/// and the current and lookahead tokens.
pub struct ParserM {
    pub input: Seq<char>,
    pub rp: int,
    pub cur: Option<TokenM>,
    pub peek: Option<TokenM>,
}

impl ParserM {
    /// A parser state is well formed when the cursor is in range; when the
    /// lookahead, unless it is `Eof`, was produced before the scan ran out;
    /// when a current token other than `Eof` has a lookahead behind it; and
    /// when a missing current token means the lookahead is missing too.
    pub open spec fn wf(self) -> bool {
        &&& 1 <= self.rp <= self.input.len() + 2
        &&& (match self.peek {
            Some(t) => t.ttype != TokenType::Eof ==> self.rp <= self.input.len() + 1,
            None => self.rp > self.input.len() + 1,
        })
        &&& (match self.cur {
            Some(t) => t.ttype != TokenType::Eof ==> self.peek is Some,
            None => self.peek is None,
        })
    }

    /// How much input is left to consume: characters still unread, plus the
    /// two buffered tokens. Every parsing step keeps it from growing, and
    /// every token taken shrinks it.
    pub open spec fn measure(self) -> int {
        (self.input.len() + 2 - self.rp) + (if self.cur is Some {
            1int
        } else {
            0int
        }) + (if self.peek is Some {
            1int
        } else {
            0int
        })
    }
}

/// The current token of a state, or the placeholder.
pub open spec fn cur_of(s: ParserM) -> TokenM {
    tok_of(s.cur)
}

/// The lookahead token of a state, or the placeholder.
pub open spec fn peek_of(s: ParserM) -> TokenM {
    tok_of(s.peek)
}

/// Whether the current token exists and has kind `t`.
pub open spec fn spec_cur_is(s: ParserM, t: TokenType) -> bool {
    match s.cur {
        Some(tm) => tm.ttype == t,
        None => false,
    }
}

/// Whether the lookahead token exists and has kind `t`.
pub open spec fn spec_peek_is(s: ParserM, t: TokenType) -> bool {
    match s.peek {
        Some(tm) => tm.ttype == t,
        None => false,
    }
}

/// One shift of the token window: the lookahead becomes current and the
/// scanner's next token becomes the lookahead.
pub open spec fn spec_advance(s: ParserM) -> ParserM {
    let (rp2, t) = spec_next(s.input, s.rp);
    ParserM { input: s.input, rp: rp2, cur: s.peek, peek: t }
}

/// Shifting the window keeps the state well formed, never grows the measure,
/// and shrinks it whenever a current token was there to consume.
pub proof fn lemma_advance(s: ParserM)
    requires
        s.wf(),
    ensures
        spec_advance(s).wf(),
        spec_advance(s).input == s.input,
        spec_advance(s).cur == s.peek,
        spec_advance(s).measure() <= s.measure(),
        s.cur is Some ==> spec_advance(s).measure() < s.measure(),
{
    lemma_spec_next_range(s.input, s.rp);
}

// ---------------------------------------------------------------------------
// The parse, mathematically
// ---------------------------------------------------------------------------
// Each function mirrors one parsing production: it maps a parser state to the
// state after the production and its result. Where a production continues on
// the state an inner production returned, the recursion is guarded by the
// well-formedness and progress facts that hold of every reachable state; the
// guards keep the definitions well founded, and the executable parser proves
// them on every path it takes.
/// A lookahead check: on a match, consume; otherwise report what stood there.
pub open spec fn sp_expect_peek(s: ParserM, t: TokenType) -> (ParserM, Result<(), Seq<char>>) {
    if spec_peek_is(s, t) {
        (spec_advance(s), Ok(()))
    } else {
        (s, Err(msg_expect_peek(t, s.peek)))
    }
}

/// A postfix fold: the current token becomes a postfix operator on `left`.
pub open spec fn sp_postfix(s: ParserM, left: ExpressionM) -> (ParserM, Result<
    ExpressionM,
    Seq<char>,
>) {
    (s, Ok(ExpressionM::Postfix(PostfixM { left: Box::new(left), operator: cur_of(s) })))
}

/// The climbing loop: while the lookahead is no semicolon, binds tighter than
/// `minp`, and is a recognized infix operator, consume it and fold an infix
/// node; the strictly-greater comparison makes equal-precedence chains group
/// to the left.
pub open spec fn sp_infix_loop(s: ParserM, left: ExpressionM, minp: Precedence) -> (ParserM, Result<
    ExpressionM,
    Seq<char>,
>)
    decreases s.measure(), 1int,
{
    if !spec_peek_is(s, TokenType::Semicolon) && prec_val(minp) < prec_val(
        spec_precedence_for_op(peek_of(s).ttype),
    ) && spec_is_infix_op(peek_of(s).ttype) {
        let s1 = spec_advance(s);
        if s1.wf() && s1.measure() < s.measure() {
            let (s2, r) = sp_infix(s1, left);
            match r {
                Err(e) => (s2, Err(e)),
                Ok(left2) => if s2.wf() && s2.measure() < s.measure() {
                    sp_infix_loop(s2, left2, minp)
                } else {
                    (s2, Ok(left2))
                },
            }
        } else {
            (s1, Ok(left))
        }
    } else {
        (s, Ok(left))
    }
}

/// An infix production: the current token is the operator; its own precedence
/// becomes the floor for the right operand.
pub open spec fn sp_infix(s: ParserM, left: ExpressionM) -> (ParserM, Result<
    ExpressionM,
    Seq<char>,
>)
    decreases s.measure(), 0int,
{
    let token = cur_of(s);
    let prec = spec_precedence_for_op(token.ttype);
    let s1 = spec_advance(s);
    if s1.wf() && s1.measure() < s.measure() {
        let (s2, r) = sp_expression(s1, prec);
        match r {
            Err(e) => (s2, Err(e)),
            Ok(right) => (
                s2,
                Ok(
                    ExpressionM::Infix(
                        InfixM { left: Box::new(left), operator: token, right: Box::new(right) },
                    ),
                ),
            ),
        }
    } else {
        (s1, Err(msg_no_expression(cur_of(s1))))
    }
}

/// A prefix production: the current token is the operator; the operand is
/// parsed at `Prefix` precedence. A string literal may not follow a prefix
/// operator.
pub open spec fn sp_prefix(s: ParserM) -> (ParserM, Result<ExpressionM, Seq<char>>)
    decreases s.measure(), 0int,
{
    if peek_of(s).ttype == TokenType::String {
        (s, Err(msg_prefix_on_string(s.cur)))
    } else {
        let token = cur_of(s);
        let s1 = spec_advance(s);
        if s1.wf() && s1.measure() < s.measure() {
            let (s2, r) = sp_expression(s1, Precedence::Prefix);
            match r {
                Err(e) => (s2, Err(e)),
                Ok(right) => (
                    s2,
                    Ok(ExpressionM::Prefix(PrefixM { operator: token, right: Box::new(right) })),
                ),
            }
        } else {
            (s1, Err(msg_no_expression(cur_of(s1))))
        }
    }
}

/// An expression at a minimum precedence: resolve a primary or prefix
/// production for the current token, fold a postfix operator where one may
/// follow, then climb infix operators above `minp`.
pub open spec fn sp_expression(s: ParserM, minp: Precedence) -> (ParserM, Result<
    ExpressionM,
    Seq<char>,
>)
    decreases s.measure(), 2int,
{
    let current = cur_of(s);
    let t = current.ttype;
    if s.cur is None {
        (s, Err(msg_no_expression(current)))
    } else if t == TokenType::Identifier {
        let left = ExpressionM::Identifier(IdentifierM { token: current, value: current.literal });
        if spec_is_postfix_op(peek_of(s).ttype) {
            let s1 = spec_advance(s);
            let (s2, r) = sp_postfix(s1, left);
            match r {
                Err(e) => (s2, Err(e)),
                Ok(left2) => if s2.wf() && s2.measure() < s.measure() {
                    sp_infix_loop(s2, left2, minp)
                } else {
                    (s2, Ok(left2))
                },
            }
        } else {
            sp_infix_loop(s, left, minp)
        }
    } else if t == TokenType::Integer {
        match spec_parse_i64(current.literal) {
            None => (s, Err(msg_bad_integer(current.literal))),
            Some(v) => {
                let left = ExpressionM::IntegerLiteral(
                    IntegerLiteralM { token: current, value: v },
                );
                if spec_is_postfix_op(peek_of(s).ttype) {
                    let s1 = spec_advance(s);
                    let (s2, r) = sp_postfix(s1, left);
                    match r {
                        Err(e) => (s2, Err(e)),
                        Ok(left2) => if s2.wf() && s2.measure() < s.measure() {
                            sp_infix_loop(s2, left2, minp)
                        } else {
                            (s2, Ok(left2))
                        },
                    }
                } else {
                    sp_infix_loop(s, left, minp)
                }
            },
        }
    } else if t == TokenType::String {
        sp_infix_loop(s, ExpressionM::StringLiteral(current), minp)
    } else if t == TokenType::True || t == TokenType::False {
        sp_infix_loop(s, ExpressionM::BooleanLiteral(current), minp)
    } else if t == TokenType::Bang || t == TokenType::Minus || t == TokenType::Increment || t
        == TokenType::Decrement {
        let (s1, r1) = sp_prefix(s);
        match r1 {
            Err(e) => (s1, Err(e)),
            Ok(left) => if s1.wf() && s1.measure() < s.measure() {
                if (t == TokenType::Minus || t == TokenType::Increment || t
                    == TokenType::Decrement) && spec_is_postfix_op(peek_of(s1).ttype) {
                    let s2 = spec_advance(s1);
                    let (s3, r2) = sp_postfix(s2, left);
                    match r2 {
                        Err(e) => (s3, Err(e)),
                        Ok(left2) => if s3.wf() && s3.measure() < s.measure() {
                            sp_infix_loop(s3, left2, minp)
                        } else {
                            (s3, Ok(left2))
                        },
                    }
                } else {
                    sp_infix_loop(s1, left, minp)
                }
            } else {
                (s1, Ok(left))
            },
        }
    } else {
        (s, Err(msg_no_expression(current)))
    }
}

/// A `let` statement: `let`, a name, `=`, an expression at the lowest
/// precedence, and an optional trailing semicolon.
pub open spec fn sp_let_statement(s: ParserM) -> (ParserM, Result<StatementM, Seq<char>>) {
    let token = cur_of(s);
    let (s1, r1) = sp_expect_peek(s, TokenType::Identifier);
    match r1 {
        Err(e) => (s1, Err(e)),
        Ok(_) => {
            let name = IdentifierM { token: cur_of(s1), value: cur_of(s1).literal };
            let (s2, r2) = sp_expect_peek(s1, TokenType::Assign);
            match r2 {
                Err(e) => (s2, Err(e)),
                Ok(_) => {
                    let s3 = spec_advance(s2);
                    let (s4, r3) = sp_expression(s3, Precedence::Lowest);
                    match r3 {
                        Err(e) => (s4, Err(e)),
                        Ok(value) => {
                            let s5 = if spec_peek_is(s4, TokenType::Semicolon) {
                                spec_advance(s4)
                            } else {
                                s4
                            };
                            (
                                s5,
                                Ok(StatementM::LetStatement(LetStatementM { token, name, value })),
                            )
                        },
                    }
                },
            }
        },
    }
}

/// A `return` statement: `return`, an expression at the lowest precedence,
/// and an optional trailing semicolon.
pub open spec fn sp_return_statement(s: ParserM) -> (ParserM, Result<StatementM, Seq<char>>) {
    let token = cur_of(s);
    let s1 = spec_advance(s);
    let (s2, r) = sp_expression(s1, Precedence::Lowest);
    match r {
        Err(e) => (s2, Err(e)),
        Ok(value) => {
            let s3 = if spec_peek_is(s2, TokenType::Semicolon) {
                spec_advance(s2)
            } else {
                s2
            };
            (s3, Ok(StatementM::ReturnStatement(ReturnStatementM { token, return_value: value })))
        },
    }
}

/// A bare expression in statement position, with an optional trailing
/// semicolon.
pub open spec fn sp_expression_statement(s: ParserM) -> (ParserM, Result<StatementM, Seq<char>>) {
    let token = cur_of(s);
    let (s1, r) = sp_expression(s, Precedence::Lowest);
    match r {
        Err(e) => (s1, Err(e)),
        Ok(value) => {
            let s2 = if spec_peek_is(s1, TokenType::Semicolon) {
                spec_advance(s1)
            } else {
                s1
            };
            (s2, Ok(StatementM::ExpressionStatement(ExpressionStatementM { token, expression: value })))
        },
    }
}

/// One statement, dispatched on the current token: `let`, `return`, or a bare
/// expression.
pub open spec fn sp_statement(s: ParserM) -> (ParserM, Result<StatementM, Seq<char>>) {
    match s.cur {
        Some(tm) => if tm.ttype == TokenType::Let {
            sp_let_statement(s)
        } else if tm.ttype == TokenType::Return {
            sp_return_statement(s)
        } else {
            sp_expression_statement(s)
        },
        None => (s, Err(msg_no_statement())),
    }
}

/// The program loop: one statement after another until the current token is
/// `Eof` or the stream is exhausted, stopping at the first error.
pub open spec fn sp_program_loop(s: ParserM, acc: Seq<StatementM>) -> (ParserM, Result<
    ProgramM,
    Seq<char>,
>)
    decreases s.measure(),
{
    if s.cur is Some && cur_of(s).ttype != TokenType::Eof {
        let (s1, r) = sp_statement(s);
        match r {
            Err(e) => (s1, Err(e)),
            Ok(st) => {
                let s2 = spec_advance(s1);
                if s2.wf() && s2.measure() < s.measure() {
                    sp_program_loop(s2, acc.push(st))
                } else {
                    (s2, Ok(ProgramM { statements: acc.push(st) }))
                }
            },
        }
    } else {
        (s, Ok(ProgramM { statements: acc }))
    }
}

/// A whole program: the statements in source order, or the first error.
pub open spec fn sp_program(s: ParserM) -> (ParserM, Result<ProgramM, Seq<char>>) {
    sp_program_loop(s, Seq::empty())
}

/// The parser state over a fresh scanner: both window slots start as
/// placeholders and are shifted twice.
pub open spec fn spec_parser_init(l: LexerM) -> ParserM {
    let s0 = ParserM {
        input: l.input,
        rp: l.read_position,
        cur: Some(TokenM { ttype: TokenType::Illegal, literal: Seq::empty() }),
        peek: Some(TokenM { ttype: TokenType::Illegal, literal: Seq::empty() }),
    };
    spec_advance(spec_advance(s0))
}

// ---------------------------------------------------------------------------
// Result images
// ---------------------------------------------------------------------------
/// The image of an expression-parsing result.
pub open spec fn res_expr(r: Result<Expression, String>) -> Result<ExpressionM, Seq<char>> {
    match r {
        Ok(e) => Ok(e@),
        Err(m) => Err(m@),
    }
}

/// The image of a statement-parsing result.
pub open spec fn res_stmt(r: Result<Statement, String>) -> Result<StatementM, Seq<char>> {
    match r {
        Ok(st) => Ok(st@),
        Err(m) => Err(m@),
    }
}

/// The image of a program-parsing result.
pub open spec fn res_program(r: Result<Program, String>) -> Result<ProgramM, Seq<char>> {
    match r {
        Ok(p) => Ok(p@),
        Err(m) => Err(m@),
    }
}

/// The image of a lookahead-check result.
pub open spec fn res_unit(r: Result<(), String>) -> Result<(), Seq<char>> {
    match r {
        Ok(u) => Ok(u),
        Err(m) => Err(m@),
    }
}

// ---------------------------------------------------------------------------
// The parser
// ---------------------------------------------------------------------------
/// The parser: the scanner it pulls tokens from, the current token, and one
/// token of lookahead. Advancing shifts the lookahead into current and pulls
/// a new lookahead from the scanner.
pub struct Parser {
    l: Lexer,
    cur_token: Option<Token>,
    peek_token: Option<Token>,
}

impl View for Parser {
    type V = ParserM;

    closed spec fn view(&self) -> ParserM {
        ParserM {
            input: self.l@.input,
            rp: self.l@.read_position,
            cur: opt_token_view(self.cur_token),
            peek: opt_token_view(self.peek_token),
        }
    }
}

impl Parser {
    /// The scanner behind the parser is well formed.
    pub closed spec fn lwf(&self) -> bool {
        self.l@.wf()
    }

    /// The parser is well formed: its scanner and its token window both are.
    pub open spec fn wf(&self) -> bool {
        self.lwf() && self@.wf()
    }

    /// Makes a parser over the scanner, with the token window filled.
    pub fn new(l: Lexer) -> (r: Parser)
        requires
            l@.wf(),
        ensures
            r.wf(),
            r@ == spec_parser_init(l@),
    {
        let ghost lv = l@;
        let mut p = Parser {
            l,
            cur_token: Some(Token::new(TokenType::Illegal, String::new())),
            peek_token: Some(Token::new(TokenType::Illegal, String::new())),
        };
        let ghost s0 = p@;
        proof {
            if s0.rp <= s0.input.len() + 1 {
                assert(s0.wf());
                lemma_advance(s0);
                lemma_advance(spec_advance(s0));
            } else {
                // the scanner is already exhausted: both shifts only drain
                // the window
                assert(char_at(s0.input, s0.rp - 1) == '\0');
                assert(!is_white('\0'));
                assert(skip_ws(s0.input, s0.rp) == s0.rp);
                assert(spec_next(s0.input, s0.rp).1 is None);
                assert(spec_advance(spec_advance(s0)).wf());
            }
        }
        p.next_token();
        p.next_token();
        p
    }

    /// Shifts the token window: the lookahead becomes current and the next
    /// scanned token becomes the lookahead.
    pub fn next_token(&mut self)
        requires
            old(self).lwf(),
        ensures
            final(self).lwf(),
            final(self)@ == spec_advance(old(self)@),
    {
        self.cur_token = self.peek_token.take();
        self.peek_token = self.l.next();
    }

    fn current_token_is(&self, t: TokenType) -> (r: bool)
        ensures
            r == spec_cur_is(self@, t),
    {
        match &self.cur_token {
            None => false,
            Some(tok) => tok.ttype == t,
        }
    }

    fn peek_token_is(&self, t: TokenType) -> (r: bool)
        ensures
            r == spec_peek_is(self@, t),
    {
        match &self.peek_token {
            None => false,
            Some(tok) => tok.ttype == t,
        }
    }

    fn peek_type(&self) -> (r: TokenType)
        requires
            self@.peek is Some,
        ensures
            r == peek_of(self@).ttype,
    {
        self.peek_token.as_ref().unwrap().ttype
    }

    fn peek_precedence(&self) -> (r: Precedence)
        requires
            self@.peek is Some,
        ensures
            r == spec_precedence_for_op(peek_of(self@).ttype),
    {
        precedence_for_op(self.peek_token.as_ref().unwrap().ttype)
    }

    fn current_precedence(&self) -> (r: Precedence)
        requires
            self@.cur is Some,
        ensures
            r == spec_precedence_for_op(cur_of(self@).ttype),
    {
        precedence_for_op(self.cur_token.as_ref().unwrap().ttype)
    }

    /// Checks that the lookahead has kind `t`; consumes it if so, and reports
    /// the mismatch otherwise.
    fn expect_peek(&mut self, t: TokenType) -> (r: Result<(), String>)
        requires
            old(self).lwf(),
        ensures
            final(self).lwf(),
            ({
                let (s2, rr) = sp_expect_peek(old(self)@, t);
                final(self)@ == s2 && res_unit(r) == rr
            }),
    {
        if self.peek_token_is(t) {
            self.next_token();
            Ok(())
        } else {
            let mut m = String::from_str("expected next token to be ");
            m.append(token_type_name(t));
            m.append(", got ");
            let d = describe_token(&self.peek_token);
            m.append(d.as_str());
            m.append(" instead");
            proof {
                assert(m@ =~= msg_expect_peek(t, self@.peek));
            }
            Err(m)
        }
    }

    /// Parses one whole program: statements in source order until `Eof` or
    /// the end of the token stream, stopping at the first error. The result
    /// and the state left behind are exactly what `sp_program` says of the
    /// state the parser started in.
    pub fn parse_program(&mut self) -> (r: Result<Program, String>)
        requires
            old(self).wf(),
        ensures
            final(self).wf(),
            ({
                let (s2, rr) = sp_program(old(self)@);
                final(self)@ == s2 && res_program(r) == rr
            }),
    {
        let mut statements: Vec<Statement> = Vec::new();
        proof {
            assert(statements@.map_values(|st: Statement| st@) =~= Seq::<StatementM>::empty());
        }
        while self.cur_token.is_some() && !self.current_token_is(TokenType::Eof)
            invariant
                self.wf(),
                sp_program(old(self)@) == sp_program_loop(
                    self@,
                    statements@.map_values(|st: Statement| st@),
                ),
            decreases self@.measure(),
        {
            let ghost s_iter = self@;
            let ghost acc_iter = statements@.map_values(|st: Statement| st@);
            let stmt = self.parse_statement()?;
            proof {
                lemma_advance(self@);
            }
            statements.push(stmt);
            self.next_token();
            proof {
                assert(statements@.map_values(|st: Statement| st@) =~= acc_iter.push(
                    statements@.last()@,
                ));
            }
        }
        Ok(Program { statements })
    }

    /// Parses one statement, dispatched on the current token.
    fn parse_statement(&mut self) -> (r: Result<Statement, String>)
        requires
            old(self).wf(),
            old(self)@.cur is Some,
        ensures
            final(self).wf(),
            final(self)@.input == old(self)@.input,
            final(self)@.measure() <= old(self)@.measure(),
            ({
                let (s2, rr) = sp_statement(old(self)@);
                final(self)@ == s2 && res_stmt(r) == rr
            }),
            r is Ok ==> (final(self)@.cur matches Some(t) && t.ttype != TokenType::Eof),
    {
        let tt = match &self.cur_token {
            Some(tok) => tok.ttype,
            None => TokenType::Illegal,
        };
        if tt == TokenType::Let {
            self.parse_let_statement()
        } else if tt == TokenType::Return {
            self.parse_return_statement()
        } else {
            self.parse_expression_statement()
        }
    }

    /// Parses `let <name> = <expression>` with an optional trailing
    /// semicolon.
    fn parse_let_statement(&mut self) -> (r: Result<Statement, String>)
        requires
            old(self).wf(),
            old(self)@.cur is Some,
        ensures
            final(self).wf(),
            final(self)@.input == old(self)@.input,
            final(self)@.measure() <= old(self)@.measure(),
            ({
                let (s2, rr) = sp_let_statement(old(self)@);
                final(self)@ == s2 && res_stmt(r) == rr
            }),
            r is Ok ==> (final(self)@.cur matches Some(t) && t.ttype != TokenType::Eof),
    {
        let token = self.cur_token.as_ref().unwrap().clone();
        proof {
            if spec_peek_is(self@, TokenType::Identifier) {
                lemma_advance(self@);
            }
        }
        self.expect_peek(TokenType::Identifier)?;
        let name = Identifier {
            token: self.cur_token.as_ref().unwrap().clone(),
            value: self.cur_token.as_ref().unwrap().literal.clone(),
        };
        proof {
            if spec_peek_is(self@, TokenType::Assign) {
                lemma_advance(self@);
            }
        }
        self.expect_peek(TokenType::Assign)?;
        proof {
            lemma_advance(self@);
        }
        self.next_token();
        let value = self.parse_expression(Precedence::Lowest)?;
        if self.peek_token_is(TokenType::Semicolon) {
            proof {
                lemma_advance(self@);
            }
            self.next_token();
        }
        Ok(Statement::LetStatement(LetStatement { token, name, value }))
    }

    /// Parses `return <expression>` with an optional trailing semicolon.
    fn parse_return_statement(&mut self) -> (r: Result<Statement, String>)
        requires
            old(self).wf(),
            old(self)@.cur matches Some(t) && t.ttype != TokenType::Eof,
        ensures
            final(self).wf(),
            final(self)@.input == old(self)@.input,
            final(self)@.measure() <= old(self)@.measure(),
            ({
                let (s2, rr) = sp_return_statement(old(self)@);
                final(self)@ == s2 && res_stmt(r) == rr
            }),
            r is Ok ==> (final(self)@.cur matches Some(t) && t.ttype != TokenType::Eof),
    {
        let token = self.cur_token.as_ref().unwrap().clone();
        proof {
            lemma_advance(self@);
        }
        self.next_token();
        let return_value = self.parse_expression(Precedence::Lowest)?;
        if self.peek_token_is(TokenType::Semicolon) {
            proof {
                lemma_advance(self@);
            }
            self.next_token();
        }
        Ok(Statement::ReturnStatement(ReturnStatement { token, return_value }))
    }

    /// Parses a bare expression in statement position, with an optional
    /// trailing semicolon.
    fn parse_expression_statement(&mut self) -> (r: Result<Statement, String>)
        requires
            old(self).wf(),
            old(self)@.cur is Some,
        ensures
            final(self).wf(),
            final(self)@.input == old(self)@.input,
            final(self)@.measure() <= old(self)@.measure(),
            ({
                let (s2, rr) = sp_expression_statement(old(self)@);
                final(self)@ == s2 && res_stmt(r) == rr
            }),
            r is Ok ==> (final(self)@.cur matches Some(t) && t.ttype != TokenType::Eof),
    {
        let token = self.cur_token.as_ref().unwrap().clone();
        let expression = self.parse_expression(Precedence::Lowest)?;
        if self.peek_token_is(TokenType::Semicolon) {
            proof {
                lemma_advance(self@);
            }
            self.next_token();
        }
        Ok(Statement::ExpressionStatement(ExpressionStatement { token, expression }))
    }

    /// Parses an expression at a minimum precedence: a primary or prefix
    /// production, a postfix fold where one may follow, then the climbing
    /// loop over infix operators that bind tighter than `precedence`.
    fn parse_expression(&mut self, precedence: Precedence) -> (r: Result<Expression, String>)
        requires
            old(self).wf(),
            old(self)@.cur is Some,
        ensures
            final(self).wf(),
            final(self)@.input == old(self)@.input,
            final(self)@.measure() <= old(self)@.measure(),
            ({
                let (s2, rr) = sp_expression(old(self)@, precedence);
                final(self)@ == s2 && res_expr(r) == rr
            }),
            r is Ok ==> (final(self)@.cur matches Some(t) && t.ttype != TokenType::Eof),
        decreases old(self)@.measure(), 2int,
    {
        let current = self.cur_token.as_ref().unwrap().clone();
        let mut left: Expression;
        match current.ttype {
            TokenType::Identifier => {
                left = Expression::Identifier(
                    Identifier { token: current.clone(), value: current.literal.clone() },
                );
                if is_postfix_op(self.peek_type()) {
                    proof {
                        lemma_advance(self@);
                    }
                    self.next_token();
                    left = self.parse_postfix_expression(left)?;
                }
                proof {
                    assert(sp_expression(old(self)@, precedence) == sp_infix_loop(
                        self@,
                        left@,
                        precedence,
                    ));
                }
            },
            TokenType::Integer => {
                let value = match parse_i64_digits(current.literal.as_str()) {
                    Some(v) => v,
                    None => {
                        let mut m = String::from_str("integer literal out of range: ");
                        m.append(current.literal.as_str());
                        proof {
                            assert(m@ =~= msg_bad_integer(cur_of(old(self)@).literal));
                        }
                        return Err(m);
                    },
                };
                left = Expression::IntegerLiteral(IntegerLiteral { token: current.clone(), value });
                if is_postfix_op(self.peek_type()) {
                    proof {
                        lemma_advance(self@);
                    }
                    self.next_token();
                    left = self.parse_postfix_expression(left)?;
                }
                proof {
                    assert(sp_expression(old(self)@, precedence) == sp_infix_loop(
                        self@,
                        left@,
                        precedence,
                    ));
                }
            },
            TokenType::String => {
                left = Expression::StringLiteral(current.clone());
                proof {
                    assert(sp_expression(old(self)@, precedence) == sp_infix_loop(
                        self@,
                        left@,
                        precedence,
                    ));
                }
            },
            TokenType::True | TokenType::False => {
                left = Expression::BooleanLiteral(current.clone());
                proof {
                    assert(sp_expression(old(self)@, precedence) == sp_infix_loop(
                        self@,
                        left@,
                        precedence,
                    ));
                }
            },
            TokenType::Bang | TokenType::Minus | TokenType::Increment | TokenType::Decrement => {
                left = self.parse_prefix_expression()?;
                match current.ttype {
                    TokenType::Minus | TokenType::Increment | TokenType::Decrement => {
                        if is_postfix_op(self.peek_type()) {
                            proof {
                                lemma_advance(self@);
                            }
                            self.next_token();
                            left = self.parse_postfix_expression(left)?;
                        }
                    },
                    _ => {},
                }
                proof {
                    assert(sp_expression(old(self)@, precedence) == sp_infix_loop(
                        self@,
                        left@,
                        precedence,
                    ));
                }
            },
            _ => {
                let mut m = String::from_str("no expression can start with ");
                let d = describe_token(&self.cur_token);
                m.append(d.as_str());
                proof {
                    assert(m@ =~= msg_no_expression(cur_of(old(self)@)));
                }
                return Err(m);
            },
        }
        while !self.peek_token_is(TokenType::Semicolon) && prec_lt(
            precedence,
            self.peek_precedence(),
        ) && is_infix_op(self.peek_type())
            invariant
                self.wf(),
                self@.input == old(self)@.input,
                self@.measure() <= old(self)@.measure(),
                self@.cur matches Some(t) && t.ttype != TokenType::Eof,
                sp_expression(old(self)@, precedence) == sp_infix_loop(self@, left@, precedence),
            decreases self@.measure(),
        {
            let ghost s_iter = self@;
            let ghost left_iter = left@;
            proof {
                lemma_advance(self@);
            }
            self.next_token();
            left = self.parse_infix_expression(left)?;
            proof {
                assert(sp_infix_loop(s_iter, left_iter, precedence) == sp_infix_loop(
                    self@,
                    left@,
                    precedence,
                ));
            }
        }
        Ok(left)
    }

    /// Parses a unary prefix production; the operand is parsed at `Prefix`
    /// precedence, and a string literal is refused as the operand.
    fn parse_prefix_expression(&mut self) -> (r: Result<Expression, String>)
        requires
            old(self).wf(),
            old(self)@.cur matches Some(t) && t.ttype != TokenType::Eof,
        ensures
            final(self).wf(),
            final(self)@.input == old(self)@.input,
            final(self)@.measure() <= old(self)@.measure(),
            ({
                let (s2, rr) = sp_prefix(old(self)@);
                final(self)@ == s2 && res_expr(r) == rr
            }),
            r is Ok ==> final(self)@.measure() < old(self)@.measure(),
            r is Ok ==> (final(self)@.cur matches Some(t) && t.ttype != TokenType::Eof),
        decreases old(self)@.measure(), 0int,
    {
        // a string literal may not be the operand of a prefix operator
        if self.peek_type() == TokenType::String {
            let mut m = String::from_str("the prefix operator ");
            let d = describe_token(&self.cur_token);
            m.append(d.as_str());
            m.append(" cannot be applied to a string literal");
            proof {
                assert(m@ =~= msg_prefix_on_string(old(self)@.cur));
            }
            return Err(m);
        }
        let token = self.cur_token.as_ref().unwrap().clone();
        proof {
            lemma_advance(self@);
        }
        self.next_token();
        let right = self.parse_expression(Precedence::Prefix)?;
        Ok(Expression::Prefix(Prefix { operator: token, right: Box::new(right) }))
    }

    /// Parses an infix production: the current token is the operator, and
    /// the right operand is parsed at the operator's own precedence.
    fn parse_infix_expression(&mut self, left: Expression) -> (r: Result<Expression, String>)
        requires
            old(self).wf(),
            old(self)@.cur matches Some(t) && t.ttype != TokenType::Eof,
        ensures
            final(self).wf(),
            final(self)@.input == old(self)@.input,
            final(self)@.measure() <= old(self)@.measure(),
            ({
                let (s2, rr) = sp_infix(old(self)@, left@);
                final(self)@ == s2 && res_expr(r) == rr
            }),
            r is Ok ==> final(self)@.measure() < old(self)@.measure(),
            r is Ok ==> (final(self)@.cur matches Some(t) && t.ttype != TokenType::Eof),
        decreases old(self)@.measure(), 0int,
    {
        let token = self.cur_token.as_ref().unwrap().clone();
        let precedence = self.current_precedence();
        proof {
            lemma_advance(self@);
        }
        self.next_token();
        let right = self.parse_expression(precedence)?;
        Ok(Expression::Infix(Infix { left: Box::new(left), operator: token, right: Box::new(right) }))
    }

    /// Folds the current token as a postfix operator onto `left`.
    fn parse_postfix_expression(&mut self, left: Expression) -> (r: Result<Expression, String>)
        requires
            old(self)@.cur is Some,
        ensures
            *final(self) == *old(self),
            ({
                let (s2, rr) = sp_postfix(old(self)@, left@);
                final(self)@ == s2 && res_expr(r) == rr
            }),
    {
        let token = self.cur_token.as_ref().unwrap().clone();
        Ok(Expression::Postfix(Postfix { left: Box::new(left), operator: token }))
    }
}

} // verus!

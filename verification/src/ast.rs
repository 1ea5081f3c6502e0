use vstd::prelude::*;

use crate::strutil::push_char;
use crate::token::{Token, TokenM};

verus! {

// ---------------------------------------------------------------------------
// The tree
// ---------------------------------------------------------------------------
/// The top-level ordered collection of parsed statements. Rendering
/// concatenates the statements' renderings in order, with no separator.
pub struct Program {
    pub statements: Vec<Statement>,
}

/// A statement: a `let` binding, a `return`, or a bare expression.
#[derive(Debug, PartialEq)]
pub enum Statement {
    LetStatement(LetStatement),
    ReturnStatement(ReturnStatement),
    ExpressionStatement(ExpressionStatement),
}

/// An expression: a literal, an identifier, or an operator application.
#[derive(Debug, PartialEq)]
pub enum Expression {
    IntegerLiteral(IntegerLiteral),
    StringLiteral(Token),
    BooleanLiteral(Token),
    Identifier(Identifier),
    Prefix(Prefix),
    Infix(Infix),
    Postfix(Postfix),
    Ternary(Ternary),
}

/// A `let` binding: its keyword token, the bound name, and the bound value.
#[derive(Debug, PartialEq)]
pub struct LetStatement {
    pub token: Token,
    pub name: Identifier,
    pub value: Expression,
}

/// A `return` statement: its keyword token and the returned value.
#[derive(Debug, PartialEq)]
pub struct ReturnStatement {
    pub token: Token,
    pub return_value: Expression,
}

/// A bare expression in statement position: its first token and the
/// expression itself.
#[derive(Debug, PartialEq)]
pub struct ExpressionStatement {
    pub token: Token,
    pub expression: Expression,
}

/// An integer literal: its token and the numeric value the digits denote.
#[derive(Debug, PartialEq)]
pub struct IntegerLiteral {
    pub token: Token,
    pub value: i64,
}

/// An identifier: its token and its name.
#[derive(Debug, PartialEq)]
pub struct Identifier {
    pub token: Token,
    pub value: String,
}

/// A unary operator applied before its operand.
#[derive(Debug, PartialEq)]
pub struct Prefix {
    pub operator: Token,
    pub right: Box<Expression>,
}

/// A binary operator applied between two operands.
#[derive(Debug, PartialEq)]
pub struct Infix {
    pub left: Box<Expression>,
    pub operator: Token,
    pub right: Box<Expression>,
}

/// A unary operator applied after its operand.
#[derive(Debug, PartialEq)]
pub struct Postfix {
    pub left: Box<Expression>,
    pub operator: Token,
}

/// The conditional form `cond ? if_true : if_false`. The shape exists and
/// renders, but no parser production builds it.
#[derive(Debug, PartialEq)]
pub struct Ternary {
    pub condition: Box<Expression>,
    pub if_true: Box<Expression>,
    pub if_false: Box<Expression>,
}

// ---------------------------------------------------------------------------
// The mathematical image of the tree
// ---------------------------------------------------------------------------
pub struct ProgramM {
    pub statements: Seq<StatementM>,
}

pub enum StatementM {
    LetStatement(LetStatementM),
    ReturnStatement(ReturnStatementM),
    ExpressionStatement(ExpressionStatementM),
}

pub enum ExpressionM {
    IntegerLiteral(IntegerLiteralM),
    StringLiteral(TokenM),
    BooleanLiteral(TokenM),
    Identifier(IdentifierM),
    Prefix(PrefixM),
    Infix(InfixM),
    Postfix(PostfixM),
    Ternary(TernaryM),
}

pub struct LetStatementM {
    pub token: TokenM,
    pub name: IdentifierM,
    pub value: ExpressionM,
}

pub struct ReturnStatementM {
    pub token: TokenM,
    pub return_value: ExpressionM,
}

pub struct ExpressionStatementM {
    pub token: TokenM,
    pub expression: ExpressionM,
}

pub struct IntegerLiteralM {
    pub token: TokenM,
    pub value: int,
}

pub struct IdentifierM {
    pub token: TokenM,
    pub value: Seq<char>,
}

pub struct PrefixM {
    pub operator: TokenM,
    pub right: Box<ExpressionM>,
}

pub struct InfixM {
    pub left: Box<ExpressionM>,
    pub operator: TokenM,
    pub right: Box<ExpressionM>,
}

pub struct PostfixM {
    pub left: Box<ExpressionM>,
    pub operator: TokenM,
}

pub struct TernaryM {
    pub condition: Box<ExpressionM>,
    pub if_true: Box<ExpressionM>,
    pub if_false: Box<ExpressionM>,
}

pub open spec fn expr_view(e: Expression) -> ExpressionM
    decreases e,
{
    match e {
        Expression::IntegerLiteral(l) => ExpressionM::IntegerLiteral(
            IntegerLiteralM { token: l.token@, value: l.value as int },
        ),
        Expression::StringLiteral(t) => ExpressionM::StringLiteral(t@),
        Expression::BooleanLiteral(t) => ExpressionM::BooleanLiteral(t@),
        Expression::Identifier(i) => ExpressionM::Identifier(
            IdentifierM { token: i.token@, value: i.value@ },
        ),
        Expression::Prefix(p) => ExpressionM::Prefix(
            PrefixM { operator: p.operator@, right: Box::new(expr_view(*p.right)) },
        ),
        Expression::Infix(i) => ExpressionM::Infix(
            InfixM {
                left: Box::new(expr_view(*i.left)),
                operator: i.operator@,
                right: Box::new(expr_view(*i.right)),
            },
        ),
        Expression::Postfix(p) => ExpressionM::Postfix(
            PostfixM { left: Box::new(expr_view(*p.left)), operator: p.operator@ },
        ),
        Expression::Ternary(t) => ExpressionM::Ternary(
            TernaryM {
                condition: Box::new(expr_view(*t.condition)),
                if_true: Box::new(expr_view(*t.if_true)),
                if_false: Box::new(expr_view(*t.if_false)),
            },
        ),
    }
}

impl View for Expression {
    type V = ExpressionM;

    open spec fn view(&self) -> ExpressionM {
        expr_view(*self)
    }
}

impl View for Statement {
    type V = StatementM;

    open spec fn view(&self) -> StatementM {
        match *self {
            Statement::LetStatement(ls) => StatementM::LetStatement(ls@),
            Statement::ReturnStatement(rs) => StatementM::ReturnStatement(rs@),
            Statement::ExpressionStatement(es) => StatementM::ExpressionStatement(es@),
        }
    }
}

impl View for Program {
    type V = ProgramM;

    open spec fn view(&self) -> ProgramM {
        ProgramM { statements: self.statements@.map_values(|s: Statement| s@) }
    }
}

impl View for LetStatement {
    type V = LetStatementM;

    open spec fn view(&self) -> LetStatementM {
        LetStatementM { token: self.token@, name: self.name@, value: self.value@ }
    }
}

impl View for ReturnStatement {
    type V = ReturnStatementM;

    open spec fn view(&self) -> ReturnStatementM {
        ReturnStatementM { token: self.token@, return_value: self.return_value@ }
    }
}

impl View for ExpressionStatement {
    type V = ExpressionStatementM;

    open spec fn view(&self) -> ExpressionStatementM {
        ExpressionStatementM { token: self.token@, expression: self.expression@ }
    }
}

impl View for IntegerLiteral {
    type V = IntegerLiteralM;

    open spec fn view(&self) -> IntegerLiteralM {
        IntegerLiteralM { token: self.token@, value: self.value as int }
    }
}

impl View for Identifier {
    type V = IdentifierM;

    open spec fn view(&self) -> IdentifierM {
        IdentifierM { token: self.token@, value: self.value@ }
    }
}

impl View for Prefix {
    type V = PrefixM;

    open spec fn view(&self) -> PrefixM {
        PrefixM { operator: self.operator@, right: Box::new(expr_view(*self.right)) }
    }
}

impl View for Infix {
    type V = InfixM;

    open spec fn view(&self) -> InfixM {
        InfixM {
            left: Box::new(expr_view(*self.left)),
            operator: self.operator@,
            right: Box::new(expr_view(*self.right)),
        }
    }
}

impl View for Postfix {
    type V = PostfixM;

    open spec fn view(&self) -> PostfixM {
        PostfixM { left: Box::new(expr_view(*self.left)), operator: self.operator@ }
    }
}

impl View for Ternary {
    type V = TernaryM;

    open spec fn view(&self) -> TernaryM {
        TernaryM {
            condition: Box::new(expr_view(*self.condition)),
            if_true: Box::new(expr_view(*self.if_true)),
            if_false: Box::new(expr_view(*self.if_false)),
        }
    }
}

// ---------------------------------------------------------------------------
// The canonical rendering
// ---------------------------------------------------------------------------
/// The canonical text of an expression: literals and identifiers render as
/// their own text; `Prefix` renders `(<op><operand>)`; `Infix` renders
/// `(<left> <op> <right>)`; `Postfix` renders `(<operand><op>)`; `Ternary`
/// renders `<cond> ? <true> : <false>`.
pub open spec fn render_expr(e: ExpressionM) -> Seq<char>
    decreases e,
{
    match e {
        ExpressionM::IntegerLiteral(l) => l.token.literal,
        ExpressionM::StringLiteral(t) => t.literal,
        ExpressionM::BooleanLiteral(t) => t.literal,
        ExpressionM::Identifier(i) => i.value,
        ExpressionM::Prefix(p) => seq!['('] + p.operator.literal + render_expr(*p.right) + seq![
            ')',
        ],
        ExpressionM::Infix(i) => seq!['('] + render_expr(*i.left) + seq![' '] + i.operator.literal
            + seq![' '] + render_expr(*i.right) + seq![')'],
        ExpressionM::Postfix(p) => seq!['('] + render_expr(*p.left) + p.operator.literal + seq![
            ')',
        ],
        ExpressionM::Ternary(t) => render_expr(*t.condition) + seq![' ', '?', ' '] + render_expr(
            *t.if_true,
        ) + seq![' ', ':', ' '] + render_expr(*t.if_false),
    }
}

/// The canonical text of a statement; every statement form ends in `;`.
pub open spec fn render_stmt(s: StatementM) -> Seq<char> {
    match s {
        StatementM::LetStatement(ls) => ls.token.literal + seq![' '] + ls.name.value + seq![
            ' ',
            '=',
            ' ',
        ] + render_expr(ls.value) + seq![';'],
        StatementM::ReturnStatement(rs) => rs.token.literal + seq![' '] + render_expr(
            rs.return_value,
        ) + seq![';'],
        StatementM::ExpressionStatement(es) => render_expr(es.expression) + seq![';'],
    }
}

/// The canonical text of a sequence of statements: each statement's rendering,
/// in order, with no separator.
pub open spec fn render_stmts(ss: Seq<StatementM>) -> Seq<char>
    decreases ss.len(),
{
    if ss.len() == 0 {
        Seq::empty()
    } else {
        render_stmts(ss.drop_last()) + render_stmt(ss.last())
    }
}

/// The canonical text of a whole program.
pub open spec fn render_program(p: ProgramM) -> Seq<char> {
    render_stmts(p.statements)
}

/// Law: rendering is deterministic and idempotent. Rendering is a function of
/// the tree alone, so rendering equal trees, or the same tree twice, yields
/// identical text.
pub proof fn lemma_render_deterministic(p1: ProgramM, p2: ProgramM)
    requires
        p1 == p2,
    ensures
        render_program(p1) == render_program(p2),
{
}

// ---------------------------------------------------------------------------
// Rendering, executably
// ---------------------------------------------------------------------------
impl Program {
    /// Renders the program: each statement's text in order, no separator.
    pub fn string(&self) -> (r: String)
        ensures
            r@ == render_program(self@),
    {
        let mut s = String::new();
        let mut i: usize = 0;
        proof {
            assert(self@.statements.take(0) =~= Seq::<StatementM>::empty());
        }
        while i < self.statements.len()
            invariant
                0 <= i <= self.statements.len(),
                self@.statements.len() == self.statements.len(),
                forall|j: int|
                    0 <= j < self.statements.len() ==> self@.statements[j]
                        == #[trigger] self.statements[j]@,
                s@ == render_stmts(self@.statements.take(i as int)),
            decreases self.statements.len() - i,
        {
            let piece = self.statements[i].string();
            s.append(piece.as_str());
            proof {
                assert(self@.statements.take(i + 1).drop_last() =~= self@.statements.take(i as int));
                assert(self@.statements.take(i + 1).last() == self@.statements[i as int]);
            }
            i = i + 1;
        }
        proof {
            assert(self@.statements.take(self.statements.len() as int) =~= self@.statements);
        }
        s
    }
}

impl Statement {
    /// Renders the statement.
    pub fn string(&self) -> (r: String)
        ensures
            r@ == render_stmt(self@),
    {
        match self {
            Statement::LetStatement(ls) => ls.string(),
            Statement::ReturnStatement(rs) => rs.string(),
            Statement::ExpressionStatement(es) => es.string(),
        }
    }
}

impl Expression {
    /// Renders the expression.
    pub fn string(&self) -> (r: String)
        ensures
            r@ == render_expr(self@),
        decreases *self,
    {
        match self {
            Expression::IntegerLiteral(l) => l.string(),
            Expression::StringLiteral(l) => l.literal.clone(),
            Expression::BooleanLiteral(l) => l.literal.clone(),
            Expression::Identifier(i) => i.string(),
            Expression::Prefix(p) => p.string(),
            Expression::Infix(i) => i.string(),
            Expression::Postfix(p) => p.string(),
            Expression::Ternary(t) => t.string(),
        }
    }
}

impl LetStatement {
    /// Renders `<let> <name> = <value>;`.
    pub fn string(&self) -> (r: String)
        ensures
            r@ == render_stmt(StatementM::LetStatement(self@)),
    {
        let mut s = self.token.literal.clone();
        push_char(&mut s, ' ');
        s.append(self.name.value.as_str());
        push_char(&mut s, ' ');
        push_char(&mut s, '=');
        push_char(&mut s, ' ');
        let v = self.value.string();
        s.append(v.as_str());
        push_char(&mut s, ';');
        proof {
            assert(s@ =~= render_stmt(StatementM::LetStatement(self@)));
        }
        s
    }
}

impl ReturnStatement {
    /// Renders `<return> <value>;`.
    pub fn string(&self) -> (r: String)
        ensures
            r@ == render_stmt(StatementM::ReturnStatement(self@)),
    {
        let mut s = self.token.literal.clone();
        push_char(&mut s, ' ');
        let v = self.return_value.string();
        s.append(v.as_str());
        push_char(&mut s, ';');
        proof {
            assert(s@ =~= render_stmt(StatementM::ReturnStatement(self@)));
        }
        s
    }
}

impl ExpressionStatement {
    /// Renders `<expression>;`.
    pub fn string(&self) -> (r: String)
        ensures
            r@ == render_stmt(StatementM::ExpressionStatement(self@)),
    {
        let mut s = self.expression.string();
        push_char(&mut s, ';');
        proof {
            assert(s@ =~= render_stmt(StatementM::ExpressionStatement(self@)));
        }
        s
    }
}

impl IntegerLiteral {
    /// Renders the literal's own source text.
    pub fn string(&self) -> (r: String)
        ensures
            r@ == render_expr(ExpressionM::IntegerLiteral(self@)),
    {
        self.token.literal.clone()
    }
}

impl Identifier {
    /// Renders the identifier's name.
    pub fn string(&self) -> (r: String)
        ensures
            r@ == render_expr(ExpressionM::Identifier(self@)),
    {
        self.value.clone()
    }
}

impl Prefix {
    /// Renders `(<op><operand>)`.
    pub fn string(&self) -> (r: String)
        ensures
            r@ == render_expr(ExpressionM::Prefix(self@)),
        decreases *self,
    {
        let mut s = String::new();
        push_char(&mut s, '(');
        s.append(self.operator.literal.as_str());
        let v = self.right.string();
        s.append(v.as_str());
        push_char(&mut s, ')');
        proof {
            assert(s@ =~= render_expr(ExpressionM::Prefix(self@)));
        }
        s
    }
}

impl Infix {
    /// Renders `(<left> <op> <right>)`.
    pub fn string(&self) -> (r: String)
        ensures
            r@ == render_expr(ExpressionM::Infix(self@)),
        decreases *self,
    {
        let mut s = String::new();
        push_char(&mut s, '(');
        let l = self.left.string();
        s.append(l.as_str());
        push_char(&mut s, ' ');
        s.append(self.operator.literal.as_str());
        push_char(&mut s, ' ');
        let v = self.right.string();
        s.append(v.as_str());
        push_char(&mut s, ')');
        proof {
            assert(s@ =~= render_expr(ExpressionM::Infix(self@)));
        }
        s
    }
}

impl Postfix {
    /// Renders `(<operand><op>)`.
    pub fn string(&self) -> (r: String)
        ensures
            r@ == render_expr(ExpressionM::Postfix(self@)),
        decreases *self,
    {
        let mut s = String::new();
        push_char(&mut s, '(');
        let l = self.left.string();
        s.append(l.as_str());
        s.append(self.operator.literal.as_str());
        push_char(&mut s, ')');
        proof {
            assert(s@ =~= render_expr(ExpressionM::Postfix(self@)));
        }
        s
    }
}

impl Ternary {
    /// Renders `<cond> ? <true> : <false>`.
    pub fn string(&self) -> (r: String)
        ensures
            r@ == render_expr(ExpressionM::Ternary(self@)),
        decreases *self,
    {
        let mut s = self.condition.string();
        push_char(&mut s, ' ');
        push_char(&mut s, '?');
        push_char(&mut s, ' ');
        let t = self.if_true.string();
        s.append(t.as_str());
        push_char(&mut s, ' ');
        push_char(&mut s, ':');
        push_char(&mut s, ' ');
        let f = self.if_false.string();
        s.append(f.as_str());
        proof {
            assert(s@ =~= render_expr(ExpressionM::Ternary(self@)));
        }
        s
    }
}

} // verus!

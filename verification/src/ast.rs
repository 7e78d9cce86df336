//! The abstract syntax tree: closed sum types for expressions and
//! statements, together with their mathematical views.
//!
//! Every node type has a view (`ExprV`, `StmtV`) whose string payloads are
//! `Seq<char>` and whose integers are unbounded, so contracts can speak of
//! syntax trees as pure mathematical values.

use vstd::prelude::*;

use crate::errors::CoerceErr;
use crate::render::{expr_token_literal, stmt_token_literal};
use crate::token::{TOKEN, TokenV};

verus! {

/// The syntactic category of a node.
#[derive(Debug, Clone, Copy, PartialEq, Eq, Structural)]
pub enum NodeType {
    Program,
    LetStatement,
    ReassignStatement,
    ReturnStatement,
    ExpressionStatement,
    BlockStatement,
    FunctionLiteral,
    PrefixExpression,
    InfixExpression,
    IfExpression,
    CallExpression,
    IndexExpression,
    Identifier,
    String,
    Number,
    Bool,
    ArrayLiteral,
}

/// The name of a variable, parameter or binding.  The parser only ever
/// produces identifiers with non-empty names.
#[derive(Debug, Clone, PartialEq, Eq)]
pub struct Identifier(pub String);

/// The language's integer type.
pub type Number = i64;

/// The language's boolean type.
pub type Boolean = bool;

/// Mathematical view of an expression.
pub enum ExprV {
    Identifier(Seq<char>),
    Str(Seq<char>),
    Number(int),
    Bool(bool),
    ArrayLiteral(Seq<ExprV>),
    Index(Box<ExprV>, Box<ExprV>),
    Prefix(TokenV, Box<ExprV>),
    Infix(TokenV, Box<ExprV>, Box<ExprV>),
    If(Box<ExprV>, Seq<StmtV>, Option<Seq<StmtV>>),
    Function(Seq<Seq<char>>, Seq<StmtV>),
    Call(Box<ExprV>, Seq<ExprV>),
}

/// Mathematical view of a statement.
pub enum StmtV {
    Let(Seq<char>, ExprV),
    Reassign(ExprV, ExprV),
    Return(Option<ExprV>),
    Expr(TokenV, Option<ExprV>),
    Program(Seq<StmtV>),
    Block(Seq<StmtV>),
}

#[derive(Debug, PartialEq)]
pub enum Expression {
    Identifier(Identifier),
    String(String),
    Number(Number),
    Bool(Boolean),
    ArrayLiteral(ArrayLiteral),
    Index(Box<IndexExpression>),
    Prefix(Box<PrefixExpression>),
    Infix(Box<InfixExpression>),
    If(Box<IfExpression>),
    Function(Box<FunctionLiteral>),
    Call(Box<CallExpression>),
}

#[derive(Debug, PartialEq)]
pub enum Statement {
    Let(LetStatement),
    Reassign(ReassignStatement),
    Return(ReturnStatement),
    Expression(ExpressionStatement),
    Program(Program),
    Block(BlockStatement),
}

/// A whole source file or interactive entry: an ordered statement list.
#[derive(Debug, PartialEq)]
pub struct Program {
    pub statements: Vec<Statement>,
}

#[derive(Debug, PartialEq)]
pub struct LetStatement {
    pub name: Identifier,
    pub value: Expression,
}

#[derive(Debug, PartialEq)]
pub struct ReassignStatement {
    pub lhs: Expression,
    pub value: Expression,
}

#[derive(Debug, PartialEq)]
pub struct ReturnStatement {
    pub expression: Option<Expression>,
}

#[derive(Debug, PartialEq)]
pub struct ExpressionStatement {
    pub token: TOKEN,
    pub expression: Option<Expression>,
}

#[derive(Debug, PartialEq)]
pub struct BlockStatement {
    pub statements: Vec<Statement>,
}

#[derive(Debug, PartialEq)]
pub struct ArrayLiteral {
    pub elements: Vec<Expression>,
}

#[derive(Debug, PartialEq)]
pub struct FunctionLiteral {
    pub parameters: Vec<Identifier>,
    pub body: BlockStatement,
}

#[derive(Debug, PartialEq)]
pub struct PrefixExpression {
    pub token: TOKEN,
    pub right: Expression,
}

#[derive(Debug, PartialEq)]
pub struct InfixExpression {
    pub operator: TOKEN,
    pub left: Expression,
    pub right: Expression,
}

#[derive(Debug, PartialEq)]
pub struct IfExpression {
    pub condition: Expression,
    pub consequence: BlockStatement,
    pub alternative: Option<BlockStatement>,
}

#[derive(Debug, PartialEq)]
pub struct CallExpression {
    pub function: Expression,
    pub arguments: Vec<Expression>,
}

#[derive(Debug, PartialEq)]
pub struct IndexExpression {
    pub left: Expression,
    pub index: Expression,
}

/// The view of an expression tree.
pub open spec fn expr_view(e: Expression) -> ExprV
    decreases e,
{
    match e {
        Expression::Identifier(id) => ExprV::Identifier(id.0@),
        Expression::String(s) => ExprV::Str(s@),
        Expression::Number(n) => ExprV::Number(n as int),
        Expression::Bool(b) => ExprV::Bool(b),
        Expression::ArrayLiteral(arr) => ExprV::ArrayLiteral(exprs_view(arr.elements@)),
        Expression::Index(ix) => ExprV::Index(
            Box::new(expr_view(ix.left)),
            Box::new(expr_view(ix.index)),
        ),
        Expression::Prefix(p) => ExprV::Prefix(p.token@, Box::new(expr_view(p.right))),
        Expression::Infix(i) => ExprV::Infix(
            i.operator@,
            Box::new(expr_view(i.left)),
            Box::new(expr_view(i.right)),
        ),
        Expression::If(f) => ExprV::If(
            Box::new(expr_view(f.condition)),
            stmts_view(f.consequence.statements@),
            match f.alternative {
                Some(alt) => Some(stmts_view(alt.statements@)),
                None => None,
            },
        ),
        Expression::Function(f) => ExprV::Function(
            idents_view(f.parameters@),
            stmts_view(f.body.statements@),
        ),
        Expression::Call(c) => ExprV::Call(
            Box::new(expr_view(c.function)),
            exprs_view(c.arguments@),
        ),
    }
}

/// The view of an expression list, element by element.
pub open spec fn exprs_view(es: Seq<Expression>) -> Seq<ExprV>
    decreases es,
{
    if es.len() == 0 {
        Seq::empty()
    } else {
        exprs_view(es.drop_last()).push(expr_view(es.last()))
    }
}

/// The view of a parameter list.
pub open spec fn idents_view(ps: Seq<Identifier>) -> Seq<Seq<char>> {
    ps.map_values(|p: Identifier| p.0@)
}

/// The view of a statement.
pub open spec fn stmt_view(s: Statement) -> StmtV
    decreases s,
{
    match s {
        Statement::Let(l) => StmtV::Let(l.name.0@, expr_view(l.value)),
        Statement::Reassign(r) => StmtV::Reassign(expr_view(r.lhs), expr_view(r.value)),
        Statement::Return(r) => StmtV::Return(
            match r.expression {
                Some(e) => Some(expr_view(e)),
                None => None,
            },
        ),
        Statement::Expression(e) => StmtV::Expr(
            e.token@,
            match e.expression {
                Some(x) => Some(expr_view(x)),
                None => None,
            },
        ),
        Statement::Program(p) => StmtV::Program(stmts_view(p.statements@)),
        Statement::Block(b) => StmtV::Block(stmts_view(b.statements@)),
    }
}

/// The view of a statement list, element by element.
pub open spec fn stmts_view(ss: Seq<Statement>) -> Seq<StmtV>
    decreases ss,
{
    if ss.len() == 0 {
        Seq::empty()
    } else {
        stmts_view(ss.drop_last()).push(stmt_view(ss.last()))
    }
}

impl View for Expression {
    type V = ExprV;

    open spec fn view(&self) -> ExprV {
        expr_view(*self)
    }
}

impl View for Statement {
    type V = StmtV;

    open spec fn view(&self) -> StmtV {
        stmt_view(*self)
    }
}

impl View for Program {
    type V = Seq<StmtV>;

    open spec fn view(&self) -> Seq<StmtV> {
        stmts_view(self.statements@)
    }
}

impl View for BlockStatement {
    type V = Seq<StmtV>;

    open spec fn view(&self) -> Seq<StmtV> {
        stmts_view(self.statements@)
    }
}

impl View for Identifier {
    type V = Seq<char>;

    open spec fn view(&self) -> Seq<char> {
        self.0@
    }
}

/// Mathematical view of a node: an expression's or a statement's view.
pub enum NodeV {
    Expression(ExprV),
    Statement(StmtV),
}

/// A node: either an expression or a statement.
#[derive(Debug, PartialEq)]
pub enum Node {
    Expression(Expression),
    Statement(Statement),
}

impl View for Node {
    type V = NodeV;

    open spec fn view(&self) -> NodeV {
        match self {
            Node::Expression(e) => NodeV::Expression(e@),
            Node::Statement(s) => NodeV::Statement(s@),
        }
    }
}

impl Node {
    /// The inner expression, or a coercion error for a statement node.
    pub fn to_expression(&self) -> (r: Result<&Expression, CoerceErr>)
        ensures
            r is Ok <==> self@ is Expression,
            r matches Ok(e) ==> self@ == NodeV::Expression(e@),
    {
        match self {
            Node::Expression(x) => Ok(x),
            Node::Statement(s) => Err(CoerceErr::ToExpression(stmt_token_literal(s))),
        }
    }

    /// The inner statement, or a coercion error for an expression node.
    pub fn to_statement(&self) -> (r: Result<&Statement, CoerceErr>)
        ensures
            r is Ok <==> self@ is Statement,
            r matches Ok(s) ==> self@ == NodeV::Statement(s@),
    {
        match self {
            Node::Statement(x) => Ok(x),
            Node::Expression(e) => Err(CoerceErr::ToStatement(expr_token_literal(e))),
        }
    }
}

impl Expression {
    /// The identifier this expression is, or a coercion error.
    pub fn to_ident(&self) -> (r: Result<Identifier, CoerceErr>)
        ensures
            r is Ok <==> self@ is Identifier,
            r matches Ok(id) ==> self@ == ExprV::Identifier(id@),
    {
        match self {
            Expression::Identifier(x) => Ok(Identifier(x.0.clone())),
            _ => Err(CoerceErr::ToIdent(expr_token_literal(self))),
        }
    }

    /// The string literal this expression is, or a coercion error.
    pub fn to_string_value(&self) -> (r: Result<String, CoerceErr>)
        ensures
            r is Ok <==> self@ is Str,
            r matches Ok(s) ==> self@ == ExprV::Str(s@),
    {
        match self {
            Expression::String(x) => Ok(x.clone()),
            _ => Err(CoerceErr::ToString(expr_token_literal(self))),
        }
    }

    /// The number literal this expression is, or a coercion error.
    pub fn to_num(&self) -> (r: Result<Number, CoerceErr>)
        ensures
            r is Ok <==> self@ is Number,
            r matches Ok(n) ==> self@ == ExprV::Number(n as int),
    {
        match self {
            Expression::Number(x) => Ok(*x),
            _ => Err(CoerceErr::ToNum(expr_token_literal(self))),
        }
    }

    /// The boolean literal this expression is, or a coercion error.
    pub fn to_bool(&self) -> (r: Result<bool, CoerceErr>)
        ensures
            r is Ok <==> self@ is Bool,
            r matches Ok(b) ==> self@ == ExprV::Bool(b),
    {
        match self {
            Expression::Bool(x) => Ok(*x),
            _ => Err(CoerceErr::ToBool(expr_token_literal(self))),
        }
    }

    /// The array literal this expression is, or a coercion error.
    pub fn to_array_literal(&self) -> (r: Result<&ArrayLiteral, CoerceErr>)
        ensures
            r is Ok <==> self@ is ArrayLiteral,
            r matches Ok(a) ==> self@ == ExprV::ArrayLiteral(exprs_view(a.elements@)),
    {
        match self {
            Expression::ArrayLiteral(x) => Ok(x),
            _ => Err(CoerceErr::ToArrayLiteral(expr_token_literal(self))),
        }
    }

    /// The index expression this is, or a coercion error.
    pub fn to_index(&self) -> (r: Result<&IndexExpression, CoerceErr>)
        ensures
            r is Ok <==> self@ is Index,
            r matches Ok(ix) ==> self@ == ExprV::Index(
                Box::new(ix.left@),
                Box::new(ix.index@),
            ),
    {
        match self {
            Expression::Index(x) => Ok(x),
            _ => Err(CoerceErr::ToIndex(expr_token_literal(self))),
        }
    }

    /// The prefix expression this is, or a coercion error.
    pub fn to_prefix(&self) -> (r: Result<&PrefixExpression, CoerceErr>)
        ensures
            r is Ok <==> self@ is Prefix,
            r matches Ok(p) ==> self@ == ExprV::Prefix(p.token@, Box::new(p.right@)),
    {
        match self {
            Expression::Prefix(x) => Ok(x),
            _ => Err(CoerceErr::ToPrefix(expr_token_literal(self))),
        }
    }

    /// The infix expression this is, or a coercion error.
    pub fn to_infix(&self) -> (r: Result<&InfixExpression, CoerceErr>)
        ensures
            r is Ok <==> self@ is Infix,
            r matches Ok(i) ==> self@ == ExprV::Infix(
                i.operator@,
                Box::new(i.left@),
                Box::new(i.right@),
            ),
    {
        match self {
            Expression::Infix(x) => Ok(x),
            _ => Err(CoerceErr::ToInfix(expr_token_literal(self))),
        }
    }

    /// The call expression this is, or a coercion error.
    pub fn to_call(&self) -> (r: Result<&CallExpression, CoerceErr>)
        ensures
            r is Ok <==> self@ is Call,
            r matches Ok(c) ==> self@ == ExprV::Call(
                Box::new(c.function@),
                exprs_view(c.arguments@),
            ),
    {
        match self {
            Expression::Call(x) => Ok(x),
            _ => Err(CoerceErr::ToCall(expr_token_literal(self))),
        }
    }

    /// The conditional expression this is, or a coercion error.
    pub fn to_if(&self) -> (r: Result<&IfExpression, CoerceErr>)
        ensures
            r is Ok <==> self@ is If,
            r matches Ok(f) ==> self@ == ExprV::If(
                Box::new(f.condition@),
                f.consequence@,
                match f.alternative {
                    Some(alt) => Some(stmts_view(alt.statements@)),
                    None => None,
                },
            ),
    {
        match self {
            Expression::If(x) => Ok(x),
            _ => Err(CoerceErr::ToIf(expr_token_literal(self))),
        }
    }

    /// The function literal this expression is, or a coercion error.
    pub fn to_function(&self) -> (r: Result<&FunctionLiteral, CoerceErr>)
        ensures
            r is Ok <==> self@ is Function,
            r matches Ok(f) ==> self@ == ExprV::Function(idents_view(f.parameters@), f.body@),
    {
        match self {
            Expression::Function(x) => Ok(x),
            _ => Err(CoerceErr::ToFunction(expr_token_literal(self))),
        }
    }
}

impl Statement {
    /// The let statement this is, or a coercion error.
    pub fn to_let(&self) -> (r: Result<&LetStatement, CoerceErr>)
        ensures
            r is Ok <==> self@ is Let,
            r matches Ok(l) ==> self@ == StmtV::Let(l.name@, l.value@),
    {
        match self {
            Statement::Let(x) => Ok(x),
            _ => Err(CoerceErr::ToLet(stmt_token_literal(self))),
        }
    }

    /// The reassignment statement this is, or a coercion error.
    pub fn to_reassign(&self) -> (r: Result<&ReassignStatement, CoerceErr>)
        ensures
            r is Ok <==> self@ is Reassign,
            r matches Ok(x) ==> self@ == StmtV::Reassign(x.lhs@, x.value@),
    {
        match self {
            Statement::Reassign(x) => Ok(x),
            _ => Err(CoerceErr::ToReassign(stmt_token_literal(self))),
        }
    }

    /// The return statement this is, or a coercion error.
    pub fn to_return(&self) -> (r: Result<&ReturnStatement, CoerceErr>)
        ensures
            r is Ok <==> self@ is Return,
            r matches Ok(x) ==> self@ == StmtV::Return(
                match x.expression {
                    Some(e) => Some(expr_view(e)),
                    None => None,
                },
            ),
    {
        match self {
            Statement::Return(x) => Ok(x),
            _ => Err(CoerceErr::ToReturn(stmt_token_literal(self))),
        }
    }

    /// The expression statement this is, or a coercion error.
    pub fn to_exp_stmt(&self) -> (r: Result<&ExpressionStatement, CoerceErr>)
        ensures
            r is Ok <==> self@ is Expr,
            r matches Ok(x) ==> self@ == StmtV::Expr(
                x.token@,
                match x.expression {
                    Some(e) => Some(expr_view(e)),
                    None => None,
                },
            ),
    {
        match self {
            Statement::Expression(x) => Ok(x),
            _ => Err(CoerceErr::ToExpStmt(stmt_token_literal(self))),
        }
    }

    /// The program this statement is, or a coercion error.
    pub fn to_program(&self) -> (r: Result<&Program, CoerceErr>)
        ensures
            r is Ok <==> self@ is Program,
            r matches Ok(p) ==> self@ == StmtV::Program(p@),
    {
        match self {
            Statement::Program(x) => Ok(x),
            _ => Err(CoerceErr::ToProgram(stmt_token_literal(self))),
        }
    }

    /// The block this statement is, or a coercion error.
    pub fn to_block(&self) -> (r: Result<&BlockStatement, CoerceErr>)
        ensures
            r is Ok <==> self@ is Block,
            r matches Ok(b) ==> self@ == StmtV::Block(b@),
    {
        match self {
            Statement::Block(x) => Ok(x),
            _ => Err(CoerceErr::ToBlock(stmt_token_literal(self))),
        }
    }
}

impl LetStatement {
    /// A let statement binding `name` to `value`.
    pub fn new(name: Identifier, value: Expression) -> (r: Self)
        ensures
            r@ == (StmtV::Let(name@, value@)),
    {
        Self { name, value }
    }
}

impl View for LetStatement {
    type V = StmtV;

    open spec fn view(&self) -> StmtV {
        StmtV::Let(self.name@, self.value@)
    }
}

impl ReassignStatement {
    /// A reassignment of `lhs` to `value`.
    pub fn new(lhs: Expression, value: Expression) -> (r: Self)
        ensures
            r@ == (StmtV::Reassign(lhs@, value@)),
    {
        Self { lhs, value }
    }
}

impl View for ReassignStatement {
    type V = StmtV;

    open spec fn view(&self) -> StmtV {
        StmtV::Reassign(self.lhs@, self.value@)
    }
}

impl ReturnStatement {
    /// A return statement with no value yet.
    pub fn new() -> (r: Self)
        ensures
            r.expression is None,
    {
        Self { expression: None }
    }
}

impl ExpressionStatement {
    /// An expression statement: the statement's first token, and the
    /// expression if one was parsed.
    pub fn new(token: TOKEN, expression: Option<Expression>) -> (r: Self)
        ensures
            r.token == token,
            r.expression == expression,
    {
        Self { token, expression }
    }
}

impl BlockStatement {
    /// A block of statements.
    pub fn new(statements: Vec<Statement>) -> (r: Self)
        ensures
            r@ == stmts_view(statements@),
    {
        Self { statements }
    }
}

impl ArrayLiteral {
    /// An array literal with the given elements.
    pub fn new(elements: Vec<Expression>) -> (r: Self)
        ensures
            r.elements == elements,
    {
        Self { elements }
    }
}

impl FunctionLiteral {
    /// A function literal with the given parameters and an empty body.
    pub fn new(parameters: Vec<Identifier>) -> (r: Self)
        ensures
            r.parameters == parameters,
            r.body@ == Seq::<StmtV>::empty(),
    {
        Self { parameters, body: BlockStatement { statements: Vec::new() } }
    }
}

impl PrefixExpression {
    /// A prefix application of the operator `token`.
    pub fn new(token: TOKEN, right: Expression) -> (r: Self)
        ensures
            r.token == token,
            r.right == right,
    {
        Self { token, right }
    }
}

impl InfixExpression {
    /// An infix application of `operator` to `left` and `right`.
    pub fn new(left: Expression, operator: TOKEN, right: Expression) -> (r: Self)
        ensures
            r.operator == operator,
            r.left == left,
            r.right == right,
    {
        Self { left, operator, right }
    }
}

impl IfExpression {
    /// A conditional with the given condition, an empty consequence and no
    /// alternative yet.
    pub fn new(condition: Expression) -> (r: Self)
        ensures
            r.condition == condition,
            r.consequence@ == Seq::<StmtV>::empty(),
            r.alternative is None,
    {
        Self {
            condition,
            consequence: BlockStatement { statements: Vec::new() },
            alternative: None,
        }
    }
}

impl CallExpression {
    /// A call of `function` with no arguments yet.
    pub fn new(function: Expression) -> (r: Self)
        ensures
            r.function == function,
            r.arguments@ == Seq::<Expression>::empty(),
    {
        Self { function, arguments: Vec::new() }
    }
}

impl IndexExpression {
    /// An index of `left` by `index`.
    pub fn new(left: Expression, index: Expression) -> (r: Self)
        ensures
            r.left == left,
            r.index == index,
    {
        Self { left, index }
    }
}

/// A copy of an identifier, with the same name.
pub fn clone_ident(id: &Identifier) -> (r: Identifier)
    ensures
        r@ == id@,
{
    Identifier(id.0.clone())
}

/// A copy of a parameter list, with the same names.
pub fn clone_idents(ps: &Vec<Identifier>) -> (r: Vec<Identifier>)
    ensures
        idents_view(r@) == idents_view(ps@),
{
    let mut out: Vec<Identifier> = Vec::new();
    let n = ps.len();
    let mut i: usize = 0;
    while i < n
        invariant
            n == ps@.len(),
            0 <= i <= n,
            out@.len() == i,
            forall|j: int| 0 <= j < i ==> out@[j]@ == #[trigger] ps@[j]@,
        decreases n - i,
    {
        out.push(clone_ident(&ps[i]));
        i = i + 1;
    }
    proof {
        assert forall|j: int| 0 <= j < n implies idents_view(out@)[j] == idents_view(ps@)[j] by {
            assert(out@[j]@ == ps@[j]@);
        }
        assert(idents_view(out@) =~= idents_view(ps@));
    }
    out
}

/// A copy of an expression tree, with the same view.
pub fn clone_expr(e: &Expression) -> (r: Expression)
    ensures
        r@ == e@,
    decreases e,
{
    match e {
        Expression::Identifier(id) => Expression::Identifier(clone_ident(id)),
        Expression::String(s) => Expression::String(s.clone()),
        Expression::Number(n) => Expression::Number(*n),
        Expression::Bool(b) => Expression::Bool(*b),
        Expression::ArrayLiteral(arr) => Expression::ArrayLiteral(
            ArrayLiteral { elements: clone_exprs(&arr.elements) },
        ),
        Expression::Index(ix) => Expression::Index(
            Box::new(IndexExpression { left: clone_expr(&ix.left), index: clone_expr(&ix.index) }),
        ),
        Expression::Prefix(p) => Expression::Prefix(
            Box::new(PrefixExpression { token: crate::token::clone_token(&p.token), right: clone_expr(&p.right) }),
        ),
        Expression::Infix(i) => Expression::Infix(
            Box::new(
                InfixExpression {
                    operator: crate::token::clone_token(&i.operator),
                    left: clone_expr(&i.left),
                    right: clone_expr(&i.right),
                },
            ),
        ),
        Expression::If(f) => Expression::If(
            Box::new(
                IfExpression {
                    condition: clone_expr(&f.condition),
                    consequence: clone_block(&f.consequence),
                    alternative: match &f.alternative {
                        Some(alt) => Some(clone_block(alt)),
                        None => None,
                    },
                },
            ),
        ),
        Expression::Function(f) => Expression::Function(
            Box::new(
                FunctionLiteral {
                    parameters: clone_idents(&f.parameters),
                    body: clone_block(&f.body),
                },
            ),
        ),
        Expression::Call(c) => Expression::Call(
            Box::new(
                CallExpression {
                    function: clone_expr(&c.function),
                    arguments: clone_exprs(&c.arguments),
                },
            ),
        ),
    }
}

/// A copy of an expression list, with the same views.
pub fn clone_exprs(es: &Vec<Expression>) -> (r: Vec<Expression>)
    ensures
        exprs_view(r@) == exprs_view(es@),
        r@.len() == es@.len(),
    decreases es,
{
    let mut out: Vec<Expression> = Vec::new();
    let n = es.len();
    let mut i: usize = 0;
    while i < n
        invariant
            n == es@.len(),
            0 <= i <= n,
            out@.len() == i,
            forall|j: int| 0 <= j < i ==> out@[j]@ == #[trigger] es@[j]@,
        decreases n - i,
    {
        out.push(clone_expr(&es[i]));
        i = i + 1;
    }
    proof {
        lemma_exprs_view_eq(out@, es@);
    }
    out
}

/// Lists with pointwise equal views have equal list views.
proof fn lemma_exprs_view_eq(a: Seq<Expression>, b: Seq<Expression>)
    requires
        a.len() == b.len(),
        forall|j: int| 0 <= j < a.len() ==> a[j]@ == #[trigger] b[j]@,
    ensures
        exprs_view(a) == exprs_view(b),
    decreases a,
{
    if a.len() > 0 {
        assert(forall|j: int|
            0 <= j < a.drop_last().len() ==> a.drop_last()[j]@ == #[trigger] b.drop_last()[j]@);
        lemma_exprs_view_eq(a.drop_last(), b.drop_last());
        assert(a.last()@ == b.last()@);
        assert(exprs_view(a) =~= exprs_view(b));
    } else {
        assert(exprs_view(a) =~= exprs_view(b));
    }
}

/// A copy of a statement, with the same view.
pub fn clone_stmt(s: &Statement) -> (r: Statement)
    ensures
        r@ == s@,
    decreases s,
{
    match s {
        Statement::Let(l) => Statement::Let(
            LetStatement { name: clone_ident(&l.name), value: clone_expr(&l.value) },
        ),
        Statement::Reassign(x) => Statement::Reassign(
            ReassignStatement { lhs: clone_expr(&x.lhs), value: clone_expr(&x.value) },
        ),
        Statement::Return(x) => Statement::Return(
            ReturnStatement {
                expression: match &x.expression {
                    Some(e) => Some(clone_expr(e)),
                    None => None,
                },
            },
        ),
        Statement::Expression(x) => Statement::Expression(
            ExpressionStatement {
                token: crate::token::clone_token(&x.token),
                expression: match &x.expression {
                    Some(e) => Some(clone_expr(e)),
                    None => None,
                },
            },
        ),
        Statement::Program(p) => Statement::Program(
            Program { statements: clone_stmts(&p.statements) },
        ),
        Statement::Block(b) => Statement::Block(clone_block(b)),
    }
}

/// A copy of a statement list, with the same views.
pub fn clone_stmts(ss: &Vec<Statement>) -> (r: Vec<Statement>)
    ensures
        stmts_view(r@) == stmts_view(ss@),
        r@.len() == ss@.len(),
    decreases ss,
{
    let mut out: Vec<Statement> = Vec::new();
    let n = ss.len();
    let mut i: usize = 0;
    while i < n
        invariant
            n == ss@.len(),
            0 <= i <= n,
            out@.len() == i,
            forall|j: int| 0 <= j < i ==> out@[j]@ == #[trigger] ss@[j]@,
        decreases n - i,
    {
        out.push(clone_stmt(&ss[i]));
        i = i + 1;
    }
    proof {
        lemma_stmts_view_eq(out@, ss@);
    }
    out
}

/// Lists with pointwise equal views have equal list views.
proof fn lemma_stmts_view_eq(a: Seq<Statement>, b: Seq<Statement>)
    requires
        a.len() == b.len(),
        forall|j: int| 0 <= j < a.len() ==> a[j]@ == #[trigger] b[j]@,
    ensures
        stmts_view(a) == stmts_view(b),
    decreases a,
{
    if a.len() > 0 {
        assert(forall|j: int|
            0 <= j < a.drop_last().len() ==> a.drop_last()[j]@ == #[trigger] b.drop_last()[j]@);
        lemma_stmts_view_eq(a.drop_last(), b.drop_last());
        assert(a.last()@ == b.last()@);
        assert(stmts_view(a) =~= stmts_view(b));
    } else {
        assert(stmts_view(a) =~= stmts_view(b));
    }
}

/// A copy of a block, with the same view.
pub fn clone_block(b: &BlockStatement) -> (r: BlockStatement)
    ensures
        r@ == b@,
    decreases b,
{
    BlockStatement { statements: clone_stmts(&b.statements) }
}

} // verus!

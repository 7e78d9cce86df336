//! Rendering syntax trees back to source text.
//!
//! `spec_expr_str` and `spec_stmt_str` define, as pure functions on views,
//! the printed form of every node: infix and prefix expressions print fully
//! parenthesised, blocks print inside braces, statement lists are joined by
//! one space.  The executable renderers are proved to produce exactly those
//! strings.

use vstd::prelude::*;

use crate::ast::{
    ArrayLiteral, BlockStatement, CallExpression, ExprV, Expression, ExpressionStatement,
    FunctionLiteral, Identifier, IfExpression, IndexExpression, InfixExpression, LetStatement,
    Node, NodeType, NodeV, PrefixExpression, Program, ReassignStatement, ReturnStatement,
    Statement, StmtV, exprs_view, idents_view, stmts_view,
};
use crate::strutil::{int_to_string, spec_int_str};
use crate::token::{TokenV, spec_token_literal};

verus! {

/// The printed form of an expression.
pub open spec fn spec_expr_str(e: ExprV) -> Seq<char>
    decreases e, 2int,
{
    match e {
        ExprV::Identifier(name) => name,
        ExprV::Str(s) => "\""@ + s + "\""@,
        ExprV::Number(n) => spec_int_str(n),
        ExprV::Bool(b) => if b {
            "true"@
        } else {
            "false"@
        },
        ExprV::ArrayLiteral(es) => "["@ + spec_exprs_join(es, ", "@) + "]"@,
        ExprV::Index(l, ix) => spec_expr_str(*l) + "["@ + spec_expr_str(*ix) + "]"@,
        ExprV::Prefix(op, right) => "("@ + spec_token_literal(op) + spec_expr_str(*right)
            + ")"@,
        ExprV::Infix(op, l, r) => "("@ + spec_expr_str(*l) + " "@ + spec_token_literal(op)
            + " "@ + spec_expr_str(*r) + ")"@,
        ExprV::If(cond, cons, alt) => {
            let head = "if "@ + spec_expr_str(*cond) + " "@ + spec_block_str(cons);
            match alt {
                Some(a) => head + " else "@ + spec_block_str(a),
                None => head,
            }
        },
        ExprV::Function(params, body) => "fn("@ + spec_names_join(params, ", "@, 0) + ") {"@
            + spec_stmts_join(body, " "@) + "}"@,
        ExprV::Call(f, args) => spec_expr_str(*f) + "("@ + spec_exprs_join(args, ", "@)
            + ")"@,
    }
}

/// The printed forms of a list of expressions, joined by a separator.
pub open spec fn spec_exprs_join(es: Seq<ExprV>, sep: Seq<char>) -> Seq<char>
    decreases es, 0int,
{
    if es.len() == 0 {
        Seq::empty()
    } else if es.len() == 1 {
        spec_expr_str(es[0])
    } else {
        spec_exprs_join(es.drop_last(), sep) + sep + spec_expr_str(es.last())
    }
}

/// A list of names joined by a separator, from index `i` on.
pub open spec fn spec_names_join(names: Seq<Seq<char>>, sep: Seq<char>, i: int) -> Seq<char>
    decreases names.len() - i,
{
    if i < 0 || i >= names.len() {
        Seq::empty()
    } else if i == names.len() - 1 {
        names[i]
    } else {
        names[i] + sep + spec_names_join(names, sep, i + 1)
    }
}

/// The printed form of a block: its statements inside braces.
pub open spec fn spec_block_str(ss: Seq<StmtV>) -> Seq<char>
    decreases ss, 1int,
{
    "{"@ + spec_stmts_join(ss, " "@) + "}"@
}

/// The printed forms of a list of statements, joined by a separator.
pub open spec fn spec_stmts_join(ss: Seq<StmtV>, sep: Seq<char>) -> Seq<char>
    decreases ss, 0int,
{
    if ss.len() == 0 {
        Seq::empty()
    } else if ss.len() == 1 {
        spec_stmt_str(ss[0])
    } else {
        spec_stmts_join(ss.drop_last(), sep) + sep + spec_stmt_str(ss.last())
    }
}

/// The printed form of a statement.
pub open spec fn spec_stmt_str(s: StmtV) -> Seq<char>
    decreases s, 2int,
{
    match s {
        StmtV::Let(name, value) => "let "@ + name + " = "@ + spec_expr_str(value) + ";"@,
        StmtV::Reassign(lhs, value) => "let "@ + spec_expr_str(lhs) + " = "@ + spec_expr_str(
            value,
        ) + ";"@,
        StmtV::Return(e) => match e {
            Some(x) => "return "@ + spec_expr_str(x) + ";"@,
            None => "return "@ + ";"@,
        },
        StmtV::Expr(token, e) => match e {
            Some(x) => spec_expr_str(x),
            None => spec_token_literal(token),
        },
        StmtV::Program(_) => "PROGRAM"@,
        StmtV::Block(ss) => spec_block_str(ss),
    }
}

/// Renders an expression, exactly as `spec_expr_str` gives it.
pub fn expr_to_str(e: &Expression) -> (r: String)
    ensures
        r@ == spec_expr_str(e@),
    decreases e,
{
    match e {
        Expression::Identifier(id) => id.0.clone(),
        Expression::String(s) => {
            let mut r = String::from_str("\"");
            r.append(s.as_str());
            r.append("\"");
            r
        },
        Expression::Number(n) => int_to_string(*n),
        Expression::Bool(b) => {
            if *b {
                String::from_str("true")
            } else {
                String::from_str("false")
            }
        },
        Expression::ArrayLiteral(arr) => {
            let mut r = String::from_str("[");
            let inner = exprs_join_str(&arr.elements, ", ");
            r.append(inner.as_str());
            r.append("]");
            r
        },
        Expression::Index(ix) => {
            let mut r = expr_to_str(&ix.left);
            r.append("[");
            let idx = expr_to_str(&ix.index);
            r.append(idx.as_str());
            r.append("]");
            r
        },
        Expression::Prefix(p) => {
            let mut r = String::from_str("(");
            let op = p.token.literal();
            r.append(op.as_str());
            let right = expr_to_str(&p.right);
            r.append(right.as_str());
            r.append(")");
            r
        },
        Expression::Infix(i) => {
            let mut r = String::from_str("(");
            let left = expr_to_str(&i.left);
            r.append(left.as_str());
            r.append(" ");
            let op = i.operator.literal();
            r.append(op.as_str());
            r.append(" ");
            let right = expr_to_str(&i.right);
            r.append(right.as_str());
            r.append(")");
            r
        },
        Expression::If(f) => {
            let mut r = String::from_str("if ");
            let cond = expr_to_str(&f.condition);
            r.append(cond.as_str());
            r.append(" ");
            let cons = block_to_str(&f.consequence);
            r.append(cons.as_str());
            match &f.alternative {
                Some(alt) => {
                    r.append(" else ");
                    let a = block_to_str(alt);
                    r.append(a.as_str());
                },
                None => {},
            }
            r
        },
        Expression::Function(f) => {
            let mut r = String::from_str("fn(");
            let params = idents_join_str(&f.parameters, ", ");
            r.append(params.as_str());
            r.append(") {");
            let body = stringnify_stmt(&f.body.statements);
            r.append(body.as_str());
            r.append("}");
            r
        },
        Expression::Call(c) => {
            let mut r = expr_to_str(&c.function);
            r.append("(");
            let args = exprs_join_str(&c.arguments, ", ");
            r.append(args.as_str());
            r.append(")");
            r
        },
    }
}

/// Renders a list of expressions joined by a separator.
pub fn exprs_join_str(es: &Vec<Expression>, sep: &str) -> (r: String)
    ensures
        r@ == spec_exprs_join(exprs_view(es@), sep@),
    decreases es,
{
    let mut r = String::new();
    let n = es.len();
    let mut i: usize = 0;
    while i < n
        invariant
            n == es@.len(),
            0 <= i <= n,
            r@ == spec_exprs_join(exprs_view(es@.subrange(0, i as int)), sep@),
            exprs_view(es@.subrange(0, i as int)).len() == i,
        decreases n - i,
    {
        if i > 0 {
            r.append(sep);
        }
        let piece = expr_to_str(&es[i]);
        r.append(piece.as_str());
        proof {
            let prev = es@.subrange(0, i as int);
            let cur = es@.subrange(0, i as int + 1);
            assert(cur.drop_last() =~= prev);
            assert(cur.last() == es@[i as int]);
            assert(exprs_view(cur).drop_last() =~= exprs_view(prev));
            assert(exprs_view(cur).last() == es@[i as int]@);
            lemma_exprs_view_len(cur);
            if i == 0 {
                assert(exprs_view(cur).len() == 1);
            }
        }
        i = i + 1;
    }
    proof {
        assert(es@.subrange(0, n as int) =~= es@);
    }
    r
}

/// A list's view has the list's length.
pub proof fn lemma_exprs_view_len(es: Seq<Expression>)
    ensures
        exprs_view(es).len() == es.len(),
        forall|i: int|
            0 <= i < es.len() ==> exprs_view(es)[i] == #[trigger] es[i]@,
    decreases es,
{
    if es.len() > 0 {
        lemma_exprs_view_len(es.drop_last());
        assert forall|i: int| 0 <= i < es.len() implies exprs_view(es)[i] == #[trigger] es[i]@ by {
            if i < es.len() - 1 {
                assert(es.drop_last()[i] == es[i]);
                assert(exprs_view(es)[i] == exprs_view(es.drop_last())[i]);
            } else {
                assert(es[i] == es.last());
            }
        }
    }
}

/// A statement list's view has the list's length.
pub proof fn lemma_stmts_view_len(ss: Seq<Statement>)
    ensures
        stmts_view(ss).len() == ss.len(),
        forall|i: int|
            0 <= i < ss.len() ==> stmts_view(ss)[i] == #[trigger] ss[i]@,
    decreases ss,
{
    if ss.len() > 0 {
        lemma_stmts_view_len(ss.drop_last());
        assert forall|i: int| 0 <= i < ss.len() implies stmts_view(ss)[i] == #[trigger] ss[i]@ by {
            if i < ss.len() - 1 {
                assert(ss.drop_last()[i] == ss[i]);
                assert(stmts_view(ss)[i] == stmts_view(ss.drop_last())[i]);
            } else {
                assert(ss[i] == ss.last());
            }
        }
    }
}

/// Renders a list of parameter names joined by a separator.
pub fn idents_join_str(ps: &Vec<Identifier>, sep: &str) -> (r: String)
    ensures
        r@ == spec_names_join(idents_view(ps@), sep@, 0),
{
    let mut r = String::new();
    let n = ps.len();
    if n == 0 {
        return r;
    }
    let mut i: usize = 0;
    while i < n
        invariant
            n == ps@.len(),
            n > 0,
            0 <= i <= n,
            i < n ==> r@ + spec_names_join(idents_view(ps@), sep@, i as int) == spec_names_join(
                idents_view(ps@),
                sep@,
                0,
            ),
            i == n ==> r@ == spec_names_join(idents_view(ps@), sep@, 0),
        decreases n - i,
    {
        r.append(ps[i].0.as_str());
        if i + 1 < n {
            r.append(sep);
        }
        proof {
            assert(idents_view(ps@)[i as int] == ps@[i as int].0@);
        }
        i = i + 1;
    }
    r
}

/// Renders a block: its statements inside braces.
pub fn block_to_str(b: &BlockStatement) -> (r: String)
    ensures
        r@ == spec_block_str(b@),
    decreases b,
{
    let mut r = String::from_str("{");
    let inner = stringnify_stmt(&b.statements);
    r.append(inner.as_str());
    r.append("}");
    r
}

/// Renders a statement list joined by single spaces.
pub fn stringnify_stmt(stmts: &Vec<Statement>) -> (r: String)
    ensures
        r@ == spec_stmts_join(stmts_view(stmts@), " "@),
    decreases stmts,
{
    let mut r = String::new();
    let n = stmts.len();
    let mut i: usize = 0;
    while i < n
        invariant
            n == stmts@.len(),
            0 <= i <= n,
            r@ == spec_stmts_join(stmts_view(stmts@.subrange(0, i as int)), " "@),
            stmts_view(stmts@.subrange(0, i as int)).len() == i,
        decreases n - i,
    {
        if i > 0 {
            r.append(" ");
        }
        let piece = stmt_to_str(&stmts[i]);
        r.append(piece.as_str());
        proof {
            let prev = stmts@.subrange(0, i as int);
            let cur = stmts@.subrange(0, i as int + 1);
            assert(cur.drop_last() =~= prev);
            assert(cur.last() == stmts@[i as int]);
            assert(stmts_view(cur).drop_last() =~= stmts_view(prev));
            assert(stmts_view(cur).last() == stmts@[i as int]@);
            lemma_stmts_view_len(cur);
            if i == 0 {
                assert(stmts_view(cur).len() == 1);
            }
        }
        i = i + 1;
    }
    proof {
        assert(stmts@.subrange(0, n as int) =~= stmts@);
    }
    r
}

/// Renders a statement, exactly as `spec_stmt_str` gives it.
pub fn stmt_to_str(s: &Statement) -> (r: String)
    ensures
        r@ == spec_stmt_str(s@),
    decreases s,
{
    match s {
        Statement::Let(l) => {
            let mut r = String::from_str("let ");
            r.append(l.name.0.as_str());
            r.append(" = ");
            let v = expr_to_str(&l.value);
            r.append(v.as_str());
            r.append(";");
            r
        },
        Statement::Reassign(rs) => {
            let mut r = String::from_str("let ");
            let lhs = expr_to_str(&rs.lhs);
            r.append(lhs.as_str());
            r.append(" = ");
            let v = expr_to_str(&rs.value);
            r.append(v.as_str());
            r.append(";");
            r
        },
        Statement::Return(ret) => {
            let mut r = String::from_str("return ");
            match &ret.expression {
                Some(e) => {
                    let v = expr_to_str(e);
                    r.append(v.as_str());
                },
                None => {},
            }
            r.append(";");
            r
        },
        Statement::Expression(es) => {
            match &es.expression {
                Some(e) => expr_to_str(e),
                None => es.token.literal(),
            }
        },
        Statement::Program(_) => String::from_str("PROGRAM"),
        Statement::Block(b) => block_to_str(b),
    }
}


/// The literal of the token an expression hangs on: the payload for the
/// atoms, the operator for prefix and infix nodes, a fixed tag otherwise.
pub open spec fn spec_expr_literal(e: ExprV) -> Seq<char> {
    match e {
        ExprV::Identifier(name) => name,
        ExprV::Str(s) => s,
        ExprV::Number(n) => spec_int_str(n),
        ExprV::Bool(b) => if b {
            "true"@
        } else {
            "false"@
        },
        ExprV::ArrayLiteral(_) => "ARRAY"@,
        ExprV::Index(_, _) => "ARRAY_INDEX"@,
        ExprV::Prefix(op, _) => spec_token_literal(op),
        ExprV::Infix(op, _, _) => spec_token_literal(op),
        ExprV::If(_, _, _) => "IF"@,
        ExprV::Function(_, _) => "fn"@,
        ExprV::Call(_, _) => "CALL"@,
    }
}

/// The literal of the token a statement hangs on.
pub open spec fn spec_stmt_literal(s: StmtV) -> Seq<char>
    decreases s,
{
    match s {
        StmtV::Let(_, _) => "let"@,
        StmtV::Reassign(_, _) => "let"@,
        StmtV::Return(_) => "return"@,
        StmtV::Expr(token, _) => spec_token_literal(token),
        StmtV::Program(ss) => if ss.len() > 0 {
            spec_stmt_literal(ss[0])
        } else {
            Seq::empty()
        },
        StmtV::Block(_) => "BLOCK"@,
    }
}

/// The syntactic category of an expression.
pub open spec fn spec_expr_type(e: ExprV) -> NodeType {
    match e {
        ExprV::Identifier(_) => NodeType::Identifier,
        ExprV::Str(_) => NodeType::String,
        ExprV::Number(_) => NodeType::Number,
        ExprV::Bool(_) => NodeType::Bool,
        ExprV::ArrayLiteral(_) => NodeType::ArrayLiteral,
        ExprV::Index(_, _) => NodeType::IndexExpression,
        ExprV::Prefix(_, _) => NodeType::PrefixExpression,
        ExprV::Infix(_, _, _) => NodeType::InfixExpression,
        ExprV::If(_, _, _) => NodeType::IfExpression,
        ExprV::Function(_, _) => NodeType::FunctionLiteral,
        ExprV::Call(_, _) => NodeType::CallExpression,
    }
}

/// The syntactic category of a statement.
pub open spec fn spec_stmt_type(s: StmtV) -> NodeType {
    match s {
        StmtV::Let(_, _) => NodeType::LetStatement,
        StmtV::Reassign(_, _) => NodeType::ReassignStatement,
        StmtV::Return(_) => NodeType::ReturnStatement,
        StmtV::Expr(_, _) => NodeType::ExpressionStatement,
        StmtV::Program(_) => NodeType::Program,
        StmtV::Block(_) => NodeType::BlockStatement,
    }
}

/// The literal of the token an expression hangs on.
pub fn expr_token_literal(e: &Expression) -> (r: String)
    ensures
        r@ == spec_expr_literal(e@),
{
    match e {
        Expression::Identifier(id) => id.0.clone(),
        Expression::String(s) => s.clone(),
        Expression::Number(n) => int_to_string(*n),
        Expression::Bool(b) => {
            if *b {
                String::from_str("true")
            } else {
                String::from_str("false")
            }
        },
        Expression::ArrayLiteral(_) => String::from_str("ARRAY"),
        Expression::Index(_) => String::from_str("ARRAY_INDEX"),
        Expression::Prefix(p) => p.token.literal(),
        Expression::Infix(i) => i.operator.literal(),
        Expression::If(_) => String::from_str("IF"),
        Expression::Function(_) => String::from_str("fn"),
        Expression::Call(_) => String::from_str("CALL"),
    }
}

/// The literal of the token a statement hangs on.
pub fn stmt_token_literal(s: &Statement) -> (r: String)
    ensures
        r@ == spec_stmt_literal(s@),
    decreases s,
{
    match s {
        Statement::Let(_) => String::from_str("let"),
        Statement::Reassign(_) => String::from_str("let"),
        Statement::Return(_) => String::from_str("return"),
        Statement::Expression(x) => x.token.literal(),
        Statement::Program(p) => {
            if p.statements.len() > 0 {
                proof {
                    lemma_stmts_view_len(p.statements@);
                }
                stmt_token_literal(&p.statements[0])
            } else {
                String::new()
            }
        },
        Statement::Block(_) => String::from_str("BLOCK"),
    }
}

/// What every syntax node offers: the literal of the token it hangs on,
/// its printed form, and its syntactic category, each pinned to the
/// specification functions over the node's view.
pub trait NodeTrait {
    /// The model of `token_literal`.
    spec fn spec_literal_of(&self) -> Seq<char>;

    /// The model of `to_str`.
    spec fn spec_str_of(&self) -> Seq<char>;

    /// The model of `node_type`.
    spec fn spec_type_of(&self) -> NodeType;

    /// The literal of the token this node hangs on.
    fn token_literal(&self) -> (r: String)
        ensures
            r@ == self.spec_literal_of(),
    ;

    /// This node printed back as source text.
    fn to_str(&self) -> (r: String)
        ensures
            r@ == self.spec_str_of(),
    ;

    /// This node's syntactic category.
    fn node_type(&self) -> (r: NodeType)
        ensures
            r == self.spec_type_of(),
    ;
}

impl NodeTrait for Expression {
    open spec fn spec_literal_of(&self) -> Seq<char> {
        spec_expr_literal(self@)
    }

    open spec fn spec_str_of(&self) -> Seq<char> {
        spec_expr_str(self@)
    }

    open spec fn spec_type_of(&self) -> NodeType {
        spec_expr_type(self@)
    }

    fn token_literal(&self) -> (r: String) {
        expr_token_literal(self)
    }

    fn to_str(&self) -> (r: String) {
        expr_to_str(self)
    }

    fn node_type(&self) -> (r: NodeType) {
        match self {
            Expression::Identifier(_) => NodeType::Identifier,
            Expression::String(_) => NodeType::String,
            Expression::Number(_) => NodeType::Number,
            Expression::Bool(_) => NodeType::Bool,
            Expression::ArrayLiteral(_) => NodeType::ArrayLiteral,
            Expression::Index(_) => NodeType::IndexExpression,
            Expression::Prefix(_) => NodeType::PrefixExpression,
            Expression::Infix(_) => NodeType::InfixExpression,
            Expression::If(_) => NodeType::IfExpression,
            Expression::Function(_) => NodeType::FunctionLiteral,
            Expression::Call(_) => NodeType::CallExpression,
        }
    }
}

impl NodeTrait for Statement {
    open spec fn spec_literal_of(&self) -> Seq<char> {
        spec_stmt_literal(self@)
    }

    open spec fn spec_str_of(&self) -> Seq<char> {
        spec_stmt_str(self@)
    }

    open spec fn spec_type_of(&self) -> NodeType {
        spec_stmt_type(self@)
    }

    fn token_literal(&self) -> (r: String) {
        stmt_token_literal(self)
    }

    fn to_str(&self) -> (r: String) {
        stmt_to_str(self)
    }

    fn node_type(&self) -> (r: NodeType) {
        match self {
            Statement::Let(_) => NodeType::LetStatement,
            Statement::Reassign(_) => NodeType::ReassignStatement,
            Statement::Return(_) => NodeType::ReturnStatement,
            Statement::Expression(_) => NodeType::ExpressionStatement,
            Statement::Program(_) => NodeType::Program,
            Statement::Block(_) => NodeType::BlockStatement,
        }
    }
}

impl NodeTrait for Node {
    open spec fn spec_literal_of(&self) -> Seq<char> {
        match self@ {
            NodeV::Expression(e) => spec_expr_literal(e),
            NodeV::Statement(s) => spec_stmt_literal(s),
        }
    }

    open spec fn spec_str_of(&self) -> Seq<char> {
        match self@ {
            NodeV::Expression(e) => spec_expr_str(e),
            NodeV::Statement(s) => spec_stmt_str(s),
        }
    }

    open spec fn spec_type_of(&self) -> NodeType {
        match self@ {
            NodeV::Expression(e) => spec_expr_type(e),
            NodeV::Statement(s) => spec_stmt_type(s),
        }
    }

    fn token_literal(&self) -> (r: String) {
        match self {
            Node::Expression(e) => expr_token_literal(e),
            Node::Statement(s) => stmt_token_literal(s),
        }
    }

    fn to_str(&self) -> (r: String) {
        match self {
            Node::Expression(e) => expr_to_str(e),
            Node::Statement(s) => stmt_to_str(s),
        }
    }

    fn node_type(&self) -> (r: NodeType) {
        match self {
            Node::Expression(e) => e.node_type(),
            Node::Statement(s) => s.node_type(),
        }
    }
}

impl NodeTrait for Program {
    open spec fn spec_literal_of(&self) -> Seq<char> {
        spec_stmt_literal(StmtV::Program(self@))
    }

    open spec fn spec_str_of(&self) -> Seq<char> {
        "PROGRAM"@
    }

    open spec fn spec_type_of(&self) -> NodeType {
        NodeType::Program
    }

    fn token_literal(&self) -> (r: String) {
        if self.statements.len() > 0 {
            proof {
                lemma_stmts_view_len(self.statements@);
            }
            stmt_token_literal(&self.statements[0])
        } else {
            String::new()
        }
    }

    fn to_str(&self) -> (r: String) {
        String::from_str("PROGRAM")
    }

    fn node_type(&self) -> (r: NodeType) {
        NodeType::Program
    }
}

impl NodeTrait for BlockStatement {
    open spec fn spec_literal_of(&self) -> Seq<char> {
        "BLOCK"@
    }

    open spec fn spec_str_of(&self) -> Seq<char> {
        spec_block_str(self@)
    }

    open spec fn spec_type_of(&self) -> NodeType {
        NodeType::BlockStatement
    }

    fn token_literal(&self) -> (r: String) {
        String::from_str("BLOCK")
    }

    fn to_str(&self) -> (r: String) {
        block_to_str(self)
    }

    fn node_type(&self) -> (r: NodeType) {
        NodeType::BlockStatement
    }
}

impl NodeTrait for Identifier {
    open spec fn spec_literal_of(&self) -> Seq<char> {
        self@
    }

    open spec fn spec_str_of(&self) -> Seq<char> {
        self@
    }

    open spec fn spec_type_of(&self) -> NodeType {
        NodeType::Identifier
    }

    fn token_literal(&self) -> (r: String) {
        self.0.clone()
    }

    fn to_str(&self) -> (r: String) {
        self.0.clone()
    }

    fn node_type(&self) -> (r: NodeType) {
        NodeType::Identifier
    }
}

impl NodeTrait for LetStatement {
    open spec fn spec_literal_of(&self) -> Seq<char> {
        "let"@
    }

    open spec fn spec_str_of(&self) -> Seq<char> {
        spec_stmt_str(self@)
    }

    open spec fn spec_type_of(&self) -> NodeType {
        NodeType::LetStatement
    }

    fn token_literal(&self) -> (r: String) {
        String::from_str("let")
    }

    fn to_str(&self) -> (r: String) {
        let mut r = String::from_str("let ");
        r.append(self.name.0.as_str());
        r.append(" = ");
        let v = expr_to_str(&self.value);
        r.append(v.as_str());
        r.append(";");
        r
    }

    fn node_type(&self) -> (r: NodeType) {
        NodeType::LetStatement
    }
}

impl NodeTrait for ReassignStatement {
    open spec fn spec_literal_of(&self) -> Seq<char> {
        "let"@
    }

    open spec fn spec_str_of(&self) -> Seq<char> {
        spec_stmt_str(self@)
    }

    open spec fn spec_type_of(&self) -> NodeType {
        NodeType::ReassignStatement
    }

    fn token_literal(&self) -> (r: String) {
        String::from_str("let")
    }

    fn to_str(&self) -> (r: String) {
        let mut r = String::from_str("let ");
        let lhs = expr_to_str(&self.lhs);
        r.append(lhs.as_str());
        r.append(" = ");
        let v = expr_to_str(&self.value);
        r.append(v.as_str());
        r.append(";");
        r
    }

    fn node_type(&self) -> (r: NodeType) {
        NodeType::ReassignStatement
    }
}

impl NodeTrait for ReturnStatement {
    open spec fn spec_literal_of(&self) -> Seq<char> {
        "return"@
    }

    open spec fn spec_str_of(&self) -> Seq<char> {
        spec_stmt_str(
            StmtV::Return(
                match self.expression {
                    Some(e) => Some(e@),
                    None => None,
                },
            ),
        )
    }

    open spec fn spec_type_of(&self) -> NodeType {
        NodeType::ReturnStatement
    }

    fn token_literal(&self) -> (r: String) {
        String::from_str("return")
    }

    fn to_str(&self) -> (r: String) {
        let mut r = String::from_str("return ");
        match &self.expression {
            Some(e) => {
                let v = expr_to_str(e);
                r.append(v.as_str());
            },
            None => {},
        }
        r.append(";");
        r
    }

    fn node_type(&self) -> (r: NodeType) {
        NodeType::ReturnStatement
    }
}

impl NodeTrait for ExpressionStatement {
    open spec fn spec_literal_of(&self) -> Seq<char> {
        spec_token_literal(self.token@)
    }

    open spec fn spec_str_of(&self) -> Seq<char> {
        spec_stmt_str(
            StmtV::Expr(
                self.token@,
                match self.expression {
                    Some(e) => Some(e@),
                    None => None,
                },
            ),
        )
    }

    open spec fn spec_type_of(&self) -> NodeType {
        NodeType::ExpressionStatement
    }

    fn token_literal(&self) -> (r: String) {
        self.token.literal()
    }

    fn to_str(&self) -> (r: String) {
        match &self.expression {
            Some(e) => expr_to_str(e),
            None => self.token.literal(),
        }
    }

    fn node_type(&self) -> (r: NodeType) {
        NodeType::ExpressionStatement
    }
}

impl NodeTrait for ArrayLiteral {
    open spec fn spec_literal_of(&self) -> Seq<char> {
        "ARRAY"@
    }

    open spec fn spec_str_of(&self) -> Seq<char> {
        spec_expr_str(ExprV::ArrayLiteral(exprs_view(self.elements@)))
    }

    open spec fn spec_type_of(&self) -> NodeType {
        NodeType::ArrayLiteral
    }

    fn token_literal(&self) -> (r: String) {
        String::from_str("ARRAY")
    }

    fn to_str(&self) -> (r: String) {
        let mut r = String::from_str("[");
        let inner = exprs_join_str(&self.elements, ", ");
        r.append(inner.as_str());
        r.append("]");
        r
    }

    fn node_type(&self) -> (r: NodeType) {
        NodeType::ArrayLiteral
    }
}

impl NodeTrait for FunctionLiteral {
    open spec fn spec_literal_of(&self) -> Seq<char> {
        "fn"@
    }

    open spec fn spec_str_of(&self) -> Seq<char> {
        spec_expr_str(ExprV::Function(idents_view(self.parameters@), self.body@))
    }

    open spec fn spec_type_of(&self) -> NodeType {
        NodeType::FunctionLiteral
    }

    fn token_literal(&self) -> (r: String) {
        String::from_str("fn")
    }

    fn to_str(&self) -> (r: String) {
        let mut r = String::from_str("fn(");
        let params = idents_join_str(&self.parameters, ", ");
        r.append(params.as_str());
        r.append(") {");
        let body = stringnify_stmt(&self.body.statements);
        r.append(body.as_str());
        r.append("}");
        r
    }

    fn node_type(&self) -> (r: NodeType) {
        NodeType::FunctionLiteral
    }
}

impl NodeTrait for PrefixExpression {
    open spec fn spec_literal_of(&self) -> Seq<char> {
        spec_token_literal(self.token@)
    }

    open spec fn spec_str_of(&self) -> Seq<char> {
        spec_expr_str(ExprV::Prefix(self.token@, Box::new(self.right@)))
    }

    open spec fn spec_type_of(&self) -> NodeType {
        NodeType::PrefixExpression
    }

    fn token_literal(&self) -> (r: String) {
        self.token.literal()
    }

    fn to_str(&self) -> (r: String) {
        let mut r = String::from_str("(");
        let op = self.token.literal();
        r.append(op.as_str());
        let right = expr_to_str(&self.right);
        r.append(right.as_str());
        r.append(")");
        r
    }

    fn node_type(&self) -> (r: NodeType) {
        NodeType::PrefixExpression
    }
}

impl NodeTrait for InfixExpression {
    open spec fn spec_literal_of(&self) -> Seq<char> {
        spec_token_literal(self.operator@)
    }

    open spec fn spec_str_of(&self) -> Seq<char> {
        spec_expr_str(ExprV::Infix(self.operator@, Box::new(self.left@), Box::new(self.right@)))
    }

    open spec fn spec_type_of(&self) -> NodeType {
        NodeType::InfixExpression
    }

    fn token_literal(&self) -> (r: String) {
        self.operator.literal()
    }

    fn to_str(&self) -> (r: String) {
        let mut r = String::from_str("(");
        let left = expr_to_str(&self.left);
        r.append(left.as_str());
        r.append(" ");
        let op = self.operator.literal();
        r.append(op.as_str());
        r.append(" ");
        let right = expr_to_str(&self.right);
        r.append(right.as_str());
        r.append(")");
        r
    }

    fn node_type(&self) -> (r: NodeType) {
        NodeType::InfixExpression
    }
}

impl NodeTrait for IfExpression {
    open spec fn spec_literal_of(&self) -> Seq<char> {
        "IF"@
    }

    open spec fn spec_str_of(&self) -> Seq<char> {
        spec_expr_str(
            ExprV::If(
                Box::new(self.condition@),
                self.consequence@,
                match self.alternative {
                    Some(alt) => Some(alt@),
                    None => None,
                },
            ),
        )
    }

    open spec fn spec_type_of(&self) -> NodeType {
        NodeType::IfExpression
    }

    fn token_literal(&self) -> (r: String) {
        String::from_str("IF")
    }

    fn to_str(&self) -> (r: String) {
        let mut r = String::from_str("if ");
        let cond = expr_to_str(&self.condition);
        r.append(cond.as_str());
        r.append(" ");
        let cons = block_to_str(&self.consequence);
        r.append(cons.as_str());
        match &self.alternative {
            Some(alt) => {
                r.append(" else ");
                let a = block_to_str(alt);
                r.append(a.as_str());
            },
            None => {},
        }
        r
    }

    fn node_type(&self) -> (r: NodeType) {
        NodeType::IfExpression
    }
}

impl NodeTrait for CallExpression {
    open spec fn spec_literal_of(&self) -> Seq<char> {
        "CALL"@
    }

    open spec fn spec_str_of(&self) -> Seq<char> {
        spec_expr_str(ExprV::Call(Box::new(self.function@), exprs_view(self.arguments@)))
    }

    open spec fn spec_type_of(&self) -> NodeType {
        NodeType::CallExpression
    }

    fn token_literal(&self) -> (r: String) {
        String::from_str("CALL")
    }

    fn to_str(&self) -> (r: String) {
        let mut r = expr_to_str(&self.function);
        r.append("(");
        let args = exprs_join_str(&self.arguments, ", ");
        r.append(args.as_str());
        r.append(")");
        r
    }

    fn node_type(&self) -> (r: NodeType) {
        NodeType::CallExpression
    }
}

impl NodeTrait for IndexExpression {
    open spec fn spec_literal_of(&self) -> Seq<char> {
        "ARRAY_INDEX"@
    }

    open spec fn spec_str_of(&self) -> Seq<char> {
        spec_expr_str(ExprV::Index(Box::new(self.left@), Box::new(self.index@)))
    }

    open spec fn spec_type_of(&self) -> NodeType {
        NodeType::IndexExpression
    }

    fn token_literal(&self) -> (r: String) {
        String::from_str("ARRAY_INDEX")
    }

    fn to_str(&self) -> (r: String) {
        let mut r = expr_to_str(&self.left);
        r.append("[");
        let idx = expr_to_str(&self.index);
        r.append(idx.as_str());
        r.append("]");
        r
    }

    fn node_type(&self) -> (r: NodeType) {
        NodeType::IndexExpression
    }
}
} // verus!

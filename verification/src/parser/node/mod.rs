//! The abstract syntax tree produced by the parser, its mathematical model,
//! and the canonical pretty-printer: every prefix and infix expression is
//! rendered fully parenthesized, which makes the rendering a faithful record
//! of how the parser grouped the source.
use vstd::prelude::*;

pub mod block_stmt;
pub mod call_expression;
pub mod expression_stmt;
pub mod function_literal;
pub mod hash_literal;
pub mod if_expression;
pub mod infix_expression;
pub mod let_stmt;
pub mod prefix_expression;
pub mod return_stmt;

pub use block_stmt::BlockStatement;
pub use call_expression::CallExpression;
pub use expression_stmt::ExpressionStatement;
pub use function_literal::{FunctionLiteral, IdentifierExpression};
pub use hash_literal::HashLiteral;
pub use if_expression::IfExpression;
pub use infix_expression::InfixExpression;
pub use let_stmt::LetStatement;
pub use prefix_expression::PrefixExpression;
pub use return_stmt::ReturnStatement;

use crate::lexer::token::{spec_kind_str, KindV};
use crate::text::{bool_string, i64_string, spec_bool_str, spec_i64_str};

verus! {

/// Any node of the tree: a whole program, one statement or one expression.
#[derive(Debug)]
pub enum Node {
    Program(Box<Program>),
    Statement(Box<Statement>),
    Expression(Box<Expression>),
}

/// An ordered sequence of statements making up one source text.
#[derive(Debug, PartialEq, Eq)]
pub struct Program {
    pub body: Vec<Statement>,
}

#[derive(Debug, PartialEq, Eq)]
pub enum Statement {
    Let(Box<LetStatement>),
    Return(Box<ReturnStatement>),
    Expression(Box<ExpressionStatement>),
}

#[derive(Debug, PartialEq, Eq)]
pub enum Expression {
    Integer(i64),
    Identifier(String),
    Str(String),
    Boolean(bool),
    Prefix(Box<PrefixExpression>),
    Infix(Box<InfixExpression>),
    If(Box<IfExpression>),
    Function(Box<FunctionLiteral>),
    Call(Box<CallExpression>),
    Array(Box<ArrayLiteral>),
    Index(Box<IndexExpression>),
    Hash(Box<HashLiteral>),
}

#[derive(Debug, PartialEq, Eq)]
pub struct ArrayLiteral {
    pub elements: Vec<Expression>,
}

#[derive(Debug, PartialEq, Eq)]
pub struct IndexExpression {
    pub left: Expression,
    pub index: Expression,
}

/// The mathematical model of an expression.
#[verifier::ext_equal]
pub ghost enum ExprV {
    Integer(i64),
    Ident(Seq<char>),
    StrLit(Seq<char>),
    Boolean(bool),
    Prefix { op: KindV, right: Box<ExprV> },
    Infix { op: KindV, left: Box<ExprV>, right: Box<ExprV> },
    If { cond: Box<ExprV>, cons: BlockV, alt: Option<BlockV> },
    Function { params: Seq<Seq<char>>, body: BlockV },
    Call { func: Box<ExprV>, args: Seq<ExprV> },
    Array(Seq<ExprV>),
    Index { left: Box<ExprV>, index: Box<ExprV> },
    Hash(Seq<(ExprV, ExprV)>),
}

/// The mathematical model of a statement.
#[verifier::ext_equal]
pub ghost enum StmtV {
    Let { name: Seq<char>, value: ExprV },
    Return(ExprV),
    Expr(ExprV),
}

/// The mathematical model of a block of statements.
#[verifier::ext_equal]
pub ghost struct BlockV {
    pub stmts: Seq<StmtV>,
}

/// The mathematical model of a program.
#[verifier::ext_equal]
pub ghost struct ProgramV {
    pub body: Seq<StmtV>,
}

/// The mathematical model of a node.
#[verifier::ext_equal]
pub ghost enum NodeV {
    Program(ProgramV),
    Statement(StmtV),
    Expression(ExprV),
}

pub open spec fn view_expr(e: Expression) -> ExprV
    decreases e, 0int,
{
    match e {
        Expression::Integer(n) => ExprV::Integer(n),
        Expression::Identifier(s) => ExprV::Ident(s@),
        Expression::Str(s) => ExprV::StrLit(s@),
        Expression::Boolean(b) => ExprV::Boolean(b),
        Expression::Prefix(p) => ExprV::Prefix {
            op: p.operator@,
            right: Box::new(view_expr(p.right)),
        },
        Expression::Infix(p) => ExprV::Infix {
            op: p.operator@,
            left: Box::new(view_expr(p.left)),
            right: Box::new(view_expr(p.right)),
        },
        Expression::If(p) => ExprV::If {
            cond: Box::new(view_expr(p.condition)),
            cons: view_block(p.consequence),
            alt: match p.alternative {
                Some(b) => Some(view_block(b)),
                None => None,
            },
        },
        Expression::Function(p) => ExprV::Function {
            params: view_params(p.parameters@),
            body: view_block(p.body),
        },
        Expression::Call(p) => ExprV::Call {
            func: Box::new(view_expr(p.function)),
            args: view_exprs(p.arguments@, 0),
        },
        Expression::Array(p) => ExprV::Array(view_exprs(p.elements@, 0)),
        Expression::Index(p) => ExprV::Index {
            left: Box::new(view_expr(p.left)),
            index: Box::new(view_expr(p.index)),
        },
        Expression::Hash(p) => ExprV::Hash(view_pairs(p.pairs@, 0)),
    }
}

/// The models of the expressions of `es` from index `i` on.
pub open spec fn view_exprs(es: Seq<Expression>, i: int) -> Seq<ExprV>
    decreases es, es.len() - i,
    when 0 <= i <= es.len()
{
    if i >= es.len() {
        seq![]
    } else {
        seq![view_expr(es[i])] + view_exprs(es, i + 1)
    }
}

/// The models of the key/value pairs of `ps` from index `i` on.
pub open spec fn view_pairs(ps: Seq<(Expression, Expression)>, i: int) -> Seq<(ExprV, ExprV)>
    decreases ps, ps.len() - i,
    when 0 <= i <= ps.len()
{
    if i >= ps.len() {
        seq![]
    } else {
        seq![(view_expr(ps[i].0), view_expr(ps[i].1))] + view_pairs(ps, i + 1)
    }
}

/// The names of a parameter list.
pub open spec fn view_params(ps: Seq<IdentifierExpression>) -> Seq<Seq<char>> {
    ps.map_values(|p: IdentifierExpression| p.name@)
}

pub open spec fn view_stmt(s: Statement) -> StmtV
    decreases s, 0int,
{
    match s {
        Statement::Let(l) => StmtV::Let { name: l.name@, value: view_expr(l.value) },
        Statement::Return(r) => StmtV::Return(view_expr(r.value)),
        Statement::Expression(e) => StmtV::Expr(view_expr(e.expression)),
    }
}

/// The models of the statements of `ss` from index `i` on.
pub open spec fn view_stmts(ss: Seq<Statement>, i: int) -> Seq<StmtV>
    decreases ss, ss.len() - i,
    when 0 <= i <= ss.len()
{
    if i >= ss.len() {
        seq![]
    } else {
        seq![view_stmt(ss[i])] + view_stmts(ss, i + 1)
    }
}

pub open spec fn view_block(b: BlockStatement) -> BlockV
    decreases b, 0int,
{
    BlockV { stmts: view_stmts(b.statements@, 0) }
}

impl View for Expression {
    type V = ExprV;

    open spec fn view(&self) -> ExprV {
        view_expr(*self)
    }
}

impl View for Statement {
    type V = StmtV;

    open spec fn view(&self) -> StmtV {
        view_stmt(*self)
    }
}

impl View for BlockStatement {
    type V = BlockV;

    open spec fn view(&self) -> BlockV {
        view_block(*self)
    }
}

impl View for Program {
    type V = ProgramV;

    open spec fn view(&self) -> ProgramV {
        ProgramV { body: view_stmts(self.body@, 0) }
    }
}

impl View for Node {
    type V = NodeV;

    open spec fn view(&self) -> NodeV {
        match self {
            Node::Program(p) => NodeV::Program(p@),
            Node::Statement(s) => NodeV::Statement(view_stmt(**s)),
            Node::Expression(e) => NodeV::Expression(view_expr(**e)),
        }
    }
}

impl Program {
    /// Creates an empty program.
    pub fn new() -> (r: Self)
        ensures
            r@.body.len() == 0,
    {
        Program { body: Vec::new() }
    }
}

/// The models of a vector's expressions, element by element.
pub proof fn lemma_view_exprs_index(es: Seq<Expression>, i: int)
    requires
        0 <= i <= es.len(),
    ensures
        view_exprs(es, i).len() == es.len() - i,
        forall|j: int|
            0 <= j < es.len() - i ==> #[trigger] view_exprs(es, i)[j] == view_expr(es[i + j]),
    decreases es.len() - i,
{
    if i < es.len() {
        lemma_view_exprs_index(es, i + 1);
    }
}

/// The models of a vector's key/value pairs, element by element.
pub proof fn lemma_view_pairs_index(ps: Seq<(Expression, Expression)>, i: int)
    requires
        0 <= i <= ps.len(),
    ensures
        view_pairs(ps, i).len() == ps.len() - i,
        forall|j: int|
            0 <= j < ps.len() - i ==> #[trigger] view_pairs(ps, i)[j] == (
            view_expr(ps[i + j].0),
            view_expr(ps[i + j].1),
            ),
    decreases ps.len() - i,
{
    if i < ps.len() {
        lemma_view_pairs_index(ps, i + 1);
    }
}

/// The models of a vector's statements, element by element.
pub proof fn lemma_view_stmts_index(ss: Seq<Statement>, i: int)
    requires
        0 <= i <= ss.len(),
    ensures
        view_stmts(ss, i).len() == ss.len() - i,
        forall|j: int|
            0 <= j < ss.len() - i ==> #[trigger] view_stmts(ss, i)[j] == view_stmt(ss[i + j]),
    decreases ss.len() - i,
{
    if i < ss.len() {
        lemma_view_stmts_index(ss, i + 1);
    }
}

/// The canonical, fully parenthesized rendering of an expression.
pub open spec fn spec_print_expr(e: ExprV) -> Seq<char>
    decreases e, 0int,
{
    match e {
        ExprV::Integer(n) => spec_i64_str(n),
        ExprV::Ident(s) => s,
        ExprV::StrLit(s) => s,
        ExprV::Boolean(b) => spec_bool_str(b),
        ExprV::Prefix { op, right } => "("@ + spec_kind_str(op) + spec_print_expr(*right) + ")"@,
        ExprV::Infix { op, left, right } => "("@ + spec_print_expr(*left) + " "@ + spec_kind_str(
            op,
        ) + " "@ + spec_print_expr(*right) + ")"@,
        ExprV::If { cond, cons, alt } => "if "@ + spec_print_expr(*cond) + " "@ + spec_print_block(
            cons,
        ) + match alt {
            Some(a) => " else "@ + spec_print_block(a),
            None => seq![],
        },
        ExprV::Function { params, body } => "("@ + spec_print_params(params, 0) + ") "@
            + spec_print_block(body),
        ExprV::Call { func, args } => spec_print_expr(*func) + "("@ + spec_print_exprs(args, 0)
            + ")"@,
        ExprV::Array(es) => "["@ + spec_print_exprs(es, 0) + "]"@,
        ExprV::Index { left, index } => "("@ + spec_print_expr(*left) + "["@ + spec_print_expr(
            *index,
        ) + "])"@,
        ExprV::Hash(ps) => "{"@ + spec_print_pairs(ps, 0) + "}"@,
    }
}

/// The renderings of the expressions from index `i` on, separated by commas.
pub open spec fn spec_print_exprs(es: Seq<ExprV>, i: int) -> Seq<char>
    decreases es, es.len() - i,
    when 0 <= i <= es.len()
{
    if i >= es.len() {
        seq![]
    } else if i == es.len() - 1 {
        spec_print_expr(es[i])
    } else {
        spec_print_expr(es[i]) + ", "@ + spec_print_exprs(es, i + 1)
    }
}

/// The renderings of the `key:value` pairs from index `i` on, separated by
/// commas.
pub open spec fn spec_print_pairs(ps: Seq<(ExprV, ExprV)>, i: int) -> Seq<char>
    decreases ps, ps.len() - i,
    when 0 <= i <= ps.len()
{
    if i >= ps.len() {
        seq![]
    } else if i == ps.len() - 1 {
        spec_print_expr(ps[i].0) + ":"@ + spec_print_expr(ps[i].1)
    } else {
        spec_print_expr(ps[i].0) + ":"@ + spec_print_expr(ps[i].1) + ", "@ + spec_print_pairs(
            ps,
            i + 1,
        )
    }
}

/// The parameter names from index `i` on, separated by commas.
pub open spec fn spec_print_params(ps: Seq<Seq<char>>, i: int) -> Seq<char>
    decreases ps.len() - i,
    when 0 <= i <= ps.len()
{
    if i >= ps.len() {
        seq![]
    } else if i == ps.len() - 1 {
        ps[i]
    } else {
        ps[i] + ", "@ + spec_print_params(ps, i + 1)
    }
}

/// The canonical rendering of a statement.
pub open spec fn spec_print_stmt(s: StmtV) -> Seq<char>
    decreases s, 0int,
{
    match s {
        StmtV::Let { name, value } => "let "@ + name + " = "@ + spec_print_expr(value) + ";"@,
        StmtV::Return(value) => "return "@ + spec_print_expr(value) + ";"@,
        StmtV::Expr(value) => spec_print_expr(value),
    }
}

/// The concatenated renderings of the statements from index `i` on.
pub open spec fn spec_print_stmts(ss: Seq<StmtV>, i: int) -> Seq<char>
    decreases ss, ss.len() - i,
    when 0 <= i <= ss.len()
{
    if i >= ss.len() {
        seq![]
    } else {
        spec_print_stmt(ss[i]) + spec_print_stmts(ss, i + 1)
    }
}

/// The canonical rendering of a block: its statements, concatenated.
pub open spec fn spec_print_block(b: BlockV) -> Seq<char>
    decreases b, 0int,
{
    spec_print_stmts(b.stmts, 0)
}

/// The canonical rendering of a program: its statements, concatenated.
pub open spec fn spec_print_program(p: ProgramV) -> Seq<char> {
    spec_print_stmts(p.body, 0)
}

/// The canonical rendering of any node.
pub open spec fn spec_print_node(n: NodeV) -> Seq<char> {
    match n {
        NodeV::Program(p) => spec_print_program(p),
        NodeV::Statement(s) => spec_print_stmt(s),
        NodeV::Expression(e) => spec_print_expr(e),
    }
}

/// Renders the expressions of `list` from index `i` on, comma separated.
pub fn exprs_string(list: &Vec<Expression>, i: usize) -> (r: String)
    requires
        i <= list@.len(),
    ensures
        r@ == spec_print_exprs(view_exprs(list@, 0), i as int),
    decreases list@, list@.len() - i,
{
    proof {
        lemma_view_exprs_index(list@, 0);
    }
    if i >= list.len() {
        String::new()
    } else if i == list.len() - 1 {
        list[i].string()
    } else {
        let mut s = list[i].string();
        s.append(", ");
        let rest = exprs_string(list, i + 1);
        s.append(rest.as_str());
        proof {
            assert(s@ =~= spec_print_exprs(view_exprs(list@, 0), i as int));
        }
        s
    }
}

/// Renders the `key:value` pairs of `list` from index `i` on, comma
/// separated.
pub fn pairs_string(list: &Vec<(Expression, Expression)>, i: usize) -> (r: String)
    requires
        i <= list@.len(),
    ensures
        r@ == spec_print_pairs(view_pairs(list@, 0), i as int),
    decreases list@, list@.len() - i,
{
    proof {
        lemma_view_pairs_index(list@, 0);
    }
    if i >= list.len() {
        String::new()
    } else {
        let mut s = list[i].0.string();
        s.append(":");
        let v = list[i].1.string();
        s.append(v.as_str());
        if i < list.len() - 1 {
            s.append(", ");
            let rest = pairs_string(list, i + 1);
            s.append(rest.as_str());
        }
        proof {
            assert(s@ =~= spec_print_pairs(view_pairs(list@, 0), i as int));
        }
        s
    }
}

/// Renders the parameter names of `list` from index `i` on, comma
/// separated.
pub fn params_string(list: &Vec<IdentifierExpression>, i: usize) -> (r: String)
    requires
        i <= list@.len(),
    ensures
        r@ == spec_print_params(view_params(list@), i as int),
    decreases list@.len() - i,
{
    if i >= list.len() {
        String::new()
    } else if i == list.len() - 1 {
        list[i].name.clone()
    } else {
        let mut s = list[i].name.clone();
        s.append(", ");
        let rest = params_string(list, i + 1);
        s.append(rest.as_str());
        proof {
            assert(s@ =~= spec_print_params(view_params(list@), i as int));
        }
        s
    }
}

/// Renders the statements of `list` from index `i` on, concatenated.
pub fn stmts_string(list: &Vec<Statement>, i: usize) -> (r: String)
    requires
        i <= list@.len(),
    ensures
        r@ == spec_print_stmts(view_stmts(list@, 0), i as int),
    decreases list@, list@.len() - i,
{
    proof {
        lemma_view_stmts_index(list@, 0);
    }
    if i >= list.len() {
        String::new()
    } else {
        let mut s = list[i].string();
        let rest = stmts_string(list, i + 1);
        s.append(rest.as_str());
        s
    }
}

impl Expression {
    /// The canonical rendering of the expression.
    pub fn string(&self) -> (r: String)
        ensures
            r@ == spec_print_expr(self@),
        decreases self, 1int,
    {
        match self {
            Expression::Integer(n) => i64_string(*n),
            Expression::Identifier(s) => s.clone(),
            Expression::Str(s) => s.clone(),
            Expression::Boolean(b) => bool_string(*b),
            Expression::Prefix(p) => p.string(),
            Expression::Infix(p) => p.string(),
            Expression::If(p) => p.string(),
            Expression::Function(p) => p.string(),
            Expression::Call(p) => p.string(),
            Expression::Array(p) => p.string(),
            Expression::Index(p) => p.string(),
            Expression::Hash(p) => p.string(),
        }
    }
}

impl ArrayLiteral {
    /// The canonical rendering: the elements, comma separated, in brackets.
    pub fn string(&self) -> (r: String)
        ensures
            r@ == spec_print_expr(ExprV::Array(view_exprs(self.elements@, 0))),
        decreases self, 0int,
    {
        let mut s = String::from_str("[");
        let e = exprs_string(&self.elements, 0);
        s.append(e.as_str());
        s.append("]");
        proof {
            assert(s@ =~= spec_print_expr(ExprV::Array(view_exprs(self.elements@, 0))));
        }
        s
    }
}

impl IndexExpression {
    /// The canonical rendering: `(collection[index])`.
    pub fn string(&self) -> (r: String)
        ensures
            r@ == spec_print_expr(view_expr(Expression::Index(Box::new(*self)))),
        decreases self, 0int,
    {
        let mut s = String::from_str("(");
        let l = self.left.string();
        s.append(l.as_str());
        s.append("[");
        let ix = self.index.string();
        s.append(ix.as_str());
        s.append("])");
        proof {
            assert(s@ =~= spec_print_expr(view_expr(Expression::Index(Box::new(*self)))));
        }
        s
    }
}

impl Statement {
    /// The canonical rendering of the statement.
    pub fn string(&self) -> (r: String)
        ensures
            r@ == spec_print_stmt(self@),
        decreases self, 1int,
    {
        match self {
            Statement::Let(s) => s.string(),
            Statement::Return(s) => s.string(),
            Statement::Expression(s) => s.string(),
        }
    }
}

impl Program {
    /// The canonical rendering of the program: its statements, concatenated.
    pub fn string(&self) -> (r: String)
        ensures
            r@ == spec_print_program(self@),
    {
        stmts_string(&self.body, 0)
    }
}

impl Node {
    /// The canonical rendering of the node.
    pub fn string(&self) -> (r: String)
        ensures
            r@ == spec_print_node(self@),
    {
        match self {
            Node::Program(p) => p.string(),
            Node::Statement(s) => s.string(),
            Node::Expression(e) => e.string(),
        }
    }
}

impl Expression {
    /// A structural copy of the expression, equal to it in the model.
    pub fn duplicate(&self) -> (r: Expression)
        ensures
            r@ == self@,
        decreases self, 1int,
    {
        match self {
            Expression::Integer(n) => Expression::Integer(*n),
            Expression::Identifier(s) => Expression::Identifier(s.clone()),
            Expression::Str(s) => Expression::Str(s.clone()),
            Expression::Boolean(b) => Expression::Boolean(*b),
            Expression::Prefix(p) => Expression::Prefix(
                Box::new(PrefixExpression { operator: p.operator.duplicate(), right: p.right.duplicate() }),
            ),
            Expression::Infix(p) => Expression::Infix(
                Box::new(
                    InfixExpression {
                        operator: p.operator.duplicate(),
                        left: p.left.duplicate(),
                        right: p.right.duplicate(),
                    },
                ),
            ),
            Expression::If(p) => Expression::If(
                Box::new(
                    IfExpression {
                        condition: p.condition.duplicate(),
                        consequence: p.consequence.duplicate(),
                        alternative: match &p.alternative {
                            Some(b) => Some(b.duplicate()),
                            None => None,
                        },
                    },
                ),
            ),
            Expression::Function(p) => Expression::Function(
                Box::new(
                    FunctionLiteral {
                        parameters: params_duplicate(&p.parameters),
                        body: p.body.duplicate(),
                    },
                ),
            ),
            Expression::Call(p) => Expression::Call(
                Box::new(
                    CallExpression {
                        function: p.function.duplicate(),
                        arguments: exprs_duplicate(&p.arguments),
                    },
                ),
            ),
            Expression::Array(p) => Expression::Array(
                Box::new(ArrayLiteral { elements: exprs_duplicate(&p.elements) }),
            ),
            Expression::Index(p) => Expression::Index(
                Box::new(
                    IndexExpression { left: p.left.duplicate(), index: p.index.duplicate() },
                ),
            ),
            Expression::Hash(p) => Expression::Hash(
                Box::new(HashLiteral { pairs: pairs_duplicate(&p.pairs) }),
            ),
        }
    }
}

/// A structural copy of an expression list.
pub fn exprs_duplicate(list: &Vec<Expression>) -> (r: Vec<Expression>)
    ensures
        r@.len() == list@.len(),
        forall|j: int| 0 <= j < list@.len() ==> view_expr(#[trigger] r@[j]) == view_expr(list@[j]),
        view_exprs(r@, 0) == view_exprs(list@, 0),
    decreases list@, 0int,
{
    let mut out: Vec<Expression> = Vec::new();
    let mut i: usize = 0;
    while i < list.len()
        invariant
            i <= list@.len(),
            out@.len() == i,
            forall|j: int| 0 <= j < i ==> view_expr(#[trigger] out@[j]) == view_expr(list@[j]),
        decreases list@.len() - i,
    {
        let d = list[i].duplicate();
        out.push(d);
        i = i + 1;
    }
    proof {
        lemma_view_exprs_index(out@, 0);
        lemma_view_exprs_index(list@, 0);
        assert(view_exprs(out@, 0) =~= view_exprs(list@, 0));
    }
    out
}

/// A structural copy of a key/value pair list.
pub fn pairs_duplicate(list: &Vec<(Expression, Expression)>) -> (r: Vec<(Expression, Expression)>)
    ensures
        r@.len() == list@.len(),
        forall|j: int|
            0 <= j < list@.len() ==> view_expr((#[trigger] r@[j]).0) == view_expr(list@[j].0)
                && view_expr(r@[j].1) == view_expr(list@[j].1),
        view_pairs(r@, 0) == view_pairs(list@, 0),
    decreases list@, 0int,
{
    let mut out: Vec<(Expression, Expression)> = Vec::new();
    let mut i: usize = 0;
    while i < list.len()
        invariant
            i <= list@.len(),
            out@.len() == i,
            forall|j: int|
                0 <= j < i ==> view_expr((#[trigger] out@[j]).0) == view_expr(list@[j].0)
                    && view_expr(out@[j].1) == view_expr(list@[j].1),
        decreases list@.len() - i,
    {
        let k = list[i].0.duplicate();
        let v = list[i].1.duplicate();
        out.push((k, v));
        i = i + 1;
    }
    proof {
        lemma_view_pairs_index(out@, 0);
        lemma_view_pairs_index(list@, 0);
        assert(view_pairs(out@, 0) =~= view_pairs(list@, 0));
    }
    out
}

/// A structural copy of a parameter list.
pub fn params_duplicate(list: &Vec<IdentifierExpression>) -> (r: Vec<IdentifierExpression>)
    ensures
        view_params(r@) == view_params(list@),
{
    let mut out: Vec<IdentifierExpression> = Vec::new();
    let mut i: usize = 0;
    while i < list.len()
        invariant
            i <= list@.len(),
            out@.len() == i,
            forall|j: int| 0 <= j < i ==> (#[trigger] out@[j]).name@ == list@[j].name@,
        decreases list@.len() - i,
    {
        let name = list[i].name.clone();
        out.push(IdentifierExpression { name });
        i = i + 1;
    }
    proof {
        assert(view_params(out@) =~= view_params(list@));
    }
    out
}

/// A structural copy of a statement list.
pub fn stmts_duplicate(list: &Vec<Statement>) -> (r: Vec<Statement>)
    ensures
        r@.len() == list@.len(),
        forall|j: int| 0 <= j < list@.len() ==> view_stmt(#[trigger] r@[j]) == view_stmt(list@[j]),
        view_stmts(r@, 0) == view_stmts(list@, 0),
    decreases list@, 0int,
{
    let mut out: Vec<Statement> = Vec::new();
    let mut i: usize = 0;
    while i < list.len()
        invariant
            i <= list@.len(),
            out@.len() == i,
            forall|j: int| 0 <= j < i ==> view_stmt(#[trigger] out@[j]) == view_stmt(list@[j]),
        decreases list@.len() - i,
    {
        let d = list[i].duplicate();
        out.push(d);
        i = i + 1;
    }
    proof {
        lemma_view_stmts_index(out@, 0);
        lemma_view_stmts_index(list@, 0);
        assert(view_stmts(out@, 0) =~= view_stmts(list@, 0));
    }
    out
}

impl Statement {
    /// A structural copy of the statement, equal to it in the model.
    pub fn duplicate(&self) -> (r: Statement)
        ensures
            r@ == self@,
        decreases self, 1int,
    {
        match self {
            Statement::Let(s) => Statement::Let(
                Box::new(LetStatement { name: s.name.clone(), value: s.value.duplicate() }),
            ),
            Statement::Return(s) => Statement::Return(
                Box::new(ReturnStatement { value: s.value.duplicate() }),
            ),
            Statement::Expression(s) => Statement::Expression(
                Box::new(ExpressionStatement { expression: s.expression.duplicate() }),
            ),
        }
    }
}

impl BlockStatement {
    /// A structural copy of the block, equal to it in the model.
    pub fn duplicate(&self) -> (r: BlockStatement)
        ensures
            r@ == self@,
        decreases self, 1int,
    {
        BlockStatement { statements: stmts_duplicate(&self.statements) }
    }
}

} // verus!

use vstd::prelude::*;
use vstd::string::*;
use crate::text::{int_text, int_to_string};
use crate::token::{token_text, Token, TokenType};

verus! {

/// A name in the source, with the token it was read from.
#[derive(Debug, PartialEq)]
pub struct Identifier {
    pub token: TokenType,
    pub value: String,
}

/// An integer literal.
#[derive(Debug, PartialEq)]
pub struct IntegerLiteral {
    pub token: TokenType,
    pub value: i64,
}

/// `true` or `false`.
#[derive(Debug, PartialEq)]
pub struct BooleanLiteral {
    pub token: TokenType,
    pub value: bool,
}

/// A unary operator applied to an operand.
#[derive(Debug, PartialEq)]
pub struct PrefixExpression {
    pub token: TokenType,
    pub operator: String,
    pub right: Box<Expression>,
}

/// A binary operator between two operands.
#[derive(Debug, PartialEq)]
pub struct InfixExpression {
    pub token: TokenType,
    pub left: Box<Expression>,
    pub operator: String,
    pub right: Box<Expression>,
}

/// A conditional with a consequence and, optionally, an alternative.
#[derive(Debug, PartialEq)]
pub struct IfExpression {
    pub token: TokenType,
    pub condition: Box<Expression>,
    pub consequence: BlockStatement,
    pub alternative: Option<BlockStatement>,
}

/// A function literal: parameter names and a body.
#[derive(Debug, PartialEq)]
pub struct FunctionLiteral {
    pub token: TokenType,
    pub parameters: Vec<Identifier>,
    pub body: BlockStatement,
}

/// The application of a callee to arguments.
#[derive(Debug, PartialEq)]
pub struct CallExpression {
    pub token: TokenType,
    pub function: Box<Expression>,
    pub arguments: Vec<Expression>,
}

/// An expression.
#[derive(Debug, PartialEq)]
pub enum Expression {
    Identifier(Identifier),
    IntegerLiteral(IntegerLiteral),
    Boolean(BooleanLiteral),
    Prefix(PrefixExpression),
    Infix(InfixExpression),
    If(IfExpression),
    Function(FunctionLiteral),
    Call(CallExpression),
}

/// `let name = value`.
#[derive(Debug, PartialEq)]
pub struct LetStatement {
    pub token: TokenType,
    pub name: Identifier,
    pub value: Expression,
}

/// `return value`.
#[derive(Debug, PartialEq)]
pub struct ReturnStatement {
    pub token: TokenType,
    pub return_value: Expression,
}

/// An expression in statement position.
#[derive(Debug, PartialEq)]
pub struct ExpressionStatement {
    pub token: TokenType,
    pub expression: Expression,
}

/// A statement.
#[derive(Debug, PartialEq)]
pub enum Statement {
    Let(LetStatement),
    Return(ReturnStatement),
    Expression(ExpressionStatement),
}

/// The statements between a pair of braces.
#[derive(Debug, PartialEq)]
pub struct BlockStatement {
    pub token: TokenType,
    pub statements: Vec<Statement>,
}

/// A whole parse: the top-level statements in order.
#[derive(Debug, PartialEq)]
pub struct Program {
    pub statements: Vec<Statement>,
}

/// The mathematical value of an [`Identifier`].
pub struct Name {
    pub token: Token,
    pub value: Seq<char>,
}

/// The mathematical value of an [`Expression`].
#[allow(inconsistent_fields)]
pub enum Expr {
    Identifier(Name),
    Integer { token: Token, value: i64 },
    Boolean { token: Token, value: bool },
    Prefix { token: Token, operator: Seq<char>, right: Box<Expr> },
    Infix { token: Token, left: Box<Expr>, operator: Seq<char>, right: Box<Expr> },
    If { token: Token, condition: Box<Expr>, consequence: Block, alternative: Option<Block> },
    Function { token: Token, parameters: Seq<Name>, body: Block },
    Call { token: Token, function: Box<Expr>, arguments: Seq<Expr> },
}

/// The mathematical value of a [`Statement`].
pub enum Stmt {
    Let { token: Token, name: Name, value: Expr },
    Return { token: Token, value: Expr },
    Expression { token: Token, expression: Expr },
}

/// The mathematical value of a [`BlockStatement`].
pub struct Block {
    pub token: Token,
    pub statements: Seq<Stmt>,
}

impl View for Identifier {
    type V = Name;

    open spec fn view(&self) -> Name {
        Name { token: self.token@, value: self.value@ }
    }
}

/// The values of a sequence of identifiers.
pub open spec fn names_view(names: Seq<Identifier>) -> Seq<Name> {
    Seq::new(names.len(), |i: int| names[i]@)
}

/// The value of an expression.
pub open spec fn expr_view(e: Expression) -> Expr
    decreases e,
{
    match e {
        Expression::Identifier(n) => Expr::Identifier(n@),
        Expression::IntegerLiteral(i) => Expr::Integer { token: i.token@, value: i.value },
        Expression::Boolean(b) => Expr::Boolean { token: b.token@, value: b.value },
        Expression::Prefix(p) => Expr::Prefix {
            token: p.token@,
            operator: p.operator@,
            right: Box::new(expr_view(*p.right)),
        },
        Expression::Infix(i) => Expr::Infix {
            token: i.token@,
            left: Box::new(expr_view(*i.left)),
            operator: i.operator@,
            right: Box::new(expr_view(*i.right)),
        },
        Expression::If(c) => Expr::If {
            token: c.token@,
            condition: Box::new(expr_view(*c.condition)),
            consequence: block_view(c.consequence),
            alternative: match c.alternative {
                Some(b) => Some(block_view(b)),
                None => None,
            },
        },
        Expression::Function(f) => Expr::Function {
            token: f.token@,
            parameters: names_view(f.parameters@),
            body: block_view(f.body),
        },
        Expression::Call(c) => Expr::Call {
            token: c.token@,
            function: Box::new(expr_view(*c.function)),
            arguments: exprs_view(c.arguments@),
        },
    }
}

/// The values of a sequence of expressions.
pub open spec fn exprs_view(es: Seq<Expression>) -> Seq<Expr>
    decreases es,
{
    Seq::new(
        es.len(),
        |i: int|
            if 0 <= i < es.len() {
                expr_view(es[i])
            } else {
                arbitrary()
            },
    )
}

/// The value of a statement.
pub open spec fn stmt_view(s: Statement) -> Stmt
    decreases s,
{
    match s {
        Statement::Let(l) => Stmt::Let { token: l.token@, name: l.name@, value: expr_view(l.value) },
        Statement::Return(r) => Stmt::Return { token: r.token@, value: expr_view(r.return_value) },
        Statement::Expression(e) => Stmt::Expression {
            token: e.token@,
            expression: expr_view(e.expression),
        },
    }
}

/// The values of a sequence of statements.
pub open spec fn stmts_view(ss: Seq<Statement>) -> Seq<Stmt>
    decreases ss,
{
    Seq::new(
        ss.len(),
        |i: int|
            if 0 <= i < ss.len() {
                stmt_view(ss[i])
            } else {
                arbitrary()
            },
    )
}

/// The value of a block.
pub open spec fn block_view(b: BlockStatement) -> Block
    decreases b,
{
    Block { token: b.token@, statements: stmts_view(b.statements@) }
}

impl View for Expression {
    type V = Expr;

    open spec fn view(&self) -> Expr {
        expr_view(*self)
    }
}

impl View for Statement {
    type V = Stmt;

    open spec fn view(&self) -> Stmt {
        stmt_view(*self)
    }
}

impl View for BlockStatement {
    type V = Block;

    open spec fn view(&self) -> Block {
        block_view(*self)
    }
}

impl View for Program {
    type V = Seq<Stmt>;

    open spec fn view(&self) -> Seq<Stmt> {
        stmts_view(self.statements@)
    }
}

impl Clone for Identifier {
    fn clone(&self) -> (r: Self)
        ensures
            r@ == self@,
    {
        Identifier { token: self.token.clone(), value: self.value.clone() }
    }
}

/// A copy of a list of identifiers.
pub(crate) fn clone_identifiers(names: &Vec<Identifier>) -> (r: Vec<Identifier>)
    ensures
        names_view(r@) == names_view(names@),
{
    let mut r: Vec<Identifier> = Vec::new();
    let mut i: usize = 0;
    while i < names.len()
        invariant
            i <= names@.len(),
            r@.len() == i,
            forall|j: int| 0 <= j < i ==> r@[j]@ == names@[j]@,
        decreases names@.len() - i,
    {
        r.push(names[i].clone());
        i += 1;
    }
    assert(names_view(r@) =~= names_view(names@));
    r
}

/// A copy of an expression.
pub(crate) fn clone_expression(e: &Expression) -> (r: Expression)
    ensures
        r@ == e@,
    decreases e,
{
    match e {
        Expression::Identifier(n) => Expression::Identifier(n.clone()),
        Expression::IntegerLiteral(i) => Expression::IntegerLiteral(
            IntegerLiteral { token: i.token.clone(), value: i.value },
        ),
        Expression::Boolean(b) => Expression::Boolean(
            BooleanLiteral { token: b.token.clone(), value: b.value },
        ),
        Expression::Prefix(p) => Expression::Prefix(
            PrefixExpression {
                token: p.token.clone(),
                operator: p.operator.clone(),
                right: Box::new(clone_expression(&p.right)),
            },
        ),
        Expression::Infix(i) => Expression::Infix(
            InfixExpression {
                token: i.token.clone(),
                left: Box::new(clone_expression(&i.left)),
                operator: i.operator.clone(),
                right: Box::new(clone_expression(&i.right)),
            },
        ),
        Expression::If(c) => {
            let alternative = match &c.alternative {
                Some(b) => Some(clone_block(b)),
                None => None,
            };
            Expression::If(
                IfExpression {
                    token: c.token.clone(),
                    condition: Box::new(clone_expression(&c.condition)),
                    consequence: clone_block(&c.consequence),
                    alternative,
                },
            )
        },
        Expression::Function(f) => Expression::Function(
            FunctionLiteral {
                token: f.token.clone(),
                parameters: clone_identifiers(&f.parameters),
                body: clone_block(&f.body),
            },
        ),
        Expression::Call(c) => Expression::Call(
            CallExpression {
                token: c.token.clone(),
                function: Box::new(clone_expression(&c.function)),
                arguments: clone_expressions(&c.arguments),
            },
        ),
    }
}

/// A copy of a list of expressions.
pub(crate) fn clone_expressions(es: &Vec<Expression>) -> (r: Vec<Expression>)
    ensures
        exprs_view(r@) == exprs_view(es@),
    decreases es,
{
    let mut r: Vec<Expression> = Vec::new();
    let mut i: usize = 0;
    while i < es.len()
        invariant
            i <= es@.len(),
            r@.len() == i,
            forall|j: int| 0 <= j < i ==> r@[j]@ == es@[j]@,
        decreases es@.len() - i,
    {
        r.push(clone_expression(&es[i]));
        i += 1;
    }
    assert(exprs_view(r@) =~= exprs_view(es@));
    r
}

/// A copy of a statement.
pub(crate) fn clone_statement(s: &Statement) -> (r: Statement)
    ensures
        r@ == s@,
    decreases s,
{
    match s {
        Statement::Let(l) => Statement::Let(
            LetStatement {
                token: l.token.clone(),
                name: l.name.clone(),
                value: clone_expression(&l.value),
            },
        ),
        Statement::Return(r) => Statement::Return(
            ReturnStatement {
                token: r.token.clone(),
                return_value: clone_expression(&r.return_value),
            },
        ),
        Statement::Expression(e) => Statement::Expression(
            ExpressionStatement {
                token: e.token.clone(),
                expression: clone_expression(&e.expression),
            },
        ),
    }
}

/// A copy of a list of statements.
pub(crate) fn clone_statements(ss: &Vec<Statement>) -> (r: Vec<Statement>)
    ensures
        stmts_view(r@) == stmts_view(ss@),
    decreases ss,
{
    let mut r: Vec<Statement> = Vec::new();
    let mut i: usize = 0;
    while i < ss.len()
        invariant
            i <= ss@.len(),
            r@.len() == i,
            forall|j: int| 0 <= j < i ==> r@[j]@ == ss@[j]@,
        decreases ss@.len() - i,
    {
        r.push(clone_statement(&ss[i]));
        i += 1;
    }
    assert(stmts_view(r@) =~= stmts_view(ss@));
    r
}

/// A copy of a block.
pub(crate) fn clone_block(b: &BlockStatement) -> (r: BlockStatement)
    ensures
        r@ == b@,
    decreases b,
{
    BlockStatement { token: b.token.clone(), statements: clone_statements(&b.statements) }
}

impl Clone for Expression {
    fn clone(&self) -> (r: Self)
        ensures
            r@ == self@,
    {
        clone_expression(self)
    }
}

impl Clone for Statement {
    fn clone(&self) -> (r: Self)
        ensures
            r@ == self@,
    {
        clone_statement(self)
    }
}

impl Clone for BlockStatement {
    fn clone(&self) -> (r: Self)
        ensures
            r@ == self@,
    {
        clone_block(self)
    }
}

impl Clone for Program {
    fn clone(&self) -> (r: Self)
        ensures
            r@ == self@,
    {
        Program { statements: clone_statements(&self.statements) }
    }
}

/// The token with which an expression starts, or for an infix expression or
/// a call the token of its operator or opening parenthesis.
pub open spec fn expr_token(e: Expr) -> Token {
    match e {
        Expr::Identifier(n) => n.token,
        Expr::Integer { token, .. } => token,
        Expr::Boolean { token, .. } => token,
        Expr::Prefix { token, .. } => token,
        Expr::Infix { token, .. } => token,
        Expr::If { token, .. } => token,
        Expr::Function { token, .. } => token,
        Expr::Call { token, .. } => token,
    }
}

/// The token with which a statement starts.
pub open spec fn stmt_token(s: Stmt) -> Token {
    match s {
        Stmt::Let { token, .. } => token,
        Stmt::Return { token, .. } => token,
        Stmt::Expression { token, .. } => token,
    }
}

/// The first `n` names, separated by a comma and a space.
pub open spec fn names_text(names: Seq<Name>, n: nat) -> Seq<char>
    decreases n,
{
    if n == 0 || n > names.len() {
        Seq::empty()
    } else if n == 1 {
        names[0].value
    } else {
        names_text(names, (n - 1) as nat) + ", "@ + names[n - 1].value
    }
}

/// An expression written out, with every prefix and infix expression in
/// parentheses.
pub open spec fn expr_text(e: Expr) -> Seq<char>
    decreases e, 0nat,
{
    match e {
        Expr::Identifier(n) => n.value,
        Expr::Integer { value, .. } => int_text(value as int),
        Expr::Boolean { token, .. } => token_text(token),
        Expr::Prefix { operator, right, .. } => "("@ + operator + expr_text(*right) + ")"@,
        Expr::Infix { left, operator, right, .. } => "("@ + expr_text(*left) + " "@ + operator
            + " "@ + expr_text(*right) + ")"@,
        Expr::If { condition, consequence, alternative, .. } => {
            let head = "if "@ + expr_text(*condition) + " { "@ + block_text(consequence) + " }"@;
            match alternative {
                Some(b) => head + " else { "@ + block_text(b) + " }"@,
                None => head,
            }
        },
        Expr::Function { parameters, body, .. } => "fn("@ + names_text(
            parameters,
            parameters.len(),
        ) + ") "@ + block_text(body),
        Expr::Call { function, arguments, .. } => expr_text(*function) + "("@ + exprs_text(
            arguments,
            arguments.len(),
        ) + ")"@,
    }
}

/// The first `n` expressions written out, separated by a comma and a space.
pub open spec fn exprs_text(es: Seq<Expr>, n: nat) -> Seq<char>
    decreases es, n,
{
    if n == 0 || n > es.len() {
        Seq::empty()
    } else if n == 1 {
        expr_text(es[0])
    } else {
        exprs_text(es, (n - 1) as nat) + ", "@ + expr_text(es[n - 1])
    }
}

/// A statement written out.
pub open spec fn stmt_text(s: Stmt) -> Seq<char>
    decreases s, 0nat,
{
    match s {
        Stmt::Let { name, value, .. } => "let "@ + name.value + " = "@ + expr_text(value) + ";"@,
        Stmt::Return { value, .. } => "return "@ + expr_text(value) + ";"@,
        Stmt::Expression { expression, .. } => expr_text(expression),
    }
}

/// The first `n` statements written out one after the other.
pub open spec fn stmts_text(ss: Seq<Stmt>, n: nat) -> Seq<char>
    decreases ss, n,
{
    if n == 0 || n > ss.len() {
        Seq::empty()
    } else {
        stmts_text(ss, (n - 1) as nat) + stmt_text(ss[n - 1])
    }
}

/// A block written out: its statements one after the other.
pub open spec fn block_text(b: Block) -> Seq<char>
    decreases b, 0nat,
{
    stmts_text(b.statements, b.statements.len())
}

/// The names of a parameter list, separated by a comma and a space.
pub(crate) fn identifiers_string(names: &Vec<Identifier>) -> (s: String)
    ensures
        s@ == names_text(names_view(names@), names@.len()),
{
    let mut s = String::new();
    let mut i: usize = 0;
    while i < names.len()
        invariant
            i <= names@.len(),
            s@ == names_text(names_view(names@), i as nat),
        decreases names@.len() - i,
    {
        if i > 0 {
            s.append(", ");
        }
        s.append(names[i].value.as_str());
        i += 1;
        assert(s@ =~= names_text(names_view(names@), i as nat));
    }
    s
}

/// An expression written out, as [`expr_text`] defines it.
pub(crate) fn expression_string(e: &Expression) -> (s: String)
    ensures
        s@ == expr_text(e@),
    decreases e,
{
    match e {
        Expression::Identifier(n) => n.value.clone(),
        Expression::IntegerLiteral(i) => int_to_string(i.value),
        Expression::Boolean(b) => b.token.to_string(),
        Expression::Prefix(p) => {
            let mut s = "(".to_owned();
            s.append(p.operator.as_str());
            s.append(expression_string(&p.right).as_str());
            s.append(")");
            s
        },
        Expression::Infix(i) => {
            let mut s = "(".to_owned();
            s.append(expression_string(&i.left).as_str());
            s.append(" ");
            s.append(i.operator.as_str());
            s.append(" ");
            s.append(expression_string(&i.right).as_str());
            s.append(")");
            s
        },
        Expression::If(c) => {
            let mut s = "if ".to_owned();
            s.append(expression_string(&c.condition).as_str());
            s.append(" { ");
            s.append(block_string(&c.consequence).as_str());
            s.append(" }");
            match &c.alternative {
                Some(b) => {
                    s.append(" else { ");
                    s.append(block_string(b).as_str());
                    s.append(" }");
                },
                None => {},
            }
            s
        },
        Expression::Function(f) => {
            let mut s = "fn(".to_owned();
            s.append(identifiers_string(&f.parameters).as_str());
            s.append(") ");
            s.append(block_string(&f.body).as_str());
            s
        },
        Expression::Call(c) => {
            let mut s = expression_string(&c.function);
            s.append("(");
            s.append(expressions_string(&c.arguments).as_str());
            s.append(")");
            s
        },
    }
}

/// A list of expressions written out, separated by a comma and a space.
pub(crate) fn expressions_string(es: &Vec<Expression>) -> (s: String)
    ensures
        s@ == exprs_text(exprs_view(es@), es@.len()),
    decreases es,
{
    let mut s = String::new();
    let mut i: usize = 0;
    while i < es.len()
        invariant
            i <= es@.len(),
            s@ == exprs_text(exprs_view(es@), i as nat),
        decreases es@.len() - i,
    {
        if i > 0 {
            s.append(", ");
        }
        s.append(expression_string(&es[i]).as_str());
        i += 1;
        assert(s@ =~= exprs_text(exprs_view(es@), i as nat));
    }
    s
}

/// A statement written out, as [`stmt_text`] defines it.
pub(crate) fn statement_string(st: &Statement) -> (s: String)
    ensures
        s@ == stmt_text(st@),
    decreases st,
{
    match st {
        Statement::Let(l) => {
            let mut s = "let ".to_owned();
            s.append(l.name.value.as_str());
            s.append(" = ");
            s.append(expression_string(&l.value).as_str());
            s.append(";");
            s
        },
        Statement::Return(r) => {
            let mut s = "return ".to_owned();
            s.append(expression_string(&r.return_value).as_str());
            s.append(";");
            s
        },
        Statement::Expression(e) => expression_string(&e.expression),
    }
}

/// A list of statements written out one after the other.
pub(crate) fn statements_string(ss: &Vec<Statement>) -> (s: String)
    ensures
        s@ == stmts_text(stmts_view(ss@), ss@.len()),
    decreases ss,
{
    let mut s = String::new();
    let mut i: usize = 0;
    while i < ss.len()
        invariant
            i <= ss@.len(),
            s@ == stmts_text(stmts_view(ss@), i as nat),
        decreases ss@.len() - i,
    {
        s.append(statement_string(&ss[i]).as_str());
        i += 1;
        assert(s@ =~= stmts_text(stmts_view(ss@), i as nat));
    }
    s
}

/// A block written out, as [`block_text`] defines it.
pub(crate) fn block_string(b: &BlockStatement) -> (s: String)
    ensures
        s@ == block_text(b@),
    decreases b,
{
    statements_string(&b.statements)
}

/// What every node of the tree can tell of itself.
pub trait Node {
    /// The text of the token that the node keeps.
    spec fn literal(&self) -> Seq<char>;

    /// The node as source text.
    spec fn text(&self) -> Seq<char>;

    /// The text of the token that the node keeps.
    fn token_literal(&self) -> (s: String)
        ensures
            s@ == self.literal(),
    ;

    /// The node written out as source text.
    fn string(&self) -> (s: String)
        ensures
            s@ == self.text(),
    ;
}

impl Node for Expression {
    open spec fn literal(&self) -> Seq<char> {
        token_text(expr_token(self@))
    }

    open spec fn text(&self) -> Seq<char> {
        expr_text(self@)
    }

    fn token_literal(&self) -> (s: String) {
        match self {
            Expression::Identifier(e) => e.token.to_string(),
            Expression::IntegerLiteral(e) => e.token.to_string(),
            Expression::Boolean(e) => e.token.to_string(),
            Expression::Prefix(e) => e.token.to_string(),
            Expression::Infix(e) => e.token.to_string(),
            Expression::If(e) => e.token.to_string(),
            Expression::Function(e) => e.token.to_string(),
            Expression::Call(e) => e.token.to_string(),
        }
    }

    fn string(&self) -> (s: String) {
        expression_string(self)
    }
}

impl Node for Statement {
    open spec fn literal(&self) -> Seq<char> {
        token_text(stmt_token(self@))
    }

    open spec fn text(&self) -> Seq<char> {
        stmt_text(self@)
    }

    fn token_literal(&self) -> (s: String) {
        match self {
            Statement::Let(s) => s.token.to_string(),
            Statement::Return(s) => s.token.to_string(),
            Statement::Expression(s) => s.token.to_string(),
        }
    }

    fn string(&self) -> (s: String) {
        statement_string(self)
    }
}

impl Node for BlockStatement {
    open spec fn literal(&self) -> Seq<char> {
        token_text(self@.token)
    }

    open spec fn text(&self) -> Seq<char> {
        block_text(self@)
    }

    fn token_literal(&self) -> (s: String) {
        self.token.to_string()
    }

    fn string(&self) -> (s: String) {
        block_string(self)
    }
}

impl Node for Program {
    open spec fn literal(&self) -> Seq<char> {
        if self@.len() > 0 {
            token_text(stmt_token(self@[0]))
        } else {
            Seq::empty()
        }
    }

    open spec fn text(&self) -> Seq<char> {
        stmts_text(self@, self@.len())
    }

    fn token_literal(&self) -> (s: String) {
        if self.statements.len() > 0 {
            self.statements[0].token_literal()
        } else {
            String::new()
        }
    }

    fn string(&self) -> (s: String) {
        statements_string(&self.statements)
    }
}

} // verus!

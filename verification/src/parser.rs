use vstd::prelude::*;
use vstd::string::*;
use crate::ast::{
    exprs_view, names_view, stmts_view, BlockStatement, BooleanLiteral, CallExpression, Expr,
    Expression, ExpressionStatement, FunctionLiteral, Identifier, IfExpression, InfixExpression,
    IntegerLiteral, LetStatement, PrefixExpression, Program, ReturnStatement, Statement, Stmt,
};
use crate::grammar;
use crate::grammar::{
    advance, expected_message, is_infix_operator, lemma_advance, lemma_settled_bound,
    no_prefix_message, precedence_of, rank, remaining, settled, with_error, ParserState,
    Precedence,
};
use crate::lexer::{
    lemma_lexable_step, lemma_token_advances, lexable, token_at, token_fits, Lexer,
};
use crate::token::TokenType;

verus! {

/// The texts of a list of strings.
pub open spec fn texts(v: Seq<String>) -> Seq<Seq<char>> {
    v.map_values(|e: String| e@)
}

/// The value of an expression that may be missing.
pub open spec fn expr_opt(e: Option<Expression>) -> Option<Expr> {
    match e {
        Some(e) => Some(e@),
        None => None,
    }
}

/// The value of a statement that may be missing.
pub open spec fn stmt_opt(s: Option<Statement>) -> Option<Stmt> {
    match s {
        Some(s) => Some(s@),
        None => None,
    }
}

fn get_precedence(t: &TokenType) -> (level: Precedence)
    ensures
        level == precedence_of(t@),
{
    match t {
        TokenType::Eq | TokenType::NotEq => Precedence::Equals,
        TokenType::LT | TokenType::GT => Precedence::LessGreater,
        TokenType::Plus | TokenType::Minus => Precedence::Sum,
        TokenType::Slash | TokenType::Asterisk => Precedence::Product,
        TokenType::LParen => Precedence::Call,
        _ => Precedence::Lowest,
    }
}

fn level_number(level: Precedence) -> (n: u8)
    ensures
        n == rank(level),
{
    match level {
        Precedence::Lowest => 0,
        Precedence::Equals => 1,
        Precedence::LessGreater => 2,
        Precedence::Sum => 3,
        Precedence::Product => 4,
        Precedence::Prefix => 5,
        Precedence::Call => 6,
    }
}

/// A parser: a lexer, the current and the next token, and the errors
/// recorded so far.
pub struct Parser {
    l: Lexer,
    cur_token: TokenType,
    peek_token: TokenType,
    pub errors: Vec<String>,
}

impl View for Parser {
    type V = ParserState;

    closed spec fn view(&self) -> ParserState {
        ParserState {
            input: self.l.source(),
            pos: self.l.offset(),
            cur: self.cur_token@,
            peek: self.peek_token@,
            errors: texts(self.errors@),
        }
    }
}

impl Parser {
    /// Whether every token that is still to come can be held, so that the
    /// parser can read on to the end of the input.
    pub open spec fn ready(&self) -> bool {
        settled(self@) && lexable(self@.input, self@.pos)
    }

    /// A parser that reads from `l`. It takes the first two tokens, which
    /// therefore must be ones that can be held.
    pub fn new(l: Lexer) -> (p: Parser)
        requires
            token_fits(l.source(), l.offset()),
            token_fits(l.source(), token_at(l.source(), l.offset()).1),
        ensures
            p@ == grammar::start(l.source(), l.offset()),
            settled(p@),
    {
        proof {
            use_type_invariant(&l);
            l.lemma_in_bounds();
            grammar::lemma_start_settled(l.source(), l.offset());
        }
        let mut l = l;
        let cur = l.next_token();
        let peek = l.next_token();
        let p = Parser { l, cur_token: cur, peek_token: peek, errors: Vec::new() };
        assert(p@.errors =~= Seq::empty());
        p
    }

    /// The errors recorded so far, in the order in which they were met.
    pub fn recorded_errors(&self) -> (errors: &Vec<String>)
        ensures
            texts(errors@) == self@.errors,
    {
        &self.errors
    }

    fn next_token(&mut self)
        requires
            old(self).ready(),
        ensures
            final(self).ready(),
            final(self)@ == advance(old(self)@),
            remaining(final(self)@) <= remaining(old(self)@),
            !(old(self)@.cur is EOF) ==> remaining(final(self)@) < remaining(old(self)@),
    {
        proof {
            lemma_lexable_step(self.l.source(), self.l.offset());
            lemma_advance(self@);
        }
        self.cur_token = self.peek_token.clone();
        self.peek_token = self.l.next_token();
    }

    /// Reads the whole input as a program. A statement that fails to parse
    /// leaves an error behind and no statement, and the tokens up to the
    /// next statement boundary are passed over.
    pub fn parse_program(&mut self) -> (program: Program)
        requires
            old(self).ready(),
        ensures
            final(self).ready(),
            (final(self)@, program@) == grammar::parse_program(old(self)@),
    {
        let mut statements: Vec<Statement> = Vec::new();
        assert(stmts_view(statements@) =~= Seq::empty());
        while self.cur_token != TokenType::EOF
            invariant
                self.ready(),
                grammar::program_loop(self@, stmts_view(statements@)) == grammar::program_loop(
                    old(self)@,
                    Seq::empty(),
                ),
            decreases remaining(self@),
        {
            let ghost done = stmts_view(statements@);
            let parsed = self.parse_statement();
            match parsed {
                Some(statement) => {
                    statements.push(statement);
                },
                None => {
                    self.skip_statement();
                },
            }
            proof {
                assert(stmts_view(statements@) =~= grammar::push_some(done, stmt_opt(parsed)));
                lemma_settled_bound(self@);
            }
            self.next_token();
        }
        Program { statements }
    }

    /// Passes over the tokens up to the next semicolon outside braces.
    fn skip_statement(&mut self)
        requires
            old(self).ready(),
        ensures
            final(self).ready(),
            final(self)@ == grammar::recover(old(self)@, 0),
            remaining(final(self)@) <= remaining(old(self)@),
    {
        proof {
            use_type_invariant(&self.l);
            self.l.lemma_in_bounds();
            lemma_settled_bound(self@);
        }
        let mut depth: usize = 0;
        while !(self.cur_token == TokenType::EOF || (self.cur_token == TokenType::Semicolon
            && depth == 0))
            invariant
                self.ready(),
                grammar::recover(self@, depth as nat) == grammar::recover(old(self)@, 0),
                depth + remaining(self@) <= remaining(old(self)@) <= usize::MAX,
            decreases remaining(self@),
        {
            match self.cur_token {
                TokenType::LBrace => {
                    depth += 1;
                },
                TokenType::RBrace => {
                    if depth > 0 {
                        depth -= 1;
                    }
                },
                _ => {},
            }
            self.next_token();
        }
    }

    #[verifier::spinoff_prover]
    fn parse_statement(&mut self) -> (r: Option<Statement>)
        requires
            old(self).ready(),
        ensures
            final(self).ready(),
            (final(self)@, stmt_opt(r)) == grammar::parse_statement(old(self)@),
            remaining(final(self)@) <= remaining(old(self)@),
        decreases remaining(old(self)@), 7nat,
    {
        match self.cur_token {
            TokenType::Let => self.parse_let_statement(),
            TokenType::Return => self.parse_return_statement(),
            _ => self.parse_expression_statement(),
        }
    }

    fn parse_let_statement(&mut self) -> (r: Option<Statement>)
        requires
            old(self).ready(),
            old(self)@.cur is Let,
        ensures
            final(self).ready(),
            (final(self)@, stmt_opt(r)) == grammar::parse_let_statement(old(self)@),
            remaining(final(self)@) <= remaining(old(self)@),
        decreases remaining(old(self)@), 6nat,
    {
        let token = self.cur_token.clone();
        if !self.expect_peek_ident() {
            return None;
        }
        let name_val = match &self.cur_token {
            TokenType::Ident(s) => s.clone(),
            _ => {
                return None;
            },
        };
        let name = Identifier { token: self.cur_token.clone(), value: name_val };
        if !self.expect_peek(TokenType::Assign) {
            return None;
        }
        self.next_token();
        let value = match self.parse_expression(Precedence::Lowest) {
            Some(value) => value,
            None => {
                return None;
            },
        };
        if self.peek_token == TokenType::Semicolon {
            self.next_token();
        }
        Some(Statement::Let(LetStatement { token, name, value }))
    }

    fn parse_return_statement(&mut self) -> (r: Option<Statement>)
        requires
            old(self).ready(),
            old(self)@.cur is Return,
        ensures
            final(self).ready(),
            (final(self)@, stmt_opt(r)) == grammar::parse_return_statement(old(self)@),
            remaining(final(self)@) <= remaining(old(self)@),
        decreases remaining(old(self)@), 6nat,
    {
        let token = self.cur_token.clone();
        self.next_token();
        let return_value = match self.parse_expression(Precedence::Lowest) {
            Some(value) => value,
            None => {
                return None;
            },
        };
        if self.peek_token == TokenType::Semicolon {
            self.next_token();
        }
        Some(Statement::Return(ReturnStatement { token, return_value }))
    }

    fn parse_expression_statement(&mut self) -> (r: Option<Statement>)
        requires
            old(self).ready(),
        ensures
            final(self).ready(),
            (final(self)@, stmt_opt(r)) == grammar::parse_expression_statement(old(self)@),
            remaining(final(self)@) <= remaining(old(self)@),
        decreases remaining(old(self)@), 6nat,
    {
        let token = self.cur_token.clone();
        let expression = match self.parse_expression(Precedence::Lowest) {
            Some(expression) => expression,
            None => {
                return None;
            },
        };
        if self.peek_token == TokenType::Semicolon {
            self.next_token();
        }
        Some(Statement::Expression(ExpressionStatement { token, expression }))
    }

    fn parse_expression(&mut self, precedence: Precedence) -> (r: Option<Expression>)
        requires
            old(self).ready(),
        ensures
            final(self).ready(),
            (final(self)@, expr_opt(r)) == grammar::parse_expression(old(self)@, precedence),
            remaining(final(self)@) <= remaining(old(self)@),
        decreases remaining(old(self)@), 5nat,
    {
        let primary = match &self.cur_token {
            TokenType::Ident(_) => self.parse_identifier(),
            TokenType::Int(_) => self.parse_integer_literal(),
            TokenType::Bang | TokenType::Minus => self.parse_prefix_expression(),
            TokenType::LParen => self.parse_grouped_expression(),
            TokenType::If => self.parse_if_expression(),
            TokenType::Function => self.parse_function_literal(),
            TokenType::True | TokenType::False => self.parse_boolean(),
            _ => {
                self.no_prefix_parse_fn_error(self.cur_token.clone());
                return None;
            },
        };
        let mut left_exp = match primary {
            Some(left) => left,
            None => {
                return None;
            },
        };
        let ghost entry = self@;
        let ghost first = left_exp@;
        while self.peek_token != TokenType::Semicolon && level_number(precedence) < level_number(
            get_precedence(&self.peek_token),
        )
            invariant
                self.ready(),
                remaining(self@) <= remaining(old(self)@),
                grammar::parse_expression(old(self)@, precedence) == grammar::infix_loop(
                    entry,
                    precedence,
                    first,
                ),
                grammar::infix_loop(self@, precedence, left_exp@) == grammar::infix_loop(
                    entry,
                    precedence,
                    first,
                ),
            decreases remaining(self@),
        {
            match self.peek_token {
                TokenType::Plus
                | TokenType::Minus
                | TokenType::Slash
                | TokenType::Asterisk
                | TokenType::Eq
                | TokenType::NotEq
                | TokenType::LT
                | TokenType::GT => {
                    self.next_token();
                    left_exp = match self.parse_infix_expression(left_exp) {
                        Some(joined) => joined,
                        None => {
                            return None;
                        },
                    };
                },
                TokenType::LParen => {
                    self.next_token();
                    left_exp = match self.parse_call_expression(left_exp) {
                        Some(call) => call,
                        None => {
                            return None;
                        },
                    };
                },
                _ => {
                    return Some(left_exp);
                },
            }
        }
        Some(left_exp)
    }

    fn parse_identifier(&mut self) -> (r: Option<Expression>)
        ensures
            *final(self) == *old(self),
            expr_opt(r) == grammar::parse_identifier(old(self)@),
    {
        match &self.cur_token {
            TokenType::Ident(value) => Some(
                Expression::Identifier(
                    Identifier { token: self.cur_token.clone(), value: value.clone() },
                ),
            ),
            _ => None,
        }
    }

    fn parse_integer_literal(&mut self) -> (r: Option<Expression>)
        ensures
            *final(self) == *old(self),
            expr_opt(r) == grammar::parse_integer_literal(old(self)@),
    {
        match &self.cur_token {
            TokenType::Int(value) => Some(
                Expression::IntegerLiteral(
                    IntegerLiteral { token: self.cur_token.clone(), value: *value },
                ),
            ),
            _ => None,
        }
    }

    fn parse_boolean(&mut self) -> (r: Option<Expression>)
        ensures
            *final(self) == *old(self),
            expr_opt(r) == grammar::parse_boolean(old(self)@),
    {
        let token = self.cur_token.clone();
        let value = match token {
            TokenType::True => true,
            TokenType::False => false,
            _ => {
                return None;
            },
        };
        Some(Expression::Boolean(BooleanLiteral { token, value }))
    }

    fn parse_if_expression(&mut self) -> (r: Option<Expression>)
        requires
            old(self).ready(),
            old(self)@.cur is If,
        ensures
            final(self).ready(),
            (final(self)@, expr_opt(r)) == grammar::parse_if_expression(old(self)@),
            remaining(final(self)@) <= remaining(old(self)@),
        decreases remaining(old(self)@), 3nat,
    {
        let token = self.cur_token.clone();
        if !self.expect_peek(TokenType::LParen) {
            return None;
        }
        self.next_token();
        let condition = match self.parse_expression(Precedence::Lowest) {
            Some(condition) => condition,
            None => {
                return None;
            },
        };
        if !self.expect_peek(TokenType::RParen) {
            return None;
        }
        if !self.expect_peek(TokenType::LBrace) {
            return None;
        }
        let consequence = self.parse_block_statement();
        let mut alternative = None;
        if self.peek_token == TokenType::Else {
            self.next_token();
            if !self.expect_peek(TokenType::LBrace) {
                return None;
            }
            alternative = Some(self.parse_block_statement());
        }
        Some(
            Expression::If(
                IfExpression { token, condition: Box::new(condition), consequence, alternative },
            ),
        )
    }

    fn parse_block_statement(&mut self) -> (block: BlockStatement)
        requires
            old(self).ready(),
            old(self)@.cur is LBrace,
        ensures
            final(self).ready(),
            (final(self)@, block@) == grammar::parse_block_statement(old(self)@),
            remaining(final(self)@) < remaining(old(self)@),
        decreases remaining(old(self)@), 0nat,
    {
        let token = self.cur_token.clone();
        let mut statements: Vec<Statement> = Vec::new();
        proof {
            assert(stmts_view(statements@) =~= Seq::empty());
        }
        self.next_token();
        let ghost entry = self@;
        while self.cur_token != TokenType::RBrace && self.cur_token != TokenType::EOF
            invariant
                self.ready(),
                remaining(self@) < remaining(old(self)@),
                grammar::block_loop(self@, stmts_view(statements@)) == grammar::block_loop(
                    entry,
                    Seq::empty(),
                ),
            decreases remaining(self@),
        {
            let ghost done = stmts_view(statements@);
            let parsed = self.parse_statement();
            if let Some(statement) = parsed {
                statements.push(statement);
            }
            proof {
                assert(stmts_view(statements@) =~= grammar::push_some(done, stmt_opt(parsed)));
            }
            self.next_token();
        }
        BlockStatement { token, statements }
    }

    fn parse_prefix_expression(&mut self) -> (r: Option<Expression>)
        requires
            old(self).ready(),
            old(self)@.cur is Bang || old(self)@.cur is Minus,
        ensures
            final(self).ready(),
            (final(self)@, expr_opt(r)) == grammar::parse_prefix_expression(old(self)@),
            remaining(final(self)@) <= remaining(old(self)@),
        decreases remaining(old(self)@), 3nat,
    {
        let token = self.cur_token.clone();
        let operator = token.to_string();
        self.next_token();
        let right = match self.parse_expression(Precedence::Prefix) {
            Some(right) => right,
            None => {
                return None;
            },
        };
        Some(Expression::Prefix(PrefixExpression { token, operator, right: Box::new(right) }))
    }

    fn parse_grouped_expression(&mut self) -> (r: Option<Expression>)
        requires
            old(self).ready(),
            old(self)@.cur is LParen,
        ensures
            final(self).ready(),
            (final(self)@, expr_opt(r)) == grammar::parse_grouped_expression(old(self)@),
            remaining(final(self)@) <= remaining(old(self)@),
        decreases remaining(old(self)@), 3nat,
    {
        self.next_token();
        let exp = self.parse_expression(Precedence::Lowest);
        if !self.expect_peek(TokenType::RParen) {
            return None;
        }
        exp
    }

    fn parse_function_literal(&mut self) -> (r: Option<Expression>)
        requires
            old(self).ready(),
            old(self)@.cur is Function,
        ensures
            final(self).ready(),
            (final(self)@, expr_opt(r)) == grammar::parse_function_literal(old(self)@),
            remaining(final(self)@) <= remaining(old(self)@),
        decreases remaining(old(self)@), 3nat,
    {
        let token = self.cur_token.clone();
        if !self.expect_peek(TokenType::LParen) {
            return None;
        }
        let parameters = self.parse_function_parameters();
        if !self.expect_peek(TokenType::LBrace) {
            return None;
        }
        let body = self.parse_block_statement();
        Some(Expression::Function(FunctionLiteral { token, parameters, body }))
    }

    fn parse_infix_expression(&mut self, left: Expression) -> (r: Option<Expression>)
        requires
            old(self).ready(),
            is_infix_operator(old(self)@.cur),
        ensures
            final(self).ready(),
            (final(self)@, expr_opt(r)) == grammar::parse_infix_expression(old(self)@, left@),
            remaining(final(self)@) < remaining(old(self)@),
        decreases remaining(old(self)@), 1nat,
    {
        let token = self.cur_token.clone();
        let operator = token.to_string();
        let precedence = get_precedence(&self.cur_token);
        self.next_token();
        let right = match self.parse_expression(precedence) {
            Some(right) => right,
            None => {
                return None;
            },
        };
        Some(
            Expression::Infix(
                InfixExpression { token, left: Box::new(left), operator, right: Box::new(right) },
            ),
        )
    }

    fn expect_peek(&mut self, t: TokenType) -> (r: bool)
        requires
            old(self).ready(),
        ensures
            final(self).ready(),
            (final(self)@, r) == grammar::expect_peek(old(self)@, t@),
            remaining(final(self)@) <= remaining(old(self)@),
            r && !(old(self)@.cur is EOF) ==> remaining(final(self)@) < remaining(old(self)@),
    {
        if self.peek_token == t {
            self.next_token();
            true
        } else {
            self.peek_error(&t);
            false
        }
    }

    fn expect_peek_ident(&mut self) -> (r: bool)
        requires
            old(self).ready(),
        ensures
            final(self).ready(),
            (final(self)@, r) == grammar::expect_peek_ident(old(self)@),
            remaining(final(self)@) <= remaining(old(self)@),
            r && !(old(self)@.cur is EOF) ==> remaining(final(self)@) < remaining(old(self)@),
    {
        match self.peek_token {
            TokenType::Ident(_) => {
                self.next_token();
                true
            },
            _ => {
                let mut message = "Expected Ident, got ".to_owned();
                message.append(self.peek_token.debug_string().as_str());
                self.record(message);
                false
            },
        }
    }

    fn record(&mut self, message: String)
        ensures
            final(self)@ == with_error(old(self)@, message@),
            final(self).ready() == old(self).ready(),
    {
        self.errors.push(message);
        assert(texts(self.errors@) =~= texts(old(self).errors@).push(message@));
    }

    fn peek_error(&mut self, t: &TokenType)
        ensures
            final(self)@ == with_error(old(self)@, expected_message(t@, old(self)@.peek)),
            final(self).ready() == old(self).ready(),
    {
        let mut message = "Expected ".to_owned();
        message.append(t.debug_string().as_str());
        message.append(", got ");
        message.append(self.peek_token.debug_string().as_str());
        self.record(message);
    }

    fn no_prefix_parse_fn_error(&mut self, t: TokenType)
        ensures
            final(self)@ == with_error(old(self)@, no_prefix_message(t@)),
            final(self).ready() == old(self).ready(),
    {
        let mut message = "No prefix parse function for ".to_owned();
        message.append(t.debug_string().as_str());
        self.record(message);
    }

    fn parse_function_parameters(&mut self) -> (identifiers: Vec<Identifier>)
        requires
            old(self).ready(),
        ensures
            final(self).ready(),
            (final(self)@, names_view(identifiers@)) == grammar::parse_function_parameters(
                old(self)@,
            ),
            remaining(final(self)@) <= remaining(old(self)@),
    {
        let mut identifiers: Vec<Identifier> = Vec::new();
        proof {
            assert(names_view(identifiers@) =~= Seq::empty());
        }
        if self.peek_token == TokenType::RParen {
            self.next_token();
            return identifiers;
        }
        self.next_token();
        if let TokenType::Ident(value) = &self.cur_token {
            identifiers.push(Identifier { token: self.cur_token.clone(), value: value.clone() });
        }
        let ghost entry = self@;
        let ghost first = names_view(identifiers@);
        assert(first =~= grammar::with_current_name(entry, Seq::empty()));
        while self.peek_token == TokenType::Comma
            invariant
                self.ready(),
                remaining(self@) <= remaining(old(self)@),
                grammar::parameters_loop(self@, names_view(identifiers@))
                    == grammar::parameters_loop(entry, first),
            decreases remaining(self@),
        {
            let ghost names = names_view(identifiers@);
            self.next_token();
            self.next_token();
            if let TokenType::Ident(value) = &self.cur_token {
                identifiers.push(
                    Identifier { token: self.cur_token.clone(), value: value.clone() },
                );
            }
            assert(names_view(identifiers@) =~= grammar::with_current_name(self@, names));
        }
        if !self.expect_peek(TokenType::RParen) {
            let none: Vec<Identifier> = Vec::new();
            assert(names_view(none@) =~= Seq::empty());
            return none;
        }
        identifiers
    }

    fn parse_call_expression(&mut self, function: Expression) -> (r: Option<Expression>)
        requires
            old(self).ready(),
            old(self)@.cur is LParen,
        ensures
            final(self).ready(),
            (final(self)@, expr_opt(r)) == grammar::parse_call_expression(old(self)@, function@),
            remaining(final(self)@) < remaining(old(self)@),
        decreases remaining(old(self)@), 1nat,
    {
        let token = self.cur_token.clone();
        let arguments = self.parse_call_arguments();
        Some(Expression::Call(CallExpression { token, function: Box::new(function), arguments }))
    }

    fn parse_call_arguments(&mut self) -> (args: Vec<Expression>)
        requires
            old(self).ready(),
            old(self)@.cur is LParen,
        ensures
            final(self).ready(),
            (final(self)@, exprs_view(args@)) == grammar::parse_call_arguments(old(self)@),
            remaining(final(self)@) < remaining(old(self)@),
        decreases remaining(old(self)@), 0nat,
    {
        let mut args: Vec<Expression> = Vec::new();
        proof {
            assert(exprs_view(args@) =~= Seq::empty());
        }
        if self.peek_token == TokenType::RParen {
            self.next_token();
            return args;
        }
        self.next_token();
        let parsed = self.parse_expression(Precedence::Lowest);
        if let Some(arg) = parsed {
            args.push(arg);
        }
        let ghost entry = self@;
        let ghost first = exprs_view(args@);
        assert(first =~= grammar::push_some(Seq::empty(), expr_opt(parsed)));
        while self.peek_token == TokenType::Comma
            invariant
                self.ready(),
                remaining(self@) < remaining(old(self)@),
                grammar::arguments_loop(self@, exprs_view(args@)) == grammar::arguments_loop(
                    entry,
                    first,
                ),
            decreases remaining(self@),
        {
            let ghost done = exprs_view(args@);
            self.next_token();
            self.next_token();
            let parsed = self.parse_expression(Precedence::Lowest);
            if let Some(arg) = parsed {
                args.push(arg);
            }
            assert(exprs_view(args@) =~= grammar::push_some(done, expr_opt(parsed)));
        }
        if !self.expect_peek(TokenType::RParen) {
            let none: Vec<Expression> = Vec::new();
            assert(exprs_view(none@) =~= Seq::empty());
            return none;
        }
        args
    }
}

/// Parses a source text: the program it holds, and the errors met on the
/// way, in the order in which they were met.
///
/// Returns `None` when the text holds an integer literal that no `i64`
/// holds.
pub fn parse(input: String) -> (r: Option<(Program, Vec<String>)>)
    ensures
        match r {
            Some((program, errors)) => lexable(input@, 0) && (program@, texts(errors@))
                == grammar::parse_source(input@),
            None => !lexable(input@, 0),
        },
{
    let lexer = Lexer::new(input);
    if !lexer.fits_to_end() {
        return None;
    }
    proof {
        let first = token_at(input@, 0).1;
        lemma_token_advances(input@, 0);
        lemma_token_advances(input@, first);
        lemma_lexable_step(input@, 0);
        lemma_lexable_step(input@, first);
    }
    let mut parser = Parser::new(lexer);
    let program = parser.parse_program();
    Some((program, parser.errors))
}

} // verus!

use vstd::prelude::*;
use crate::ast::{Block, Expr, Name, Stmt};
use crate::lexer::{lemma_token_advances, token_at};
use crate::token::{token_debug_text, token_text, Token};

verus! {

/// The binding powers of the grammar, from the loosest to the tightest.
#[derive(Debug, Clone, Copy, PartialEq, Eq)]
pub enum Precedence {
    Lowest,
    Equals,
    LessGreater,
    Sum,
    Product,
    Prefix,
    Call,
}

/// The place of a binding power in the order: a greater rank binds tighter.
pub open spec fn rank(level: Precedence) -> int {
    match level {
        Precedence::Lowest => 0,
        Precedence::Equals => 1,
        Precedence::LessGreater => 2,
        Precedence::Sum => 3,
        Precedence::Product => 4,
        Precedence::Prefix => 5,
        Precedence::Call => 6,
    }
}

/// The binding power of a token where an infix operator is expected.
pub open spec fn precedence_of(t: Token) -> Precedence {
    match t {
        Token::Eq | Token::NotEq => Precedence::Equals,
        Token::LT | Token::GT => Precedence::LessGreater,
        Token::Plus | Token::Minus => Precedence::Sum,
        Token::Slash | Token::Asterisk => Precedence::Product,
        Token::LParen => Precedence::Call,
        _ => Precedence::Lowest,
    }
}

/// Whether a token is one of the eight binary operators.
pub open spec fn is_infix_operator(t: Token) -> bool {
    t is Plus || t is Minus || t is Slash || t is Asterisk || t is Eq || t is NotEq || t is LT
        || t is GT
}

/// The mathematical state of a parser: the input, the position that the
/// lexer has reached in it, the current and the next token, and the errors
/// recorded so far.
pub struct ParserState {
    pub input: Seq<char>,
    pub pos: int,
    pub cur: Token,
    pub peek: Token,
    pub errors: Seq<Seq<char>>,
}

/// The state of a parser that has just been made for a lexer at `pos` in
/// `input`: it has taken two tokens.
pub open spec fn start(input: Seq<char>, pos: int) -> ParserState {
    let (cur, after_first) = token_at(input, pos);
    let (peek, after_second) = token_at(input, after_first);
    ParserState { input, pos: after_second, cur, peek, errors: Seq::empty() }
}

/// The state after one token more has been taken from the lexer.
pub open spec fn advance(s: ParserState) -> ParserState {
    let (token, pos) = token_at(s.input, s.pos);
    ParserState { input: s.input, pos, cur: s.peek, peek: token, errors: s.errors }
}

/// The state after `message` has been recorded.
pub open spec fn with_error(s: ParserState, message: Seq<char>) -> ParserState {
    ParserState {
        input: s.input,
        pos: s.pos,
        cur: s.cur,
        peek: s.peek,
        errors: s.errors.push(message),
    }
}

/// A bound on the tokens that are still to come, the current one included.
/// Taking a token never raises it, and lowers it unless the current token
/// is `EOF`.
///
/// The grammar below recurs on this bound. Where one of its functions goes
/// on from a state that another one has returned, it first compares the
/// bounds of the two states, and stops where nothing was taken. From a
/// settled state that never happens: parsing never gives a token back, as the
/// module `progress` shows.
pub open spec fn remaining(s: ParserState) -> nat {
    let chars: nat = if s.pos < s.input.len() {
        (s.input.len() - s.pos) as nat
    } else {
        0
    };
    let peek: nat = if s.peek is EOF {
        0
    } else {
        1
    };
    let cur: nat = if s.cur is EOF {
        0
    } else {
        1
    };
    chars + peek + cur
}

/// The message for a token that was expected and not found.
pub open spec fn expected_message(want: Token, got: Token) -> Seq<char> {
    "Expected "@ + token_debug_text(want) + ", got "@ + token_debug_text(got)
}

/// The message for a missing identifier.
pub open spec fn expected_ident_message(got: Token) -> Seq<char> {
    "Expected Ident, got "@ + token_debug_text(got)
}

/// The message for a token with which no expression starts.
pub open spec fn no_prefix_message(t: Token) -> Seq<char> {
    "No prefix parse function for "@ + token_debug_text(t)
}

/// Takes the next token if it is `want`; records an error and stays if not.
pub open spec fn expect_peek(s: ParserState, want: Token) -> (ParserState, bool) {
    if s.peek == want {
        (advance(s), true)
    } else {
        (with_error(s, expected_message(want, s.peek)), false)
    }
}

/// Takes the next token if it is an identifier; records an error and stays
/// if not.
pub open spec fn expect_peek_ident(s: ParserState) -> (ParserState, bool) {
    if s.peek is Ident {
        (advance(s), true)
    } else {
        (with_error(s, expected_ident_message(s.peek)), false)
    }
}

/// Takes the next token if it is a semicolon.
pub open spec fn skip_semicolon(s: ParserState) -> ParserState {
    if s.peek is Semicolon {
        advance(s)
    } else {
        s
    }
}

/// The identifier that the current token is, if it is one.
pub open spec fn current_name(s: ParserState) -> Option<Name> {
    match s.cur {
        Token::Ident(name) => Some(Name { token: s.cur, value: name }),
        _ => None,
    }
}

/// `names` with the current token added, if that is an identifier.
pub open spec fn with_current_name(s: ParserState, names: Seq<Name>) -> Seq<Name> {
    match current_name(s) {
        Some(name) => names.push(name),
        None => names,
    }
}

/// The rest of a parameter list after its first name: for every comma, the
/// token after it, kept if it is an identifier.
pub open spec fn parameters_loop(s: ParserState, names: Seq<Name>) -> (ParserState, Seq<Name>)
    decreases remaining(s),
{
    if s.peek is Comma {
        let next = advance(advance(s));
        proof {
            lemma_advance(s);
            lemma_advance(advance(s));
        }
        parameters_loop(next, with_current_name(next, names))
    } else {
        (s, names)
    }
}

/// The parameter list of a function literal, from its opening parenthesis
/// to its closing one. A list that does not close is an error and empty.
pub open spec fn parse_function_parameters(s: ParserState) -> (ParserState, Seq<Name>) {
    if s.peek is RParen {
        (advance(s), Seq::empty())
    } else {
        let first = advance(s);
        let (s1, names) = parameters_loop(first, with_current_name(first, Seq::empty()));
        let (s2, closed) = expect_peek(s1, Token::RParen);
        if closed {
            (s2, names)
        } else {
            (s2, Seq::empty())
        }
    }
}

/// `items` with `item` added, if there is one.
pub open spec fn push_some<T>(items: Seq<T>, item: Option<T>) -> Seq<T> {
    match item {
        Some(x) => items.push(x),
        None => items,
    }
}

/// The nesting of braces after the token `t` has been passed over at
/// nesting `depth`.
pub open spec fn depth_after(t: Token, depth: nat) -> nat {
    match t {
        Token::LBrace => depth + 1,
        Token::RBrace => if depth > 0 {
            (depth - 1) as nat
        } else {
            0
        },
        _ => depth,
    }
}

/// The state in which parsing resumes after a statement of the program has
/// failed: the tokens up to the next semicolon that stands outside braces
/// are passed over, or all of them if there is none. `depth` counts the
/// braces that are open among the tokens passed over so far.
pub open spec fn recover(s: ParserState, depth: nat) -> ParserState
    decreases remaining(s),
{
    if s.cur is EOF || (s.cur is Semicolon && depth == 0) {
        s
    } else {
        proof {
            lemma_advance(s);
        }
        recover(advance(s), depth_after(s.cur, depth))
    }
}

/// The state after a statement of the program: where it ended if it parsed,
/// at the next statement boundary if it failed.
pub open spec fn after_statement(s: ParserState, statement: Option<Stmt>) -> ParserState {
    match statement {
        Some(_) => s,
        None => recover(s, 0),
    }
}

/// The statements of a program: one statement after the other up to the end
/// of the input. A statement that fails to parse is left out, and parsing
/// resumes at the next statement boundary.
pub open spec fn program_loop(s: ParserState, done: Seq<Stmt>) -> (ParserState, Seq<Stmt>)
    decreases remaining(s), 8nat,
{
    if s.cur is EOF {
        (s, done)
    } else {
        let (s1, statement) = parse_statement(s);
        let next = advance(after_statement(s1, statement));
        if remaining(next) < remaining(s) {
            program_loop(next, push_some(done, statement))
        } else {
            (next, push_some(done, statement))
        }
    }
}

/// The statements of a block up to its closing brace or the end of the
/// input, a statement that fails to parse left out.
pub open spec fn block_loop(s: ParserState, done: Seq<Stmt>) -> (ParserState, Seq<Stmt>)
    decreases remaining(s), 8nat,
{
    if s.cur is RBrace || s.cur is EOF {
        (s, done)
    } else {
        let (s1, statement) = parse_statement(s);
        let next = advance(s1);
        if remaining(next) < remaining(s) {
            block_loop(next, push_some(done, statement))
        } else {
            (next, push_some(done, statement))
        }
    }
}

/// A block, from its opening brace on.
pub open spec fn parse_block_statement(s: ParserState) -> (ParserState, Block)
    decreases remaining(s), 0nat,
{
    let first = advance(s);
    if remaining(first) < remaining(s) {
        let (s1, statements) = block_loop(first, Seq::empty());
        (s1, Block { token: s.cur, statements })
    } else {
        (first, Block { token: s.cur, statements: Seq::empty() })
    }
}

/// One statement: a `let`, a `return`, or an expression.
pub open spec fn parse_statement(s: ParserState) -> (ParserState, Option<Stmt>)
    decreases remaining(s), 7nat,
{
    match s.cur {
        Token::Let => parse_let_statement(s),
        Token::Return => parse_return_statement(s),
        _ => parse_expression_statement(s),
    }
}

/// `let`, a name, `=`, an expression, and a semicolon if one follows.
pub open spec fn parse_let_statement(s: ParserState) -> (ParserState, Option<Stmt>)
    decreases remaining(s), 6nat,
{
    let (s1, named) = expect_peek_ident(s);
    if !named || current_name(s1) is None {
        (s1, None)
    } else {
        let (s2, assigned) = expect_peek(s1, Token::Assign);
        if !assigned {
            (s2, None)
        } else {
            let s3 = advance(s2);
            if remaining(s3) < remaining(s) {
                let (s4, value) = parse_expression(s3, Precedence::Lowest);
                match value {
                    Some(value) => (
                        skip_semicolon(s4),
                        Some(Stmt::Let { token: s.cur, name: current_name(s1)->0, value }),
                    ),
                    None => (s4, None),
                }
            } else {
                (s3, None)
            }
        }
    }
}

/// `return`, an expression, and a semicolon if one follows.
pub open spec fn parse_return_statement(s: ParserState) -> (ParserState, Option<Stmt>)
    decreases remaining(s), 6nat,
{
    let s1 = advance(s);
    if remaining(s1) < remaining(s) {
        let (s2, value) = parse_expression(s1, Precedence::Lowest);
        match value {
            Some(value) => (skip_semicolon(s2), Some(Stmt::Return { token: s.cur, value })),
            None => (s2, None),
        }
    } else {
        (s1, None)
    }
}

/// An expression, and a semicolon if one follows.
pub open spec fn parse_expression_statement(s: ParserState) -> (ParserState, Option<Stmt>)
    decreases remaining(s), 6nat,
{
    let (s1, expression) = parse_expression(s, Precedence::Lowest);
    match expression {
        Some(expression) => (
            skip_semicolon(s1),
            Some(Stmt::Expression { token: s.cur, expression }),
        ),
        None => (s1, None),
    }
}

/// An expression that binds tighter than `level`: a primary form, then every
/// infix operator and call that follows and binds tighter than `level`.
/// No expression comes back where a part of it fails to parse.
pub open spec fn parse_expression(s: ParserState, level: Precedence) -> (
    ParserState,
    Option<Expr>,
)
    decreases remaining(s), 5nat,
{
    let (s1, left) = parse_primary(s);
    match left {
        Some(left) => if remaining(s1) <= remaining(s) {
            infix_loop(s1, level, left)
        } else {
            (s1, None)
        },
        None => (s1, None),
    }
}

/// The form that the current token starts: a name, a literal, a prefix
/// operator with its operand, a parenthesised expression, a conditional, or
/// a function literal. Any other token is an error.
pub open spec fn parse_primary(s: ParserState) -> (ParserState, Option<Expr>)
    decreases remaining(s), 4nat,
{
    match s.cur {
        Token::Ident(_) => (s, parse_identifier(s)),
        Token::Int(_) => (s, parse_integer_literal(s)),
        Token::Bang | Token::Minus => parse_prefix_expression(s),
        Token::LParen => parse_grouped_expression(s),
        Token::If => parse_if_expression(s),
        Token::Function => parse_function_literal(s),
        Token::True | Token::False => (s, parse_boolean(s)),
        _ => (with_error(s, no_prefix_message(s.cur)), None),
    }
}

/// The current token as a name.
pub open spec fn parse_identifier(s: ParserState) -> Option<Expr> {
    match current_name(s) {
        Some(name) => Some(Expr::Identifier(name)),
        None => None,
    }
}

/// The current token as an integer literal.
pub open spec fn parse_integer_literal(s: ParserState) -> Option<Expr> {
    match s.cur {
        Token::Int(value) => Some(Expr::Integer { token: s.cur, value }),
        _ => None,
    }
}

/// The current token as a boolean literal.
pub open spec fn parse_boolean(s: ParserState) -> Option<Expr> {
    match s.cur {
        Token::True => Some(Expr::Boolean { token: s.cur, value: true }),
        Token::False => Some(Expr::Boolean { token: s.cur, value: false }),
        _ => None,
    }
}

/// A prefix operator and its operand, which binds as tightly as a prefix.
pub open spec fn parse_prefix_expression(s: ParserState) -> (ParserState, Option<Expr>)
    decreases remaining(s), 3nat,
{
    let s1 = advance(s);
    if remaining(s1) < remaining(s) {
        let (s2, right) = parse_expression(s1, Precedence::Prefix);
        match right {
            Some(right) => (
                s2,
                Some(
                    Expr::Prefix {
                        token: s.cur,
                        operator: token_text(s.cur),
                        right: Box::new(right),
                    },
                ),
            ),
            None => (s2, None),
        }
    } else {
        (s1, None)
    }
}

/// An expression between parentheses, which leave no node of their own.
pub open spec fn parse_grouped_expression(s: ParserState) -> (ParserState, Option<Expr>)
    decreases remaining(s), 3nat,
{
    let s1 = advance(s);
    if remaining(s1) < remaining(s) {
        let (s2, inner) = parse_expression(s1, Precedence::Lowest);
        let (s3, closed) = expect_peek(s2, Token::RParen);
        if closed {
            (s3, inner)
        } else {
            (s3, None)
        }
    } else {
        (s1, None)
    }
}

/// `if (condition) { consequence }`, and `else { alternative }` if an `else`
/// follows. The parentheses and the braces must be there.
pub open spec fn parse_if_expression(s: ParserState) -> (ParserState, Option<Expr>)
    decreases remaining(s), 3nat,
{
    let (s1, opened) = expect_peek(s, Token::LParen);
    if !opened {
        (s1, None)
    } else {
        let s2 = advance(s1);
        if !(remaining(s2) < remaining(s)) {
            (s2, None)
        } else {
            let (s3, condition) = parse_expression(s2, Precedence::Lowest);
            match condition {
                None => (s3, None),
                Some(condition) => {
                    let (s4, closed) = expect_peek(s3, Token::RParen);
                    if !closed {
                        (s4, None)
                    } else {
                        let (s5, braced) = expect_peek(s4, Token::LBrace);
                        if !braced || !(remaining(s5) < remaining(s)) {
                            (s5, None)
                        } else {
                            let (s6, consequence) = parse_block_statement(s5);
                            if !(s6.peek is Else) {
                                (
                                    s6,
                                    Some(
                                        Expr::If {
                                            token: s.cur,
                                            condition: Box::new(condition),
                                            consequence,
                                            alternative: None,
                                        },
                                    ),
                                )
                            } else {
                                let (s7, braced) = expect_peek(advance(s6), Token::LBrace);
                                if !braced || !(remaining(s7) < remaining(s)) {
                                    (s7, None)
                                } else {
                                    let (s8, alternative) = parse_block_statement(s7);
                                    (
                                        s8,
                                        Some(
                                            Expr::If {
                                                token: s.cur,
                                                condition: Box::new(condition),
                                                consequence,
                                                alternative: Some(alternative),
                                            },
                                        ),
                                    )
                                }
                            }
                        }
                    }
                },
            }
        }
    }
}

/// `fn`, a parameter list between parentheses, and a body between braces.
pub open spec fn parse_function_literal(s: ParserState) -> (ParserState, Option<Expr>)
    decreases remaining(s), 3nat,
{
    let (s1, opened) = expect_peek(s, Token::LParen);
    if !opened {
        (s1, None)
    } else {
        let (s2, parameters) = parse_function_parameters(s1);
        let (s3, braced) = expect_peek(s2, Token::LBrace);
        if !braced || !(remaining(s3) < remaining(s)) {
            (s3, None)
        } else {
            let (s4, body) = parse_block_statement(s3);
            (s4, Some(Expr::Function { token: s.cur, parameters, body }))
        }
    }
}

/// What follows a left operand: as long as the next token is no semicolon
/// and binds tighter than `level`, it is taken as an infix operator or as
/// the opening parenthesis of a call, and the expression so made becomes
/// the left operand of what follows.
pub open spec fn infix_loop(s: ParserState, level: Precedence, left: Expr) -> (
    ParserState,
    Option<Expr>,
)
    decreases remaining(s), 2nat,
{
    if !(s.peek is Semicolon) && rank(level) < rank(precedence_of(s.peek)) {
        let s1 = advance(s);
        proof {
            lemma_advance(s);
        }
        if is_infix_operator(s.peek) {
            let (s2, joined) = parse_infix_expression(s1, left);
            match joined {
                Some(joined) => if remaining(s2) < remaining(s) {
                    infix_loop(s2, level, joined)
                } else {
                    (s2, None)
                },
                None => (s2, None),
            }
        } else if s.peek is LParen {
            let (s2, call) = parse_call_expression(s1, left);
            match call {
                Some(call) => if remaining(s2) < remaining(s) {
                    infix_loop(s2, level, call)
                } else {
                    (s2, None)
                },
                None => (s2, None),
            }
        } else {
            (s, Some(left))
        }
    } else {
        (s, Some(left))
    }
}

/// An infix operator, which is the current token, and its right operand,
/// which binds tighter than the operator: so operators of one binding power
/// group to the left.
pub open spec fn parse_infix_expression(s: ParserState, left: Expr) -> (
    ParserState,
    Option<Expr>,
)
    decreases remaining(s), 1nat,
{
    let s1 = advance(s);
    if remaining(s1) < remaining(s) {
        let (s2, right) = parse_expression(s1, precedence_of(s.cur));
        match right {
            Some(right) => (
                s2,
                Some(
                    Expr::Infix {
                        token: s.cur,
                        left: Box::new(left),
                        operator: token_text(s.cur),
                        right: Box::new(right),
                    },
                ),
            ),
            None => (s2, None),
        }
    } else {
        (s1, None)
    }
}

/// A call of `function`, whose opening parenthesis is the current token.
pub open spec fn parse_call_expression(s: ParserState, function: Expr) -> (
    ParserState,
    Option<Expr>,
)
    decreases remaining(s), 1nat,
{
    let (s1, arguments) = parse_call_arguments(s);
    (s1, Some(Expr::Call { token: s.cur, function: Box::new(function), arguments }))
}

/// The arguments of a call up to its closing parenthesis, an argument that
/// fails to parse left out. A list that does not close is an error and
/// empty.
pub open spec fn parse_call_arguments(s: ParserState) -> (ParserState, Seq<Expr>)
    decreases remaining(s), 0nat,
{
    if s.peek is RParen {
        (advance(s), Seq::empty())
    } else {
        let s1 = advance(s);
        if !(remaining(s1) < remaining(s)) {
            (s1, Seq::empty())
        } else {
            let (s2, first) = parse_expression(s1, Precedence::Lowest);
            if !(remaining(s2) < remaining(s)) {
                (s2, Seq::empty())
            } else {
                let (s3, arguments) = arguments_loop(s2, push_some(Seq::empty(), first));
                let (s4, closed) = expect_peek(s3, Token::RParen);
                if closed {
                    (s4, arguments)
                } else {
                    (s4, Seq::empty())
                }
            }
        }
    }
}

/// The rest of an argument list after its first argument: for every comma,
/// the expression after it.
pub open spec fn arguments_loop(s: ParserState, done: Seq<Expr>) -> (ParserState, Seq<Expr>)
    decreases remaining(s), 8nat,
{
    if s.peek is Comma {
        let s1 = advance(advance(s));
        proof {
            lemma_advance(s);
            lemma_advance(advance(s));
        }
        let (s2, argument) = parse_expression(s1, Precedence::Lowest);
        if remaining(s2) < remaining(s) {
            arguments_loop(s2, push_some(done, argument))
        } else {
            (s2, push_some(done, argument))
        }
    } else {
        (s, done)
    }
}

/// The program that a parser in state `s` reads, and the state it ends in.
pub open spec fn parse_program(s: ParserState) -> (ParserState, Seq<Stmt>) {
    program_loop(s, Seq::empty())
}

/// What parsing a whole source text gives: the program, and the errors met
/// on the way in the order in which they were met.
pub open spec fn parse_source(input: Seq<char>) -> (Seq<Stmt>, Seq<Seq<char>>) {
    let (end, statements) = parse_program(start(input, 0));
    (statements, end.errors)
}

/// Whether the two tokens of a state agree with its position: after an
/// `EOF` comes nothing but `EOF`.
pub open spec fn settled(s: ParserState) -> bool {
    &&& 0 <= s.pos <= s.input.len()
    &&& s.cur is EOF ==> s.peek is EOF
    &&& s.peek is EOF ==> s.pos == s.input.len()
    &&& !(s.peek is EOF) ==> s.pos >= 1
    &&& !(s.cur is EOF) ==> s.pos >= 2 || (s.peek is EOF && s.pos >= 1)
}

/// Taking a token never raises [`remaining`], and lowers it unless the
/// current token is `EOF`.
pub proof fn lemma_advance(s: ParserState)
    ensures
        remaining(advance(s)) <= remaining(s),
        !(s.cur is EOF) ==> remaining(advance(s)) < remaining(s),
        advance(s).input == s.input,
        advance(s).errors == s.errors,
        advance(s).cur == s.peek,
        settled(s) ==> settled(advance(s)),
{
    if 0 <= s.pos <= s.input.len() {
        lemma_token_advances(s.input, s.pos);
    } else {
        reveal(token_at);
    }
}

/// A parser that has just been made is settled.
pub proof fn lemma_start_settled(input: Seq<char>, pos: int)
    requires
        0 <= pos <= input.len(),
    ensures
        settled(start(input, pos)),
{
    lemma_token_advances(input, pos);
    lemma_token_advances(input, token_at(input, pos).1);
}

/// In a settled state no more tokens are left than the input has
/// characters, and none once the current token is `EOF`.
pub proof fn lemma_settled_bound(s: ParserState)
    requires
        settled(s),
    ensures
        remaining(s) <= s.input.len(),
        s.cur is EOF ==> remaining(s) == 0,
{
}

} // verus!

use vstd::prelude::*;
use crate::ast::{Expr, Name, Stmt};
use crate::grammar::{
    advance, after_statement, arguments_loop, block_loop, current_name, depth_after, expect_peek,
    expect_peek_ident, infix_loop, is_infix_operator, lemma_advance, lemma_settled_bound,
    parameters_loop, parse_block_statement, parse_call_arguments,
    parse_call_expression, parse_expression, parse_expression_statement,
    parse_function_literal, parse_function_parameters, parse_grouped_expression,
    parse_if_expression, parse_infix_expression, parse_let_statement, parse_prefix_expression,
    parse_primary, parse_program, parse_return_statement, parse_statement, precedence_of,
    program_loop, push_some, rank, recover, remaining, settled, skip_semicolon,
    with_current_name, ParserState, Precedence,
};
use crate::token::Token;

verus! {

/// Whether `after` is a state that a parser can be in later than `before`:
/// it reads the same input, no token has been given back, the errors of
/// `before` are still there in their order, and if `before` was settled so
/// is `after`.
pub open spec fn follows(after: ParserState, before: ParserState) -> bool {
    &&& after.input == before.input
    &&& remaining(after) <= remaining(before)
    &&& settled(before) ==> settled(after)
    &&& before.errors.len() <= after.errors.len()
    &&& forall|i: int| 0 <= i < before.errors.len() ==> after.errors[i] == before.errors[i]
}

proof fn lemma_follows_advance(s: ParserState)
    ensures
        follows(advance(s), s),
        !(s.cur is EOF) ==> remaining(advance(s)) < remaining(s),
{
    lemma_advance(s);
}

proof fn lemma_follows_expect(s: ParserState, want: Token)
    ensures
        follows(expect_peek(s, want).0, s),
        follows(expect_peek_ident(s).0, s),
        follows(skip_semicolon(s), s),
        !(s.cur is EOF) && expect_peek(s, want).1 ==> remaining(expect_peek(s, want).0)
            < remaining(s),
        !(s.cur is EOF) && expect_peek_ident(s).1 ==> remaining(expect_peek_ident(s).0)
            < remaining(s),
        expect_peek(s, want).1 ==> expect_peek(s, want).0.cur == want,
        !expect_peek(s, want).1 ==> expect_peek(s, want).0.errors.len() > s.errors.len(),
        !expect_peek_ident(s).1 ==> expect_peek_ident(s).0.errors.len() > s.errors.len(),
{
    lemma_advance(s);
}

proof fn lemma_follows_recover(s: ParserState, depth: nat)
    ensures
        follows(recover(s, depth), s),
    decreases remaining(s),
{
    if !(s.cur is EOF || (s.cur is Semicolon && depth == 0)) {
        lemma_advance(s);
        lemma_follows_recover(advance(s), depth_after(s.cur, depth));
    }
}

proof fn lemma_follows_parameters_loop(s: ParserState, names: Seq<Name>)
    ensures
        follows(parameters_loop(s, names).0, s),
    decreases remaining(s),
{
    if s.peek is Comma {
        lemma_advance(s);
        lemma_advance(advance(s));
        let next = advance(advance(s));
        lemma_follows_parameters_loop(next, with_current_name(next, names));
    }
}

proof fn lemma_follows_parameters(s: ParserState)
    ensures
        follows(parse_function_parameters(s).0, s),
{
    lemma_advance(s);
    if !(s.peek is RParen) {
        let first = advance(s);
        lemma_follows_parameters_loop(
            first,
            with_current_name(first, Seq::empty()),
        );
        let s1 = parameters_loop(first, with_current_name(first, Seq::empty())).0;
        lemma_follows_expect(s1, Token::RParen);
    }
}

/// A program is read without giving back a token or losing an error, and
/// its statements come one after the other: from a settled state that is
/// not at the end of the input, a statement and the token after it are
/// taken, and the rest of the program is read from there.
pub proof fn lemma_program_loop(s: ParserState, done: Seq<Stmt>)
    requires
        settled(s),
    ensures
        follows(program_loop(s, done).0, s),
        program_loop(s, done).0.cur is EOF,
        !(s.cur is EOF) ==> program_loop(s, done) == program_loop(
            advance(after_statement(parse_statement(s).0, parse_statement(s).1)),
            push_some(done, parse_statement(s).1),
        ),
    decreases remaining(s), 8nat,
{
    if !(s.cur is EOF) {
        lemma_parse_statement(s);
        let (s1, statement) = parse_statement(s);
        lemma_follows_recover(s1, 0);
        let s2 = after_statement(s1, statement);
        lemma_follows_advance(s2);
        lemma_settled_bound(s2);
        let next = advance(s2);
        lemma_program_loop(next, push_some(done, statement));
    }
}

/// The whole program is read up to the end of the input, without losing an
/// error that was there before.
pub proof fn lemma_parse_program(s: ParserState)
    requires
        settled(s),
    ensures
        follows(parse_program(s).0, s),
        parse_program(s).0.cur is EOF,
{
    lemma_program_loop(s, Seq::empty());
}

/// A block is read without giving back a token or losing an error, and its
/// statements come one after the other up to the closing brace or the end
/// of the input.
pub proof fn lemma_block_loop(s: ParserState, done: Seq<Stmt>)
    requires
        settled(s),
    ensures
        follows(block_loop(s, done).0, s),
        block_loop(s, done).0.cur is EOF || block_loop(s, done).0.cur is RBrace,
        !(s.cur is EOF || s.cur is RBrace) ==> block_loop(s, done) == block_loop(
            advance(parse_statement(s).0),
            push_some(done, parse_statement(s).1),
        ),
    decreases remaining(s), 8nat,
{
    if !(s.cur is RBrace || s.cur is EOF) {
        lemma_parse_statement(s);
        let (s1, statement) = parse_statement(s);
        lemma_follows_advance(s1);
        lemma_settled_bound(s1);
        lemma_block_loop(advance(s1), push_some(done, statement));
    }
}

/// A block that starts at an opening brace is read to its end.
pub proof fn lemma_parse_block_statement(s: ParserState)
    requires
        settled(s),
    ensures
        follows(parse_block_statement(s).0, s),
        !(s.cur is EOF) ==> parse_block_statement(s).1.statements == block_loop(
            advance(s),
            Seq::empty(),
        ).1,
        !(s.cur is EOF) ==> remaining(parse_block_statement(s).0) < remaining(s),
    decreases remaining(s), 0nat,
{
    lemma_follows_advance(s);
    if remaining(advance(s)) < remaining(s) {
        lemma_block_loop(advance(s), Seq::empty());
    }
}

/// A statement is read without giving back a token or losing an error,
/// and where no statement comes of it, an error is recorded.
pub proof fn lemma_parse_statement(s: ParserState)
    requires
        settled(s),
    ensures
        follows(parse_statement(s).0, s),
        parse_statement(s).1 is None ==> parse_statement(s).0.errors.len() > s.errors.len(),
    decreases remaining(s), 7nat,
{
    match s.cur {
        Token::Let => {
            lemma_parse_let_statement(s);
        },
        Token::Return => {
            lemma_parse_return_statement(s);
        },
        _ => {
            lemma_parse_expression_statement(s);
        },
    }
}

proof fn lemma_parse_let_statement(s: ParserState)
    requires
        settled(s),
        s.cur is Let,
    ensures
        follows(parse_let_statement(s).0, s),
        parse_let_statement(s).1 is None ==> parse_let_statement(s).0.errors.len()
            > s.errors.len(),
    decreases remaining(s), 6nat,
{
    let (s1, named) = expect_peek_ident(s);
    lemma_follows_expect(s, Token::Assign);
    if named && current_name(s1) is Some {
        let (s2, assigned) = expect_peek(s1, Token::Assign);
        lemma_follows_expect(s1, Token::Assign);
        if assigned {
            let s3 = advance(s2);
            lemma_follows_advance(s2);
            if remaining(s3) < remaining(s) {
                lemma_parse_expression(s3, Precedence::Lowest);
                lemma_follows_expect(parse_expression(s3, Precedence::Lowest).0, Token::Assign);
            }
        }
    }
}

proof fn lemma_parse_return_statement(s: ParserState)
    requires
        settled(s),
        s.cur is Return,
    ensures
        follows(parse_return_statement(s).0, s),
        parse_return_statement(s).1 is None ==> parse_return_statement(s).0.errors.len()
            > s.errors.len(),
    decreases remaining(s), 6nat,
{
    let s1 = advance(s);
    lemma_follows_advance(s);
    if remaining(s1) < remaining(s) {
        lemma_parse_expression(s1, Precedence::Lowest);
        lemma_follows_expect(parse_expression(s1, Precedence::Lowest).0, Token::Assign);
    }
}

proof fn lemma_parse_expression_statement(s: ParserState)
    requires
        settled(s),
    ensures
        follows(parse_expression_statement(s).0, s),
        parse_expression_statement(s).1 is None ==> parse_expression_statement(s).0.errors.len()
            > s.errors.len(),
    decreases remaining(s), 6nat,
{
    lemma_parse_expression(s, Precedence::Lowest);
    lemma_follows_expect(parse_expression(s, Precedence::Lowest).0, Token::Assign);
}

/// An expression is read without giving back a token or losing an error:
/// first a primary form, then, if there is one, what follows it. Where no
/// expression comes of it, an error is recorded.
pub proof fn lemma_parse_expression(s: ParserState, level: Precedence)
    requires
        settled(s),
    ensures
        follows(parse_expression(s, level).0, s),
        parse_expression(s, level).1 is None ==> parse_expression(s, level).0.errors.len()
            > s.errors.len(),
        parse_expression(s, level) == match parse_primary(s).1 {
            Some(left) => infix_loop(parse_primary(s).0, level, left),
            None => (parse_primary(s).0, None::<Expr>),
        },
    decreases remaining(s), 5nat,
{
    lemma_parse_primary(s);
    let (s1, left) = parse_primary(s);
    if left is Some {
        lemma_infix_loop(s1, level, left->0);
    }
}

proof fn lemma_parse_primary(s: ParserState)
    requires
        settled(s),
    ensures
        follows(parse_primary(s).0, s),
        parse_primary(s).1 is None ==> parse_primary(s).0.errors.len() > s.errors.len(),
    decreases remaining(s), 4nat,
{
    match s.cur {
        Token::Bang | Token::Minus => {
            lemma_parse_prefix_expression(s);
        },
        Token::LParen => {
            lemma_parse_grouped_expression(s);
        },
        Token::If => {
            lemma_parse_if_expression(s);
        },
        Token::Function => {
            lemma_parse_function_literal(s);
        },
        _ => {},
    }
}

proof fn lemma_parse_prefix_expression(s: ParserState)
    requires
        settled(s),
        s.cur is Bang || s.cur is Minus,
    ensures
        follows(parse_prefix_expression(s).0, s),
        parse_prefix_expression(s).1 is None ==> parse_prefix_expression(s).0.errors.len()
            > s.errors.len(),
    decreases remaining(s), 3nat,
{
    lemma_follows_advance(s);
    if remaining(advance(s)) < remaining(s) {
        lemma_parse_expression(advance(s), Precedence::Prefix);
    }
}

proof fn lemma_parse_grouped_expression(s: ParserState)
    requires
        settled(s),
        s.cur is LParen,
    ensures
        follows(parse_grouped_expression(s).0, s),
        parse_grouped_expression(s).1 is None ==> parse_grouped_expression(s).0.errors.len()
            > s.errors.len(),
    decreases remaining(s), 3nat,
{
    lemma_follows_advance(s);
    if remaining(advance(s)) < remaining(s) {
        lemma_parse_expression(advance(s), Precedence::Lowest);
        lemma_follows_expect(parse_expression(advance(s), Precedence::Lowest).0, Token::RParen);
    }
}

proof fn lemma_parse_if_expression(s: ParserState)
    requires
        settled(s),
        s.cur is If,
    ensures
        follows(parse_if_expression(s).0, s),
        parse_if_expression(s).1 is None ==> parse_if_expression(s).0.errors.len()
            > s.errors.len(),
    decreases remaining(s), 3nat,
{
    let (s1, opened) = expect_peek(s, Token::LParen);
    lemma_follows_expect(s, Token::LParen);
    if opened {
        let s2 = advance(s1);
        lemma_follows_advance(s1);
        if remaining(s2) < remaining(s) {
            lemma_parse_expression(s2, Precedence::Lowest);
            let (s3, condition) = parse_expression(s2, Precedence::Lowest);
            if condition is Some {
                let (s4, closed) = expect_peek(s3, Token::RParen);
                lemma_follows_expect(s3, Token::RParen);
                if closed {
                    let (s5, braced) = expect_peek(s4, Token::LBrace);
                    lemma_follows_expect(s4, Token::LBrace);
                    if braced && remaining(s5) < remaining(s) {
                        lemma_parse_block_statement(s5);
                        let s6 = parse_block_statement(s5).0;
                        if s6.peek is Else {
                            lemma_follows_advance(s6);
                            let (s7, braced) = expect_peek(advance(s6), Token::LBrace);
                            lemma_follows_expect(advance(s6), Token::LBrace);
                            if braced && remaining(s7) < remaining(s) {
                                lemma_parse_block_statement(s7);
                            }
                        }
                    }
                }
            }
        }
    }
}

proof fn lemma_parse_function_literal(s: ParserState)
    requires
        settled(s),
        s.cur is Function,
    ensures
        follows(parse_function_literal(s).0, s),
        parse_function_literal(s).1 is None ==> parse_function_literal(s).0.errors.len()
            > s.errors.len(),
    decreases remaining(s), 3nat,
{
    let (s1, opened) = expect_peek(s, Token::LParen);
    lemma_follows_expect(s, Token::LParen);
    if opened {
        lemma_follows_parameters(s1);
        let s2 = parse_function_parameters(s1).0;
        let (s3, braced) = expect_peek(s2, Token::LBrace);
        lemma_follows_expect(s2, Token::LBrace);
        if braced && remaining(s3) < remaining(s) {
            lemma_parse_block_statement(s3);
        }
    }
}

/// What follows a left operand is read without giving back a token or
/// losing an error, one operator or call after the other: where the next
/// token is an infix operator that binds tighter than `level`, the
/// operator and its right operand are taken and joined to the left
/// operand, and what follows is read with the expression so made on the
/// left.
pub proof fn lemma_infix_loop(s: ParserState, level: Precedence, left: Expr)
    requires
        settled(s),
    ensures
        follows(infix_loop(s, level, left).0, s),
        infix_loop(s, level, left).1 is None ==> infix_loop(s, level, left).0.errors.len()
            > s.errors.len(),
        is_infix_operator(s.peek) && rank(level) < rank(precedence_of(s.peek)) ==> infix_loop(
            s,
            level,
            left,
        ) == match parse_infix_expression(advance(s), left).1 {
            Some(joined) => infix_loop(parse_infix_expression(advance(s), left).0, level, joined),
            None => (parse_infix_expression(advance(s), left).0, None::<Expr>),
        },
        s.peek is LParen && rank(level) < rank(Precedence::Call) ==> infix_loop(s, level, left)
            == match parse_call_expression(advance(s), left).1 {
            Some(call) => infix_loop(parse_call_expression(advance(s), left).0, level, call),
            None => (parse_call_expression(advance(s), left).0, None::<Expr>),
        },
    decreases remaining(s), 2nat,
{
    if !(s.peek is Semicolon) && rank(level) < rank(precedence_of(s.peek)) {
        let s1 = advance(s);
        lemma_follows_advance(s);
        if is_infix_operator(s.peek) {
            lemma_parse_infix_expression(s1, left);
            let (s2, joined) = parse_infix_expression(s1, left);
            if joined is Some {
                lemma_infix_loop(s2, level, joined->0);
            }
        } else if s.peek is LParen {
            lemma_parse_call_expression(s1, left);
            let (s2, call) = parse_call_expression(s1, left);
            if call is Some {
                lemma_infix_loop(s2, level, call->0);
            }
        }
    }
}

proof fn lemma_parse_infix_expression(s: ParserState, left: Expr)
    requires
        settled(s),
        is_infix_operator(s.cur),
    ensures
        follows(parse_infix_expression(s, left).0, s),
        parse_infix_expression(s, left).1 is None ==> parse_infix_expression(
            s,
            left,
        ).0.errors.len() > s.errors.len(),
        !(s.cur is EOF) ==> remaining(parse_infix_expression(s, left).0) < remaining(s),
    decreases remaining(s), 1nat,
{
    lemma_follows_advance(s);
    if remaining(advance(s)) < remaining(s) {
        lemma_parse_expression(advance(s), precedence_of(s.cur));
    }
}

proof fn lemma_parse_call_expression(s: ParserState, function: Expr)
    requires
        settled(s),
    ensures
        follows(parse_call_expression(s, function).0, s),
        parse_call_expression(s, function).1 is Some,
        !(s.cur is EOF) ==> remaining(parse_call_expression(s, function).0) < remaining(s),
    decreases remaining(s), 1nat,
{
    lemma_parse_call_arguments(s);
}

proof fn lemma_parse_call_arguments(s: ParserState)
    requires
        settled(s),
    ensures
        follows(parse_call_arguments(s).0, s),
        !(s.cur is EOF) ==> remaining(parse_call_arguments(s).0) < remaining(s),
    decreases remaining(s), 0nat,
{
    lemma_follows_advance(s);
    if !(s.peek is RParen) {
        let s1 = advance(s);
        if remaining(s1) < remaining(s) {
            lemma_parse_expression(s1, Precedence::Lowest);
            let (s2, first) = parse_expression(s1, Precedence::Lowest);
            if remaining(s2) < remaining(s) {
                lemma_arguments_loop(s2, push_some(Seq::empty(), first));
                let s3 = arguments_loop(s2, push_some(Seq::empty(), first)).0;
                lemma_follows_expect(s3, Token::RParen);
            }
        }
    }
}

proof fn lemma_arguments_loop(s: ParserState, done: Seq<Expr>)
    requires
        settled(s),
    ensures
        follows(arguments_loop(s, done).0, s),
    decreases remaining(s), 8nat,
{
    if s.peek is Comma {
        lemma_advance(s);
        lemma_advance(advance(s));
        let s1 = advance(advance(s));
        lemma_parse_expression(s1, Precedence::Lowest);
        let (s2, argument) = parse_expression(s1, Precedence::Lowest);
        if remaining(s2) < remaining(s) {
            lemma_arguments_loop(s2, push_some(done, argument));
        }
    }
}

} // verus!

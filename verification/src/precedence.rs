use vstd::prelude::*;
use crate::ast::{expr_token, Expr, Name};
use crate::grammar::{
    advance, infix_loop, is_infix_operator, lemma_advance, parse_expression,
    parse_infix_expression, parse_prefix_expression, parse_primary, precedence_of, rank,
    remaining, ParserState, Precedence,
};
use crate::token::{token_text, Token};

verus! {

/// Whether a token is an operand by itself: a name or a literal.
pub open spec fn is_operand(t: Token) -> bool {
    t is Ident || t is Int || t is True || t is False
}

/// Whether what follows the current token goes on as a chain: an infix
/// operator and a chain after it, or a token that is neither an infix
/// operator nor an opening parenthesis.
pub open spec fn chain_follows(s: ParserState) -> bool {
    if is_infix_operator(s.peek) {
        is_chain(advance(advance(s)))
    } else {
        !(s.peek is LParen)
    }
}

/// Whether the tokens from the current one on are a chain of binary
/// operators without parentheses: operands with one infix operator between
/// each two of them, up to a token that is neither an infix operator nor an
/// opening parenthesis.
pub open spec fn is_chain(s: ParserState) -> bool
    decreases remaining(s),
{
    if !is_operand(s.cur) {
        false
    } else if is_infix_operator(s.peek) {
        proof {
            lemma_advance(s);
            lemma_advance(advance(s));
        }
        is_chain(advance(advance(s)))
    } else {
        !(s.peek is LParen)
    }
}

/// The operands and operators of the chain that starts at the current
/// token, in order.
pub open spec fn chain_tokens(s: ParserState) -> Seq<Token>
    decreases remaining(s),
{
    if is_operand(s.cur) && is_infix_operator(s.peek) {
        proof {
            lemma_advance(s);
            lemma_advance(advance(s));
        }
        seq![s.cur, s.peek] + chain_tokens(advance(advance(s)))
    } else {
        seq![s.cur]
    }
}

/// The operators and operands of the chain after the current token.
pub open spec fn tokens_after(s: ParserState) -> Seq<Token> {
    if is_infix_operator(s.peek) {
        seq![s.peek] + chain_tokens(advance(advance(s)))
    } else {
        Seq::empty()
    }
}

/// The tokens of an expression made of operands and infix operators, from
/// left to right.
pub open spec fn flatten(e: Expr) -> Seq<Token>
    decreases e,
{
    match e {
        Expr::Infix { token, left, right, .. } => flatten(*left) + seq![token] + flatten(*right),
        _ => seq![expr_token(e)],
    }
}

/// The rank of the operator at the root of an expression, if there is one
/// there.
pub open spec fn root_rank(e: Expr) -> Option<int> {
    match e {
        Expr::Infix { token, .. } => Some(rank(precedence_of(token))),
        _ => None,
    }
}

/// Whether an expression is grouped as the table of binding powers asks:
/// it is an operand, or an infix expression whose two sides are grouped so,
/// whose left side has no looser operator at its root, and whose right side
/// has a tighter one if it has one. So a tighter operator takes its
/// operands first, and of two operators of one binding power the left one
/// does.
pub open spec fn grouped_by_precedence(e: Expr) -> bool
    decreases e,
{
    match e {
        Expr::Infix { token, left, right, .. } => {
            &&& grouped_by_precedence(*left)
            &&& grouped_by_precedence(*right)
            &&& root_rank(*left) matches Some(r) ==> r >= rank(precedence_of(token))
            &&& root_rank(*right) matches Some(r) ==> r > rank(precedence_of(token))
        },
        Expr::Identifier(_) => true,
        Expr::Integer { .. } => true,
        Expr::Boolean { .. } => true,
        _ => false,
    }
}

/// Whether every node of an expression made of operands and infix operators
/// says what its token says: a name is the identifier's, a value is the
/// literal's, an operator is the text of the operator token.
pub open spec fn labelled_by_tokens(e: Expr) -> bool
    decreases e,
{
    match e {
        Expr::Infix { token, left, operator, right } => {
            &&& is_infix_operator(token)
            &&& operator == token_text(token)
            &&& labelled_by_tokens(*left)
            &&& labelled_by_tokens(*right)
        },
        Expr::Identifier(name) => name.token == Token::Ident(name.value),
        Expr::Integer { token, value } => token == Token::Int(value),
        Expr::Boolean { token, value } => token == if value {
            Token::True
        } else {
            Token::False
        },
        _ => false,
    }
}

/// What holds of an expression read from a chain at binding power `level`,
/// and of the state after it.
pub open spec fn chain_result(
    from: ParserState,
    before: Seq<Token>,
    level: Precedence,
    result: (ParserState, Option<Expr>),
) -> bool {
    let (end, tree) = result;
    &&& tree is Some
    &&& grouped_by_precedence(tree->0)
    &&& labelled_by_tokens(tree->0)
    &&& root_rank(tree->0) matches Some(r) ==> r > rank(level)
    &&& rank(precedence_of(end.peek)) <= rank(level)
    &&& chain_follows(end)
    &&& flatten(tree->0) + tokens_after(end) == before + tokens_after(from)
    &&& remaining(end) <= remaining(from)
    &&& end.errors == from.errors
}

proof fn lemma_chain_expression(s: ParserState, level: Precedence)
    requires
        is_chain(s),
    ensures
        chain_result(s, seq![s.cur], level, parse_expression(s, level)),
    decreases remaining(s), 1nat,
{
    let (s1, left) = parse_primary(s);
    assert(s1 == s);
    assert(left is Some);
    let operand = left->0;
    assert(flatten(operand) == seq![s.cur]);
    lemma_chain_loop(s, level, operand);
}

proof fn lemma_chain_loop(s: ParserState, level: Precedence, left: Expr)
    requires
        chain_follows(s),
        grouped_by_precedence(left),
        labelled_by_tokens(left),
        root_rank(left) matches Some(r) ==> r > rank(level) && r >= rank(precedence_of(s.peek)),
    ensures
        chain_result(s, flatten(left), level, infix_loop(s, level, left)),
    decreases remaining(s), 0nat,
{
    if !(s.peek is Semicolon) && rank(level) < rank(precedence_of(s.peek)) {
        assert(is_infix_operator(s.peek));
        let s1 = advance(s);
        let s2 = advance(s1);
        lemma_advance(s);
        lemma_advance(s1);
        let operator = s.peek;
        lemma_chain_expression(s2, precedence_of(operator));
        let (s3, right) = parse_expression(s2, precedence_of(operator));
        let joined = Expr::Infix {
            token: operator,
            left: Box::new(left),
            operator: token_text(operator),
            right: Box::new(right->0),
        };
        assert(parse_infix_expression(s1, left) == (s3, Some(joined)));
        assert(grouped_by_precedence(joined));
        assert(labelled_by_tokens(joined));
        lemma_chain_loop(s3, level, joined);
        assert(infix_loop(s, level, left) == infix_loop(s3, level, joined));
        assert(flatten(joined) + tokens_after(s3) =~= flatten(left) + tokens_after(s)) by {
            assert(flatten(right->0) + tokens_after(s3) == seq![s2.cur] + tokens_after(s2));
            assert(chain_tokens(s2) =~= seq![s2.cur] + tokens_after(s2));
            assert(flatten(joined) + tokens_after(s3) =~= flatten(left) + seq![operator] + (
                flatten(right->0) + tokens_after(s3)));
        }
    }
}

/// Precedence and associativity. A chain of binary operators without
/// parentheses parses into one expression and no error. The expression
/// holds the operands and operators of the chain in their order, and it is
/// grouped as the table of binding powers asks: at every operator, the left
/// operand has no looser operator at its root and the right operand only a
/// tighter one. So a tighter operator binds first, and operators of one
/// binding power group to the left.
pub proof fn lemma_chain_parses_by_precedence(s: ParserState)
    requires
        is_chain(s),
    ensures
        parse_expression(s, Precedence::Lowest).1 is Some,
        flatten(parse_expression(s, Precedence::Lowest).1->0) == chain_tokens(s),
        grouped_by_precedence(parse_expression(s, Precedence::Lowest).1->0),
        labelled_by_tokens(parse_expression(s, Precedence::Lowest).1->0),
        parse_expression(s, Precedence::Lowest).0.errors == s.errors,
        !is_infix_operator(parse_expression(s, Precedence::Lowest).0.peek),
{
    lemma_chain_expression(s, Precedence::Lowest);
    let (end, tree) = parse_expression(s, Precedence::Lowest);
    assert(tokens_after(end) =~= Seq::empty());
    assert(chain_tokens(s) =~= seq![s.cur] + tokens_after(s));
    assert(flatten(tree->0) =~= flatten(tree->0) + tokens_after(end));
}

/// The expression that an operand token is by itself.
pub open spec fn operand_of(t: Token) -> Expr
    recommends
        is_operand(t),
{
    match t {
        Token::Ident(name) => Expr::Identifier(Name { token: t, value: name }),
        Token::Int(value) => Expr::Integer { token: t, value },
        _ => Expr::Boolean { token: t, value: t is True },
    }
}

/// A prefix operator binds tighter than every binary operator: where an
/// operand follows it that is not called, the operator takes that operand
/// alone, whatever binary operator comes after.
pub proof fn lemma_prefix_binds_tighter(s: ParserState)
    requires
        s.cur is Bang || s.cur is Minus,
        is_operand(s.peek),
        !(advance(s).peek is LParen),
    ensures
        parse_prefix_expression(s) == (
            advance(s),
            Some(
                Expr::Prefix {
                    token: s.cur,
                    operator: token_text(s.cur),
                    right: Box::new(operand_of(s.peek)),
                },
            ),
        ),
{
    let s1 = advance(s);
    lemma_advance(s);
    assert(parse_primary(s1) == (s1, Some(operand_of(s.peek))));
    assert(infix_loop(s1, Precedence::Prefix, operand_of(s.peek)) == (
        s1,
        Some(operand_of(s.peek)),
    ));
    assert(parse_expression(s1, Precedence::Prefix) == (s1, Some(operand_of(s.peek))));
}

} // verus!

use vstd::prelude::*;
use vstd::string::*;
use crate::text::{
    alphabetic, char_is_alphabetic, char_is_numeric, chars_of, decimal_value, fits_i64, numeric,
    parse_decimal, string_of,
};
use crate::token::{keyword_or_ident, lookup_ident, Token, TokenType};

verus! {

/// The classes of characters of which the lexer scans maximal runs.
pub enum CharClass {
    /// Space, tab, carriage return and line feed.
    Space,
    /// Alphabetic characters and the underscore.
    Letter,
    /// Numeric characters.
    Digit,
}

/// Whether a character belongs to a class.
pub open spec fn in_class(c: char, class: CharClass) -> bool {
    match class {
        CharClass::Space => c == ' ' || c == '\t' || c == '\n' || c == '\r',
        CharClass::Letter => alphabetic(c) || c == '_',
        CharClass::Digit => numeric(c),
    }
}

/// The end of the maximal run of characters of `class` that starts at `pos`:
/// the first position from `pos` on that holds no such character.
pub open spec fn run_end(input: Seq<char>, pos: int, class: CharClass) -> int
    decreases input.len() - pos,
{
    if 0 <= pos < input.len() && in_class(input[pos], class) {
        run_end(input, pos + 1, class)
    } else {
        pos
    }
}

/// Whether a character starts an operator or a delimiter.
pub open spec fn is_symbol(c: char) -> bool {
    c == '=' || c == '!' || c == '<' || c == '>' || c == '+' || c == '-' || c == '/' || c == '*'
        || c == ',' || c == ';' || c == '(' || c == ')' || c == '{' || c == '}'
}

/// The operator or delimiter that starts with `c`, and its length, when the
/// character after it is `next` (`'\0'` at the end of the input).
pub open spec fn symbol_token(c: char, next: char) -> (Token, int)
    recommends
        is_symbol(c),
{
    if c == '=' {
        if next == '=' {
            (Token::Eq, 2)
        } else {
            (Token::Assign, 1)
        }
    } else if c == '!' {
        if next == '=' {
            (Token::NotEq, 2)
        } else {
            (Token::Bang, 1)
        }
    } else if c == '-' {
        if next == '>' {
            (Token::Arrow, 2)
        } else {
            (Token::Minus, 1)
        }
    } else if c == '<' {
        (Token::LT, 1)
    } else if c == '>' {
        (Token::GT, 1)
    } else if c == '+' {
        (Token::Plus, 1)
    } else if c == '/' {
        (Token::Slash, 1)
    } else if c == '*' {
        (Token::Asterisk, 1)
    } else if c == ',' {
        (Token::Comma, 1)
    } else if c == ';' {
        (Token::Semicolon, 1)
    } else if c == '(' {
        (Token::LParen, 1)
    } else if c == ')' {
        (Token::RParen, 1)
    } else if c == '{' {
        (Token::LBrace, 1)
    } else {
        (Token::RBrace, 1)
    }
}

/// The character at `pos`, or `'\0'` past the end of the input.
pub open spec fn char_at(input: Seq<char>, pos: int) -> char {
    if 0 <= pos < input.len() {
        input[pos]
    } else {
        '\0'
    }
}

/// The token that starts at `start`, which holds no white space, and the
/// position after it.
pub open spec fn token_starting_at(input: Seq<char>, start: int) -> (Token, int) {
    if !(0 <= start < input.len()) {
        (Token::EOF, start)
    } else if is_symbol(input[start]) {
        let (token, length) = symbol_token(input[start], char_at(input, start + 1));
        (token, start + length)
    } else if in_class(input[start], CharClass::Letter) {
        let end = run_end(input, start, CharClass::Letter);
        (keyword_or_ident(input.subrange(start, end)), end)
    } else if in_class(input[start], CharClass::Digit) {
        let end = run_end(input, start, CharClass::Digit);
        (Token::Int(decimal_value(input.subrange(start, end)) as i64), end)
    } else {
        (Token::Illegal, start + 1)
    }
}

/// The next token from `pos` on, after any white space, and the position
/// after it. At the end of the input the token is `EOF`, again and again.
#[verifier::opaque]
pub open spec fn token_at(input: Seq<char>, pos: int) -> (Token, int) {
    token_starting_at(input, run_end(input, pos, CharClass::Space))
}

/// Whether the next token from `pos` on can be held: if it is an integer
/// literal, its digits are decimal and its value fits in 64 bits.
#[verifier::opaque]
pub open spec fn token_fits(input: Seq<char>, pos: int) -> bool {
    let start = run_end(input, pos, CharClass::Space);
    (0 <= start < input.len() && !is_symbol(input[start]) && !in_class(
        input[start],
        CharClass::Letter,
    ) && in_class(input[start], CharClass::Digit)) ==> fits_i64(
        input.subrange(start, run_end(input, start, CharClass::Digit)),
    )
}

/// Whether every token from `pos` to the end of the input can be held.
#[verifier::opaque]
pub open spec fn lexable(input: Seq<char>, pos: int) -> bool
    decreases input.len() - pos,
{
    token_fits(input, pos) && {
        let next = token_at(input, pos).1;
        pos < next < input.len() ==> lexable(input, next)
    }
}

/// A run ends no earlier than it starts, and inside the input if it starts
/// there; every character of it belongs to the class, and the one after does not.
pub proof fn lemma_run_end(input: Seq<char>, pos: int, class: CharClass)
    requires
        0 <= pos <= input.len(),
    ensures
        pos <= run_end(input, pos, class) <= input.len(),
        forall|i: int| pos <= i < run_end(input, pos, class) ==> in_class(#[trigger] input[i], class),
        run_end(input, pos, class) < input.len() ==> !in_class(
            input[run_end(input, pos, class)],
            class,
        ),
    decreases input.len() - pos,
{
    if pos < input.len() && in_class(input[pos], class) {
        lemma_run_end(input, pos + 1, class);
    }
}

/// A token ends inside the input and, unless the input has ended, after the
/// position it was asked for.
pub proof fn lemma_token_advances(input: Seq<char>, pos: int)
    requires
        0 <= pos <= input.len(),
    ensures
        pos <= token_at(input, pos).1 <= input.len(),
        pos < input.len() ==> pos < token_at(input, pos).1,
        token_at(input, pos).0 is EOF <==> run_end(input, pos, CharClass::Space) == input.len(),
        token_at(input, pos).0 is EOF ==> token_at(input, pos).1 == input.len(),
        pos == input.len() ==> token_at(input, pos).0 is EOF,
{
    reveal(token_at);
    lemma_run_end(input, pos, CharClass::Space);
    let start = run_end(input, pos, CharClass::Space);
    if start < input.len() {
        lemma_run_end(input, start, CharClass::Letter);
        lemma_run_end(input, start, CharClass::Digit);
        lemma_keyword_or_ident_not_eof(input.subrange(start, run_end(input, start, CharClass::Letter)));
    }
}

/// Once the end of the input has been reached, every further token is `EOF`
/// and the position stays where it is.
pub proof fn lemma_eof_repeats(input: Seq<char>, pos: int)
    requires
        0 <= pos <= input.len(),
        token_at(input, pos).0 is EOF,
    ensures
        token_at(input, token_at(input, pos).1) == token_at(input, pos),
        token_at(input, pos).1 == input.len(),
{
    lemma_token_advances(input, pos);
    lemma_token_advances(input, input.len() as int);
    reveal(token_at);
}

/// A word is never the end-of-input token.
pub proof fn lemma_keyword_or_ident_not_eof(name: Seq<char>)
    ensures
        !(keyword_or_ident(name) is EOF),
{
}

/// A lexer: the characters of its input and the position it has reached.
pub struct Lexer {
    input: Vec<char>,
    position: usize,
}

fn is_letter(ch: char) -> (r: bool)
    ensures
        r == in_class(ch, CharClass::Letter),
{
    char_is_alphabetic(ch) || ch == '_'
}

fn is_digit(ch: char) -> (r: bool)
    ensures
        r == in_class(ch, CharClass::Digit),
{
    char_is_numeric(ch)
}

fn is_space(ch: char) -> (r: bool)
    ensures
        r == in_class(ch, CharClass::Space),
{
    ch == ' ' || ch == '\t' || ch == '\n' || ch == '\r'
}

impl Lexer {
    /// The invariant of every lexer: its position is inside its input or at
    /// the end of it.
    #[verifier::type_invariant]
    pub closed spec fn in_bounds(self) -> bool {
        self.position <= self.input@.len()
    }

    /// The characters of the input.
    pub closed spec fn source(&self) -> Seq<char> {
        self.input@
    }

    /// The position of the first character not yet consumed.
    pub closed spec fn offset(&self) -> int {
        self.position as int
    }

    /// A lexer at the start of `input`.
    pub fn new(input: String) -> (l: Lexer)
        ensures
            l.source() == input@,
            l.offset() == 0,
    {
        Lexer { input: chars_of(input.as_str()), position: 0 }
    }

    /// What the invariant says of the offset.
    pub proof fn lemma_in_bounds(self)
        requires
            self.in_bounds(),
        ensures
            0 <= self.offset() <= self.source().len() <= usize::MAX,
    {
        assert(self.input.len() == self.input@.len());
    }

    fn read_char(&mut self)
        ensures
            final(self).source() == old(self).source(),
            final(self).offset() == if old(self).offset() < old(self).source().len() {
                old(self).offset() + 1
            } else {
                old(self).offset()
            },
    {
        proof {
            use_type_invariant(&*self);
        }
        if self.position < self.input.len() {
            self.position += 1;
        }
    }

    fn peek_char(&self) -> (c: char)
        ensures
            c == char_at(self.source(), self.offset() + 1),
    {
        proof {
            use_type_invariant(self);
        }
        if self.position < self.input.len() && self.position + 1 < self.input.len() {
            self.input[self.position + 1]
        } else {
            '\0'
        }
    }

    /// The end of the run of `class` that starts at `from`.
    fn scan(&self, from: usize, class: CharClass) -> (end: usize)
        requires
            from <= self.source().len(),
        ensures
            end == run_end(self.source(), from as int, class),
            from <= end <= self.source().len(),
    {
        let mut end: usize = from;
        while end < self.input.len() && belongs(self.input[end], &class)
            invariant
                from <= end <= self.input@.len(),
                run_end(self.input@, end as int, class) == run_end(self.input@, from as int, class),
            decreases self.input@.len() - end,
        {
            end += 1;
        }
        end
    }

    fn skip_whitespace(&mut self)
        ensures
            final(self).source() == old(self).source(),
            final(self).offset() == run_end(old(self).source(), old(self).offset(), CharClass::Space),
    {
        proof {
            use_type_invariant(&*self);
        }
        self.position = self.scan(self.position, CharClass::Space);
    }

    fn read_identifier(&mut self) -> (word: String)
        ensures
            final(self).source() == old(self).source(),
            final(self).offset() == run_end(old(self).source(), old(self).offset(), CharClass::Letter),
            word@ == old(self).source().subrange(old(self).offset(), final(self).offset()),
    {
        proof {
            use_type_invariant(&*self);
        }
        let start = self.position;
        self.position = self.scan(start, CharClass::Letter);
        string_of(&self.input, start, self.position)
    }

    fn read_number(&mut self) -> (value: i64)
        requires
            fits_i64(
                old(self).source().subrange(
                    old(self).offset(),
                    run_end(old(self).source(), old(self).offset(), CharClass::Digit),
                ),
            ),
        ensures
            final(self).source() == old(self).source(),
            final(self).offset() == run_end(old(self).source(), old(self).offset(), CharClass::Digit),
            value == decimal_value(old(self).source().subrange(old(self).offset(), final(self).offset())),
    {
        proof {
            use_type_invariant(&*self);
        }
        let start = self.position;
        self.position = self.scan(start, CharClass::Digit);
        match parse_decimal(&self.input, start, self.position) {
            Some(value) => value,
            None => unreached(),
        }
    }

    /// Whether the next token can be held, so that [`Lexer::next_token`] may
    /// be called.
    pub fn next_fits(&self) -> (r: bool)
        ensures
            r == token_fits(self.source(), self.offset()),
    {
        proof {
            use_type_invariant(self);
            reveal(token_fits);
        }
        let start = self.scan(self.position, CharClass::Space);
        if start < self.input.len() && !is_symbol_char(self.input[start]) && !is_letter(
            self.input[start],
        ) && is_digit(self.input[start]) {
            let end = self.scan(start, CharClass::Digit);
            parse_decimal(&self.input, start, end).is_some()
        } else {
            true
        }
    }

    /// Whether every token from here to the end of the input can be held.
    pub fn fits_to_end(&self) -> (r: bool)
        ensures
            r == lexable(self.source(), self.offset()),
    {
        proof {
            use_type_invariant(self);
        }
        let mut input: Vec<char> = Vec::new();
        let mut i: usize = 0;
        while i < self.input.len()
            invariant
                i <= self.input@.len(),
                input@ == self.input@.take(i as int),
            decreases self.input@.len() - i,
        {
            input.push(self.input[i]);
            i += 1;
            assert(input@ =~= self.input@.take(i as int));
        }
        assert(input@ =~= self.input@);
        let mut probe = Lexer { input, position: self.position };
        loop
            invariant
                probe.input@ == self.input@,
                lexable(self.input@, self.position as int) <==> lexable(
                    probe.input@,
                    probe.position as int,
                ),
            decreases probe.input@.len() - probe.position,
        {
            proof {
                reveal(lexable);
                use_type_invariant(&probe);
                lemma_token_advances(probe.input@, probe.position as int);
                lemma_lexable_at_end(probe.input@);
            }
            if !probe.next_fits() {
                return false;
            }
            let tok = probe.next_token();
            proof {
                use_type_invariant(&probe);
            }
            if tok == TokenType::EOF {
                return true;
            }
        }
    }

    /// Returns the next token of the input and moves past it.
    ///
    /// White space before the token is skipped. At the end of the input the
    /// token is `EOF`, and stays so. An integer literal that no `i64` holds
    /// cannot be returned: [`Lexer::next_fits`] tells beforehand.
    pub fn next_token(&mut self) -> (tok: TokenType)
        requires
            token_fits(old(self).source(), old(self).offset()),
        ensures
            final(self).source() == old(self).source(),
            (tok@, final(self).offset()) == token_at(old(self).source(), old(self).offset()),
    {
        proof {
            reveal(token_at);
            reveal(token_fits);
        }
        self.skip_whitespace();
        proof {
            use_type_invariant(&*self);
        }
        if self.position >= self.input.len() {
            return TokenType::EOF;
        }
        let ch = self.input[self.position];
        let tok = match ch {
            '=' => {
                if self.peek_char() == '=' {
                    self.read_char();
                    TokenType::Eq
                } else {
                    TokenType::Assign
                }
            },
            '!' => {
                if self.peek_char() == '=' {
                    self.read_char();
                    TokenType::NotEq
                } else {
                    TokenType::Bang
                }
            },
            '<' => TokenType::LT,
            '>' => TokenType::GT,
            '+' => TokenType::Plus,
            '-' => {
                if self.peek_char() == '>' {
                    self.read_char();
                    TokenType::Arrow
                } else {
                    TokenType::Minus
                }
            },
            '/' => TokenType::Slash,
            '*' => TokenType::Asterisk,
            ',' => TokenType::Comma,
            ';' => TokenType::Semicolon,
            '(' => TokenType::LParen,
            ')' => TokenType::RParen,
            '{' => TokenType::LBrace,
            '}' => TokenType::RBrace,
            _ => {
                if is_letter(ch) {
                    let literal = self.read_identifier();
                    return lookup_ident(literal.as_str());
                } else if is_digit(ch) {
                    return TokenType::Int(self.read_number());
                } else {
                    TokenType::Illegal
                }
            },
        };
        self.read_char();
        tok
    }
}

fn belongs(ch: char, class: &CharClass) -> (r: bool)
    ensures
        r == in_class(ch, *class),
{
    match class {
        CharClass::Space => is_space(ch),
        CharClass::Letter => is_letter(ch),
        CharClass::Digit => is_digit(ch),
    }
}

fn is_symbol_char(ch: char) -> (r: bool)
    ensures
        r == is_symbol(ch),
{
    ch == '=' || ch == '!' || ch == '<' || ch == '>' || ch == '+' || ch == '-' || ch == '/'
        || ch == '*' || ch == ',' || ch == ';' || ch == '(' || ch == ')' || ch == '{' || ch == '}'
}

/// The tokens from `pos` to the end of the input, the closing `EOF` included.
pub open spec fn tokens_from(input: Seq<char>, pos: int) -> Seq<Token>
    decreases input.len() - pos,
{
    let (token, next) = token_at(input, pos);
    if token is EOF {
        seq![token]
    } else {
        proof {
            reveal(token_at);
            lemma_token_advances(input, pos);
        }
        seq![token] + tokens_from(input, next)
    }
}

/// Splits a source text into its tokens, the closing `EOF` included.
///
/// Returns `None` when the text holds an integer literal that no `i64` holds.
pub fn tokenize(input: String) -> (r: Option<Vec<TokenType>>)
    ensures
        r is Some <==> lexable(input@, 0),
        r is Some ==> r->0@.map_values(|t: TokenType| t@) == tokens_from(input@, 0),
{
    let mut lexer = Lexer::new(input);
    let mut tokens: Vec<TokenType> = Vec::new();
    proof {
        use_type_invariant(&lexer);
        assert(tokens@.map_values(|t: TokenType| t@) + tokens_from(input@, 0) =~= tokens_from(
            input@,
            0,
        ));
    }
    loop
        invariant_except_break
            0 <= lexer.offset() <= input@.len(),
            lexable(input@, 0) <==> lexable(input@, lexer.offset()),
            tokens@.map_values(|t: TokenType| t@) + tokens_from(input@, lexer.offset())
                == tokens_from(input@, 0),
        invariant
            lexer.source() == input@,
        ensures
            lexable(input@, 0),
            tokens@.map_values(|t: TokenType| t@) == tokens_from(input@, 0),
        decreases input@.len() - lexer.offset(),
    {
        if !lexer.next_fits() {
            proof {
                reveal(lexable);
            }
            return None;
        }
        let ghost before = lexer.offset();
        let ghost seen = tokens@.map_values(|t: TokenType| t@);
        let tok = lexer.next_token();
        proof {
            reveal(lexable);
            use_type_invariant(&lexer);
            lemma_token_advances(input@, before);
            lemma_lexable_at_end(input@);
        }
        let done = tok == TokenType::EOF;
        tokens.push(tok);
        proof {
            assert(tokens@.map_values(|t: TokenType| t@) =~= seen.push(tok@));
            if done {
                assert(seen.push(tok@) =~= seen + tokens_from(input@, before));
            } else {
                assert(seen.push(tok@) + tokens_from(input@, lexer.offset()) =~= seen
                    + tokens_from(input@, before));
            }
        }
        if done {
            break ;
        }
    }
    Some(tokens)
}

/// At the end of the input nothing is left that could fail to fit.
pub proof fn lemma_lexable_at_end(input: Seq<char>)
    ensures
        lexable(input, input.len() as int),
{
    reveal(lexable);
    reveal(token_fits);
    lemma_token_advances(input, input.len() as int);
    lemma_run_end(input, input.len() as int, CharClass::Space);
}

/// If every token from `pos` on can be held, so can the next one, and every
/// token after it.
pub proof fn lemma_lexable_step(input: Seq<char>, pos: int)
    requires
        0 <= pos <= input.len(),
        lexable(input, pos),
    ensures
        token_fits(input, pos),
        lexable(input, token_at(input, pos).1),
{
    reveal(lexable);
    lemma_token_advances(input, pos);
    lemma_lexable_at_end(input);
}

} // verus!

use vstd::prelude::*;
use vstd::string::*;
use crate::text::{debug_quoted, int_text, int_to_string, push_int, quoted, same_text};

verus! {

/// A lexical token: a fixed punctuation or keyword tag, or a tag with a payload.
#[derive(Debug)]
pub enum TokenType {
    Illegal,
    EOF,
    Ident(String),
    Int(i64),
    Assign,
    Plus,
    Minus,
    Bang,
    Asterisk,
    Slash,
    LT,
    GT,
    Eq,
    NotEq,
    Comma,
    Semicolon,
    LParen,
    RParen,
    LBrace,
    RBrace,
    Arrow,
    Function,
    Let,
    Mut,
    True,
    False,
    If,
    Else,
    Return,
    Unsafe,
    Zone,
}

/// The mathematical value of a [`TokenType`]: the same tags, with an identifier's
/// name held as a sequence of characters.
pub enum Token {
    Illegal,
    EOF,
    Ident(Seq<char>),
    Int(i64),
    Assign,
    Plus,
    Minus,
    Bang,
    Asterisk,
    Slash,
    LT,
    GT,
    Eq,
    NotEq,
    Comma,
    Semicolon,
    LParen,
    RParen,
    LBrace,
    RBrace,
    Arrow,
    Function,
    Let,
    Mut,
    True,
    False,
    If,
    Else,
    Return,
    Unsafe,
    Zone,
}

impl View for TokenType {
    type V = Token;

    open spec fn view(&self) -> Token {
        match self {
            TokenType::Illegal => Token::Illegal,
            TokenType::EOF => Token::EOF,
            TokenType::Ident(s) => Token::Ident(s@),
            TokenType::Int(i) => Token::Int(*i),
            TokenType::Assign => Token::Assign,
            TokenType::Plus => Token::Plus,
            TokenType::Minus => Token::Minus,
            TokenType::Bang => Token::Bang,
            TokenType::Asterisk => Token::Asterisk,
            TokenType::Slash => Token::Slash,
            TokenType::LT => Token::LT,
            TokenType::GT => Token::GT,
            TokenType::Eq => Token::Eq,
            TokenType::NotEq => Token::NotEq,
            TokenType::Comma => Token::Comma,
            TokenType::Semicolon => Token::Semicolon,
            TokenType::LParen => Token::LParen,
            TokenType::RParen => Token::RParen,
            TokenType::LBrace => Token::LBrace,
            TokenType::RBrace => Token::RBrace,
            TokenType::Arrow => Token::Arrow,
            TokenType::Function => Token::Function,
            TokenType::Let => Token::Let,
            TokenType::Mut => Token::Mut,
            TokenType::True => Token::True,
            TokenType::False => Token::False,
            TokenType::If => Token::If,
            TokenType::Else => Token::Else,
            TokenType::Return => Token::Return,
            TokenType::Unsafe => Token::Unsafe,
            TokenType::Zone => Token::Zone,
        }
    }
}

/// The token that a maximal run of letters stands for: the keyword of that
/// spelling, or else an identifier with the run as its name.
pub open spec fn keyword_or_ident(name: Seq<char>) -> Token {
    if name == "fn"@ {
        Token::Function
    } else if name == "let"@ {
        Token::Let
    } else if name == "mut"@ {
        Token::Mut
    } else if name == "true"@ {
        Token::True
    } else if name == "false"@ {
        Token::False
    } else if name == "if"@ {
        Token::If
    } else if name == "else"@ {
        Token::Else
    } else if name == "return"@ {
        Token::Return
    } else if name == "unsafe"@ {
        Token::Unsafe
    } else if name == "zone"@ {
        Token::Zone
    } else {
        Token::Ident(name)
    }
}

/// Resolves a scanned word against the keyword table.
pub fn lookup_ident(ident: &str) -> (r: TokenType)
    ensures
        r@ == keyword_or_ident(ident@),
{
    if same_text(ident, "fn") {
        TokenType::Function
    } else if same_text(ident, "let") {
        TokenType::Let
    } else if same_text(ident, "mut") {
        TokenType::Mut
    } else if same_text(ident, "true") {
        TokenType::True
    } else if same_text(ident, "false") {
        TokenType::False
    } else if same_text(ident, "if") {
        TokenType::If
    } else if same_text(ident, "else") {
        TokenType::Else
    } else if same_text(ident, "return") {
        TokenType::Return
    } else if same_text(ident, "unsafe") {
        TokenType::Unsafe
    } else if same_text(ident, "zone") {
        TokenType::Zone
    } else {
        TokenType::Ident(ident.to_owned())
    }
}

/// The text that a token is written as: the spelling of a fixed token, the
/// name of an identifier, the decimal text of an integer.
pub open spec fn token_text(t: Token) -> Seq<char> {
    match t {
        Token::Illegal => "ILLEGAL"@,
        Token::EOF => "EOF"@,
        Token::Ident(name) => name,
        Token::Int(i) => int_text(i as int),
        Token::Assign => "="@,
        Token::Plus => "+"@,
        Token::Minus => "-"@,
        Token::Bang => "!"@,
        Token::Asterisk => "*"@,
        Token::Slash => "/"@,
        Token::LT => "<"@,
        Token::GT => ">"@,
        Token::Eq => "=="@,
        Token::NotEq => "!="@,
        Token::Comma => ","@,
        Token::Semicolon => ";"@,
        Token::LParen => "("@,
        Token::RParen => ")"@,
        Token::LBrace => "{"@,
        Token::RBrace => "}"@,
        Token::Arrow => "->"@,
        Token::Function => "fn"@,
        Token::Let => "let"@,
        Token::Mut => "mut"@,
        Token::True => "true"@,
        Token::False => "false"@,
        Token::If => "if"@,
        Token::Else => "else"@,
        Token::Return => "return"@,
        Token::Unsafe => "unsafe"@,
        Token::Zone => "zone"@,
    }
}

/// The text that names a token in a diagnostic: the tag's name, followed for
/// an identifier or an integer by its payload in parentheses.
pub open spec fn token_debug_text(t: Token) -> Seq<char> {
    match t {
        Token::Illegal => "Illegal"@,
        Token::EOF => "EOF"@,
        Token::Ident(name) => "Ident("@ + quoted(name) + ")"@,
        Token::Int(i) => "Int("@ + int_text(i as int) + ")"@,
        Token::Assign => "Assign"@,
        Token::Plus => "Plus"@,
        Token::Minus => "Minus"@,
        Token::Bang => "Bang"@,
        Token::Asterisk => "Asterisk"@,
        Token::Slash => "Slash"@,
        Token::LT => "LT"@,
        Token::GT => "GT"@,
        Token::Eq => "Eq"@,
        Token::NotEq => "NotEq"@,
        Token::Comma => "Comma"@,
        Token::Semicolon => "Semicolon"@,
        Token::LParen => "LParen"@,
        Token::RParen => "RParen"@,
        Token::LBrace => "LBrace"@,
        Token::RBrace => "RBrace"@,
        Token::Arrow => "Arrow"@,
        Token::Function => "Function"@,
        Token::Let => "Let"@,
        Token::Mut => "Mut"@,
        Token::True => "True"@,
        Token::False => "False"@,
        Token::If => "If"@,
        Token::Else => "Else"@,
        Token::Return => "Return"@,
        Token::Unsafe => "Unsafe"@,
        Token::Zone => "Zone"@,
    }
}

impl Clone for TokenType {
    fn clone(&self) -> (r: Self)
        ensures
            r@ == self@,
    {
        match self {
            TokenType::Illegal => TokenType::Illegal,
            TokenType::EOF => TokenType::EOF,
            TokenType::Ident(name) => TokenType::Ident(name.clone()),
            TokenType::Int(i) => TokenType::Int(*i),
            TokenType::Assign => TokenType::Assign,
            TokenType::Plus => TokenType::Plus,
            TokenType::Minus => TokenType::Minus,
            TokenType::Bang => TokenType::Bang,
            TokenType::Asterisk => TokenType::Asterisk,
            TokenType::Slash => TokenType::Slash,
            TokenType::LT => TokenType::LT,
            TokenType::GT => TokenType::GT,
            TokenType::Eq => TokenType::Eq,
            TokenType::NotEq => TokenType::NotEq,
            TokenType::Comma => TokenType::Comma,
            TokenType::Semicolon => TokenType::Semicolon,
            TokenType::LParen => TokenType::LParen,
            TokenType::RParen => TokenType::RParen,
            TokenType::LBrace => TokenType::LBrace,
            TokenType::RBrace => TokenType::RBrace,
            TokenType::Arrow => TokenType::Arrow,
            TokenType::Function => TokenType::Function,
            TokenType::Let => TokenType::Let,
            TokenType::Mut => TokenType::Mut,
            TokenType::True => TokenType::True,
            TokenType::False => TokenType::False,
            TokenType::If => TokenType::If,
            TokenType::Else => TokenType::Else,
            TokenType::Return => TokenType::Return,
            TokenType::Unsafe => TokenType::Unsafe,
            TokenType::Zone => TokenType::Zone,
        }
    }
}

impl TokenType {
    /// The token's text, as [`token_text`] defines it.
    pub fn to_string(&self) -> (s: String)
        ensures
            s@ == token_text(self@),
    {
        match self {
            TokenType::Illegal => "ILLEGAL".to_owned(),
            TokenType::EOF => "EOF".to_owned(),
            TokenType::Ident(name) => name.clone(),
            TokenType::Int(i) => int_to_string(*i),
            TokenType::Assign => "=".to_owned(),
            TokenType::Plus => "+".to_owned(),
            TokenType::Minus => "-".to_owned(),
            TokenType::Bang => "!".to_owned(),
            TokenType::Asterisk => "*".to_owned(),
            TokenType::Slash => "/".to_owned(),
            TokenType::LT => "<".to_owned(),
            TokenType::GT => ">".to_owned(),
            TokenType::Eq => "==".to_owned(),
            TokenType::NotEq => "!=".to_owned(),
            TokenType::Comma => ",".to_owned(),
            TokenType::Semicolon => ";".to_owned(),
            TokenType::LParen => "(".to_owned(),
            TokenType::RParen => ")".to_owned(),
            TokenType::LBrace => "{".to_owned(),
            TokenType::RBrace => "}".to_owned(),
            TokenType::Arrow => "->".to_owned(),
            TokenType::Function => "fn".to_owned(),
            TokenType::Let => "let".to_owned(),
            TokenType::Mut => "mut".to_owned(),
            TokenType::True => "true".to_owned(),
            TokenType::False => "false".to_owned(),
            TokenType::If => "if".to_owned(),
            TokenType::Else => "else".to_owned(),
            TokenType::Return => "return".to_owned(),
            TokenType::Unsafe => "unsafe".to_owned(),
            TokenType::Zone => "zone".to_owned(),
        }
    }

    /// The token's name in a diagnostic, as [`token_debug_text`] defines it.
    pub fn debug_string(&self) -> (s: String)
        ensures
            s@ == token_debug_text(self@),
    {
        match self {
            TokenType::Illegal => "Illegal".to_owned(),
            TokenType::EOF => "EOF".to_owned(),
            TokenType::Ident(name) => {
                let mut s = "Ident(".to_owned();
                let q = debug_quoted(name.as_str());
                s.append(q.as_str());
                s.append(")");
                s
            },
            TokenType::Int(i) => {
                let mut s = "Int(".to_owned();
                push_int(&mut s, *i);
                s.append(")");
                s
            },
            TokenType::Assign => "Assign".to_owned(),
            TokenType::Plus => "Plus".to_owned(),
            TokenType::Minus => "Minus".to_owned(),
            TokenType::Bang => "Bang".to_owned(),
            TokenType::Asterisk => "Asterisk".to_owned(),
            TokenType::Slash => "Slash".to_owned(),
            TokenType::LT => "LT".to_owned(),
            TokenType::GT => "GT".to_owned(),
            TokenType::Eq => "Eq".to_owned(),
            TokenType::NotEq => "NotEq".to_owned(),
            TokenType::Comma => "Comma".to_owned(),
            TokenType::Semicolon => "Semicolon".to_owned(),
            TokenType::LParen => "LParen".to_owned(),
            TokenType::RParen => "RParen".to_owned(),
            TokenType::LBrace => "LBrace".to_owned(),
            TokenType::RBrace => "RBrace".to_owned(),
            TokenType::Arrow => "Arrow".to_owned(),
            TokenType::Function => "Function".to_owned(),
            TokenType::Let => "Let".to_owned(),
            TokenType::Mut => "Mut".to_owned(),
            TokenType::True => "True".to_owned(),
            TokenType::False => "False".to_owned(),
            TokenType::If => "If".to_owned(),
            TokenType::Else => "Else".to_owned(),
            TokenType::Return => "Return".to_owned(),
            TokenType::Unsafe => "Unsafe".to_owned(),
            TokenType::Zone => "Zone".to_owned(),
        }
    }
}

impl PartialEq for TokenType {
    fn eq(&self, other: &TokenType) -> (r: bool) {
        match (self, other) {
            (TokenType::Illegal, TokenType::Illegal) => true,
            (TokenType::EOF, TokenType::EOF) => true,
            (TokenType::Ident(a), TokenType::Ident(b)) => same_text(a.as_str(), b.as_str()),
            (TokenType::Int(a), TokenType::Int(b)) => *a == *b,
            (TokenType::Assign, TokenType::Assign) => true,
            (TokenType::Plus, TokenType::Plus) => true,
            (TokenType::Minus, TokenType::Minus) => true,
            (TokenType::Bang, TokenType::Bang) => true,
            (TokenType::Asterisk, TokenType::Asterisk) => true,
            (TokenType::Slash, TokenType::Slash) => true,
            (TokenType::LT, TokenType::LT) => true,
            (TokenType::GT, TokenType::GT) => true,
            (TokenType::Eq, TokenType::Eq) => true,
            (TokenType::NotEq, TokenType::NotEq) => true,
            (TokenType::Comma, TokenType::Comma) => true,
            (TokenType::Semicolon, TokenType::Semicolon) => true,
            (TokenType::LParen, TokenType::LParen) => true,
            (TokenType::RParen, TokenType::RParen) => true,
            (TokenType::LBrace, TokenType::LBrace) => true,
            (TokenType::RBrace, TokenType::RBrace) => true,
            (TokenType::Arrow, TokenType::Arrow) => true,
            (TokenType::Function, TokenType::Function) => true,
            (TokenType::Let, TokenType::Let) => true,
            (TokenType::Mut, TokenType::Mut) => true,
            (TokenType::True, TokenType::True) => true,
            (TokenType::False, TokenType::False) => true,
            (TokenType::If, TokenType::If) => true,
            (TokenType::Else, TokenType::Else) => true,
            (TokenType::Return, TokenType::Return) => true,
            (TokenType::Unsafe, TokenType::Unsafe) => true,
            (TokenType::Zone, TokenType::Zone) => true,
            _ => false,
        }
    }
}

impl vstd::std_specs::cmp::PartialEqSpecImpl for TokenType {
    open spec fn obeys_eq_spec() -> bool {
        true
    }

    open spec fn eq_spec(&self, other: &TokenType) -> bool {
        self@ == other@
    }
}

} // verus!

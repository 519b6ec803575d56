use vstd::prelude::*;

verus! {

/// The category of a lexical unit.
#[derive(Debug, Clone, Copy, PartialEq, Eq, Structural)]
pub enum TokenKind {
    Keyword,
    Identifier,
    Number,
    StringLiteral,
    Operator,
    Punctuation,
    Whitespace,
    Comment,
}

/// One lexical unit, carrying the exact source text it was scanned from.
#[derive(Debug, Clone, PartialEq, Eq)]
pub enum Token {
    Keyword(String),
    Identifier(String),
    Number(String),
    StringLiteral(String),
    Operator(String),
    Punctuation(String),
    Whitespace(String),
    Comment(String),
}

/// What a token stands for: its category and its matched text.
pub type TokenView = (TokenKind, Seq<char>);

impl View for Token {
    type V = TokenView;

    open spec fn view(&self) -> TokenView {
        match self {
            Token::Keyword(s) => (TokenKind::Keyword, s@),
            Token::Identifier(s) => (TokenKind::Identifier, s@),
            Token::Number(s) => (TokenKind::Number, s@),
            Token::StringLiteral(s) => (TokenKind::StringLiteral, s@),
            Token::Operator(s) => (TokenKind::Operator, s@),
            Token::Punctuation(s) => (TokenKind::Punctuation, s@),
            Token::Whitespace(s) => (TokenKind::Whitespace, s@),
            Token::Comment(s) => (TokenKind::Comment, s@),
        }
    }
}

impl Token {
    /// Builds the token of the given category over `text`.
    pub fn new(kind: TokenKind, text: String) -> (t: Token)
        ensures
            t@ == (kind, text@),
    {
        match kind {
            TokenKind::Keyword => Token::Keyword(text),
            TokenKind::Identifier => Token::Identifier(text),
            TokenKind::Number => Token::Number(text),
            TokenKind::StringLiteral => Token::StringLiteral(text),
            TokenKind::Operator => Token::Operator(text),
            TokenKind::Punctuation => Token::Punctuation(text),
            TokenKind::Whitespace => Token::Whitespace(text),
            TokenKind::Comment => Token::Comment(text),
        }
    }

    /// The category of this token.
    pub fn kind(&self) -> (k: TokenKind)
        ensures
            k == self@.0,
    {
        match self {
            Token::Keyword(_) => TokenKind::Keyword,
            Token::Identifier(_) => TokenKind::Identifier,
            Token::Number(_) => TokenKind::Number,
            Token::StringLiteral(_) => TokenKind::StringLiteral,
            Token::Operator(_) => TokenKind::Operator,
            Token::Punctuation(_) => TokenKind::Punctuation,
            Token::Whitespace(_) => TokenKind::Whitespace,
            Token::Comment(_) => TokenKind::Comment,
        }
    }

    /// The source text this token was scanned from.
    pub fn text(&self) -> (s: &String)
        ensures
            s@ == self@.1,
    {
        match self {
            Token::Keyword(s) => s,
            Token::Identifier(s) => s,
            Token::Number(s) => s,
            Token::StringLiteral(s) => s,
            Token::Operator(s) => s,
            Token::Punctuation(s) => s,
            Token::Whitespace(s) => s,
            Token::Comment(s) => s,
        }
    }
}

/// The views of a sequence of tokens, in order.
pub open spec fn token_views(ts: Seq<Token>) -> Seq<TokenView> {
    ts.map_values(|t: Token| t@)
}

/// The concatenation of the texts of a sequence of token views.
pub open spec fn joined_text(ts: Seq<TokenView>) -> Seq<char>
    decreases ts.len(),
{
    if ts.len() == 0 {
        Seq::empty()
    } else {
        ts[0].1 + joined_text(ts.drop_first())
    }
}

/// Why scanning stopped: no rule matches at the given character offset.
#[derive(Debug, Clone, Copy, PartialEq, Eq, Structural)]
pub enum LexError {
    UnrecognizedInput { position: usize },
}

} // verus!

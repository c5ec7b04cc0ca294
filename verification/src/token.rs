use vstd::prelude::*;

verus! {

/// Reserved words of the language.
#[derive(Debug, Copy, Clone, PartialEq, Eq, Structural)]
pub enum Keyword {
    Function,
    Return,
    Break,
    While,
    For,
    Let,
    Var,
    In,
    As,
    Const,
}

/// Operator tokens: arithmetic, comparison, bitwise, logical and structural.
#[derive(Debug, Copy, Clone, PartialEq, Eq, Structural)]
pub enum Operator {
    Add,
    Minus,
    Star,
    Divide,
    Mod,
    Comma,
    Dot,
    Colon,
    SemiColon,
    Reference,
    Equals,
    NotEquals,
    Greater,
    GreaterOrEquals,
    Less,
    LessOrEquals,
    Assignment,
    ShiftLeft,
    ShiftRight,
    And,
    Or,
    Not,
    Xor,
    ThinArrow,
    Arrow,
}

/// Bracket tokens: the open and close markers of `()`, `[]` and `{}`.
#[derive(Debug, Copy, Clone, PartialEq, Eq, Structural)]
pub enum Parenthetical {
    NormalOpen,
    NormalClose,
    BracketOpen,
    BracketClose,
    CurlyOpen,
    CurlyClose,
}

/// An identifier: an owned name.
#[derive(Debug, Hash, PartialEq, Eq)]
pub struct Identifier(pub String);

impl Clone for Identifier {
    fn clone(&self) -> (r: Self)
        ensures
            r@ == self@,
    {
        Identifier(self.0.clone())
    }
}

impl View for Identifier {
    type V = Seq<char>;

    open spec fn view(&self) -> Seq<char> {
        self.0@
    }
}

impl Identifier {
    pub fn new(s: String) -> (r: Self)
        ensures
            r@ == s@,
    {
        Identifier(s)
    }
}

/// Mathematical model of a literal. An integer literal is unbounded here;
/// the executable token stores it as an `i64`. A float literal is modelled
/// by its source text with separators stripped, as the executable one is.
pub enum LiteralV {
    Str(Seq<char>),
    Character(char),
    Integer(int),
    Float(Seq<char>),
    Bool(bool),
    Unit,
}

/// A literal value: string, character, 64-bit integer, float (kept as its
/// source text with underscores stripped), boolean, or the unit value.
#[derive(Debug, PartialEq)]
pub enum Literal {
    String(String),
    Character(char),
    Integer(i64),
    Float(String),
    Bool(bool),
    Unit,
}

impl View for Literal {
    type V = LiteralV;

    open spec fn view(&self) -> LiteralV {
        match self {
            Literal::String(s) => LiteralV::Str(s@),
            Literal::Character(c) => LiteralV::Character(*c),
            Literal::Integer(i) => LiteralV::Integer(*i as int),
            Literal::Float(s) => LiteralV::Float(s@),
            Literal::Bool(b) => LiteralV::Bool(*b),
            Literal::Unit => LiteralV::Unit,
        }
    }
}

/// Mathematical model of a token.
pub enum TokenV {
    Keyword(Keyword),
    Operator(Operator),
    Parenthetical(Parenthetical),
    Identifier(Seq<char>),
    Literal(LiteralV),
    EndOfInput,
}

/// A lexical token. `EOF` is the end-of-input sentinel that the token
/// stream appends so that lookahead never runs out of tokens.
#[derive(Debug, PartialEq)]
pub enum Token {
    Keyword(Keyword),
    Operator(Operator),
    Parenthetical(Parenthetical),
    Identifier(Identifier),
    Literal(Literal),
    EOF,
}

impl View for Token {
    type V = TokenV;

    open spec fn view(&self) -> TokenV {
        match self {
            Token::Keyword(k) => TokenV::Keyword(*k),
            Token::Operator(o) => TokenV::Operator(*o),
            Token::Parenthetical(p) => TokenV::Parenthetical(*p),
            Token::Identifier(i) => TokenV::Identifier(i@),
            Token::Literal(l) => TokenV::Literal(l@),
            Token::EOF => TokenV::EndOfInput,
        }
    }
}

impl Clone for Literal {
    fn clone(&self) -> (r: Self)
        ensures
            r@ == self@,
    {
        match self {
            Literal::String(s) => Literal::String(s.clone()),
            Literal::Character(c) => Literal::Character(*c),
            Literal::Integer(i) => Literal::Integer(*i),
            Literal::Float(s) => Literal::Float(s.clone()),
            Literal::Bool(b) => Literal::Bool(*b),
            Literal::Unit => Literal::Unit,
        }
    }
}

impl Clone for Token {
    fn clone(&self) -> (r: Self)
        ensures
            r@ == self@,
    {
        match self {
            Token::Keyword(k) => Token::Keyword(*k),
            Token::Operator(o) => Token::Operator(*o),
            Token::Parenthetical(p) => Token::Parenthetical(*p),
            Token::Identifier(i) => Token::Identifier(i.clone()),
            Token::Literal(l) => Token::Literal(l.clone()),
            Token::EOF => Token::EOF,
        }
    }
}

/// Decides equality of two literals, as their models have it.
pub fn literal_eq(a: &Literal, b: &Literal) -> (r: bool)
    ensures
        r == (a@ == b@),
{
    match (a, b) {
        (Literal::String(x), Literal::String(y)) => *x == *y,
        (Literal::Character(x), Literal::Character(y)) => *x == *y,
        (Literal::Integer(x), Literal::Integer(y)) => *x == *y,
        (Literal::Float(x), Literal::Float(y)) => *x == *y,
        (Literal::Bool(x), Literal::Bool(y)) => *x == *y,
        (Literal::Unit, Literal::Unit) => true,
        _ => false,
    }
}

/// Decides equality of two tokens, as their models have it.
pub fn token_eq(a: &Token, b: &Token) -> (r: bool)
    ensures
        r == (a@ == b@),
{
    match (a, b) {
        (Token::Keyword(x), Token::Keyword(y)) => *x == *y,
        (Token::Operator(x), Token::Operator(y)) => *x == *y,
        (Token::Parenthetical(x), Token::Parenthetical(y)) => *x == *y,
        (Token::Identifier(x), Token::Identifier(y)) => x.0 == y.0,
        (Token::Literal(x), Token::Literal(y)) => literal_eq(x, y),
        (Token::EOF, Token::EOF) => true,
        _ => false,
    }
}

/// A source position: row and column reached after consuming a prefix of
/// the input text.
#[derive(Debug, Copy, Clone, PartialEq, Eq, Structural)]
pub struct FilePos {
    pub row: usize,
    pub column: usize,
}

impl FilePos {
    /// The position before any character has been consumed.
    pub fn beginning() -> (r: Self)
        ensures
            r.row == 0 && r.column == 0,
    {
        FilePos { row: 0, column: 0 }
    }
}

/// Mathematical model of a source position.
pub struct FilePosV {
    pub row: int,
    pub column: int,
}

impl View for FilePos {
    type V = FilePosV;

    open spec fn view(&self) -> FilePosV {
        FilePosV { row: self.row as int, column: self.column as int }
    }
}

/// The source range a token was read from.
#[derive(Debug, Clone, PartialEq, Eq)]
pub struct Trace {
    pub source_file: String,
    pub begin_pos: FilePos,
    pub end_pos: FilePos,
}

/// Mathematical model of a trace.
pub struct TraceV {
    pub source_file: Seq<char>,
    pub begin_pos: FilePosV,
    pub end_pos: FilePosV,
}

impl View for Trace {
    type V = TraceV;

    open spec fn view(&self) -> TraceV {
        TraceV { source_file: self.source_file@, begin_pos: self.begin_pos@, end_pos: self.end_pos@ }
    }
}

/// A token together with the source range it was read from.
#[derive(Debug, Clone, PartialEq)]
pub struct TracedToken {
    pub token: Token,
    pub trace: Trace,
}

/// Mathematical model of a traced token.
pub struct TracedTokenV {
    pub token: TokenV,
    pub trace: TraceV,
}

impl View for TracedToken {
    type V = TracedTokenV;

    open spec fn view(&self) -> TracedTokenV {
        TracedTokenV { token: self.token@, trace: self.trace@ }
    }
}


/// The models of a sequence of traced tokens, in order.
pub open spec fn traced_tokens_view(v: Seq<TracedToken>) -> Seq<TracedTokenV> {
    Seq::new(v.len(), |i: int| v[i]@)
}

} // verus!

use vstd::prelude::*;

verus! {

/// The kinds of tokens that the AST and the constant folder distinguish.
#[derive(Debug, Clone, Copy, PartialEq, Eq, Structural)]
pub enum TokenType {
    Identifier,
    Plus,
    Minus,
    Star,
    Slash,
    Mod,
    Tilde,
    Bang,
    ShiftLeft,
    ShiftRight,
    LogicOr,
    LogicAnd,
    BitwiseXor,
    BitwiseOr,
    BitwiseAnd,
    Greater,
    GreaterEqual,
    Less,
    LessEqual,
    EqualEqual,
    BangEqual,
    Equal,
    PlusPlus,
    MinusMinus,
    Question,
    At,
    Try,
    StarConst,
    RefConst,
    PlusEquals,
    MinusEquals,
    StarEquals,
    SlashEquals,
    ModEquals,
    ShiftLeftEquals,
    ShiftRightEquals,
    XorEquals,
    OrEquals,
    AndEquals,
    Other,
}

/// A lexical token together with the place in the source it was read from.
#[derive(Debug, PartialEq)]
pub struct Token {
    pub source: String,
    pub filename: String,
    pub type_: TokenType,
    pub lexeme: String,
    pub pos: usize,
    pub end: usize,
    pub line: usize,
}

impl Clone for Token {
    fn clone(&self) -> (res: Self)
        ensures
            res == *self,
    {
        Token {
            source: self.source.clone(),
            filename: self.filename.clone(),
            type_: self.type_,
            lexeme: self.lexeme.clone(),
            pos: self.pos,
            end: self.end,
            line: self.line,
        }
    }
}

impl Token {
    pub fn new(
        source: String,
        filename: String,
        type_: TokenType,
        lexeme: String,
        pos: usize,
        end: usize,
        line: usize,
    ) -> (res: Self)
        ensures
            res == (Token { source, filename, type_, lexeme, pos, end, line }),
    {
        Token { source, filename, type_, lexeme, pos, end, line }
    }

    /// A token that stands for no place in any source.
    pub fn empty() -> (res: Self)
        ensures
            res.source@ == Seq::<char>::empty(),
            res.filename@ == Seq::<char>::empty(),
            res.lexeme@ == Seq::<char>::empty(),
            res.type_ == TokenType::Other,
            res.pos == 0 && res.end == 0 && res.line == 0,
    {
        Token {
            source: String::new(),
            filename: String::new(),
            type_: TokenType::Other,
            lexeme: String::new(),
            pos: 0,
            end: 0,
            line: 0,
        }
    }

    /// An identifier token with the given lexeme and no place in any source.
    pub fn dummy(lexeme: String) -> (res: Self)
        ensures
            res.lexeme == lexeme,
            res.source@ == Seq::<char>::empty(),
            res.filename@ == Seq::<char>::empty(),
            res.type_ == TokenType::Identifier,
            res.pos == 0 && res.end == 0 && res.line == 0,
    {
        Token {
            source: String::new(),
            filename: String::new(),
            type_: TokenType::Identifier,
            lexeme,
            pos: 0,
            end: 0,
            line: 0,
        }
    }
}

} // verus!

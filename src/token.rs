//! The lexical categories the parser consumes.
use vstd::prelude::*;
use vstd::string::StringExecFns;

verus! {

/// One lexical token. Keywords, punctuation and operators carry nothing;
/// identifiers and literals carry their text (or value, for booleans).
#[derive(Debug, Clone, PartialEq)]
pub enum Token {
    Identifier(String),
    IntegerLiteral(String),
    FloatLiteral(String),
    Boolean(bool),
    Let,
    Return,
    Type,
    Fn,
    If,
    Else,
    Of,
    KwSome,
    KwNone,
    KwOk,
    KwError,
    Assign,
    SemiColon,
    LeftParen,
    RightParen,
    LeftBrace,
    RightBrace,
    LeftBracket,
    RightBracket,
    Comma,
    Colon,
    Vbar,
    Arrow,
    Plus,
    Minus,
    Product,
    ForwardSlash,
    Modulo,
    Period,
    Equal,
    DoesNotEqual,
    LessThan,
    GreaterThan,
    LTOrEqual,
    GTOrEqual,
    Pipe,
    Cons,
    Concat,
    Ampersand,
    Caret,
    Bang,
    Tilde,
    IntName,
    FloatName,
    StrName,
    CharName,
    BoolName,
    UnitName,
    ListName,
    OptionName,
    ResultName,
    MapName,
    IntType,
    FloatType,
    StringType,
    CharType,
    BoolType,
    UnitType,
    /// End-of-stream sentinel; once reached, the stream yields it forever.
    End,
}

impl Token {
    /// A token without a payload: two such tokens are equal exactly when
    /// they are the same category.
    pub open spec fn is_plain(&self) -> bool {
        !(self is Identifier || self is IntegerLiteral || self is FloatLiteral || self is Boolean)
    }

    /// A copy of the token.
    pub fn duplicate(&self) -> (r: Token)
        ensures
            r == *self,
    {
        match self {
            Token::Identifier(s) => Token::Identifier(s.clone()),
            Token::IntegerLiteral(s) => Token::IntegerLiteral(s.clone()),
            Token::FloatLiteral(s) => Token::FloatLiteral(s.clone()),
            Token::Boolean(b) => Token::Boolean(*b),
            Token::Let => Token::Let,
            Token::Return => Token::Return,
            Token::Type => Token::Type,
            Token::Fn => Token::Fn,
            Token::If => Token::If,
            Token::Else => Token::Else,
            Token::Of => Token::Of,
            Token::KwSome => Token::KwSome,
            Token::KwNone => Token::KwNone,
            Token::KwOk => Token::KwOk,
            Token::KwError => Token::KwError,
            Token::Assign => Token::Assign,
            Token::SemiColon => Token::SemiColon,
            Token::LeftParen => Token::LeftParen,
            Token::RightParen => Token::RightParen,
            Token::LeftBrace => Token::LeftBrace,
            Token::RightBrace => Token::RightBrace,
            Token::LeftBracket => Token::LeftBracket,
            Token::RightBracket => Token::RightBracket,
            Token::Comma => Token::Comma,
            Token::Colon => Token::Colon,
            Token::Vbar => Token::Vbar,
            Token::Arrow => Token::Arrow,
            Token::Plus => Token::Plus,
            Token::Minus => Token::Minus,
            Token::Product => Token::Product,
            Token::ForwardSlash => Token::ForwardSlash,
            Token::Modulo => Token::Modulo,
            Token::Period => Token::Period,
            Token::Equal => Token::Equal,
            Token::DoesNotEqual => Token::DoesNotEqual,
            Token::LessThan => Token::LessThan,
            Token::GreaterThan => Token::GreaterThan,
            Token::LTOrEqual => Token::LTOrEqual,
            Token::GTOrEqual => Token::GTOrEqual,
            Token::Pipe => Token::Pipe,
            Token::Cons => Token::Cons,
            Token::Concat => Token::Concat,
            Token::Ampersand => Token::Ampersand,
            Token::Caret => Token::Caret,
            Token::Bang => Token::Bang,
            Token::Tilde => Token::Tilde,
            Token::IntName => Token::IntName,
            Token::FloatName => Token::FloatName,
            Token::StrName => Token::StrName,
            Token::CharName => Token::CharName,
            Token::BoolName => Token::BoolName,
            Token::UnitName => Token::UnitName,
            Token::ListName => Token::ListName,
            Token::OptionName => Token::OptionName,
            Token::ResultName => Token::ResultName,
            Token::MapName => Token::MapName,
            Token::IntType => Token::IntType,
            Token::FloatType => Token::FloatType,
            Token::StringType => Token::StringType,
            Token::CharType => Token::CharType,
            Token::BoolType => Token::BoolType,
            Token::UnitType => Token::UnitType,
            Token::End => Token::End,
        }
    }

    /// Whether this token is the payload-free token `want`.
    pub fn is(&self, want: &Token) -> (r: bool)
        requires
            want.is_plain(),
        ensures
            r == (*self == *want),
    {
        match want {
            Token::Identifier(_) => false,
            Token::IntegerLiteral(_) => false,
            Token::FloatLiteral(_) => false,
            Token::Boolean(_) => false,
            Token::Let => matches!(self, Token::Let),
            Token::Return => matches!(self, Token::Return),
            Token::Type => matches!(self, Token::Type),
            Token::Fn => matches!(self, Token::Fn),
            Token::If => matches!(self, Token::If),
            Token::Else => matches!(self, Token::Else),
            Token::Of => matches!(self, Token::Of),
            Token::KwSome => matches!(self, Token::KwSome),
            Token::KwNone => matches!(self, Token::KwNone),
            Token::KwOk => matches!(self, Token::KwOk),
            Token::KwError => matches!(self, Token::KwError),
            Token::Assign => matches!(self, Token::Assign),
            Token::SemiColon => matches!(self, Token::SemiColon),
            Token::LeftParen => matches!(self, Token::LeftParen),
            Token::RightParen => matches!(self, Token::RightParen),
            Token::LeftBrace => matches!(self, Token::LeftBrace),
            Token::RightBrace => matches!(self, Token::RightBrace),
            Token::LeftBracket => matches!(self, Token::LeftBracket),
            Token::RightBracket => matches!(self, Token::RightBracket),
            Token::Comma => matches!(self, Token::Comma),
            Token::Colon => matches!(self, Token::Colon),
            Token::Vbar => matches!(self, Token::Vbar),
            Token::Arrow => matches!(self, Token::Arrow),
            Token::Plus => matches!(self, Token::Plus),
            Token::Minus => matches!(self, Token::Minus),
            Token::Product => matches!(self, Token::Product),
            Token::ForwardSlash => matches!(self, Token::ForwardSlash),
            Token::Modulo => matches!(self, Token::Modulo),
            Token::Period => matches!(self, Token::Period),
            Token::Equal => matches!(self, Token::Equal),
            Token::DoesNotEqual => matches!(self, Token::DoesNotEqual),
            Token::LessThan => matches!(self, Token::LessThan),
            Token::GreaterThan => matches!(self, Token::GreaterThan),
            Token::LTOrEqual => matches!(self, Token::LTOrEqual),
            Token::GTOrEqual => matches!(self, Token::GTOrEqual),
            Token::Pipe => matches!(self, Token::Pipe),
            Token::Cons => matches!(self, Token::Cons),
            Token::Concat => matches!(self, Token::Concat),
            Token::Ampersand => matches!(self, Token::Ampersand),
            Token::Caret => matches!(self, Token::Caret),
            Token::Bang => matches!(self, Token::Bang),
            Token::Tilde => matches!(self, Token::Tilde),
            Token::IntName => matches!(self, Token::IntName),
            Token::FloatName => matches!(self, Token::FloatName),
            Token::StrName => matches!(self, Token::StrName),
            Token::CharName => matches!(self, Token::CharName),
            Token::BoolName => matches!(self, Token::BoolName),
            Token::UnitName => matches!(self, Token::UnitName),
            Token::ListName => matches!(self, Token::ListName),
            Token::OptionName => matches!(self, Token::OptionName),
            Token::ResultName => matches!(self, Token::ResultName),
            Token::MapName => matches!(self, Token::MapName),
            Token::IntType => matches!(self, Token::IntType),
            Token::FloatType => matches!(self, Token::FloatType),
            Token::StringType => matches!(self, Token::StringType),
            Token::CharType => matches!(self, Token::CharType),
            Token::BoolType => matches!(self, Token::BoolType),
            Token::UnitType => matches!(self, Token::UnitType),
            Token::End => matches!(self, Token::End),
        }
    }

    /// The name of the token's category.
    pub open spec fn category(self) -> Seq<char> {
        match self {
            Token::Identifier(_) => "Identifier"@,
            Token::IntegerLiteral(_) => "IntegerLiteral"@,
            Token::FloatLiteral(_) => "FloatLiteral"@,
            Token::Boolean(_) => "Boolean"@,
            Token::Let => "Let"@,
            Token::Return => "Return"@,
            Token::Type => "Type"@,
            Token::Fn => "Fn"@,
            Token::If => "If"@,
            Token::Else => "Else"@,
            Token::Of => "Of"@,
            Token::KwSome => "KwSome"@,
            Token::KwNone => "KwNone"@,
            Token::KwOk => "KwOk"@,
            Token::KwError => "KwError"@,
            Token::Assign => "Assign"@,
            Token::SemiColon => "SemiColon"@,
            Token::LeftParen => "LeftParen"@,
            Token::RightParen => "RightParen"@,
            Token::LeftBrace => "LeftBrace"@,
            Token::RightBrace => "RightBrace"@,
            Token::LeftBracket => "LeftBracket"@,
            Token::RightBracket => "RightBracket"@,
            Token::Comma => "Comma"@,
            Token::Colon => "Colon"@,
            Token::Vbar => "Vbar"@,
            Token::Arrow => "Arrow"@,
            Token::Plus => "Plus"@,
            Token::Minus => "Minus"@,
            Token::Product => "Product"@,
            Token::ForwardSlash => "ForwardSlash"@,
            Token::Modulo => "Modulo"@,
            Token::Period => "Period"@,
            Token::Equal => "Equal"@,
            Token::DoesNotEqual => "DoesNotEqual"@,
            Token::LessThan => "LessThan"@,
            Token::GreaterThan => "GreaterThan"@,
            Token::LTOrEqual => "LTOrEqual"@,
            Token::GTOrEqual => "GTOrEqual"@,
            Token::Pipe => "Pipe"@,
            Token::Cons => "Cons"@,
            Token::Concat => "Concat"@,
            Token::Ampersand => "Ampersand"@,
            Token::Caret => "Caret"@,
            Token::Bang => "Bang"@,
            Token::Tilde => "Tilde"@,
            Token::IntName => "IntName"@,
            Token::FloatName => "FloatName"@,
            Token::StrName => "StrName"@,
            Token::CharName => "CharName"@,
            Token::BoolName => "BoolName"@,
            Token::UnitName => "UnitName"@,
            Token::ListName => "ListName"@,
            Token::OptionName => "OptionName"@,
            Token::ResultName => "ResultName"@,
            Token::MapName => "MapName"@,
            Token::IntType => "IntType"@,
            Token::FloatType => "FloatType"@,
            Token::StringType => "StringType"@,
            Token::CharType => "CharType"@,
            Token::BoolType => "BoolType"@,
            Token::UnitType => "UnitType"@,
            Token::End => "End"@,
        }
    }

    /// A short name of the token's category, for diagnostics.
    pub fn category_name(&self) -> (r: &'static str)
        ensures
            r@ == self.category(),
    {
        match self {
            Token::Identifier(_) => "Identifier",
            Token::IntegerLiteral(_) => "IntegerLiteral",
            Token::FloatLiteral(_) => "FloatLiteral",
            Token::Boolean(_) => "Boolean",
            Token::Let => "Let",
            Token::Return => "Return",
            Token::Type => "Type",
            Token::Fn => "Fn",
            Token::If => "If",
            Token::Else => "Else",
            Token::Of => "Of",
            Token::KwSome => "KwSome",
            Token::KwNone => "KwNone",
            Token::KwOk => "KwOk",
            Token::KwError => "KwError",
            Token::Assign => "Assign",
            Token::SemiColon => "SemiColon",
            Token::LeftParen => "LeftParen",
            Token::RightParen => "RightParen",
            Token::LeftBrace => "LeftBrace",
            Token::RightBrace => "RightBrace",
            Token::LeftBracket => "LeftBracket",
            Token::RightBracket => "RightBracket",
            Token::Comma => "Comma",
            Token::Colon => "Colon",
            Token::Vbar => "Vbar",
            Token::Arrow => "Arrow",
            Token::Plus => "Plus",
            Token::Minus => "Minus",
            Token::Product => "Product",
            Token::ForwardSlash => "ForwardSlash",
            Token::Modulo => "Modulo",
            Token::Period => "Period",
            Token::Equal => "Equal",
            Token::DoesNotEqual => "DoesNotEqual",
            Token::LessThan => "LessThan",
            Token::GreaterThan => "GreaterThan",
            Token::LTOrEqual => "LTOrEqual",
            Token::GTOrEqual => "GTOrEqual",
            Token::Pipe => "Pipe",
            Token::Cons => "Cons",
            Token::Concat => "Concat",
            Token::Ampersand => "Ampersand",
            Token::Caret => "Caret",
            Token::Bang => "Bang",
            Token::Tilde => "Tilde",
            Token::IntName => "IntName",
            Token::FloatName => "FloatName",
            Token::StrName => "StrName",
            Token::CharName => "CharName",
            Token::BoolName => "BoolName",
            Token::UnitName => "UnitName",
            Token::ListName => "ListName",
            Token::OptionName => "OptionName",
            Token::ResultName => "ResultName",
            Token::MapName => "MapName",
            Token::IntType => "IntType",
            Token::FloatType => "FloatType",
            Token::StringType => "StringType",
            Token::CharType => "CharType",
            Token::BoolType => "BoolType",
            Token::UnitType => "UnitType",
            Token::End => "End",
        }
    }

    /// The token as diagnostics show it: its category, and the text or value
    /// it carries.
    pub open spec fn described(self) -> Seq<char> {
        match self {
            Token::Identifier(s) => "Identifier("@ + s@ + ")"@,
            Token::IntegerLiteral(s) => "IntegerLiteral("@ + s@ + ")"@,
            Token::FloatLiteral(s) => "FloatLiteral("@ + s@ + ")"@,
            Token::Boolean(b) => if b {
                "Boolean(true)"@
            } else {
                "Boolean(false)"@
            },
            _ => self.category(),
        }
    }

    /// The token as diagnostics show it.
    pub fn describe(&self) -> (r: String)
        ensures
            r@ == self.described(),
    {
        match self {
            Token::Identifier(s) => wrapped("Identifier(", s),
            Token::IntegerLiteral(s) => wrapped("IntegerLiteral(", s),
            Token::FloatLiteral(s) => wrapped("FloatLiteral(", s),
            Token::Boolean(b) => if *b {
                "Boolean(true)".to_owned()
            } else {
                "Boolean(false)".to_owned()
            },
            _ => self.category_name().to_owned(),
        }
    }
}

/// `head`, then `s`, then a closing parenthesis.
fn wrapped(head: &str, s: &String) -> (r: String)
    ensures
        r@ == head@ + s@ + ")"@,
{
    let mut m = head.to_owned();
    m.append(s.as_str());
    m.append(")");
    m
}

} // verus!

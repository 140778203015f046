//! The abstract syntax tree the parser builds.
use vstd::prelude::*;
use crate::token::Token;

verus! {

/// A name as it was written: an identifier token, or a built-in type name
/// or the unit marker where the grammar admits those.
pub type Identifier = Token;

/// A program, or the statements of a block, in source order.
pub type Program = Vec<Statement>;

#[derive(Debug, PartialEq)]
pub enum Statement {
    Let(Identifier, Expression),
    Return(Expression),
    Expression(Expression),
    Type(Identifier, Type),
}

#[derive(Debug, PartialEq)]
pub enum Literal {
    Integer(i64),
    /// A floating-point literal, kept as its text, which reads as an `f64`;
    /// later stages turn it into a number.
    Float(String),
    Boolean(bool),
}

#[derive(Debug, Clone, Copy, PartialEq, Eq)]
pub enum Prefix {
    Bang,
    Minus,
    Plus,
}

#[derive(Debug, Clone, Copy, PartialEq, Eq)]
pub enum Infix {
    Plus,
    Minus,
    Product,
    ForwardSlash,
    Equal,
    DoesNotEqual,
    LessThan,
    GreaterThan,
    GTOrEqual,
    LTOrEqual,
    Pipe,
    Cons,
    Concat,
    Modulo,
    Period,
}

#[derive(Debug, PartialEq)]
pub enum Expression {
    Identifier(Identifier),
    Literal(Literal),
    Prefix(Prefix, Box<Expression>),
    Infix(Infix, Box<Expression>, Box<Expression>),
    If { condition: Box<Expression>, consequence: Program, alternative: Option<Program> },
    Function { parameters: Vec<Identifier>, body: Program },
    Call { function: Box<Expression>, arguments: Vec<Expression> },
    OptionSome(Box<Expression>),
    OptionNone,
    ResultOk(Box<Expression>),
    ResultErr(Box<Expression>),
}

/// The built-in type constructors.
#[derive(Debug, Clone, Copy, PartialEq, Eq)]
pub enum Constructor {
    Int,
    Float,
    Str,
    Char,
    Bool,
    Unit,
    List,
    OptionOf,
    ResultOf,
    MapOf,
}

#[derive(Debug, PartialEq)]
pub enum TypeConstructor {
    BuiltIn(Constructor),
    Custom(Identifier),
}

/// A type reference: a constructor applied to its type parameters.
#[derive(Debug, PartialEq)]
pub struct Alias {
    pub name: TypeConstructor,
    pub parameters: Vec<Alias>,
}

/// A type definition: an alias, a record or a union.
#[derive(Debug, PartialEq)]
pub enum Type {
    Alias(Alias),
    Record(Vec<(Identifier, Alias)>),
    Union(Vec<(Identifier, Option<Alias>)>),
}

} // verus!

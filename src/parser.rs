//! The parser: a two-token lookahead cursor over a token source, the
//! statement dispatcher, the precedence-climbing expression parser and the
//! type-declaration grammar.
use vstd::prelude::*;
use vstd::string::StringExecFns;
use crate::ast::{Alias, Constructor, Expression, Identifier, Infix, Literal, Prefix, Program, Statement, Type, TypeConstructor};
use crate::lexer::{Lexer, stream_len, token_at, lemma_pulled_all};
use crate::text::{integer_of, is_float_text, chars_of, parse_i64, check_float_text, starts_uppercase, uppercase_leading};
use crate::token::Token;

verus! {

/// Binding power of operators, from loosest to tightest.
#[derive(Debug, PartialEq, Eq, Clone, Copy, PartialOrd, Ord)]
pub enum Precedence {
    Lowest,
    /// `|>`
    Pipe,
    /// `==` and `/=`
    Equals,
    /// `<`, `>`, `<=` and `>=`
    LessGreater,
    /// `+` and `-`
    Sum,
    /// `*`, `/`, `%` and `.`
    Product,
    /// `::` and `++`
    Cons,
    /// Unary `-`, `!` and `+`
    Prefix,
    /// `&` and `^`; declared, but these are not read as binary operators.
    BitwiseOp,
    /// Function application, opened by `(`.
    Call,
}

impl Precedence {
    pub open spec fn rank(self) -> nat {
        match self {
            Precedence::Lowest => 0,
            Precedence::Pipe => 1,
            Precedence::Equals => 2,
            Precedence::LessGreater => 3,
            Precedence::Sum => 4,
            Precedence::Product => 5,
            Precedence::Cons => 6,
            Precedence::Prefix => 7,
            Precedence::BitwiseOp => 8,
            Precedence::Call => 9,
        }
    }

    /// The position of this level in the order from loosest to tightest.
    pub fn level(&self) -> (r: u8)
        ensures
            r == self.rank(),
    {
        match self {
            Precedence::Lowest => 0,
            Precedence::Pipe => 1,
            Precedence::Equals => 2,
            Precedence::LessGreater => 3,
            Precedence::Sum => 4,
            Precedence::Product => 5,
            Precedence::Cons => 6,
            Precedence::Prefix => 7,
            Precedence::BitwiseOp => 8,
            Precedence::Call => 9,
        }
    }
}

/// The binding power of `t` when it follows an operand.
pub open spec fn precedence_of(t: Token) -> Precedence {
    match t {
        Token::Pipe => Precedence::Pipe,
        Token::Equal | Token::DoesNotEqual => Precedence::Equals,
        Token::LessThan | Token::GreaterThan | Token::GTOrEqual | Token::LTOrEqual => {
            Precedence::LessGreater
        },
        Token::Plus | Token::Minus => Precedence::Sum,
        Token::Product | Token::ForwardSlash | Token::Period | Token::Modulo => Precedence::Product,
        Token::Cons | Token::Concat => Precedence::Cons,
        Token::Ampersand | Token::Caret => Precedence::BitwiseOp,
        Token::LeftParen => Precedence::Call,
        _ => Precedence::Lowest,
    }
}

fn token_to_precedence(token: &Token) -> (r: Precedence)
    ensures
        r == precedence_of(*token),
{
    match token {
        Token::Pipe => Precedence::Pipe,
        Token::Equal | Token::DoesNotEqual => Precedence::Equals,
        Token::LessThan | Token::GreaterThan | Token::GTOrEqual | Token::LTOrEqual => {
            Precedence::LessGreater
        },
        Token::Plus | Token::Minus => Precedence::Sum,
        Token::Product | Token::ForwardSlash | Token::Period | Token::Modulo => Precedence::Product,
        Token::Cons | Token::Concat => Precedence::Cons,
        Token::Ampersand | Token::Caret => Precedence::BitwiseOp,
        Token::LeftParen => Precedence::Call,
        _ => Precedence::Lowest,
    }
}

/// The binary operator that `t` stands for, if any.
pub open spec fn infix_of(t: Token) -> Option<Infix> {
    match t {
        Token::Plus => Some(Infix::Plus),
        Token::Minus => Some(Infix::Minus),
        Token::Product => Some(Infix::Product),
        Token::ForwardSlash => Some(Infix::ForwardSlash),
        Token::Equal => Some(Infix::Equal),
        Token::DoesNotEqual => Some(Infix::DoesNotEqual),
        Token::LessThan => Some(Infix::LessThan),
        Token::GreaterThan => Some(Infix::GreaterThan),
        Token::GTOrEqual => Some(Infix::GTOrEqual),
        Token::LTOrEqual => Some(Infix::LTOrEqual),
        Token::Pipe => Some(Infix::Pipe),
        Token::Cons => Some(Infix::Cons),
        Token::Concat => Some(Infix::Concat),
        Token::Modulo => Some(Infix::Modulo),
        Token::Period => Some(Infix::Period),
        _ => None,
    }
}

/// Every function parameter is an identifier or the unit marker.
pub open spec fn all_parameters(ps: Seq<Identifier>) -> bool {
    forall|i: int| 0 <= i < ps.len() ==> (#[trigger] ps[i] is Identifier || ps[i] is UnitName)
}

/// A function body ends in the value it produces: a `return` statement or
/// an expression statement.
pub open spec fn valid_body(body: Seq<Statement>) -> bool {
    body.len() > 0 && (body.last() is Return || body.last() is Expression)
}

/// The head of a type reference is admissible where types are named in
/// capitalised form: a built-in constructor, or a custom name that starts
/// with an uppercase letter.
pub open spec fn upper_name(c: TypeConstructor) -> bool {
    match c {
        TypeConstructor::BuiltIn(_) => true,
        TypeConstructor::Custom(t) => t matches Token::Identifier(s) && uppercase_leading(s@),
    }
}

/// A type reference whose head, and the heads of all its parameters, are
/// admissible.
pub open spec fn well_named(a: Alias) -> bool
    decreases a,
{
    &&& upper_name(a.name)
    &&& forall|i: int| 0 <= i < a.parameters.len() ==> well_named(#[trigger] a.parameters[i])
}

/// Every type a union variant carries is well named.
pub open spec fn variants_well_named(vs: Seq<(Identifier, Option<Alias>)>) -> bool {
    forall|i: int| #![trigger vs[i]] 0 <= i < vs.len() ==> (vs[i].1 matches Some(a) ==> well_named(a))
}

/// Every type reference of an alias or a union definition is well named.
pub open spec fn type_well_named(t: Type) -> bool {
    match t {
        Type::Alias(a) => well_named(a),
        Type::Union(vs) => variants_well_named(vs@),
        Type::Record(_) => true,
    }
}

/// Tokens that can begin an expression.
pub open spec fn starts_expression(t: Token) -> bool {
    match t {
        Token::Identifier(_) | Token::IntegerLiteral(_) | Token::FloatLiteral(_) | Token::Boolean(_)
        | Token::StrName | Token::IntName | Token::FloatName | Token::CharName | Token::BoolName
        | Token::ListName | Token::OptionName | Token::ResultName | Token::MapName | Token::UnitName
        | Token::Bang | Token::Minus | Token::Plus | Token::LeftParen | Token::If | Token::Fn
        | Token::KwSome | Token::KwNone | Token::KwOk | Token::KwError => true,
        _ => false,
    }
}

/// Tokens that continue an operand: a binary operator or the `(` of a call.
/// `&` and `^` have a level but no operator.
pub open spec fn continues_expression(t: Token) -> bool {
    infix_of(t) is Some || t is LeftParen
}

/// An operand is complete once the next token is `;`, binds no tighter than
/// the current level, or cannot continue an expression.
pub open spec fn stops(t: Token, p: Precedence) -> bool {
    t is SemiColon || precedence_of(t).rank() <= p.rank() || !continues_expression(t)
}

/// The expression a single token stands for, when it is one on its own.
pub open spec fn simple_operand(t: Token) -> Option<Expression> {
    match t {
        Token::Identifier(_) | Token::StrName | Token::IntName | Token::FloatName | Token::CharName
        | Token::BoolName | Token::ListName | Token::OptionName | Token::ResultName | Token::MapName
        | Token::UnitName => Some(Expression::Identifier(t)),
        Token::Boolean(b) => Some(Expression::Literal(Literal::Boolean(b))),
        Token::IntegerLiteral(s) => match integer_of(s@) {
            Some(v) => Some(Expression::Literal(Literal::Integer(v as i64))),
            None => None,
        },
        Token::KwNone => Some(Expression::OptionNone),
        _ => None,
    }
}

/// The built-in constructor a capitalised type name without parameters
/// stands for.
pub open spec fn plain_type_name(t: Token) -> Option<Constructor> {
    match t {
        Token::IntName => Some(Constructor::Int),
        Token::FloatName => Some(Constructor::Float),
        Token::StrName => Some(Constructor::Str),
        Token::CharName => Some(Constructor::Char),
        Token::BoolName => Some(Constructor::Bool),
        Token::UnitName => Some(Constructor::Unit),
        _ => None,
    }
}

/// The built-in constructor a capitalised type name with one parameter
/// stands for.
pub open spec fn generic_type_name(t: Token) -> Option<Constructor> {
    match t {
        Token::ListName => Some(Constructor::List),
        Token::OptionName => Some(Constructor::OptionOf),
        Token::ResultName => Some(Constructor::ResultOf),
        Token::MapName => Some(Constructor::MapOf),
        _ => None,
    }
}

/// The built-in constructor a lowercase primitive name of a record field
/// stands for.
pub open spec fn field_type_name(t: Token) -> Option<Constructor> {
    match t {
        Token::IntType => Some(Constructor::Int),
        Token::FloatType => Some(Constructor::Float),
        Token::StringType => Some(Constructor::Str),
        Token::CharType => Some(Constructor::Char),
        Token::BoolType => Some(Constructor::Bool),
        Token::UnitType => Some(Constructor::Unit),
        _ => None,
    }
}

/// `t` is a custom type name that starts with an uppercase letter.
pub open spec fn custom_type_name(t: Token) -> bool {
    t matches Token::Identifier(s) && uppercase_leading(s@)
}

/// The diagnostic for a custom type name that does not start with an
/// uppercase letter.
pub open spec fn custom_name_text(name: Seq<char>) -> Seq<char> {
    "Custom type identifier '"@ + name + "' must start with uppercase letter"@
}

/// `after` is `before` with one more diagnostic, in words, whose text is
/// `text`.
pub open spec fn one_message_added(after: Seq<ParseError>, before: Seq<ParseError>, text: Seq<char>) -> bool {
    &&& after.len() == before.len() + 1
    &&& after.drop_last() == before
    &&& (after.last() matches ParseError::Log(m) && m@ == text)
}

/// Where a comma-separated list of identifiers starting at `i` ends: the
/// index of its last identifier, if it is well formed.
pub open spec fn params_end(s: Seq<Token>, i: int) -> Option<int>
    decreases stream_len(s) - i,
{
    if !(token_at(s, i) is Identifier) {
        None
    } else if 0 <= i < stream_len(s) && token_at(s, i + 1) is Comma {
        params_end(s, i + 2)
    } else {
        Some(i)
    }
}

/// Where a type reference of aliases and unions starting at `i` ends: the
/// index of its last token, if it is well formed.
pub open spec fn type_ref_end(s: Seq<Token>, i: int) -> Option<int>
    decreases stream_len(s) - i,
{
    let t = token_at(s, i);
    if plain_type_name(t) is Some || custom_type_name(t) {
        Some(i)
    } else if generic_type_name(t) is Some && 0 <= i < stream_len(s) {
        type_ref_end(s, i + 1)
    } else {
        None
    }
}

/// `a` is the type reference of aliases and unions written from `i` on.
pub open spec fn type_ref_is(a: Alias, s: Seq<Token>, i: int) -> bool
    decreases a,
{
    let t = token_at(s, i);
    match generic_type_name(t) {
        Some(c) => a.name == TypeConstructor::BuiltIn(c) && a.parameters.len() == 1 && type_ref_is(
            a.parameters[0],
            s,
            i + 1,
        ),
        None => match plain_type_name(t) {
            Some(c) => a.name == TypeConstructor::BuiltIn(c) && a.parameters.len() == 0,
            None => a.name == TypeConstructor::Custom(t) && a.parameters.len() == 0,
        },
    }
}

/// Where the type of a record field starting at `i` ends: the index of its
/// last token, if it is well formed.
pub open spec fn field_ref_end(s: Seq<Token>, i: int) -> Option<int>
    decreases stream_len(s) - i,
{
    let t = token_at(s, i);
    if field_type_name(t) is Some || custom_type_name(t) {
        Some(i)
    } else if t is ListName && 0 <= i < stream_len(s) {
        field_ref_end(s, i + 1)
    } else {
        None
    }
}

/// `a` is the type of a record field written from `i` on.
pub open spec fn field_ref_is(a: Alias, s: Seq<Token>, i: int) -> bool
    decreases a,
{
    let t = token_at(s, i);
    if t is ListName {
        a.name == TypeConstructor::BuiltIn(Constructor::List) && a.parameters.len() == 1
            && field_ref_is(a.parameters[0], s, i + 1)
    } else {
        match field_type_name(t) {
            Some(c) => a.name == TypeConstructor::BuiltIn(c) && a.parameters.len() == 0,
            None => a.name == TypeConstructor::Custom(t) && a.parameters.len() == 0,
        }
    }
}

/// Where a variant `Name [of T]` starting at `j` ends.
pub open spec fn variant_end(s: Seq<Token>, j: int) -> Option<int> {
    if !(token_at(s, j) is Identifier) {
        None
    } else if token_at(s, j + 1) is Of {
        type_ref_end(s, j + 2)
    } else {
        Some(j)
    }
}

/// `v` is the variant written from `j` on.
pub open spec fn variant_is(v: (Identifier, Option<Alias>), s: Seq<Token>, j: int) -> bool {
    &&& v.0 == token_at(s, j)
    &&& if token_at(s, j + 1) is Of {
        v.1 matches Some(a) && type_ref_is(a, s, j + 2)
    } else {
        v.1 is None
    }
}

/// Where the union body whose `|` stands at `b` ends: the index of its
/// closing `;`, if it is well formed.
pub open spec fn union_end(s: Seq<Token>, b: int) -> Option<int>
    decreases stream_len(s) - b,
{
    match variant_end(s, b + 1) {
        None => None,
        Some(k) => if b < k && k < stream_len(s) && token_at(s, k + 1) is Vbar {
            union_end(s, k + 1)
        } else if token_at(s, k + 1) is SemiColon {
            Some(k + 1)
        } else {
            None
        },
    }
}

/// The last index of the variants `vs`, written one after another from the
/// `|` at `b`, each behind a `|`.
pub open spec fn variants_span(vs: Seq<(Identifier, Option<Alias>)>, s: Seq<Token>, b: int) -> Option<int>
    decreases vs.len(),
{
    if vs.len() == 0 {
        Some(b - 1)
    } else {
        match variants_span(vs.drop_last(), s, b) {
            Some(p) => if token_at(s, p + 1) is Vbar && variant_is(vs.last(), s, p + 2) {
                variant_end(s, p + 2)
            } else {
                None
            },
            None => None,
        }
    }
}

/// Where an alias body starting at `i` ends: the index of its `;`.
pub open spec fn alias_end(s: Seq<Token>, i: int) -> Option<int> {
    match type_ref_end(s, i) {
        Some(k) => if token_at(s, k + 1) is SemiColon {
            Some(k + 1)
        } else {
            None
        },
        None => None,
    }
}

/// Where the field `name : t` that follows index `h` ends, with the comma
/// after it if there is one.
pub open spec fn field_end(s: Seq<Token>, h: int) -> Option<int> {
    if token_at(s, h + 1) is Identifier && token_at(s, h + 2) is Colon {
        match field_ref_end(s, h + 3) {
            Some(k) => Some(if token_at(s, k + 1) is Comma { k + 1 } else { k }),
            None => None,
        }
    } else {
        None
    }
}

/// `f` is the field written after index `h`.
pub open spec fn field_is(f: (Identifier, Alias), s: Seq<Token>, h: int) -> bool {
    f.0 == token_at(s, h + 1) && field_ref_is(f.1, s, h + 3)
}

/// Where the record body whose fields follow index `h` ends: the index of
/// the `;` after its closing brace, if it is well formed.
pub open spec fn record_end(s: Seq<Token>, h: int) -> Option<int>
    decreases stream_len(s) - h,
{
    if token_at(s, h + 1) is RightBrace {
        if token_at(s, h + 2) is SemiColon {
            Some(h + 2)
        } else {
            None
        }
    } else {
        match field_end(s, h) {
            Some(k) => if h < k && k <= stream_len(s) {
                record_end(s, k)
            } else {
                None
            },
            None => None,
        }
    }
}

/// The index after which the fields `fs`, written one after another from
/// index `h`, end.
pub open spec fn fields_span(fs: Seq<(Identifier, Alias)>, s: Seq<Token>, h: int) -> Option<int>
    decreases fs.len(),
{
    if fs.len() == 0 {
        Some(h)
    } else {
        match fields_span(fs.drop_last(), s, h) {
            Some(p) => if !(token_at(s, p + 1) is RightBrace) && field_is(fs.last(), s, p) {
                field_end(s, p)
            } else {
                None
            },
            None => None,
        }
    }
}

/// Where the declaration `type Name = ...` whose `type` stands at `t`
/// ends: the index of its closing `;`, if it is well formed.
pub open spec fn type_decl_end(s: Seq<Token>, t: int) -> Option<int> {
    if !(token_at(s, t + 1) is Identifier) || !(token_at(s, t + 2) is Assign) {
        None
    } else if token_at(s, t + 3) is Vbar {
        union_end(s, t + 3)
    } else if token_at(s, t + 3) is LeftBrace {
        record_end(s, t + 3)
    } else {
        alias_end(s, t + 3)
    }
}

/// `st` is the declaration written from `t` to `e`.
pub open spec fn type_decl_is(st: Statement, s: Seq<Token>, t: int, e: int) -> bool {
    match st {
        Statement::Type(name, def) => name == token_at(s, t + 1) && match def {
            Type::Union(vs) => token_at(s, t + 3) is Vbar && variants_span(vs@, s, t + 3) == Some(
                e - 1,
            ),
            Type::Record(fs) => token_at(s, t + 3) is LeftBrace && fields_span(fs@, s, t + 3) == Some(
                e - 2,
            ),
            Type::Alias(a) => !(token_at(s, t + 3) is Vbar) && !(token_at(s, t + 3) is LeftBrace)
                && type_ref_is(a, s, t + 3),
        },
        _ => false,
    }
}

/// How a parse from a given place turns out, where the grammar below
/// settles it: `None` leaves it open (the expression holds an `if`, a
/// function literal or a call), `Some(None)` is a failure, and
/// `Some(Some((e, k)))` is the expression `e` whose last token is at `k`.
pub type Outcome = Option<Option<(Expression, int)>>;

/// The result `r` and final index `k` of a parse agree with `o`.
pub open spec fn agrees(o: Outcome, r: Option<Expression>, k: int, quiet: bool) -> bool {
    match o {
        None => true,
        Some(None) => r is None,
        Some(Some((e, k0))) => r == Some(e) && k == k0 && quiet,
    }
}

/// The prefix operator `t` stands for.
pub open spec fn prefix_of(t: Token) -> Prefix {
    match t {
        Token::Bang => Prefix::Bang,
        Token::Minus => Prefix::Minus,
        _ => Prefix::Plus,
    }
}

/// The prefix form at `i`: an operand, a unary operator, a group, or a
/// `Some`/`Ok`/`Error` constructor.
pub open spec fn primary(s: Seq<Token>, i: int) -> Outcome
    decreases stream_len(s) - i, 1int,
{
    if !(0 <= i < stream_len(s)) {
        Some(None)
    } else {
        let t = s[i];
        match t {
            Token::FloatLiteral(text) => if is_float_text(text@) {
                Some(Some((Expression::Literal(Literal::Float(text)), i)))
            } else {
                Some(None)
            },
            Token::Bang | Token::Minus | Token::Plus => match expr(s, i + 1, Precedence::Prefix) {
                Some(Some((e, k))) => Some(Some((Expression::Prefix(prefix_of(t), Box::new(e)), k))),
                o => o,
            },
            Token::LeftParen => match expr(s, i + 1, Precedence::Lowest) {
                Some(Some((e, k))) => if token_at(s, k + 1) is RightParen {
                    Some(Some((e, k + 1)))
                } else {
                    Some(None)
                },
                o => o,
            },
            Token::KwSome => match expr(s, i + 1, Precedence::Lowest) {
                Some(Some((e, k))) => Some(Some((Expression::OptionSome(Box::new(e)), k))),
                o => o,
            },
            Token::KwOk => match expr(s, i + 1, Precedence::Lowest) {
                Some(Some((e, k))) => Some(Some((Expression::ResultOk(Box::new(e)), k))),
                o => o,
            },
            Token::KwError => match expr(s, i + 1, Precedence::Lowest) {
                Some(Some((e, k))) => Some(Some((Expression::ResultErr(Box::new(e)), k))),
                o => o,
            },
            Token::If | Token::Fn => None,
            _ => match simple_operand(t) {
                Some(e) => Some(Some((e, i))),
                None => Some(None),
            },
        }
    }
}

/// The expression at `i` read at level `p`: a prefix form, then the binary
/// operators that bind tighter than `p`.
pub open spec fn expr(s: Seq<Token>, i: int, p: Precedence) -> Outcome
    decreases stream_len(s) - i, 2int,
{
    match primary(s, i) {
        Some(Some((l, k))) => if i <= k <= stream_len(s) {
            climb(s, l, k, p)
        } else {
            None
        },
        o => o,
    }
}

/// The binary operator at `j` applied to `left` and the operand after it,
/// read at the operator's own level.
pub open spec fn infix_step(s: Seq<Token>, j: int, left: Expression) -> Outcome
    decreases stream_len(s) - j, 3int,
{
    if !(0 <= j < stream_len(s)) {
        Some(None)
    } else {
        match expr(s, j + 1, precedence_of(s[j])) {
            Some(Some((r, k))) => match infix_of(s[j]) {
                Some(op) => Some(Some((Expression::Infix(op, Box::new(left), Box::new(r)), k))),
                None => Some(None),
            },
            o => o,
        }
    }
}

/// Continues the operand `left`, whose last token is at `k`, with binary
/// operators that bind tighter than `p`.
pub open spec fn climb(s: Seq<Token>, left: Expression, k: int, p: Precedence) -> Outcome
    decreases stream_len(s) - k, 0int,
{
    let t = token_at(s, k + 1);
    if stops(t, p) {
        Some(Some((left, k)))
    } else if t is LeftParen || !(0 <= k + 1 < stream_len(s)) {
        None
    } else {
        match infix_step(s, k + 1, left) {
            Some(Some((e, k2))) => if k < k2 <= stream_len(s) {
                climb(s, e, k2, p)
            } else {
                None
            },
            o => o,
        }
    }
}

/// How a statement parse from a given place turns out, in the manner of
/// `Outcome`.
pub type StatementOutcome = Option<Option<(Statement, int)>>;

/// The result `r` and final index `k` of a statement parse agree with `o`.
pub open spec fn agrees_statement(o: StatementOutcome, r: Option<Statement>, k: int, quiet: bool) -> bool {
    match o {
        None => true,
        Some(None) => r is None,
        Some(Some((st, k0))) => r == Some(st) && k == k0 && quiet,
    }
}

/// The index of the last token of a statement whose expression ends at `k`:
/// a `;` right after it belongs to the statement.
pub open spec fn semicolon_end(s: Seq<Token>, k: int) -> int {
    if token_at(s, k + 1) is SemiColon {
        k + 1
    } else {
        k
    }
}

/// `let Name = e [;]` with its `let` at `i`.
pub open spec fn let_at(s: Seq<Token>, i: int) -> StatementOutcome {
    if !(token_at(s, i + 1) is Identifier) || !(token_at(s, i + 2) is Assign) {
        Some(None)
    } else {
        match expr(s, i + 3, Precedence::Lowest) {
            Some(Some((e, k))) => Some(Some((Statement::Let(token_at(s, i + 1), e), semicolon_end(s, k)))),
            Some(None) => Some(None),
            None => None,
        }
    }
}

/// `return e [;]` with its `return` at `i`.
pub open spec fn return_at(s: Seq<Token>, i: int) -> StatementOutcome {
    match expr(s, i + 1, Precedence::Lowest) {
        Some(Some((e, k))) => Some(Some((Statement::Return(e), semicolon_end(s, k)))),
        Some(None) => Some(None),
        None => None,
    }
}

/// `e [;]` starting at `i`.
pub open spec fn expression_statement_at(s: Seq<Token>, i: int) -> StatementOutcome {
    match expr(s, i, Precedence::Lowest) {
        Some(Some((e, k))) => Some(Some((Statement::Expression(e), semicolon_end(s, k)))),
        Some(None) => Some(None),
        None => None,
    }
}

/// The statement starting at `i`; type declarations are described by
/// `type_decl_end` and `type_decl_is`.
pub open spec fn statement_at(s: Seq<Token>, i: int) -> StatementOutcome {
    match token_at(s, i) {
        Token::Let => let_at(s, i),
        Token::Return => return_at(s, i),
        Token::Type => None,
        _ => expression_statement_at(s, i),
    }
}

/// Where the parser stands after a statement at `i` that fails, for the
/// failures that happen before anything is read: a `let` without a name or
/// without `=`, and a token that cannot begin an expression.
pub open spec fn statement_failure_end(s: Seq<Token>, i: int) -> Option<int> {
    match token_at(s, i) {
        Token::Let => if !(token_at(s, i + 1) is Identifier) {
            Some(i)
        } else if !(token_at(s, i + 2) is Assign) {
            Some(i + 1)
        } else {
            None
        },
        Token::Return | Token::Type => None,
        t => if !starts_expression(t) {
            Some(i)
        } else {
            None
        },
    }
}

/// The statements of the stream from index `i` on, and whether none failed.
/// Each statement is settled by `statement_at`; a failed one is dropped and
/// reading resumes one token after where it stopped (`statement_failure_end`).
/// `None` where that does not settle it.
pub open spec fn program_from(s: Seq<Token>, i: int) -> Option<(Seq<Statement>, bool)>
    decreases stream_len(s) - i,
{
    if !(0 <= i < stream_len(s)) {
        Some((Seq::empty(), true))
    } else {
        match statement_at(s, i) {
            Some(Some((st, k))) => if i <= k < stream_len(s) {
                match program_from(s, k + 1) {
                    Some((rest, clean)) => Some((seq![st] + rest, clean)),
                    None => None,
                }
            } else {
                None
            },
            Some(None) => match statement_failure_end(s, i) {
                Some(k) => if i <= k < stream_len(s) {
                    match program_from(s, k + 1) {
                        Some((rest, clean)) => Some((rest, false)),
                        None => None,
                    }
                } else {
                    None
                },
                None => None,
            },
            None => None,
        }
    }
}

/// A program read so far as `done`, with no failure if `clean`, followed by
/// `rest`, makes up `whole`.
pub open spec fn program_extends(
    whole: Option<(Seq<Statement>, bool)>,
    done: Seq<Statement>,
    clean: bool,
    rest: Option<(Seq<Statement>, bool)>,
) -> bool {
    match whole {
        None => true,
        Some((all, c)) => match rest {
            None => false,
            Some((more, c2)) => all == done + more && c == (clean && c2),
        },
    }
}

/// Where the parameters of a function literal that follow index `h` end:
/// the index of the `->`, if each is an identifier or the unit marker.
pub open spec fn fn_params_end(s: Seq<Token>, h: int) -> Option<int>
    decreases stream_len(s) - h,
{
    let t = token_at(s, h + 1);
    if t is Arrow {
        Some(h + 1)
    } else if (t is Identifier || t is UnitName) && 0 <= h + 1 < stream_len(s) {
        fn_params_end(s, if token_at(s, h + 2) is Comma { h + 2 } else { h + 1 })
    } else {
        None
    }
}

/// The index after which the parameters `ps`, written one after another
/// from index `h`, end.
pub open spec fn fn_params_span(ps: Seq<Identifier>, s: Seq<Token>, h: int) -> Option<int>
    decreases ps.len(),
{
    if ps.len() == 0 {
        Some(h)
    } else {
        match fn_params_span(ps.drop_last(), s, h) {
            Some(q) => if !(token_at(s, q + 1) is Arrow) && ps.last() == token_at(s, q + 1) {
                Some(if token_at(s, q + 2) is Comma { q + 2 } else { q + 1 })
            } else {
                None
            },
            None => None,
        }
    }
}

/// The single-line function literal whose `fn` is at `i` and whose `->` is
/// at `a` agrees with the result `r` and final index `k`.
pub open spec fn single_line_agrees(s: Seq<Token>, i: int, a: int, r: Option<Expression>, k: int, quiet: bool) -> bool {
    match expr(s, a + 1, Precedence::Lowest) {
        None => true,
        Some(None) => r is None,
        Some(Some((e, k0))) => if token_at(s, k0 + 1) is SemiColon {
            r matches Some(f) && (f matches Expression::Function { parameters, body } && fn_params_span(
                parameters@,
                s,
                i,
            ) == Some(a - 1) && body@ == seq![Statement::Expression(e)]) && k == k0 + 1 && quiet
        } else {
            r is None
        },
    }
}

/// The statements of a block from index `i` up to its closing brace (or the
/// end of the stream), where
/// each is settled by `statement_at` and none fails: the statements, the
/// index of the `}`, and whether the last one ended with a semicolon.
pub open spec fn block_from(s: Seq<Token>, i: int) -> Option<(Seq<Statement>, int, bool)>
    decreases stream_len(s) - i,
{
    if token_at(s, i) is RightBrace || !(0 <= i < stream_len(s)) {
        Some((Seq::empty(), i, false))
    } else {
        match statement_at(s, i) {
            Some(Some((st, k))) => if i <= k < stream_len(s) {
                match block_from(s, k + 1) {
                    Some((rest, e, semi)) => Some(
                        (
                            seq![st] + rest,
                            e,
                            if rest.len() == 0 {
                                token_at(s, k) is SemiColon
                            } else {
                                semi
                            },
                        ),
                    ),
                    None => None,
                }
            } else {
                None
            },
            _ => None,
        }
    }
}

/// A block read so far as `done`, whose last kept statement ended with a
/// semicolon when `semi` holds, followed by `rest`, makes up `whole`.
pub open spec fn block_extends(
    whole: Option<(Seq<Statement>, int, bool)>,
    done: Seq<Statement>,
    semi: bool,
    rest: Option<(Seq<Statement>, int, bool)>,
) -> bool {
    match whole {
        None => true,
        Some((all, e, last)) => match rest {
            None => false,
            Some((more, e2, last2)) => all == done + more && e == e2 && last == (if more.len() == 0 {
                semi
            } else {
                last2
            }),
        },
    }
}

/// The block-form function literal whose `fn` is at `i` and whose `->` is
/// at `a` agrees with the result `r` and final index `k`: it succeeds when
/// its body ends in a `return` or in an expression without a semicolon.
pub open spec fn block_form_agrees(s: Seq<Token>, i: int, a: int, r: Option<Expression>, k: int, quiet: bool) -> bool {
    match block_from(s, a + 2) {
        None => true,
        Some((st, e, semi)) => if st.len() > 0 && (st.last() is Return || (st.last() is Expression
            && !semi)) {
            r matches Some(f) && (f matches Expression::Function { parameters, body } && fn_params_span(
                parameters@,
                s,
                i,
            ) == Some(a - 1) && body@ == st) && k == e && quiet
        } else {
            r is None
        },
    }
}

/// `r` is the if-expression with condition `c`, consequence `cons` and
/// alternative `alt`.
pub open spec fn is_if(r: Option<Expression>, c: Expression, cons: Seq<Statement>, alt: Option<Seq<Statement>>) -> bool {
    match r {
        Some(Expression::If { condition, consequence, alternative }) => *condition == c && consequence@ == cons
            && match alternative {
            Some(a) => alt == Some(a@),
            None => alt is None,
        },
        _ => false,
    }
}

/// The if-expression whose `if` is at `i` agrees with the result `r` and
/// final index `k`.
pub open spec fn if_agrees(s: Seq<Token>, i: int, r: Option<Expression>, k: int, quiet: bool) -> bool {
    match expr(s, i + 1, Precedence::Lowest) {
        None => true,
        Some(None) => r is None,
        Some(Some((c, kc))) => if !(token_at(s, kc + 1) is LeftBrace) {
            r is None
        } else {
            match block_from(s, kc + 2) {
                None => true,
                Some((cons, e1, semi1)) => if !(token_at(s, e1 + 1) is Else) {
                    is_if(r, c, cons, None) && k == e1 && quiet
                } else if !(token_at(s, e1 + 2) is LeftBrace) {
                    r is None
                } else {
                    match block_from(s, e1 + 3) {
                        None => true,
                        Some((alt, e2, semi2)) => is_if(r, c, cons, Some(alt)) && k == e2 && quiet,
                    }
                },
            }
        },
    }
}

/// How a list of call arguments turns out, in the manner of `Outcome`:
/// the arguments and the index of the closing `)`.
pub type ArgumentsOutcome = Option<Option<(Seq<Expression>, int)>>;

/// `done` in front of the arguments that `o` describes.
pub open spec fn prepend_arguments(done: Seq<Expression>, o: ArgumentsOutcome) -> ArgumentsOutcome {
    match o {
        Some(Some((rest, c))) => Some(Some((done + rest, c))),
        o => o,
    }
}

/// The arguments from the one starting at `i` to the closing `)`.
pub open spec fn arguments_from(s: Seq<Token>, i: int) -> ArgumentsOutcome
    decreases stream_len(s) - i, 1int,
{
    match expr(s, i, Precedence::Lowest) {
        Some(Some((e, k))) => if 0 <= i <= k < stream_len(s) {
            prepend_arguments(seq![e], arguments_after(s, k))
        } else {
            None
        },
        Some(None) => Some(None),
        None => None,
    }
}

/// The arguments after the one that ends at `k`.
pub open spec fn arguments_after(s: Seq<Token>, k: int) -> ArgumentsOutcome
    decreases stream_len(s) - k, 0int,
{
    if token_at(s, k + 1) is Comma && 0 <= k + 1 < stream_len(s) {
        arguments_from(s, k + 2)
    } else if token_at(s, k + 1) is RightParen {
        Some(Some((Seq::empty(), k + 1)))
    } else {
        Some(None)
    }
}

/// The arguments of a call whose `(` is at `j`.
pub open spec fn call_arguments(s: Seq<Token>, j: int) -> ArgumentsOutcome {
    if token_at(s, j + 1) is RightParen {
        Some(Some((Seq::empty(), j + 1)))
    } else {
        arguments_from(s, j + 1)
    }
}

/// The call of `function` with the arguments that `o` describes agrees with
/// the result `r` and final index `k`.
pub open spec fn call_agrees(o: ArgumentsOutcome, function: Expression, r: Option<Expression>, k: int, quiet: bool) -> bool {
    match o {
        None => true,
        Some(None) => r is None,
        Some(Some((args, c))) => match r {
            Some(Expression::Call { function: f, arguments }) => *f == function && arguments@ == args
                && k == c && quiet,
            _ => false,
        },
    }
}

/// The diagnostic for a token that cannot begin an expression.
pub open spec fn no_prefix_text(t: Token) -> Seq<char> {
    "No prefix parse function for "@ + t.described() + " found"@
}

/// The diagnostic for numeric text that cannot be read as `kind`.
pub open spec fn unreadable_text(text: Seq<char>, kind: Seq<char>) -> Seq<char> {
    "Could not parse "@ + text + kind
}

/// `t` is numeric text that cannot be read.
pub open spec fn unreadable_number(t: Token) -> bool {
    match t {
        Token::IntegerLiteral(s) => integer_of(s@) is None,
        Token::FloatLiteral(s) => !is_float_text(s@),
        _ => false,
    }
}

/// A group opened at `i` whose expression is read but not closed.
pub open spec fn unclosed_group(s: Seq<Token>, i: int) -> bool {
    token_at(s, i) is LeftParen && match expr(s, i + 1, Precedence::Lowest) {
        Some(Some((e, k))) => !(token_at(s, k + 1) is RightParen),
        _ => false,
    }
}

/// Where the `)` of the group opened at `i` is due.
pub open spec fn group_close(s: Seq<Token>, i: int) -> int {
    match expr(s, i + 1, Precedence::Lowest) {
        Some(Some((e, k))) => k + 1,
        _ => i + 1,
    }
}

/// The diagnostic for a function literal whose `->` is at `a` and whose
/// body is read but badly shaped, if it is.
pub open spec fn body_failure_text(s: Seq<Token>, a: int) -> Option<Seq<char>> {
    if token_at(s, a + 1) is LeftBrace {
        match block_from(s, a + 2) {
            Some((st, e, semi)) => if st.len() == 0 {
                Some("Empty function body"@)
            } else if st.last() is Expression && semi {
                Some("Function block's last expression must not end with semicolon"@)
            } else if !(st.last() is Expression || st.last() is Return) {
                Some("Function block must end with expression or return statement"@)
            } else {
                None
            },
            None => None,
        }
    } else {
        match expr(s, a + 1, Precedence::Lowest) {
            Some(Some((e, k))) => if !(token_at(s, k + 1) is SemiColon) {
                Some("Single-line function body must end with semicolon"@)
            } else {
                None
            },
            _ => None,
        }
    }
}

/// The text of a custom type name at `i` that does not start with an
/// uppercase letter, if there is one.
pub open spec fn bad_type_name(s: Seq<Token>, i: int) -> Option<Seq<char>> {
    match token_at(s, i) {
        Token::Identifier(n) => if uppercase_leading(n@) {
            None
        } else {
            Some(n@)
        },
        _ => None,
    }
}

/// The diagnostic of a failed `expect_peek(want)` that found `got`.
pub open spec fn unexpected(want: Token, got: Token) -> ParseError {
    ParseError::UnexpectedToken { want: Some(want), got }
}

/// The last index of the variants of the union body whose `|` stands at
/// `b`, if each variant is well formed, whatever follows them.
pub open spec fn union_last(s: Seq<Token>, b: int) -> Option<int>
    decreases stream_len(s) - b,
{
    match variant_end(s, b + 1) {
        None => None,
        Some(k) => if b < k && k < stream_len(s) && token_at(s, k + 1) is Vbar {
            union_last(s, k + 1)
        } else {
            Some(k)
        },
    }
}

/// The index of the `}` of the record body whose fields follow index `h`,
/// if each field is well formed, whatever follows it.
pub open spec fn record_close(s: Seq<Token>, h: int) -> Option<int>
    decreases stream_len(s) - h,
{
    if token_at(s, h + 1) is RightBrace {
        Some(h + 1)
    } else {
        match field_end(s, h) {
            Some(k) => if h < k && k <= stream_len(s) {
                record_close(s, k)
            } else {
                None
            },
            None => None,
        }
    }
}

/// Every type declaration among `stmts` is well named.
pub open spec fn declarations_well_named(stmts: Seq<Statement>) -> bool {
    forall|i: int| #![trigger stmts[i]] 0 <= i < stmts.len() ==> (stmts[i] matches Statement::Type(_, t) ==> type_well_named(t))
}

/// A diagnostic.
#[derive(Debug, Clone, PartialEq)]
pub enum ParseError {
    /// A required token was missing: `want` was expected where `got` stood.
    UnexpectedToken { want: Option<Token>, got: Token },
    /// Any other diagnostic, in words.
    Log(String),
}

pub type ParseErrors = Vec<ParseError>;

/// Joins three pieces of text into a diagnostic message.
fn message(a: &str, b: &str, c: &str) -> (r: String)
    ensures
        r@ == a@ + b@ + c@,
{
    let mut m = a.to_owned();
    m.append(b);
    m.append(c);
    m
}

/// Joins two pieces of text into a diagnostic message.
fn message2(a: &str, b: &str) -> (r: String)
    ensures
        r@ == a@ + b@,
{
    let mut m = a.to_owned();
    m.append(b);
    m
}

/// A parsing session: a token source, the two-token cursor over it, and the
/// diagnostics collected so far.
pub struct Parser {
    pub lexer: Lexer,
    pub curr: Token,
    pub peek: Token,
    pub errors: ParseErrors,
}

impl Parser {
    /// The cursor is consistent with its source: the end sentinel, once in
    /// the cursor, is all that follows.
    pub open spec fn wf(&self) -> bool {
        &&& self.lexer.wf()
        &&& self.curr is End ==> self.peek is End
        &&& self.peek is End ==> self.lexer.left() == 0
        &&& self.lexer.pulled() + self.lexer.left() == stream_len(self.tokens())
        &&& self.curr == token_at(self.tokens(), self.pos())
        &&& self.peek == token_at(self.tokens(), self.pos() + 1)
    }

    /// Index in the stream of the token in `curr`.
    pub open spec fn pos(&self) -> int {
        stream_len(self.tokens()) - self.remaining()
    }

    /// Real tokens not yet consumed: those in the cursor and those the
    /// source has still to hand out.
    pub open spec fn remaining(&self) -> nat {
        (if self.curr is End { 0nat } else { 1nat }) + (if self.peek is End { 0nat } else { 1nat })
            + self.lexer.left()
    }

    /// The token sequence this session reads.
    pub open spec fn tokens(&self) -> Seq<Token> {
        self.lexer.tokens()
    }

    /// `self` is a later state of the session `before`: same tokens, none
    /// given back, and the diagnostics of `before` kept in front.
    pub open spec fn follows(&self, before: &Parser) -> bool {
        &&& self.wf()
        &&& self.tokens() == before.tokens()
        &&& self.remaining() <= before.remaining()
        &&& self.errors@.len() >= before.errors@.len()
        &&& forall|i: int| 0 <= i < before.errors@.len() ==> #[trigger] self.errors@[i] == before.errors@[i]
    }

    /// At least one diagnostic was added since `before`.
    pub open spec fn reported(&self, before: &Parser) -> bool {
        self.errors@.len() > before.errors@.len()
    }

    /// A session over `lexer`, with both cursor slots filled.
    pub fn new(lexer: Lexer) -> (r: Parser)
        requires
            lexer.wf(),
            lexer.pulled() == 0,
        ensures
            r.wf(),
            r.tokens() == lexer.tokens(),
            r.remaining() == stream_len(lexer.tokens()),
            r.errors@.len() == 0,
            r.curr == token_at(lexer.tokens(), 0),
            r.peek == token_at(lexer.tokens(), 1),
            r.pos() == 0,
            r.lexer.pulled() == if stream_len(lexer.tokens()) < 2 { stream_len(lexer.tokens()) } else { 2 },
    {
        proof {
            lexer.lemma_counts();
        }
        let mut lexer = lexer;
        let curr = lexer.advance();
        let peek = lexer.advance();
        Parser { lexer, curr, peek, errors: Vec::new() }
    }

    /// Shifts `peek` into `curr` and pulls the next token into `peek`.
    fn next_token(&mut self)
        requires
            old(self).wf(),
        ensures
            final(self).wf(),
            final(self).curr == old(self).peek,
            final(self).errors == old(self).errors,
            final(self).tokens() == old(self).tokens(),
            final(self).lexer.left() <= old(self).lexer.left(),
            !(old(self).curr is End) ==> final(self).remaining() + 1 == old(self).remaining(),
            old(self).curr is End ==> *final(self) == *old(self),
    {
        let mut p = Token::End;
        std::mem::swap(&mut p, &mut self.peek);
        self.curr = p;
        self.peek = self.lexer.advance();
    }

    fn push_error(&mut self, e: ParseError)
        requires
            old(self).wf(),
        ensures
            final(self).errors@ == old(self).errors@.push(e),
            final(self).errors@.drop_last() == old(self).errors@,
            final(self).follows(old(self)),
            final(self).reported(old(self)),
            final(self).curr == old(self).curr,
            final(self).peek == old(self).peek,
            final(self).remaining() == old(self).remaining(),
    {
        self.errors.push(e);
        assert(self.errors@.drop_last() =~= old(self).errors@);
    }

    fn parse_identifier(&self) -> (r: Option<Identifier>)
        ensures
            r is Some <==> self.curr is Identifier,
            r matches Some(t) ==> t == self.curr,
    {
        match self.curr {
            Token::Identifier(_) => Some(self.curr.duplicate()),
            _ => None,
        }
    }

    fn curr_token_is(&self, token: Token) -> (r: bool)
        requires
            token.is_plain(),
        ensures
            r == (self.curr == token),
    {
        self.curr.is(&token)
    }

    fn peek_token_is(&self, token: Token) -> (r: bool)
        requires
            token.is_plain(),
        ensures
            r == (self.peek == token),
    {
        self.peek.is(&token)
    }

    fn peek_error(&mut self, token: Token)
        requires
            old(self).wf(),
        ensures
            final(self).errors@ == old(self).errors@.push(unexpected(token, old(self).peek)),
            final(self).follows(old(self)),
            final(self).reported(old(self)),
            final(self).curr == old(self).curr,
            final(self).peek == old(self).peek,
            final(self).remaining() == old(self).remaining(),
    {
        let got = self.peek.duplicate();
        self.push_error(ParseError::UnexpectedToken { want: Some(token), got });
    }

    /// Moves on when `peek` is `token`; otherwise reports it and stays.
    fn expect_peek(&mut self, token: Token) -> (r: bool)
        requires
            old(self).wf(),
            token.is_plain(),
            !(token is End),
        ensures
            final(self).follows(old(self)),
            r == (old(self).peek == token),
            r ==> final(self).curr == token && final(self).remaining() < old(self).remaining()
                && final(self).errors == old(self).errors && final(self).pos() == old(self).pos() + 1,
            !r ==> final(self).reported(old(self)),
            !r ==> final(self).errors@ == old(self).errors@.push(unexpected(token, old(self).peek))
                && final(self).curr == old(self).curr && final(self).peek == old(self).peek
                && final(self).remaining() == old(self).remaining(),
    {
        if self.peek_token_is(token.duplicate()) {
            self.next_token();
            true
        } else {
            self.peek_error(token);
            false
        }
    }

    fn curr_precedence(&self) -> (r: Precedence)
        ensures
            r == precedence_of(self.curr),
    {
        token_to_precedence(&self.curr)
    }

    fn no_prefix_parse_fn_error(&mut self, t: Token)
        requires
            old(self).wf(),
        ensures
            final(self).curr == old(self).curr,
            one_message_added(final(self).errors@, old(self).errors@, no_prefix_text(t)),
            final(self).remaining() == old(self).remaining(),
            final(self).follows(old(self)),
            final(self).reported(old(self)),
    {
        let m = message("No prefix parse function for ", t.describe().as_str(), " found");
        self.push_error(ParseError::Log(m));
    }

    /// Reads the program: statements until the end of the stream. Statements
    /// that could not be built are left out; their diagnostics are kept.
    pub fn parse_program(&mut self) -> (r: Program)
        requires
            old(self).wf(),
        ensures
            final(self).follows(old(self)),
            final(self).remaining() == 0,
            final(self).curr is End,
            final(self).lexer.pulled() == stream_len(final(self).tokens()),
            declarations_well_named(r@),
            program_from(old(self).tokens(), old(self).pos()) matches Some((ps, clean)) ==> r@ == ps
                && (clean ==> final(self).errors == old(self).errors) && (!clean ==> final(self).reported(
                old(self),
            )),
            old(self).pos() < stream_len(old(self).tokens()) && statement_at(
                old(self).tokens(),
                old(self).pos(),
            ) == Some(None::<(Statement, int)>) ==> final(self).reported(old(self)),
    {
        let mut program: Program = Vec::new();
        let ghost mut clean = true;
        loop
            invariant
                self.follows(old(self)),
                declarations_well_named(program@),
                old(self).pos() < stream_len(old(self).tokens()) && statement_at(
                    old(self).tokens(),
                    old(self).pos(),
                ) == Some(None::<(Statement, int)>) && self.pos() != old(self).pos() ==> self.reported(
                    old(self),
                ),
                program_from(self.tokens(), old(self).pos()) is Some ==> (clean ==> self.errors == old(
                    self,
                ).errors) && (!clean ==> self.reported(old(self))),
                program_extends(
                    program_from(self.tokens(), old(self).pos()),
                    program@,
                    clean,
                    program_from(self.tokens(), self.pos()),
                ),
            ensures
                self.follows(old(self)),
                self.curr is End,
                declarations_well_named(program@),
                program_from(self.tokens(), old(self).pos()) matches Some((ps, c)) ==> ps == program@
                    && c == clean && (clean ==> self.errors == old(self).errors) && (!clean ==> self.reported(
                    old(self),
                )),
            decreases self.remaining(),
        {
            if self.curr_token_is(Token::End) {
                assert(program@ + Seq::<Statement>::empty() =~= program@);
                break;
            }
            let ghost before = program@;
            if let Some(statement) = self.parse_statement() {
                program.push(statement);
                assert(program@ =~= before + seq![statement]);
            } else {
                proof {
                    clean = false;
                }
            }
            if self.curr_token_is(Token::End) {
                break;
            }
            self.next_token();
            proof {
                let s = self.tokens();
                match program_from(s, self.pos()) {
                    Some((more, c2)) => {
                        if program@.len() > before.len() {
                            assert(before + (seq![program@.last()] + more) =~= program@ + more);
                        }
                    },
                    None => {},
                }
            }
        }
        proof {
            lemma_pulled_all(&self.lexer);
        }
        program
    }

    fn parse_statement(&mut self) -> (r: Option<Statement>)
        requires
            old(self).wf(),
        ensures
            final(self).follows(old(self)),
            r is None ==> final(self).reported(old(self)),
            r matches Some(Statement::Type(_, t)) ==> type_well_named(t),
            r is Some && old(self).curr is Let ==> r->0 is Let,
            r is Some && old(self).curr is Return ==> r->0 is Return,
            r is Some && old(self).curr is Type ==> r->0 is Type,
            r is Some && !(old(self).curr is Let || old(self).curr is Return || old(self).curr is Type)
                ==> r->0 is Expression,
            agrees_statement(statement_at(old(self).tokens(), old(self).pos()), r, final(self).pos(), final(self).errors == old(self).errors),
            old(self).curr is Type ==> (r is Some <==> type_decl_end(old(self).tokens(), old(self).pos()) is Some),
            old(self).curr is Type ==> (r matches Some(st) ==> type_decl_is(st, old(self).tokens(), old(self).pos(), final(self).pos())),
            statement_failure_end(old(self).tokens(), old(self).pos()) matches Some(k) ==> r is None
                && final(self).pos() == k,
        decreases old(self).remaining(), 6nat,
    {
        match self.curr {
            Token::Let => self.parse_let_statement(),
            Token::Return => self.parse_return_statement(),
            Token::Type => self.parse_type_statement(),
            _ => self.parse_expression_statement(),
        }
    }

    fn parse_return_statement(&mut self) -> (r: Option<Statement>)
        requires
            old(self).wf(),
            old(self).curr is Return,
        ensures
            final(self).follows(old(self)),
            r is None ==> final(self).reported(old(self)),
            r is Some ==> r->0 is Return,
            agrees_statement(return_at(old(self).tokens(), old(self).pos()), r, final(self).pos(), final(self).errors == old(self).errors),
        decreases old(self).remaining(), 5nat,
    {
        self.next_token();
        let expr = match self.parse_expression(Precedence::Lowest) {
            Some(expr) => expr,
            None => return None,
        };
        if self.peek_token_is(Token::SemiColon) {
            self.next_token();
        }
        Some(Statement::Return(expr))
    }

    fn parse_let_statement(&mut self) -> (r: Option<Statement>)
        requires
            old(self).wf(),
            old(self).curr is Let,
        ensures
            final(self).follows(old(self)),
            r is None ==> final(self).reported(old(self)),
            r is Some ==> (r->0 matches Statement::Let(name, _) && name == old(self).peek),
            !(old(self).peek is Identifier) ==> r is None && one_message_added(
                final(self).errors@,
                old(self).errors@,
                "Expected identifier after let, got "@ + old(self).peek.described(),
            ),
            old(self).peek is Identifier && !(token_at(old(self).tokens(), old(self).pos() + 2) is Assign) ==> r is None
                && final(self).errors@ == old(self).errors@.push(unexpected(Token::Assign, token_at(old(self).tokens(), old(self).pos() + 2))),
            agrees_statement(let_at(old(self).tokens(), old(self).pos()), r, final(self).pos(), final(self).errors == old(self).errors),
            !(old(self).peek is Identifier) ==> final(self).pos() == old(self).pos(),
            old(self).peek is Identifier && !(token_at(old(self).tokens(), old(self).pos() + 2) is Assign)
                ==> final(self).pos() == old(self).pos() + 1,
        decreases old(self).remaining(), 5nat,
    {
        match &self.peek {
            Token::Identifier(_) => self.next_token(),
            _ => {
                let m = message2("Expected identifier after let, got ", self.peek.describe().as_str());
                self.push_error(ParseError::Log(m));
                return None;
            },
        }
        let ident = match self.parse_identifier() {
            Some(ident) => ident,
            None => return None,
        };
        if !self.expect_peek(Token::Assign) {
            return None;
        }
        self.next_token();
        let expr = match self.parse_expression(Precedence::Lowest) {
            Some(expr) => expr,
            None => return None,
        };
        if self.peek_token_is(Token::SemiColon) {
            self.next_token();
        }
        Some(Statement::Let(ident, expr))
    }

    fn parse_expression_statement(&mut self) -> (r: Option<Statement>)
        requires
            old(self).wf(),
        ensures
            final(self).follows(old(self)),
            r is None ==> final(self).reported(old(self)),
            r is Some ==> r->0 is Expression,
            agrees_statement(expression_statement_at(old(self).tokens(), old(self).pos()), r, final(self).pos(), final(self).errors == old(self).errors),
            !starts_expression(old(self).curr) ==> r is None && final(self).pos() == old(self).pos(),
        decreases old(self).remaining(), 5nat,
    {
        let expr = match self.parse_expression(Precedence::Lowest) {
            Some(e) => e,
            None => return None,
        };
        if self.peek_token_is(Token::SemiColon) {
            self.next_token();
        }
        Some(Statement::Expression(expr))
    }

    fn parse_type_statement(&mut self) -> (r: Option<Statement>)
        requires
            old(self).wf(),
            old(self).curr is Type,
        ensures
            final(self).follows(old(self)),
            r is None ==> final(self).reported(old(self)),
            r is Some ==> r->0 is Type,
            r matches Some(Statement::Type(_, t)) ==> type_well_named(t),
            r is Some <==> type_decl_end(old(self).tokens(), old(self).pos()) is Some,
            r matches Some(st) ==> type_decl_is(st, old(self).tokens(), old(self).pos(), final(self).pos())
                && Some(final(self).pos()) == type_decl_end(old(self).tokens(), old(self).pos()),
            r is Some ==> final(self).errors == old(self).errors,
            !(token_at(old(self).tokens(), old(self).pos() + 1) is Identifier) ==> r is None
                && one_message_added(
                final(self).errors@,
                old(self).errors@,
                "Expected type name after type, got "@ + token_at(old(self).tokens(), old(self).pos() + 1).described(),
            ),
            token_at(old(self).tokens(), old(self).pos() + 1) is Identifier && token_at(old(self).tokens(), old(self).pos() + 2) is Assign
                && !(token_at(old(self).tokens(), old(self).pos() + 3) is Vbar)
                && !(token_at(old(self).tokens(), old(self).pos() + 3) is LeftBrace) ==> (bad_type_name(
                old(self).tokens(),
                old(self).pos() + 3,
            ) matches Some(n) ==> r is None && one_message_added(final(self).errors@, old(self).errors@, custom_name_text(n))),
        decreases old(self).remaining(), 5nat,
    {
        self.next_token();
        let name = match self.parse_identifier() {
            Some(ident) => ident,
            None => {
                let m = message2("Expected type name after type, got ", self.curr.describe().as_str());
                self.push_error(ParseError::Log(m));
                return None;
            },
        };
        if !self.expect_peek(Token::Assign) {
            return None;
        }
        if self.peek_token_is(Token::Vbar) {
            self.next_token();
            let type_def = match self.parse_union_type() {
                Some(t) => t,
                None => return None,
            };
            return Some(Statement::Type(name, type_def));
        }
        self.next_token();
        let type_def = if self.curr_token_is(Token::LeftBrace) {
            match self.parse_record_type() {
                Some(t) => t,
                None => return None,
            }
        } else {
            match self.parse_type_alias() {
                Some(t) => t,
                None => return None,
            }
        };
        Some(Statement::Type(name, type_def))
    }

    /// Reads `| Name [of T] | ... ;` from the first `|` in `curr`.
    fn parse_union_type(&mut self) -> (r: Option<Type>)
        requires
            old(self).wf(),
            old(self).curr is Vbar,
        ensures
            final(self).follows(old(self)),
            r is None ==> final(self).reported(old(self)),
            r matches Some(t) ==> (t matches Type::Union(vs) && vs@.len() > 0
                && variants_well_named(vs@)),
            r is Some <==> union_end(old(self).tokens(), old(self).pos()) is Some,
            r matches Some(t) ==> (t matches Type::Union(vs) && variants_span(
                vs@,
                old(self).tokens(),
                old(self).pos(),
            ) == Some(final(self).pos() - 1) && Some(final(self).pos()) == union_end(
                old(self).tokens(),
                old(self).pos(),
            )),
            r is Some ==> final(self).errors == old(self).errors,
            union_last(old(self).tokens(), old(self).pos()) matches Some(k) ==> (!(token_at(
                old(self).tokens(),
                k + 1,
            ) is SemiColon) ==> r is None && final(self).errors@ == old(self).errors@.push(
                unexpected(Token::SemiColon, token_at(old(self).tokens(), k + 1)),
            )),
    {
        let mut variants: Vec<(Identifier, Option<Alias>)> = Vec::new();
        loop
            invariant_except_break
                !(self.curr is End),
                self.curr is Vbar,
                variants_span(variants@, self.tokens(), old(self).pos()) == Some(self.pos() - 1),
                union_end(self.tokens(), old(self).pos()) == union_end(self.tokens(), self.pos()),
                union_last(self.tokens(), old(self).pos()) == union_last(self.tokens(), self.pos()),
            invariant
                self.follows(old(self)),
                self.errors == old(self).errors,
                variants_well_named(variants@),
                old(self).pos() <= self.pos(),
            ensures
                self.follows(old(self)),
                self.errors == old(self).errors,
                variants@.len() > 0,
                variants_well_named(variants@),
                variants_span(variants@, self.tokens(), old(self).pos()) == Some(self.pos()),
                !(self.peek is Vbar),
                union_last(self.tokens(), old(self).pos()) == Some(self.pos()),
                union_end(self.tokens(), old(self).pos()) == (if self.peek is SemiColon {
                    Some(self.pos() + 1)
                } else {
                    None
                }),
            decreases self.remaining(),
        {
            self.next_token();
            if let Token::Identifier(_) = &self.curr {
                let variant_name = self.curr.duplicate();
                let associated_type = if self.peek_token_is(Token::Of) {
                    self.next_token();
                    self.next_token();
                    match self.parse_type_annotation() {
                        Some(a) => Some(a),
                        None => return None,
                    }
                } else {
                    None
                };
                let ghost before = variants@;
                variants.push((variant_name, associated_type));
                assert(variants@.drop_last() =~= before);
                if !self.peek_token_is(Token::Vbar) {
                    break;
                }
                self.next_token();
            } else {
                let m = message2("Expected variant name, got ", self.curr.describe().as_str());
                self.push_error(ParseError::Log(m));
                return None;
            }
        }
        if !self.expect_peek(Token::SemiColon) {
            return None;
        }
        Some(Type::Union(variants))
    }

    /// Reads `{ field: t, ... };` from the opening brace in `curr`.
    fn parse_record_type(&mut self) -> (r: Option<Type>)
        requires
            old(self).wf(),
            old(self).curr is LeftBrace,
        ensures
            final(self).follows(old(self)),
            r is None ==> final(self).reported(old(self)),
            r is Some ==> r->0 is Record,
            r is Some <==> record_end(old(self).tokens(), old(self).pos()) is Some,
            r matches Some(t) ==> (t matches Type::Record(fs) && fields_span(
                fs@,
                old(self).tokens(),
                old(self).pos(),
            ) == Some(final(self).pos() - 2) && Some(final(self).pos()) == record_end(
                old(self).tokens(),
                old(self).pos(),
            )),
            r is Some ==> final(self).errors == old(self).errors,
            record_close(old(self).tokens(), old(self).pos()) matches Some(c) ==> (!(token_at(
                old(self).tokens(),
                c + 1,
            ) is SemiColon) ==> r is None && final(self).errors@ == old(self).errors@.push(
                unexpected(Token::SemiColon, token_at(old(self).tokens(), c + 1)),
            )),
    {
        let mut fields: Vec<(Identifier, Alias)> = Vec::new();
        while !self.peek_token_is(Token::RightBrace)
            invariant
                self.follows(old(self)),
                !(self.curr is End),
                old(self).pos() <= self.pos(),
                fields_span(fields@, self.tokens(), old(self).pos()) == Some(self.pos()),
                self.errors == old(self).errors,
                record_end(self.tokens(), old(self).pos()) == record_end(self.tokens(), self.pos()),
                record_close(self.tokens(), old(self).pos()) == record_close(self.tokens(), self.pos()),
            decreases self.remaining(),
        {
            self.next_token();
            let field_name = if let Token::Identifier(_) = &self.curr {
                self.curr.duplicate()
            } else {
                let m = message2("Expected field name, got ", self.curr.describe().as_str());
                self.push_error(ParseError::Log(m));
                return None;
            };
            if !self.expect_peek(Token::Colon) {
                return None;
            }
            self.next_token();
            let type_ann = match self.parse_record_type_annotation() {
                Some(a) => a,
                None => return None,
            };
            let ghost before = fields@;
            fields.push((field_name, type_ann));
            assert(fields@.drop_last() =~= before);
            if self.peek_token_is(Token::Comma) {
                self.next_token();
            }
        }
        if !self.expect_peek(Token::RightBrace) || !self.expect_peek(Token::SemiColon) {
            return None;
        }
        Some(Type::Record(fields))
    }

    fn parse_type_alias(&mut self) -> (r: Option<Type>)
        requires
            old(self).wf(),
        ensures
            final(self).follows(old(self)),
            r is None ==> final(self).reported(old(self)),
            r matches Some(t) ==> (t matches Type::Alias(a) && well_named(a)),
            r is Some <==> alias_end(old(self).tokens(), old(self).pos()) is Some,
            r matches Some(t) ==> (t matches Type::Alias(a) && type_ref_is(a, old(self).tokens(), old(self).pos())),
            r is Some ==> Some(final(self).pos()) == alias_end(old(self).tokens(), old(self).pos()),
            r is Some ==> final(self).errors == old(self).errors,
            bad_type_name(old(self).tokens(), old(self).pos()) matches Some(n) ==> r is None
                && one_message_added(final(self).errors@, old(self).errors@, custom_name_text(n)),
    {
        let type_ann = match self.parse_type_annotation() {
            Some(a) => a,
            None => return None,
        };
        if !self.expect_peek(Token::SemiColon) {
            return None;
        }
        Some(Type::Alias(type_ann))
    }

    /// Reads a type reference in the vocabulary of aliases and unions:
    /// capitalised built-in names, or a custom name that starts with an
    /// uppercase letter.
    fn parse_type_annotation(&mut self) -> (r: Option<Alias>)
        requires
            old(self).wf(),
        ensures
            final(self).follows(old(self)),
            r is None ==> final(self).reported(old(self)),
            r matches Some(a) ==> well_named(a),
            r is Some ==> !(final(self).curr is End),
            r is Some <==> type_ref_end(old(self).tokens(), old(self).pos()) is Some,
            r matches Some(a) ==> type_ref_is(a, old(self).tokens(), old(self).pos()) && Some(
                final(self).pos(),
            ) == type_ref_end(old(self).tokens(), old(self).pos()),
            old(self).curr matches Token::Identifier(s) ==> (!uppercase_leading(s@) ==> r is None
                && one_message_added(final(self).errors@, old(self).errors@, custom_name_text(s@))),
            plain_type_name(old(self).curr) matches Some(c) ==> (r matches Some(a) && a.name
                == TypeConstructor::BuiltIn(c) && a.parameters@.len() == 0),
            generic_type_name(old(self).curr) matches Some(c) ==> (r is None || (r matches Some(a)
                && a.name == TypeConstructor::BuiltIn(c) && a.parameters@.len() == 1)),
            custom_type_name(old(self).curr) ==> (r matches Some(a) && a.name
                == TypeConstructor::Custom(old(self).curr) && a.parameters@.len() == 0),
            plain_type_name(old(self).curr) is None && generic_type_name(old(self).curr) is None
                && !custom_type_name(old(self).curr) ==> r is None,
            r is Some ==> final(self).errors == old(self).errors,
            plain_type_name(old(self).curr) is Some || custom_type_name(old(self).curr) ==> *final(self) == *old(self),
        decreases old(self).remaining(),
    {
        let builtin = match &self.curr {
            Token::IntName => Some(Constructor::Int),
            Token::FloatName => Some(Constructor::Float),
            Token::StrName => Some(Constructor::Str),
            Token::CharName => Some(Constructor::Char),
            Token::BoolName => Some(Constructor::Bool),
            Token::UnitName => Some(Constructor::Unit),
            _ => None,
        };
        if let Some(c) = builtin {
            return Some(Alias { name: TypeConstructor::BuiltIn(c), parameters: Vec::new() });
        }
        let generic = match &self.curr {
            Token::ListName => Some(Constructor::List),
            Token::OptionName => Some(Constructor::OptionOf),
            Token::ResultName => Some(Constructor::ResultOf),
            Token::MapName => Some(Constructor::MapOf),
            _ => None,
        };
        if let Some(c) = generic {
            self.next_token();
            let param = match self.parse_type_annotation() {
                Some(a) => a,
                None => return None,
            };
            let r = Alias { name: TypeConstructor::BuiltIn(c), parameters: vec![param] };
            return Some(r);
        }
        match &self.curr {
            Token::Identifier(name) => {
                if !starts_uppercase(name) {
                    let m = message(
                        "Custom type identifier '",
                        name.as_str(),
                        "' must start with uppercase letter",
                    );

                    self.push_error(ParseError::Log(m));
                    return None;
                }
                Some(Alias { name: TypeConstructor::Custom(self.curr.duplicate()), parameters: Vec::new() })
            },
            _ => {
                let m = message2("Expected type name, got ", self.curr.describe().as_str());
                self.push_error(ParseError::Log(m));
                None
            },
        }
    }

    /// Reads the type of a record field: lowercase primitive names, `List`
    /// of a field type, or a custom name that starts with an uppercase
    /// letter.
    fn parse_record_type_annotation(&mut self) -> (r: Option<Alias>)
        requires
            old(self).wf(),
        ensures
            final(self).follows(old(self)),
            r is None ==> final(self).reported(old(self)),
            r is Some ==> !(final(self).curr is End),
            r is Some <==> field_ref_end(old(self).tokens(), old(self).pos()) is Some,
            r matches Some(a) ==> field_ref_is(a, old(self).tokens(), old(self).pos()) && Some(
                final(self).pos(),
            ) == field_ref_end(old(self).tokens(), old(self).pos()),
            old(self).curr matches Token::Identifier(s) ==> (!uppercase_leading(s@) ==> r is None
                && one_message_added(final(self).errors@, old(self).errors@, custom_name_text(s@))),
            field_type_name(old(self).curr) matches Some(c) ==> (r matches Some(a) && a.name
                == TypeConstructor::BuiltIn(c) && a.parameters@.len() == 0),
            old(self).curr is ListName ==> (r is None || (r matches Some(a) && a.name
                == TypeConstructor::BuiltIn(Constructor::List) && a.parameters@.len() == 1)),
            custom_type_name(old(self).curr) ==> (r matches Some(a) && a.name
                == TypeConstructor::Custom(old(self).curr) && a.parameters@.len() == 0),
            field_type_name(old(self).curr) is None && !(old(self).curr is ListName)
                && !custom_type_name(old(self).curr) ==> r is None,
            r is Some ==> final(self).errors == old(self).errors,
            field_type_name(old(self).curr) is Some || custom_type_name(old(self).curr) ==> *final(self) == *old(self),
        decreases old(self).remaining(),
    {
        let primitive = match &self.curr {
            Token::IntType => Some(Constructor::Int),
            Token::FloatType => Some(Constructor::Float),
            Token::StringType => Some(Constructor::Str),
            Token::CharType => Some(Constructor::Char),
            Token::BoolType => Some(Constructor::Bool),
            Token::UnitType => Some(Constructor::Unit),
            _ => None,
        };
        if let Some(c) = primitive {
            return Some(Alias { name: TypeConstructor::BuiltIn(c), parameters: Vec::new() });
        }
        if self.curr_token_is(Token::ListName) {
            self.next_token();
            let param = match self.parse_record_type_annotation() {
                Some(a) => a,
                None => return None,
            };
            return Some(Alias { name: TypeConstructor::BuiltIn(Constructor::List), parameters: vec![param] });
        }
        match &self.curr {
            Token::Identifier(name) => {
                if !starts_uppercase(name) {
                    let m = message(
                        "Custom type identifier '",
                        name.as_str(),
                        "' must start with uppercase letter",
                    );

                    self.push_error(ParseError::Log(m));
                    return None;
                }
                Some(Alias { name: TypeConstructor::Custom(self.curr.duplicate()), parameters: Vec::new() })
            },
            _ => {
                let m = message2("Expected type name, got ", self.curr.describe().as_str());
                self.push_error(ParseError::Log(m));
                None
            },
        }
    }

    /// Reads an expression starting at `curr`: a prefix form, then binary
    /// operators and calls for as long as the next one binds tighter than
    /// `precedence`. The last token of the expression is left in `curr`.
    #[verifier::rlimit(60)]
    fn parse_expression(&mut self, precedence: Precedence) -> (r: Option<Expression>)
        requires
            old(self).wf(),
        ensures
            final(self).follows(old(self)),
            r is None ==> final(self).reported(old(self)),
            !starts_expression(old(self).curr) ==> r is None && final(self).curr == old(self).curr
                && one_message_added(final(self).errors@, old(self).errors@, no_prefix_text(old(self).curr)),
            old(self).curr matches Token::IntegerLiteral(t) ==> (integer_of(t@) is None ==> r is None
                && one_message_added(final(self).errors@, old(self).errors@, unreadable_text(t@, " as integer"@))),
            old(self).curr matches Token::FloatLiteral(t) ==> (!is_float_text(t@) ==> r is None
                && one_message_added(final(self).errors@, old(self).errors@, unreadable_text(t@, " as float"@))),
            unclosed_group(old(self).tokens(), old(self).pos()) ==> r is None && final(self).errors@
                == old(self).errors@.push(
                unexpected(Token::RightParen, token_at(old(self).tokens(), group_close(old(self).tokens(), old(self).pos()))),
            ),
            r is Some ==> stops(final(self).peek, precedence),
            simple_operand(old(self).curr) matches Some(e) ==> (stops(old(self).peek, precedence) ==> r
                == Some(e) && final(self).curr == old(self).curr && final(self).errors
                == old(self).errors),
            agrees(expr(old(self).tokens(), old(self).pos(), precedence), r, final(self).pos(), final(self).errors == old(self).errors),
            !starts_expression(old(self).curr) ==> final(self).pos() == old(self).pos(),
        decreases old(self).remaining(), 4nat,
    {
        let left = match &self.curr {
            Token::Identifier(_) => match self.parse_identifier() {
                Some(ident) => Expression::Identifier(ident),
                None => return None,
            },
            Token::StrName | Token::IntName | Token::FloatName | Token::CharName | Token::BoolName
            | Token::ListName | Token::OptionName | Token::ResultName | Token::MapName
            | Token::UnitName => Expression::Identifier(self.curr.duplicate()),
            Token::IntegerLiteral(s) => {
                let cs = chars_of(s);
                match parse_i64(&cs) {
                    Some(d) => Expression::Literal(Literal::Integer(d)),
                    None => {
                        let m = message("Could not parse ", s.as_str(), " as integer");
                        self.push_error(ParseError::Log(m));
                        return None;
                    },
                }
            },
            Token::FloatLiteral(s) => {
                let cs = chars_of(s);
                if check_float_text(&cs) {
                    Expression::Literal(Literal::Float(s.clone()))
                } else {
                    let m = message("Could not parse ", s.as_str(), " as float");
                    self.push_error(ParseError::Log(m));
                    return None;
                }
            },
            Token::Boolean(b) => Expression::Literal(Literal::Boolean(*b)),
            Token::Bang | Token::Minus | Token::Plus => match self.parse_prefix_expression() {
                Some(e) => e,
                None => return None,
            },
            Token::LeftParen => {
                self.next_token();
                let expr = self.parse_expression(Precedence::Lowest);
                if !self.expect_peek(Token::RightParen) {
                    return None;
                }
                match expr {
                    Some(e) => e,
                    None => return None,
                }
            },
            Token::If => match self.parse_if_expression() {
                Some(e) => e,
                None => return None,
            },
            Token::Fn => match self.parse_function_literal() {
                Some(e) => e,
                None => return None,
            },
            Token::KwSome => match self.parse_some_expression() {
                Some(e) => e,
                None => return None,
            },
            Token::KwNone => Expression::OptionNone,
            Token::KwOk => match self.parse_ok_expression() {
                Some(e) => e,
                None => return None,
            },
            Token::KwError => match self.parse_error_expression() {
                Some(e) => e,
                None => return None,
            },
            _ => {
                let t = self.curr.duplicate();
                self.no_prefix_parse_fn_error(t);
                return None;
            },
        };
        let mut left = left;
        let ghost fresh = self.remaining() == old(self).remaining();
        let ghost first = left;
        assert(fresh ==> self.curr == old(self).curr && self.peek == old(self).peek && self.errors
            == old(self).errors);
        while !self.peek_token_is(Token::SemiColon) && precedence.level() < token_to_precedence(
            &self.peek,
        ).level()
            invariant
                self.follows(old(self)),
                starts_expression(old(self).curr),
                !unreadable_number(old(self).curr),
                !unclosed_group(old(self).tokens(), old(self).pos()),
                fresh ==> (self.remaining() == old(self).remaining() ==> left == first && self.peek
                    == old(self).peek && self.curr == old(self).curr && self.errors == old(self).errors),
                fresh && stops(old(self).peek, precedence) ==> self.remaining() == old(
                    self,
                ).remaining(),
                simple_operand(old(self).curr) matches Some(e) ==> (fresh && first == e),
                expr(self.tokens(), old(self).pos(), precedence) is Some ==> expr(
                    self.tokens(),
                    old(self).pos(),
                    precedence,
                ) == climb(self.tokens(), left, self.pos(), precedence),
                expr(self.tokens(), old(self).pos(), precedence) matches Some(Some(_)) ==> self.errors
                    == old(self).errors,
            decreases self.remaining(),
        {
            match self.peek {
                Token::Plus | Token::Minus | Token::Product | Token::ForwardSlash | Token::Equal
                | Token::DoesNotEqual | Token::LessThan | Token::GreaterThan | Token::LTOrEqual
                | Token::GTOrEqual | Token::Pipe | Token::Cons | Token::Concat | Token::Modulo
                | Token::Period => {
                    self.next_token();
                    // A right operand that cannot be read abandons the whole
                    // expression.
                    left = match self.parse_infix_expression(left) {
                        Some(e) => e,
                        None => return None,
                    };
                },
                Token::LeftParen => {
                    self.next_token();
                    left = match self.parse_call_expression(left) {
                        Some(e) => e,
                        None => return None,
                    };
                },
                _ => return Some(left),
            }
        }
        Some(left)
    }

    fn parse_prefix_expression(&mut self) -> (r: Option<Expression>)
        requires
            old(self).wf(),
            old(self).curr is Bang || old(self).curr is Minus || old(self).curr is Plus,
        ensures
            final(self).follows(old(self)),
            r is None ==> final(self).reported(old(self)),
            final(self).remaining() < old(self).remaining(),
            r is Some ==> r->0 is Prefix,
            agrees(primary(old(self).tokens(), old(self).pos()), r, final(self).pos(), final(self).errors == old(self).errors),
        decreases old(self).remaining(), 3nat,
    {
        let prefix = match self.curr {
            Token::Bang => Prefix::Bang,
            Token::Minus => Prefix::Minus,
            _ => Prefix::Plus,
        };
        self.next_token();
        match self.parse_expression(Precedence::Prefix) {
            Some(expr) => Some(Expression::Prefix(prefix, Box::new(expr))),
            None => None,
        }
    }

    fn parse_infix_expression(&mut self, left: Expression) -> (r: Option<Expression>)
        requires
            old(self).wf(),
            infix_of(old(self).curr) is Some,
        ensures
            final(self).follows(old(self)),
            r is None ==> final(self).reported(old(self)),
            r matches Some(e) ==> (e matches Expression::Infix(op, l, _) && Some(op) == infix_of(
                old(self).curr,
            ) && *l == left),
            r is Some ==> stops(final(self).peek, precedence_of(old(self).curr)),
            agrees(infix_step(old(self).tokens(), old(self).pos(), left), r, final(self).pos(), final(self).errors == old(self).errors),
        decreases old(self).remaining(), 2nat,
    {
        let infix = match self.curr {
            Token::Plus => Infix::Plus,
            Token::Minus => Infix::Minus,
            Token::Product => Infix::Product,
            Token::ForwardSlash => Infix::ForwardSlash,
            Token::Equal => Infix::Equal,
            Token::DoesNotEqual => Infix::DoesNotEqual,
            Token::LessThan => Infix::LessThan,
            Token::GreaterThan => Infix::GreaterThan,
            Token::GTOrEqual => Infix::GTOrEqual,
            Token::LTOrEqual => Infix::LTOrEqual,
            Token::Pipe => Infix::Pipe,
            Token::Cons => Infix::Cons,
            Token::Concat => Infix::Concat,
            Token::Modulo => Infix::Modulo,
            _ => Infix::Period,
        };
        let precedence = self.curr_precedence();
        self.next_token();
        match self.parse_expression(precedence) {
            Some(expr) => Some(Expression::Infix(infix, Box::new(left), Box::new(expr))),
            None => None,
        }
    }

    /// Reads a comma-separated list of identifiers, from the first one in
    /// `curr` to the last one, which is left in `curr`.
    pub fn parse_fn_parameters(&mut self) -> (r: Option<Vec<Identifier>>)
        requires
            old(self).wf(),
        ensures
            final(self).follows(old(self)),
            final(self).errors == old(self).errors,
            !(old(self).curr is Identifier) ==> r is None && *final(self) == *old(self),
            r is Some <==> params_end(old(self).tokens(), old(self).pos()) is Some,
            r matches Some(ps) ==> {
                &&& ps@.len() > 0
                &&& forall|i: int| 0 <= i < ps@.len() ==> #[trigger] ps@[i] == token_at(
                    old(self).tokens(),
                    old(self).pos() + 2 * i,
                )
                &&& final(self).pos() == old(self).pos() + 2 * (ps@.len() - 1)
                &&& Some(final(self).pos()) == params_end(old(self).tokens(), old(self).pos())
            },
            r is None && old(self).curr is Identifier ==> !(final(self).curr is Identifier)
                && final(self).remaining() < old(self).remaining(),
    {
        let mut params: Vec<Identifier> = Vec::new();
        match self.parse_identifier() {
            Some(ident) => params.push(ident),
            None => return None,
        }
        while self.peek_token_is(Token::Comma)
            invariant
                self.follows(old(self)),
                self.errors == old(self).errors,
                params@.len() > 0,
                old(self).curr is Identifier,
                forall|i: int| 0 <= i < params@.len() ==> #[trigger] params@[i] == token_at(
                    old(self).tokens(),
                    old(self).pos() + 2 * i,
                ),
                self.curr is Identifier,
                self.pos() == old(self).pos() + 2 * (params@.len() - 1),
                params_end(old(self).tokens(), old(self).pos()) == params_end(self.tokens(), self.pos()),
            decreases self.remaining(),
        {
            self.next_token();
            self.next_token();
            match self.parse_identifier() {
                Some(ident) => params.push(ident),
                None => return None,
            }
        }
        Some(params)
    }

    fn parse_call_expression(&mut self, function: Expression) -> (r: Option<Expression>)
        requires
            old(self).wf(),
            old(self).curr is LeftParen,
        ensures
            final(self).follows(old(self)),
            r is None ==> final(self).reported(old(self)),
            r matches Some(e) ==> (e matches Expression::Call { function: f, .. } && *f == function),
            r is Some ==> final(self).curr is RightParen,
            call_agrees(call_arguments(old(self).tokens(), old(self).pos()), function, r, final(self).pos(), final(self).errors == old(self).errors),
        decreases old(self).remaining(), 2nat,
    {
        let mut arguments: Vec<Expression> = Vec::new();
        if self.peek_token_is(Token::RightParen) {
            self.next_token();
            return Some(Expression::Call { function: Box::new(function), arguments });
        }
        self.next_token();
        match self.parse_expression(Precedence::Lowest) {
            Some(arg) => arguments.push(arg),
            None => return None,
        }
        assert(arguments@ =~= seq![arguments@[0]]);
        while self.peek_token_is(Token::Comma)
            invariant
                self.follows(old(self)),
                self.remaining() < old(self).remaining(),
                old(self).pos() < self.pos(),
                call_arguments(self.tokens(), old(self).pos()) is Some ==> call_arguments(
                    self.tokens(),
                    old(self).pos(),
                ) == prepend_arguments(arguments@, arguments_after(self.tokens(), self.pos())),
                call_arguments(self.tokens(), old(self).pos()) matches Some(Some(_)) ==> self.errors
                    == old(self).errors,
            decreases self.remaining(),
        {
            self.next_token();
            self.next_token();
            let ghost before = arguments@;
            match self.parse_expression(Precedence::Lowest) {
                Some(arg) => arguments.push(arg),
                None => return None,
            }
            proof {
                let s = self.tokens();
                assert(arguments@ =~= before + seq![arguments@.last()]);
                match arguments_after(s, self.pos()) {
                    Some(Some((rest, c))) => {
                        assert(before + (seq![arguments@.last()] + rest) =~= arguments@ + rest);
                    },
                    _ => {},
                }
            }
        }
        if !self.expect_peek(Token::RightParen) {
            return None;
        }
        Some(Expression::Call { function: Box::new(function), arguments })
    }

    fn parse_if_expression(&mut self) -> (r: Option<Expression>)
        requires
            old(self).wf(),
            old(self).curr is If,
        ensures
            final(self).follows(old(self)),
            r is None ==> final(self).reported(old(self)),
            final(self).remaining() < old(self).remaining(),
            r is Some ==> r->0 is If,
            if_agrees(old(self).tokens(), old(self).pos(), r, final(self).pos(), final(self).errors == old(self).errors),
        decreases old(self).remaining(), 3nat,
    {
        self.next_token();
        let condition = match self.parse_expression(Precedence::Lowest) {
            Some(expr) => expr,
            None => return None,
        };
        if !self.expect_peek(Token::LeftBrace) {
            return None;
        }
        let (consequence, _) = self.parse_block_statement();
        let mut alternative: Option<Program> = None;
        if self.peek_token_is(Token::Else) {
            self.next_token();
            if !self.expect_peek(Token::LeftBrace) {
                return None;
            }
            let (block, _) = self.parse_block_statement();
            alternative = Some(block);
        }
        Some(Expression::If { condition: Box::new(condition), consequence, alternative })
    }

    /// Reads `fn <params> -> <body>`, where the body is either a block whose
    /// last statement is a `return` or an expression without a closing
    /// semicolon, or a single expression closed by a semicolon.
    fn parse_function_literal(&mut self) -> (r: Option<Expression>)
        requires
            old(self).wf(),
            old(self).curr is Fn,
        ensures
            final(self).follows(old(self)),
            r is None ==> final(self).reported(old(self)),
            final(self).remaining() < old(self).remaining(),
            r matches Some(e) ==> (e matches Expression::Function { parameters, body }
                && all_parameters(parameters@) && valid_body(body@)),
            r is Some ==> final(self).curr is SemiColon || final(self).curr is RightBrace
                || final(self).curr is End,
            fn_params_end(old(self).tokens(), old(self).pos()) is None ==> r is None,
            fn_params_end(old(self).tokens(), old(self).pos()) matches Some(a) ==> (!(token_at(
                old(self).tokens(),
                a + 1,
            ) is LeftBrace) ==> single_line_agrees(
                old(self).tokens(),
                old(self).pos(),
                a,
                r,
                final(self).pos(),
                final(self).errors == old(self).errors,
            )),
            fn_params_end(old(self).tokens(), old(self).pos()) matches Some(a) ==> (token_at(
                old(self).tokens(),
                a + 1,
            ) is LeftBrace ==> block_form_agrees(
                old(self).tokens(),
                old(self).pos(),
                a,
                r,
                final(self).pos(),
                final(self).errors == old(self).errors,
            )),
            fn_params_end(old(self).tokens(), old(self).pos()) matches Some(a) ==> (body_failure_text(
                old(self).tokens(),
                a,
            ) matches Some(t) ==> r is None && one_message_added(final(self).errors@, old(self).errors@, t)),
        decreases old(self).remaining(), 3nat,
    {
        let mut params: Vec<Identifier> = Vec::new();
        while !self.peek_token_is(Token::Arrow)
            invariant
                self.follows(old(self)),
                !(self.curr is End),
                all_parameters(params@),
                old(self).pos() <= self.pos(),
                fn_params_end(self.tokens(), old(self).pos()) == fn_params_end(self.tokens(), self.pos()),
                fn_params_span(params@, self.tokens(), old(self).pos()) == Some(self.pos()),
                self.errors == old(self).errors,
            decreases self.remaining(),
        {
            self.next_token();
            let ghost before = params@;
            match self.curr {
                Token::Identifier(_) => params.push(self.curr.duplicate()),
                Token::UnitName => params.push(Token::UnitName),
                _ => {
                    let m = message(
                        "expected identifier in function parameters, got ",
                        self.curr.describe().as_str(),
                        "",
                    );
                    self.push_error(ParseError::Log(m));
                    return None;
                },
            }
            assert(params@.drop_last() =~= before);
            if self.peek_token_is(Token::Comma) {
                self.next_token();
            }
        }
        if !self.expect_peek(Token::Arrow) {
            return None;
        }
        self.next_token();
        let body = if self.curr_token_is(Token::LeftBrace) {
            let (block, last_semi) = self.parse_block_statement();
            if block.len() == 0 {
                self.push_error(ParseError::Log("Empty function body".to_owned()));
                return None;
            }
            match &block[block.len() - 1] {
                Statement::Return(_) => {},
                Statement::Expression(_) => {
                    if last_semi {
                        self.push_error(
                            ParseError::Log(
                                "Function block's last expression must not end with semicolon".to_owned(),
                            ),
                        );
                        return None;
                    }
                },
                _ => {
                    self.push_error(
                        ParseError::Log(
                            "Function block must end with expression or return statement".to_owned(),
                        ),
                    );
                    return None;
                },
            }
            block
        } else {
            let expr = match self.parse_expression(Precedence::Lowest) {
                Some(e) => e,
                None => return None,
            };
            if !self.peek_token_is(Token::SemiColon) {
                self.push_error(
                    ParseError::Log("Single-line function body must end with semicolon".to_owned()),
                );
                return None;
            }
            self.next_token();
            let ghost e = expr;
            let mut single: Program = Vec::new();
            single.push(Statement::Expression(expr));
            assert(single@ =~= seq![Statement::Expression(e)]);
            single
        };
        Some(Expression::Function { parameters: params, body })
    }

    /// Reads the statements of a block, from its opening brace in `curr` up
    /// to its closing brace, which is left in `curr` (or to the end of the
    /// stream). Also tells whether the last statement kept was closed by a
    /// semicolon.
    fn parse_block_statement(&mut self) -> (r: (Program, bool))
        requires
            old(self).wf(),
            old(self).curr is LeftBrace,
        ensures
            final(self).follows(old(self)),
            final(self).remaining() < old(self).remaining(),
            final(self).curr is RightBrace || final(self).curr is End,
            declarations_well_named(r.0@),
            block_from(old(self).tokens(), old(self).pos() + 1) matches Some(b) ==> (r.0@ == b.0
                && final(self).pos() == b.1 && r.1 == b.2 && final(self).errors == old(self).errors),
        decreases old(self).remaining(), 1nat,
    {
        let mut statements: Program = Vec::new();
        let mut last_semi = false;
        self.next_token();
        loop
            invariant
                self.follows(old(self)),
                self.remaining() < old(self).remaining(),
                declarations_well_named(statements@),
                block_from(self.tokens(), old(self).pos() + 1) is Some ==> self.errors == old(self).errors,
                block_extends(
                    block_from(self.tokens(), old(self).pos() + 1),
                    statements@,
                    last_semi,
                    block_from(self.tokens(), self.pos()),
                ),
            ensures
                self.follows(old(self)),
                self.remaining() < old(self).remaining(),
                self.curr is RightBrace || self.curr is End,
                declarations_well_named(statements@),
                block_from(self.tokens(), old(self).pos() + 1) matches Some(b) ==> (b.0 == statements@
                    && b.1 == self.pos() && b.2 == last_semi && self.errors == old(self).errors),
            decreases self.remaining(),
        {
            if self.curr_token_is(Token::RightBrace) || self.curr_token_is(Token::End) {
                assert(statements@ + Seq::<Statement>::empty() =~= statements@);
                break;
            }
            let ghost before = statements@;
            let ghost p0 = self.pos();
            let ghost r0 = block_from(self.tokens(), p0);
            if let Some(statement) = self.parse_statement() {
                statements.push(statement);
                assert(statements@ =~= before + seq![statement]);
                last_semi = self.curr_token_is(Token::SemiColon);
            }
            if self.curr_token_is(Token::End) {
                break;
            }
            self.next_token();
            proof {
                let s = self.tokens();
                if block_from(s, old(self).pos() + 1) is Some {
                    assert(r0 is Some);
                    match block_from(s, self.pos()) {
                        Some((more, e2, l2)) => {
                            assert(before + (seq![statements@.last()] + more) =~= statements@ + more);
                        },
                        None => {},
                    }
                }
            }
        }
        (statements, last_semi)
    }

    /// Reads `Some <expr>`. The operand is read at the lowest level, so the
    /// constructor takes in the whole operator chain that follows it; the same
    /// holds of `Ok` and `Error`.
    fn parse_some_expression(&mut self) -> (r: Option<Expression>)
        requires
            old(self).wf(),
            old(self).curr is KwSome,
        ensures
            final(self).follows(old(self)),
            r is None ==> final(self).reported(old(self)),
            final(self).remaining() < old(self).remaining(),
            r is Some ==> r->0 is OptionSome,
            agrees(primary(old(self).tokens(), old(self).pos()), r, final(self).pos(), final(self).errors == old(self).errors),
        decreases old(self).remaining(), 3nat,
    {
        self.next_token();
        match self.parse_expression(Precedence::Lowest) {
            Some(expr) => Some(Expression::OptionSome(Box::new(expr))),
            None => None,
        }
    }

    fn parse_ok_expression(&mut self) -> (r: Option<Expression>)
        requires
            old(self).wf(),
            old(self).curr is KwOk,
        ensures
            final(self).follows(old(self)),
            r is None ==> final(self).reported(old(self)),
            final(self).remaining() < old(self).remaining(),
            r is Some ==> r->0 is ResultOk,
            agrees(primary(old(self).tokens(), old(self).pos()), r, final(self).pos(), final(self).errors == old(self).errors),
        decreases old(self).remaining(), 3nat,
    {
        self.next_token();
        match self.parse_expression(Precedence::Lowest) {
            Some(expr) => Some(Expression::ResultOk(Box::new(expr))),
            None => None,
        }
    }

    fn parse_error_expression(&mut self) -> (r: Option<Expression>)
        requires
            old(self).wf(),
            old(self).curr is KwError,
        ensures
            final(self).follows(old(self)),
            r is None ==> final(self).reported(old(self)),
            final(self).remaining() < old(self).remaining(),
            r is Some ==> r->0 is ResultErr,
            agrees(primary(old(self).tokens(), old(self).pos()), r, final(self).pos(), final(self).errors == old(self).errors),
        decreases old(self).remaining(), 3nat,
    {
        self.next_token();
        match self.parse_expression(Precedence::Lowest) {
            Some(expr) => Some(Expression::ResultErr(Box::new(expr))),
            None => None,
        }
    }
}

} // verus!

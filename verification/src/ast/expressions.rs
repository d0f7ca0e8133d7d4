//! Operators and separators of LESS expressions.

use vstd::prelude::*;

verus! {

/// A part of a template string.
#[derive(Debug, Clone, PartialEq)]
pub enum TemplateStringPart {
    /// Literal text
    Text(String),
    /// Variable interpolation
    Interpolation(String),
}

/// Binary operators.
#[derive(Debug, Clone, Copy, PartialEq, Eq, Structural)]
pub enum BinaryOperator {
    /// `+`
    Add,
    /// `-`
    Subtract,
    /// `*`
    Multiply,
    /// `/`
    Divide,
    /// `%`
    Modulo,
    /// `==`
    Equal,
    /// `!=`
    NotEqual,
    /// `<`
    LessThan,
    /// `<=`
    LessThanOrEqual,
    /// `>`
    GreaterThan,
    /// `>=`
    GreaterThanOrEqual,
    /// `and`
    And,
    /// `or`
    Or,
    /// String concatenation
    Concatenate,
}

/// Unary operators.
#[derive(Debug, Clone, Copy, PartialEq, Eq, Structural)]
pub enum UnaryOperator {
    /// `-`
    Minus,
    /// `+`
    Plus,
    /// `not`
    Not,
}

/// List separators.
#[derive(Debug, Clone, Copy, PartialEq, Eq, Structural)]
pub enum ListSeparator {
    /// Space-separated list
    Space,
    /// Comma-separated list
    Comma,
    /// Semicolon-separated list
    Semicolon,
}

impl BinaryOperator {
    /// Binding strength: or 1, and 2, comparisons 3, `+ -` 4, `* / %` 5,
    /// concatenation 6 (higher binds tighter).
    pub open spec fn spec_precedence(&self) -> u8 {
        match self {
            BinaryOperator::Or => 1,
            BinaryOperator::And => 2,
            BinaryOperator::Equal | BinaryOperator::NotEqual | BinaryOperator::LessThan
            | BinaryOperator::LessThanOrEqual | BinaryOperator::GreaterThan
            | BinaryOperator::GreaterThanOrEqual => 3,
            BinaryOperator::Add | BinaryOperator::Subtract => 4,
            BinaryOperator::Multiply | BinaryOperator::Divide | BinaryOperator::Modulo => 5,
            BinaryOperator::Concatenate => 6,
        }
    }

    /// The precedence of this operator (higher binds tighter).
    pub fn precedence(&self) -> (res: u8)
        ensures
            res == self.spec_precedence(),
    {
        match self {
            BinaryOperator::Or => 1,
            BinaryOperator::And => 2,
            BinaryOperator::Equal | BinaryOperator::NotEqual | BinaryOperator::LessThan
            | BinaryOperator::LessThanOrEqual | BinaryOperator::GreaterThan
            | BinaryOperator::GreaterThanOrEqual => 3,
            BinaryOperator::Add | BinaryOperator::Subtract => 4,
            BinaryOperator::Multiply | BinaryOperator::Divide | BinaryOperator::Modulo => 5,
            BinaryOperator::Concatenate => 6,
        }
    }

    /// Every binary operator is left-associative.
    pub fn is_left_associative(&self) -> (res: bool)
        ensures
            res,
    {
        true
    }

    /// The operator's symbol.
    pub open spec fn spec_display(&self) -> Seq<char> {
        match self {
            BinaryOperator::Add => seq!['+'],
            BinaryOperator::Subtract => seq!['-'],
            BinaryOperator::Multiply => seq!['*'],
            BinaryOperator::Divide => seq!['/'],
            BinaryOperator::Modulo => seq!['%'],
            BinaryOperator::Equal => seq!['='],
            BinaryOperator::NotEqual => seq!['!', '='],
            BinaryOperator::LessThan => seq!['<'],
            BinaryOperator::LessThanOrEqual => seq!['<', '='],
            BinaryOperator::GreaterThan => seq!['>'],
            BinaryOperator::GreaterThanOrEqual => seq!['>', '='],
            BinaryOperator::And => seq!['a', 'n', 'd'],
            BinaryOperator::Or => seq!['o', 'r'],
            BinaryOperator::Concatenate => seq!['+', '+'],
        }
    }

    /// The operator's symbol, as printed.
    pub fn to_display_string(&self) -> (res: &'static str)
        ensures
            res@ == self.spec_display(),
    {
        match self {
            BinaryOperator::Add => { proof { reveal_strlit("+"); } "+" },
            BinaryOperator::Subtract => { proof { reveal_strlit("-"); } "-" },
            BinaryOperator::Multiply => { proof { reveal_strlit("*"); } "*" },
            BinaryOperator::Divide => { proof { reveal_strlit("/"); } "/" },
            BinaryOperator::Modulo => { proof { reveal_strlit("%"); } "%" },
            BinaryOperator::Equal => { proof { reveal_strlit("="); } "=" },
            BinaryOperator::NotEqual => { proof { reveal_strlit("!="); } "!=" },
            BinaryOperator::LessThan => { proof { reveal_strlit("<"); } "<" },
            BinaryOperator::LessThanOrEqual => { proof { reveal_strlit("<="); } "<=" },
            BinaryOperator::GreaterThan => { proof { reveal_strlit(">"); } ">" },
            BinaryOperator::GreaterThanOrEqual => { proof { reveal_strlit(">="); } ">=" },
            BinaryOperator::And => { proof { reveal_strlit("and"); } "and" },
            BinaryOperator::Or => { proof { reveal_strlit("or"); } "or" },
            BinaryOperator::Concatenate => { proof { reveal_strlit("++"); } "++" },
        }
    }
}

/// The precedence levels order the operator classes as documented:
/// multiplicative above additive, additive above comparisons, comparisons
/// above `and`, and `and` above `or`.
pub proof fn lemma_precedence_order(a: BinaryOperator, b: BinaryOperator)
    ensures
        (a is Multiply || a is Divide || a is Modulo) && (b is Add || b is Subtract)
            ==> a.spec_precedence() > b.spec_precedence(),
        (a is Add || a is Subtract) && (b is Equal || b is NotEqual || b is LessThan
            || b is LessThanOrEqual || b is GreaterThan || b is GreaterThanOrEqual)
            ==> a.spec_precedence() > b.spec_precedence(),
        (a is Equal || a is NotEqual || a is LessThan || a is LessThanOrEqual
            || a is GreaterThan || a is GreaterThanOrEqual) && b is And
            ==> a.spec_precedence() > b.spec_precedence(),
        a is And && b is Or ==> a.spec_precedence() > b.spec_precedence(),
{
}

impl UnaryOperator {
    /// The operator's symbol.
    pub open spec fn spec_display(&self) -> Seq<char> {
        match self {
            UnaryOperator::Minus => seq!['-'],
            UnaryOperator::Plus => seq!['+'],
            UnaryOperator::Not => seq!['n', 'o', 't'],
        }
    }

    /// The operator's symbol, as printed.
    pub fn to_display_string(&self) -> (res: &'static str)
        ensures
            res@ == self.spec_display(),
    {
        match self {
            UnaryOperator::Minus => { proof { reveal_strlit("-"); } "-" },
            UnaryOperator::Plus => { proof { reveal_strlit("+"); } "+" },
            UnaryOperator::Not => { proof { reveal_strlit("not"); } "not" },
        }
    }
}

impl ListSeparator {
    /// The separator's name.
    pub open spec fn spec_display(&self) -> Seq<char> {
        match self {
            ListSeparator::Space => seq!['s', 'p', 'a', 'c', 'e'],
            ListSeparator::Comma => seq!['c', 'o', 'm', 'm', 'a'],
            ListSeparator::Semicolon => seq!['s', 'e', 'm', 'i', 'c', 'o', 'l', 'o', 'n'],
        }
    }

    /// The separator's name: `space`, `comma` or `semicolon`.
    pub fn to_display_string(&self) -> (res: &'static str)
        ensures
            res@ == self.spec_display(),
    {
        match self {
            ListSeparator::Space => { proof { reveal_strlit("space"); } "space" },
            ListSeparator::Comma => { proof { reveal_strlit("comma"); } "comma" },
            ListSeparator::Semicolon => { proof { reveal_strlit("semicolon"); } "semicolon" },
        }
    }
}

} // verus!

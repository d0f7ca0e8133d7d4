//! Syntax-tree nodes of LESS that carry no numeric values: positions,
//! imports, comments, extends, namespace accesses, operators and selectors.

use vstd::prelude::*;

pub mod expressions;
pub mod selectors;
pub mod values;

pub use expressions::{BinaryOperator, ListSeparator, TemplateStringPart, UnaryOperator};
pub use selectors::{AttributeOperator, Combinator, Selector, SelectorPart, SimpleSelector};
pub use values::{NamedColor, StringType, Unit};

verus! {

/// A 1-based line and column in the source, used in error reports.
#[derive(Debug, Clone, Copy, PartialEq, Eq, Structural)]
pub struct Position {
    /// Line number (1-based)
    pub line: usize,
    /// Column number (1-based)
    pub column: usize,
}

impl Position {
    /// Creates a position.
    pub fn new(line: usize, column: usize) -> (res: Self)
        ensures
            res.line == line,
            res.column == column,
    {
        Position { line, column }
    }
}

impl Default for Position {
    /// The first column of the first line.
    fn default() -> (res: Self)
        ensures
            res.line == 1,
            res.column == 1,
    {
        Position { line: 1, column: 1 }
    }
}

/// Detached ruleset call: `@var();`
#[derive(Debug, Clone, PartialEq)]
pub struct DetachedRulesetCall {
    /// Variable name (without `@`)
    pub name: String,
    /// Source position
    pub position: Position,
}

/// Property merge kind for `+:` and `+_:`.
#[derive(Debug, Clone, Copy, PartialEq, Eq, Structural)]
pub enum MergeType {
    /// Merge with comma separator (`+:`)
    Comma,
    /// Merge with space separator (`+_:`)
    Space,
}

/// Import statement: `@import "file.less";`
#[derive(Debug, Clone, PartialEq)]
pub struct Import {
    /// Path to import
    pub path: String,
    /// Kind of import
    pub import_type: ImportType,
    /// `(optional)`: silently skipped when the file is missing
    pub optional: bool,
    /// `(multiple)`: the same file may be included several times
    pub multiple: bool,
    /// Media query condition
    pub media: Option<String>,
    /// Source position
    pub position: Position,
}

/// Kind of an import statement.
#[derive(Debug, Clone, Copy, PartialEq, Eq, Structural)]
pub enum ImportType {
    /// LESS import (`@import "file.less"`), included once
    Less,
    /// CSS import (`@import "file.css"`)
    Css,
    /// Inline import (`@import (inline) "file.css"`)
    Inline,
    /// Reference import (`@import (reference) "file.less"`)
    Reference,
}

impl ImportType {
    /// The lower-case name of the import kind.
    pub fn to_display_string(&self) -> (res: &'static str)
        ensures
            res@ == self.spec_display(),
    {
        match self {
            ImportType::Less => {
                proof { reveal_strlit("less"); }
                "less"
            },
            ImportType::Css => {
                proof { reveal_strlit("css"); }
                "css"
            },
            ImportType::Inline => {
                proof { reveal_strlit("inline"); }
                "inline"
            },
            ImportType::Reference => {
                proof { reveal_strlit("reference"); }
                "reference"
            },
        }
    }

    /// The lower-case name of the import kind.
    pub open spec fn spec_display(&self) -> Seq<char> {
        match self {
            ImportType::Less => seq!['l', 'e', 's', 's'],
            ImportType::Css => seq!['c', 's', 's'],
            ImportType::Inline => seq!['i', 'n', 'l', 'i', 'n', 'e'],
            ImportType::Reference => seq!['r', 'e', 'f', 'e', 'r', 'e', 'n', 'c', 'e'],
        }
    }
}

impl Import {
    /// Creates an import that is neither optional nor multiple and has no media.
    pub fn new(path: String, import_type: ImportType, position: Position) -> (res: Self)
        ensures
            res.path == path,
            res.import_type == import_type,
            !res.optional,
            !res.multiple,
            res.media.is_none(),
            res.position == position,
    {
        Import { path, import_type, optional: false, multiple: false, media: None, position }
    }

    /// Sets the `optional` flag.
    pub fn with_optional(self, optional: bool) -> (res: Self)
        ensures
            res == (Import { optional, ..self }),
    {
        let mut s = self;
        s.optional = optional;
        s
    }

    /// Sets the `multiple` flag.
    pub fn with_multiple(self, multiple: bool) -> (res: Self)
        ensures
            res == (Import { multiple, ..self }),
    {
        let mut s = self;
        s.multiple = multiple;
        s
    }

    /// Attaches a media query.
    pub fn with_media(self, media: String) -> (res: Self)
        ensures
            res == (Import { media: Some(media), ..self }),
    {
        let mut s = self;
        s.media = Some(media);
        s
    }
}

/// A comment in the source.
#[derive(Debug, Clone, PartialEq)]
pub struct Comment {
    /// Comment text
    pub content: String,
    /// Block or line comment
    pub comment_type: CommentType,
    /// Source position
    pub position: Position,
}

/// Kind of a comment.
#[derive(Debug, Clone, Copy, PartialEq, Eq, Structural)]
pub enum CommentType {
    /// Block comment `/* ... */`
    Block,
    /// Line comment `// ...`
    Line,
}

impl CommentType {
    /// `"block"` or `"line"`.
    pub fn to_display_string(&self) -> (res: &'static str)
        ensures
            res@ == (match self {
                CommentType::Block => seq!['b', 'l', 'o', 'c', 'k'],
                CommentType::Line => seq!['l', 'i', 'n', 'e'],
            }),
    {
        match self {
            CommentType::Block => {
                proof { reveal_strlit("block"); }
                "block"
            },
            CommentType::Line => {
                proof { reveal_strlit("line"); }
                "line"
            },
        }
    }
}

impl Comment {
    /// Creates a block comment.
    pub fn block(content: String, position: Position) -> (res: Self)
        ensures
            res.content == content,
            res.comment_type == CommentType::Block,
            res.position == position,
    {
        Comment { content, comment_type: CommentType::Block, position }
    }

    /// Creates a line comment.
    pub fn line(content: String, position: Position) -> (res: Self)
        ensures
            res.content == content,
            res.comment_type == CommentType::Line,
            res.position == position,
    {
        Comment { content, comment_type: CommentType::Line, position }
    }
}

/// Extend directive: `:extend(.class)`.
#[derive(Debug, Clone, PartialEq)]
pub struct Extend {
    /// Selectors to extend
    pub selectors: Vec<Selector>,
    /// Whether the `all` keyword was given
    pub all: bool,
    /// Source position
    pub position: Position,
}

impl Extend {
    /// Creates an extend directive.
    pub fn new(selectors: Vec<Selector>, all: bool, position: Position) -> (res: Self)
        ensures
            res.selectors == selectors,
            res.all == all,
            res.position == position,
    {
        Extend { selectors, all, position }
    }
}

/// Namespace access: `namespace.member`.
#[derive(Debug, Clone, PartialEq)]
pub struct NamespaceAccess {
    /// Namespace name
    pub namespace: String,
    /// Member name
    pub member: String,
    /// Source position
    pub position: Position,
}

impl NamespaceAccess {
    /// Creates a namespace access.
    pub fn new(namespace: String, member: String, position: Position) -> (res: Self)
        ensures
            res.namespace == namespace,
            res.member == member,
            res.position == position,
    {
        NamespaceAccess { namespace, member, position }
    }
}

/// Logical operator of a guard.
#[derive(Debug, Clone, Copy, PartialEq, Eq, Structural)]
pub enum GuardOperator {
    /// Logical AND
    And,
    /// Logical OR
    Or,
    /// Logical NOT
    Not,
}

/// Comparison operator of a guard condition.
#[derive(Debug, Clone, Copy, PartialEq, Eq, Structural)]
pub enum ComparisonOperator {
    /// `=`
    Equal,
    /// `!=`
    NotEqual,
    /// `<`
    LessThan,
    /// `<=`
    LessThanOrEqual,
    /// `>`
    GreaterThan,
    /// `>=`
    GreaterThanOrEqual,
}

} // verus!

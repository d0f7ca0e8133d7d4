//! Errors of LESS compilation: each variant carries its context, `message`
//! gives the user-facing text and `line` / `column` the position when known.

use crate::text::{push_char, push_str, usize_to_decimal, decimal};
use vstd::prelude::*;

verus! {

/// Result type of compiler operations.
pub type Result<T> = std::result::Result<T, Error>;

/// Errors of LESS compilation.
#[derive(Debug, Clone, PartialEq)]
pub enum Error {
    /// Lexical analysis error
    LexError {
        #[allow(missing_docs)]
        message: String,
        #[allow(missing_docs)]
        line: usize,
        #[allow(missing_docs)]
        column: usize,
    },
    /// Parse error
    ParseError {
        #[allow(missing_docs)]
        message: String,
        #[allow(missing_docs)]
        line: usize,
        #[allow(missing_docs)]
        column: usize,
    },
    /// Semantic analysis error
    SemanticError {
        #[allow(missing_docs)]
        message: String,
        #[allow(missing_docs)]
        line: usize,
        #[allow(missing_docs)]
        column: usize,
    },
    /// Reference to an undefined variable
    UndefinedVariable {
        #[allow(missing_docs)]
        name: String,
        #[allow(missing_docs)]
        line: usize,
        #[allow(missing_docs)]
        column: usize,
    },
    /// Reference to an undefined mixin
    UndefinedMixin {
        #[allow(missing_docs)]
        name: String,
        #[allow(missing_docs)]
        line: usize,
        #[allow(missing_docs)]
        column: usize,
    },
    /// Call of an undefined function
    UndefinedFunction {
        #[allow(missing_docs)]
        name: String,
        #[allow(missing_docs)]
        line: usize,
        #[allow(missing_docs)]
        column: usize,
    },
    /// Type mismatch in an operation
    TypeMismatch {
        #[allow(missing_docs)]
        expected: String,
        #[allow(missing_docs)]
        found: String,
        #[allow(missing_docs)]
        line: usize,
        #[allow(missing_docs)]
        column: usize,
    },
    /// Division by zero
    DivisionByZero {
        #[allow(missing_docs)]
        line: usize,
        #[allow(missing_docs)]
        column: usize,
    },
    /// Import failure
    ImportError {
        #[allow(missing_docs)]
        path: String,
        #[allow(missing_docs)]
        reason: String,
        #[allow(missing_docs)]
        line: usize,
        #[allow(missing_docs)]
        column: usize,
    },
    /// Circular import
    CircularDependency {
        #[allow(missing_docs)]
        path: String,
        #[allow(missing_docs)]
        line: usize,
        #[allow(missing_docs)]
        column: usize,
    },
    /// File I/O error
    IoError {
        #[allow(missing_docs)]
        message: String,
        #[allow(missing_docs)]
        path: Option<String>,
    },
    /// Function call error
    FunctionError {
        #[allow(missing_docs)]
        function: String,
        #[allow(missing_docs)]
        message: String,
        #[allow(missing_docs)]
        line: usize,
        #[allow(missing_docs)]
        column: usize,
    },
    /// Mixin parameter count error
    MixinParameterError {
        #[allow(missing_docs)]
        mixin: String,
        #[allow(missing_docs)]
        expected: usize,
        #[allow(missing_docs)]
        found: usize,
        #[allow(missing_docs)]
        line: usize,
        #[allow(missing_docs)]
        column: usize,
    },
    /// Guard evaluation error
    GuardError {
        #[allow(missing_docs)]
        message: String,
        #[allow(missing_docs)]
        line: usize,
        #[allow(missing_docs)]
        column: usize,
    },
    /// Infinite recursion detected
    InfiniteRecursion {
        #[allow(missing_docs)]
        context: String,
        #[allow(missing_docs)]
        line: usize,
        #[allow(missing_docs)]
        column: usize,
    },
    /// Invalid selector
    InvalidSelector {
        #[allow(missing_docs)]
        selector: String,
        #[allow(missing_docs)]
        line: usize,
        #[allow(missing_docs)]
        column: usize,
    },
    /// Invalid property
    InvalidProperty {
        #[allow(missing_docs)]
        property: String,
        #[allow(missing_docs)]
        value: String,
        #[allow(missing_docs)]
        line: usize,
        #[allow(missing_docs)]
        column: usize,
    },
    /// General compilation error
    CompilationError {
        #[allow(missing_docs)]
        message: String,
    },
    /// Internal compiler error (a bug)
    InternalError {
        #[allow(missing_docs)]
        message: String,
    },
}

impl Error {
    /// Creates a lexical error.
    pub fn lex_error(message: &str, line: usize, column: usize) -> (res: Self)
        ensures
            res matches Error::LexError { message: r_message, line: r_line, column: r_column } && r_message@ == message@ && r_line == line && r_column == column,
    {
        Error::LexError { message: message.to_string(), line, column }
    }

    /// Creates a parse error.
    pub fn parse_error(message: &str, line: usize, column: usize) -> (res: Self)
        ensures
            res matches Error::ParseError { message: r_message, line: r_line, column: r_column } && r_message@ == message@ && r_line == line && r_column == column,
    {
        Error::ParseError { message: message.to_string(), line, column }
    }

    /// Creates a semantic error.
    pub fn semantic_error(message: &str, line: usize, column: usize) -> (res: Self)
        ensures
            res matches Error::SemanticError { message: r_message, line: r_line, column: r_column } && r_message@ == message@ && r_line == line && r_column == column,
    {
        Error::SemanticError { message: message.to_string(), line, column }
    }

    /// Creates an undefined-variable error.
    pub fn undefined_variable(name: &str, line: usize, column: usize) -> (res: Self)
        ensures
            res matches Error::UndefinedVariable { name: r_name, line: r_line, column: r_column } && r_name@ == name@ && r_line == line && r_column == column,
    {
        Error::UndefinedVariable { name: name.to_string(), line, column }
    }

    /// Creates an undefined-mixin error.
    pub fn undefined_mixin(name: &str, line: usize, column: usize) -> (res: Self)
        ensures
            res matches Error::UndefinedMixin { name: r_name, line: r_line, column: r_column } && r_name@ == name@ && r_line == line && r_column == column,
    {
        Error::UndefinedMixin { name: name.to_string(), line, column }
    }

    /// Creates an undefined-function error.
    pub fn undefined_function(name: &str, line: usize, column: usize) -> (res: Self)
        ensures
            res matches Error::UndefinedFunction { name: r_name, line: r_line, column: r_column } && r_name@ == name@ && r_line == line && r_column == column,
    {
        Error::UndefinedFunction { name: name.to_string(), line, column }
    }

    /// Creates a type-mismatch error.
    pub fn type_mismatch(expected: &str, found: &str, line: usize, column: usize) -> (res: Self)
        ensures
            res matches Error::TypeMismatch { expected: r_expected, found: r_found, line: r_line, column: r_column } && r_expected@ == expected@ && r_found@ == found@ && r_line == line && r_column == column,
    {
        Error::TypeMismatch { expected: expected.to_string(), found: found.to_string(), line, column }
    }

    /// Creates a division-by-zero error.
    pub fn division_by_zero(line: usize, column: usize) -> (res: Self)
        ensures
            res matches Error::DivisionByZero { line: r_line, column: r_column } && r_line == line && r_column == column,
    {
        Error::DivisionByZero { line, column }
    }

    /// Creates an import error.
    pub fn import_error(path: &str, reason: &str, line: usize, column: usize) -> (res: Self)
        ensures
            res matches Error::ImportError { path: r_path, reason: r_reason, line: r_line, column: r_column } && r_path@ == path@ && r_reason@ == reason@ && r_line == line && r_column == column,
    {
        Error::ImportError { path: path.to_string(), reason: reason.to_string(), line, column }
    }

    /// Creates a circular-dependency error.
    pub fn circular_dependency(path: &str, line: usize, column: usize) -> (res: Self)
        ensures
            res matches Error::CircularDependency { path: r_path, line: r_line, column: r_column } && r_path@ == path@ && r_line == line && r_column == column,
    {
        Error::CircularDependency { path: path.to_string(), line, column }
    }

    /// Creates an I/O error.
    pub fn io_error(message: &str, path: Option<String>) -> (res: Self)
        ensures
            res matches Error::IoError { message: r_message, path: r_path } && r_message@ == message@ && r_path == path,
    {
        Error::IoError { message: message.to_string(), path }
    }

    /// Creates a function error.
    pub fn function_error(function: &str, message: &str, line: usize, column: usize) -> (res: Self)
        ensures
            res matches Error::FunctionError { function: r_function, message: r_message, line: r_line, column: r_column } && r_function@ == function@ && r_message@ == message@ && r_line == line && r_column == column,
    {
        Error::FunctionError { function: function.to_string(), message: message.to_string(), line, column }
    }

    /// Creates a mixin-parameter error.
    pub fn mixin_parameter_error(mixin: &str, expected: usize, found: usize, line: usize, column: usize) -> (res: Self)
        ensures
            res matches Error::MixinParameterError { mixin: r_mixin, expected: r_expected, found: r_found, line: r_line, column: r_column } && r_mixin@ == mixin@ && r_expected == expected && r_found == found && r_line == line && r_column == column,
    {
        Error::MixinParameterError { mixin: mixin.to_string(), expected, found, line, column }
    }

    /// Creates a guard error.
    pub fn guard_error(message: &str, line: usize, column: usize) -> (res: Self)
        ensures
            res matches Error::GuardError { message: r_message, line: r_line, column: r_column } && r_message@ == message@ && r_line == line && r_column == column,
    {
        Error::GuardError { message: message.to_string(), line, column }
    }

    /// Creates an infinite-recursion error.
    pub fn infinite_recursion(context: &str, line: usize, column: usize) -> (res: Self)
        ensures
            res matches Error::InfiniteRecursion { context: r_context, line: r_line, column: r_column } && r_context@ == context@ && r_line == line && r_column == column,
    {
        Error::InfiniteRecursion { context: context.to_string(), line, column }
    }

    /// Creates an invalid-selector error.
    pub fn invalid_selector(selector: &str, line: usize, column: usize) -> (res: Self)
        ensures
            res matches Error::InvalidSelector { selector: r_selector, line: r_line, column: r_column } && r_selector@ == selector@ && r_line == line && r_column == column,
    {
        Error::InvalidSelector { selector: selector.to_string(), line, column }
    }

    /// Creates an invalid-property error.
    pub fn invalid_property(property: &str, value: &str, line: usize, column: usize) -> (res: Self)
        ensures
            res matches Error::InvalidProperty { property: r_property, value: r_value, line: r_line, column: r_column } && r_property@ == property@ && r_value@ == value@ && r_line == line && r_column == column,
    {
        Error::InvalidProperty { property: property.to_string(), value: value.to_string(), line, column }
    }

    /// Creates a general compilation error.
    pub fn compilation_error(message: &str) -> (res: Self)
        ensures
            res matches Error::CompilationError { message: r_message } && r_message@ == message@,
    {
        Error::CompilationError { message: message.to_string() }
    }

    /// Creates an internal error.
    pub fn internal_error(message: &str) -> (res: Self)
        ensures
            res matches Error::InternalError { message: r_message } && r_message@ == message@,
    {
        Error::InternalError { message: message.to_string() }
    }

    /// The line of the error, for the variants that record a position.
    pub open spec fn spec_line(&self) -> Option<usize> {
        match self {
            Error::LexError { line, .. } => Some(*line),
            Error::ParseError { line, .. } => Some(*line),
            Error::SemanticError { line, .. } => Some(*line),
            Error::UndefinedVariable { line, .. } => Some(*line),
            Error::UndefinedMixin { line, .. } => Some(*line),
            Error::UndefinedFunction { line, .. } => Some(*line),
            Error::TypeMismatch { line, .. } => Some(*line),
            Error::DivisionByZero { line, .. } => Some(*line),
            Error::ImportError { line, .. } => Some(*line),
            Error::CircularDependency { line, .. } => Some(*line),
            Error::IoError { .. } => None,
            Error::FunctionError { line, .. } => Some(*line),
            Error::MixinParameterError { line, .. } => Some(*line),
            Error::GuardError { line, .. } => Some(*line),
            Error::InfiniteRecursion { line, .. } => Some(*line),
            Error::InvalidSelector { line, .. } => Some(*line),
            Error::InvalidProperty { line, .. } => Some(*line),
            Error::CompilationError { .. } => None,
            Error::InternalError { .. } => None,
        }
    }

    /// The column of the error, for the variants that record a position.
    pub open spec fn spec_column(&self) -> Option<usize> {
        match self {
            Error::LexError { column, .. } => Some(*column),
            Error::ParseError { column, .. } => Some(*column),
            Error::SemanticError { column, .. } => Some(*column),
            Error::UndefinedVariable { column, .. } => Some(*column),
            Error::UndefinedMixin { column, .. } => Some(*column),
            Error::UndefinedFunction { column, .. } => Some(*column),
            Error::TypeMismatch { column, .. } => Some(*column),
            Error::DivisionByZero { column, .. } => Some(*column),
            Error::ImportError { column, .. } => Some(*column),
            Error::CircularDependency { column, .. } => Some(*column),
            Error::IoError { .. } => None,
            Error::FunctionError { column, .. } => Some(*column),
            Error::MixinParameterError { column, .. } => Some(*column),
            Error::GuardError { column, .. } => Some(*column),
            Error::InfiniteRecursion { column, .. } => Some(*column),
            Error::InvalidSelector { column, .. } => Some(*column),
            Error::InvalidProperty { column, .. } => Some(*column),
            Error::CompilationError { .. } => None,
            Error::InternalError { .. } => None,
        }
    }

    /// The line where the error occurred, if known.
    pub fn line(&self) -> (res: Option<usize>)
        ensures
            res == self.spec_line(),
    {
        match self {
            Error::LexError { line, .. } => Some(*line),
            Error::ParseError { line, .. } => Some(*line),
            Error::SemanticError { line, .. } => Some(*line),
            Error::UndefinedVariable { line, .. } => Some(*line),
            Error::UndefinedMixin { line, .. } => Some(*line),
            Error::UndefinedFunction { line, .. } => Some(*line),
            Error::TypeMismatch { line, .. } => Some(*line),
            Error::DivisionByZero { line, .. } => Some(*line),
            Error::ImportError { line, .. } => Some(*line),
            Error::CircularDependency { line, .. } => Some(*line),
            Error::IoError { .. } => None,
            Error::FunctionError { line, .. } => Some(*line),
            Error::MixinParameterError { line, .. } => Some(*line),
            Error::GuardError { line, .. } => Some(*line),
            Error::InfiniteRecursion { line, .. } => Some(*line),
            Error::InvalidSelector { line, .. } => Some(*line),
            Error::InvalidProperty { line, .. } => Some(*line),
            Error::CompilationError { .. } => None,
            Error::InternalError { .. } => None,
        }
    }

    /// The column where the error occurred, if known.
    pub fn column(&self) -> (res: Option<usize>)
        ensures
            res == self.spec_column(),
    {
        match self {
            Error::LexError { column, .. } => Some(*column),
            Error::ParseError { column, .. } => Some(*column),
            Error::SemanticError { column, .. } => Some(*column),
            Error::UndefinedVariable { column, .. } => Some(*column),
            Error::UndefinedMixin { column, .. } => Some(*column),
            Error::UndefinedFunction { column, .. } => Some(*column),
            Error::TypeMismatch { column, .. } => Some(*column),
            Error::DivisionByZero { column, .. } => Some(*column),
            Error::ImportError { column, .. } => Some(*column),
            Error::CircularDependency { column, .. } => Some(*column),
            Error::IoError { .. } => None,
            Error::FunctionError { column, .. } => Some(*column),
            Error::MixinParameterError { column, .. } => Some(*column),
            Error::GuardError { column, .. } => Some(*column),
            Error::InfiniteRecursion { column, .. } => Some(*column),
            Error::InvalidSelector { column, .. } => Some(*column),
            Error::InvalidProperty { column, .. } => Some(*column),
            Error::CompilationError { .. } => None,
            Error::InternalError { .. } => None,
        }
    }

    /// The user-facing description of the error.
    pub open spec fn spec_message(&self) -> Seq<char> {
        match self {
            Error::LexError { message, .. } => "Lexical error: "@ + message@,
            Error::ParseError { message, .. } => "Parse error: "@ + message@,
            Error::SemanticError { message, .. } => "Semantic error: "@ + message@,
            Error::UndefinedVariable { name, .. } => "Undefined variable: @"@ + name@,
            Error::UndefinedMixin { name, .. } => "Undefined mixin: ."@ + name@,
            Error::UndefinedFunction { name, .. } => "Undefined function: "@ + name@ + "()"@,
            Error::TypeMismatch { expected, found, .. } => "Type mismatch: expected "@ + expected@
                + ", found "@ + found@,
            Error::DivisionByZero { .. } => "Division by zero"@,
            Error::ImportError { path, reason, .. } => "Import error '"@ + path@ + "': "@
                + reason@,
            Error::CircularDependency { path, .. } => "Circular dependency detected: "@ + path@,
            Error::IoError { message, path } => match path {
                Some(p) => "I/O error in '"@ + p@ + "': "@ + message@,
                None => "I/O error: "@ + message@,
            },
            Error::FunctionError { function, message, .. } => "Function '"@ + function@
                + "' error: "@ + message@,
            Error::MixinParameterError { mixin, expected, found, .. } => "Mixin '"@ + mixin@
                + "' expects "@ + decimal(*expected as nat) + " parameters, found "@ + decimal(
                *found as nat,
            ),
            Error::GuardError { message, .. } => "Guard error: "@ + message@,
            Error::InfiniteRecursion { context, .. } => "Infinite recursion detected in: "@
                + context@,
            Error::InvalidSelector { selector, .. } => "Invalid selector: '"@ + selector@ + "'"@,
            Error::InvalidProperty { property, value, .. } => "Invalid property '"@ + property@
                + "' with value '"@ + value@ + "'"@,
            Error::CompilationError { message } => "Compilation error: "@ + message@,
            Error::InternalError { message } => "Internal error: "@ + message@,
        }
    }

    /// The user-facing description of the error.
    pub fn message(&self) -> (res: String)
        ensures
            res@ == self.spec_message(),
    {
        let mut out = String::new();
        match self {
            Error::LexError { message, .. } => {
                push_str(&mut out, "Lexical error: ");
                push_str(&mut out, message.as_str());
            },
            Error::ParseError { message, .. } => {
                push_str(&mut out, "Parse error: ");
                push_str(&mut out, message.as_str());
            },
            Error::SemanticError { message, .. } => {
                push_str(&mut out, "Semantic error: ");
                push_str(&mut out, message.as_str());
            },
            Error::UndefinedVariable { name, .. } => {
                push_str(&mut out, "Undefined variable: @");
                push_str(&mut out, name.as_str());
            },
            Error::UndefinedMixin { name, .. } => {
                push_str(&mut out, "Undefined mixin: .");
                push_str(&mut out, name.as_str());
            },
            Error::UndefinedFunction { name, .. } => {
                push_str(&mut out, "Undefined function: ");
                push_str(&mut out, name.as_str());
                push_str(&mut out, "()");
            },
            Error::TypeMismatch { expected, found, .. } => {
                push_str(&mut out, "Type mismatch: expected ");
                push_str(&mut out, expected.as_str());
                push_str(&mut out, ", found ");
                push_str(&mut out, found.as_str());
            },
            Error::DivisionByZero { .. } => {
                push_str(&mut out, "Division by zero");
            },
            Error::ImportError { path, reason, .. } => {
                push_str(&mut out, "Import error '");
                push_str(&mut out, path.as_str());
                push_str(&mut out, "': ");
                push_str(&mut out, reason.as_str());
            },
            Error::CircularDependency { path, .. } => {
                push_str(&mut out, "Circular dependency detected: ");
                push_str(&mut out, path.as_str());
            },
            Error::IoError { message, path } => match path {
                Some(p) => {
                    push_str(&mut out, "I/O error in '");
                    push_str(&mut out, p.as_str());
                    push_str(&mut out, "': ");
                    push_str(&mut out, message.as_str());
                },
                None => {
                    push_str(&mut out, "I/O error: ");
                    push_str(&mut out, message.as_str());
                },
            },
            Error::FunctionError { function, message, .. } => {
                push_str(&mut out, "Function '");
                push_str(&mut out, function.as_str());
                push_str(&mut out, "' error: ");
                push_str(&mut out, message.as_str());
            },
            Error::MixinParameterError { mixin, expected, found, .. } => {
                push_str(&mut out, "Mixin '");
                push_str(&mut out, mixin.as_str());
                push_str(&mut out, "' expects ");
                let e = usize_to_decimal(*expected);
                push_str(&mut out, e.as_str());
                push_str(&mut out, " parameters, found ");
                let f = usize_to_decimal(*found);
                push_str(&mut out, f.as_str());
            },
            Error::GuardError { message, .. } => {
                push_str(&mut out, "Guard error: ");
                push_str(&mut out, message.as_str());
            },
            Error::InfiniteRecursion { context, .. } => {
                push_str(&mut out, "Infinite recursion detected in: ");
                push_str(&mut out, context.as_str());
            },
            Error::InvalidSelector { selector, .. } => {
                push_str(&mut out, "Invalid selector: '");
                push_str(&mut out, selector.as_str());
                push_str(&mut out, "'");
            },
            Error::InvalidProperty { property, value, .. } => {
                push_str(&mut out, "Invalid property '");
                push_str(&mut out, property.as_str());
                push_str(&mut out, "' with value '");
                push_str(&mut out, value.as_str());
                push_str(&mut out, "'");
            },
            Error::CompilationError { message } => {
                push_str(&mut out, "Compilation error: ");
                push_str(&mut out, message.as_str());
            },
            Error::InternalError { message } => {
                push_str(&mut out, "Internal error: ");
                push_str(&mut out, message.as_str());
            },
        }
        out
    }

    /// The displayed form: the message, followed by ` at line L, column C`
    /// when the error records a position.
    pub open spec fn spec_display(&self) -> Seq<char> {
        match (self.spec_line(), self.spec_column()) {
            (Some(l), Some(c)) => self.spec_message() + " at line "@ + decimal(l as nat)
                + ", column "@ + decimal(c as nat),
            _ => self.spec_message(),
        }
    }

    /// The displayed form of the error (message and position).
    pub fn to_string(&self) -> (res: String)
        ensures
            res@ == self.spec_display(),
    {
        let mut out = self.message();
        match (self.line(), self.column()) {
            (Some(l), Some(c)) => {
                push_str(&mut out, " at line ");
                let ls = usize_to_decimal(l);
                push_str(&mut out, ls.as_str());
                push_str(&mut out, ", column ");
                let cs = usize_to_decimal(c);
                push_str(&mut out, cs.as_str());
            },
            _ => {},
        }
        out
    }
}

/// An error records a line exactly when it records a column.
pub proof fn lemma_line_iff_column(e: Error)
    ensures
        e.spec_line().is_some() == e.spec_column().is_some(),
{
}


#[verifier::external_type_specification]
#[verifier::external_body]
pub struct ExIoError(std::io::Error);

/// `to_string` of an I/O error. The text may come from the operating
/// system, so nothing is stated of it.
#[verifier::external_body]
fn io_error_text(err: &std::io::Error) -> (res: String) {
    err.to_string()
}

impl From<std::io::Error> for Error {
    /// An I/O error becomes `Error::IoError` with the error's text and no
    /// path.
    fn from(err: std::io::Error) -> (res: Self)
        ensures
            res matches Error::IoError { path, .. } && path is None,
    {
        let text = io_error_text(&err);
        Error::io_error(text.as_str(), None)
    }
}

impl vstd::std_specs::convert::FromSpecImpl<std::io::Error> for Error {
    /// The message of the converted error is the I/O error's text, which is
    /// not described; so no exact result is claimed for `from`, only what
    /// its own `ensures` states.
    open spec fn obeys_from_spec() -> bool {
        false
    }

    open spec fn from_spec(v: std::io::Error) -> Self {
        Error::IoError { message: vstd::pervasive::arbitrary(), path: None }
    }
}

} // verus!

//! Lexical analysis of LESS source into tokens.
//!
//! Numerals are kept as the digits and dots that were written: turning them
//! into numbers is left to the caller.

use crate::ast::Position;
use crate::error::Error;
use crate::text::{
    alphabetic, alphanumeric, ascii_letter, chars_of, is_alphabetic, is_alphanumeric, is_whitespace, push_char,
    push_str, string_from_range, white_space,
};
use vstd::prelude::*;

verus! {

/// Token kinds, with their text where they carry one.
#[derive(Debug, Clone, PartialEq)]
pub enum TokenType {
    /// String literal (the unescaped value)
    String(String),
    /// Numeral: the digits and dots as written
    Number(String),
    /// Percentage: the numeral before `%` as written
    Percentage(String),
    /// Identifier
    Identifier(String),
    /// `#name` (the name)
    Hash(String),
    /// `@name` (the name)
    AtKeyword(String),
    /// URL
    Url(String),
    #[allow(missing_docs)]
    Plus,
    #[allow(missing_docs)]
    Minus,
    #[allow(missing_docs)]
    Multiply,
    #[allow(missing_docs)]
    Divide,
    #[allow(missing_docs)]
    Modulo,
    #[allow(missing_docs)]
    Equal,
    #[allow(missing_docs)]
    NotEqual,
    #[allow(missing_docs)]
    LessThan,
    #[allow(missing_docs)]
    LessThanOrEqual,
    #[allow(missing_docs)]
    GreaterThan,
    #[allow(missing_docs)]
    GreaterThanOrEqual,
    #[allow(missing_docs)]
    And,
    #[allow(missing_docs)]
    Or,
    #[allow(missing_docs)]
    Not,
    #[allow(missing_docs)]
    LeftParen,
    #[allow(missing_docs)]
    RightParen,
    #[allow(missing_docs)]
    LeftBrace,
    #[allow(missing_docs)]
    RightBrace,
    #[allow(missing_docs)]
    LeftBracket,
    #[allow(missing_docs)]
    RightBracket,
    #[allow(missing_docs)]
    Semicolon,
    #[allow(missing_docs)]
    Colon,
    #[allow(missing_docs)]
    Comma,
    #[allow(missing_docs)]
    Dot,
    #[allow(missing_docs)]
    Ampersand,
    #[allow(missing_docs)]
    Tilde,
    #[allow(missing_docs)]
    Pipe,
    #[allow(missing_docs)]
    Whitespace,
    /// Comment, with its markers
    Comment(String),
    /// `@{name}` (the name)
    VariableInterpolation(String),
    #[allow(missing_docs)]
    When,
    #[allow(missing_docs)]
    Ellipsis,
    #[allow(missing_docs)]
    Important,
    #[allow(missing_docs)]
    Default,
    #[allow(missing_docs)]
    MergeComma,
    #[allow(missing_docs)]
    MergeSpace,
    #[allow(missing_docs)]
    Eof,
}

/// Token kinds without their text.
#[derive(Debug, Clone, Copy, PartialEq, Eq, Structural)]
pub enum TokenKind {
    #[allow(missing_docs)]
    String,
    #[allow(missing_docs)]
    Number,
    #[allow(missing_docs)]
    Percentage,
    #[allow(missing_docs)]
    Identifier,
    #[allow(missing_docs)]
    Hash,
    #[allow(missing_docs)]
    AtKeyword,
    #[allow(missing_docs)]
    Url,
    #[allow(missing_docs)]
    Plus,
    #[allow(missing_docs)]
    Minus,
    #[allow(missing_docs)]
    Multiply,
    #[allow(missing_docs)]
    Divide,
    #[allow(missing_docs)]
    Modulo,
    #[allow(missing_docs)]
    Equal,
    #[allow(missing_docs)]
    NotEqual,
    #[allow(missing_docs)]
    LessThan,
    #[allow(missing_docs)]
    LessThanOrEqual,
    #[allow(missing_docs)]
    GreaterThan,
    #[allow(missing_docs)]
    GreaterThanOrEqual,
    #[allow(missing_docs)]
    And,
    #[allow(missing_docs)]
    Or,
    #[allow(missing_docs)]
    Not,
    #[allow(missing_docs)]
    LeftParen,
    #[allow(missing_docs)]
    RightParen,
    #[allow(missing_docs)]
    LeftBrace,
    #[allow(missing_docs)]
    RightBrace,
    #[allow(missing_docs)]
    LeftBracket,
    #[allow(missing_docs)]
    RightBracket,
    #[allow(missing_docs)]
    Semicolon,
    #[allow(missing_docs)]
    Colon,
    #[allow(missing_docs)]
    Comma,
    #[allow(missing_docs)]
    Dot,
    #[allow(missing_docs)]
    Ampersand,
    #[allow(missing_docs)]
    Tilde,
    #[allow(missing_docs)]
    Pipe,
    #[allow(missing_docs)]
    Whitespace,
    #[allow(missing_docs)]
    Comment,
    #[allow(missing_docs)]
    VariableInterpolation,
    #[allow(missing_docs)]
    When,
    #[allow(missing_docs)]
    Ellipsis,
    #[allow(missing_docs)]
    Important,
    #[allow(missing_docs)]
    Default,
    #[allow(missing_docs)]
    MergeComma,
    #[allow(missing_docs)]
    MergeSpace,
    #[allow(missing_docs)]
    Eof,
}

impl TokenType {
    /// The kind of the token.
    pub open spec fn spec_kind(&self) -> TokenKind {
        match self {
            TokenType::String(_) => TokenKind::String,
            TokenType::Number(_) => TokenKind::Number,
            TokenType::Percentage(_) => TokenKind::Percentage,
            TokenType::Identifier(_) => TokenKind::Identifier,
            TokenType::Hash(_) => TokenKind::Hash,
            TokenType::AtKeyword(_) => TokenKind::AtKeyword,
            TokenType::Url(_) => TokenKind::Url,
            TokenType::Plus => TokenKind::Plus,
            TokenType::Minus => TokenKind::Minus,
            TokenType::Multiply => TokenKind::Multiply,
            TokenType::Divide => TokenKind::Divide,
            TokenType::Modulo => TokenKind::Modulo,
            TokenType::Equal => TokenKind::Equal,
            TokenType::NotEqual => TokenKind::NotEqual,
            TokenType::LessThan => TokenKind::LessThan,
            TokenType::LessThanOrEqual => TokenKind::LessThanOrEqual,
            TokenType::GreaterThan => TokenKind::GreaterThan,
            TokenType::GreaterThanOrEqual => TokenKind::GreaterThanOrEqual,
            TokenType::And => TokenKind::And,
            TokenType::Or => TokenKind::Or,
            TokenType::Not => TokenKind::Not,
            TokenType::LeftParen => TokenKind::LeftParen,
            TokenType::RightParen => TokenKind::RightParen,
            TokenType::LeftBrace => TokenKind::LeftBrace,
            TokenType::RightBrace => TokenKind::RightBrace,
            TokenType::LeftBracket => TokenKind::LeftBracket,
            TokenType::RightBracket => TokenKind::RightBracket,
            TokenType::Semicolon => TokenKind::Semicolon,
            TokenType::Colon => TokenKind::Colon,
            TokenType::Comma => TokenKind::Comma,
            TokenType::Dot => TokenKind::Dot,
            TokenType::Ampersand => TokenKind::Ampersand,
            TokenType::Tilde => TokenKind::Tilde,
            TokenType::Pipe => TokenKind::Pipe,
            TokenType::Whitespace => TokenKind::Whitespace,
            TokenType::Comment(_) => TokenKind::Comment,
            TokenType::VariableInterpolation(_) => TokenKind::VariableInterpolation,
            TokenType::When => TokenKind::When,
            TokenType::Ellipsis => TokenKind::Ellipsis,
            TokenType::Important => TokenKind::Important,
            TokenType::Default => TokenKind::Default,
            TokenType::MergeComma => TokenKind::MergeComma,
            TokenType::MergeSpace => TokenKind::MergeSpace,
            TokenType::Eof => TokenKind::Eof,
        }
    }

    /// The text the token carries (empty for kinds without text).
    pub open spec fn spec_payload(&self) -> Seq<char> {
        match self {
            TokenType::String(s) => s@,
            TokenType::Number(s) => s@,
            TokenType::Percentage(s) => s@,
            TokenType::Identifier(s) => s@,
            TokenType::Hash(s) => s@,
            TokenType::AtKeyword(s) => s@,
            TokenType::Url(s) => s@,
            TokenType::Comment(s) => s@,
            TokenType::VariableInterpolation(s) => s@,
            _ => seq![],
        }
    }

    /// The name of a token kind, as displayed.
    pub open spec fn kind_name(k: TokenKind) -> Seq<char> {
        match k {
            TokenKind::String => "String"@,
            TokenKind::Number => "Number"@,
            TokenKind::Percentage => "Percentage"@,
            TokenKind::Identifier => "Identifier"@,
            TokenKind::Hash => "Hash"@,
            TokenKind::AtKeyword => "AtKeyword"@,
            TokenKind::Url => "Url"@,
            TokenKind::Plus => "Plus"@,
            TokenKind::Minus => "Minus"@,
            TokenKind::Multiply => "Multiply"@,
            TokenKind::Divide => "Divide"@,
            TokenKind::Modulo => "Modulo"@,
            TokenKind::Equal => "Equal"@,
            TokenKind::NotEqual => "NotEqual"@,
            TokenKind::LessThan => "LessThan"@,
            TokenKind::LessThanOrEqual => "LessThanOrEqual"@,
            TokenKind::GreaterThan => "GreaterThan"@,
            TokenKind::GreaterThanOrEqual => "GreaterThanOrEqual"@,
            TokenKind::And => "And"@,
            TokenKind::Or => "Or"@,
            TokenKind::Not => "Not"@,
            TokenKind::LeftParen => "LeftParen"@,
            TokenKind::RightParen => "RightParen"@,
            TokenKind::LeftBrace => "LeftBrace"@,
            TokenKind::RightBrace => "RightBrace"@,
            TokenKind::LeftBracket => "LeftBracket"@,
            TokenKind::RightBracket => "RightBracket"@,
            TokenKind::Semicolon => "Semicolon"@,
            TokenKind::Colon => "Colon"@,
            TokenKind::Comma => "Comma"@,
            TokenKind::Dot => "Dot"@,
            TokenKind::Ampersand => "Ampersand"@,
            TokenKind::Tilde => "Tilde"@,
            TokenKind::Pipe => "Pipe"@,
            TokenKind::Whitespace => "Whitespace"@,
            TokenKind::Comment => "Comment"@,
            TokenKind::VariableInterpolation => "VariableInterpolation"@,
            TokenKind::When => "When"@,
            TokenKind::Ellipsis => "Ellipsis"@,
            TokenKind::Important => "Important"@,
            TokenKind::Default => "Default"@,
            TokenKind::MergeComma => "MergeComma"@,
            TokenKind::MergeSpace => "MergeSpace"@,
            TokenKind::Eof => "Eof"@,
        }
    }

    /// The name of the token kind, as displayed.
    pub fn to_display_string(&self) -> (res: &'static str)
        ensures
            res@ == Self::kind_name(self.spec_kind()),
    {
        match self {
            TokenType::String(_) => "String",
            TokenType::Number(_) => "Number",
            TokenType::Percentage(_) => "Percentage",
            TokenType::Identifier(_) => "Identifier",
            TokenType::Hash(_) => "Hash",
            TokenType::AtKeyword(_) => "AtKeyword",
            TokenType::Url(_) => "Url",
            TokenType::Plus => "Plus",
            TokenType::Minus => "Minus",
            TokenType::Multiply => "Multiply",
            TokenType::Divide => "Divide",
            TokenType::Modulo => "Modulo",
            TokenType::Equal => "Equal",
            TokenType::NotEqual => "NotEqual",
            TokenType::LessThan => "LessThan",
            TokenType::LessThanOrEqual => "LessThanOrEqual",
            TokenType::GreaterThan => "GreaterThan",
            TokenType::GreaterThanOrEqual => "GreaterThanOrEqual",
            TokenType::And => "And",
            TokenType::Or => "Or",
            TokenType::Not => "Not",
            TokenType::LeftParen => "LeftParen",
            TokenType::RightParen => "RightParen",
            TokenType::LeftBrace => "LeftBrace",
            TokenType::RightBrace => "RightBrace",
            TokenType::LeftBracket => "LeftBracket",
            TokenType::RightBracket => "RightBracket",
            TokenType::Semicolon => "Semicolon",
            TokenType::Colon => "Colon",
            TokenType::Comma => "Comma",
            TokenType::Dot => "Dot",
            TokenType::Ampersand => "Ampersand",
            TokenType::Tilde => "Tilde",
            TokenType::Pipe => "Pipe",
            TokenType::Whitespace => "Whitespace",
            TokenType::Comment(_) => "Comment",
            TokenType::VariableInterpolation(_) => "VariableInterpolation",
            TokenType::When => "When",
            TokenType::Ellipsis => "Ellipsis",
            TokenType::Important => "Important",
            TokenType::Default => "Default",
            TokenType::MergeComma => "MergeComma",
            TokenType::MergeSpace => "MergeSpace",
            TokenType::Eof => "Eof",
        }
    }
}


/// A token with its position and source text.
#[derive(Debug, Clone, PartialEq)]
pub struct Token {
    /// The kind and text of the token
    pub token_type: TokenType,
    /// Where the token starts
    pub position: Position,
    /// The source text of the token
    pub lexeme: String,
}

/// What the lexer does from a given place of the input: a token spanning
/// `start..end` (after skipped white space), or an error reported at the
/// position of index `at`, after which the lexer stands at `end`.
pub enum LexOutcome {
    /// A token
    Tok { kind: TokenKind, payload: Seq<char>, lexeme: Seq<char>, start: int, end: int },
    /// A lexical error
    LexFailure { message: Seq<char>, at: int, end: int },
    /// A parse error (unterminated block comment)
    ParseFailure { message: Seq<char>, at: int, end: int },
}

/// The 1-based line and column of index `n` of `s`: each newline starts a
/// new line, every other character advances the column.
pub open spec fn pos_at(s: Seq<char>, n: int) -> (int, int)
    decreases n,
{
    if n <= 0 {
        (1, 1)
    } else {
        let (l, c) = pos_at(s, n - 1);
        if s[n - 1] == '\n' {
            (l + 1, 1)
        } else {
            (l, c + 1)
        }
    }
}

/// Characters that may start an identifier: alphabetic characters (on
/// ASCII, exactly the letters), `_`, and everything from U+00A0 on.
pub open spec fn is_ident_start(c: char) -> bool {
    if (c as u32) < 128 {
        ascii_letter(c) || c == '_'
    } else {
        alphabetic(c) || c >= '\u{A0}'
    }
}

/// Characters that may continue an identifier: alphanumeric characters (on
/// ASCII, exactly the letters and digits), `_`, `-`, and everything from
/// U+00A0 on.
pub open spec fn is_ident_char(c: char) -> bool {
    if (c as u32) < 128 {
        ascii_letter(c) || ('0' <= c && c <= '9') || c == '_' || c == '-'
    } else {
        alphanumeric(c) || c >= '\u{A0}'
    }
}

/// End of the white space starting at `j`.
pub open spec fn ws_end(s: Seq<char>, j: int) -> int
    decreases s.len() - j,
{
    if 0 <= j < s.len() && white_space(s[j]) {
        ws_end(s, j + 1)
    } else {
        j
    }
}

/// End of the identifier characters starting at `j`.
pub open spec fn ident_end(s: Seq<char>, j: int) -> int
    decreases s.len() - j,
{
    if 0 <= j < s.len() && is_ident_char(s[j]) {
        ident_end(s, j + 1)
    } else {
        j
    }
}

/// End of the digits and dots starting at `j`.
pub open spec fn number_end(s: Seq<char>, j: int) -> int
    decreases s.len() - j,
{
    if 0 <= j < s.len() && (('0' <= s[j] && s[j] <= '9') || s[j] == '.') {
        number_end(s, j + 1)
    } else {
        j
    }
}

/// End of the name of an interpolation `@{name}` starting at `j`: the first
/// `}` or non-identifier character.
pub open spec fn interp_end(s: Seq<char>, j: int) -> int
    decreases s.len() - j,
{
    if 0 <= j < s.len() && s[j] != '}' && is_ident_char(s[j]) {
        interp_end(s, j + 1)
    } else {
        j
    }
}

/// End of a line comment's text starting at `j` (the next newline).
pub open spec fn line_end(s: Seq<char>, j: int) -> int
    decreases s.len() - j,
{
    if 0 <= j < s.len() && s[j] != '\n' {
        line_end(s, j + 1)
    } else {
        j
    }
}

/// Index of the `*` of the first `*/` at or after `j` (the length if none).
pub open spec fn block_end(s: Seq<char>, j: int) -> int
    decreases s.len() - j,
{
    if 0 <= j < s.len() && !(s[j] == '*' && j + 1 < s.len() && s[j + 1] == '/') {
        block_end(s, j + 1)
    } else {
        j
    }
}

/// What an escape sequence `\c` stands for inside a string.
pub open spec fn escape_out(c: char) -> Seq<char> {
    if c == 'n' {
        seq!['\n']
    } else if c == 't' {
        seq!['\t']
    } else if c == 'r' {
        seq!['\r']
    } else if c == '\\' {
        seq!['\\']
    } else if c == '\'' {
        seq!['\'']
    } else if c == '"' {
        seq!['"']
    } else {
        seq!['\\', c]
    }
}

/// The rest of a string literal from `j` (after the opening quote `q`): its
/// unescaped value and the index after the closing quote; `None` when the
/// input ends first.
pub open spec fn string_scan(s: Seq<char>, j: int, q: char) -> Option<(Seq<char>, int)>
    decreases s.len() - j,
{
    if j < 0 || j >= s.len() {
        None
    } else if s[j] == q {
        Some((seq![], j + 1))
    } else if s[j] == '\\' {
        if j + 1 >= s.len() {
            None
        } else {
            match string_scan(s, j + 2, q) {
                Some((v, e)) => Some((escape_out(s[j + 1]) + v, e)),
                None => None,
            }
        }
    } else {
        match string_scan(s, j + 1, q) {
            Some((v, e)) => Some((seq![s[j]] + v, e)),
            None => None,
        }
    }
}

/// A one-character or fixed token from `start` to `end`.
pub open spec fn fixed(s: Seq<char>, kind: TokenKind, start: int, end: int) -> LexOutcome {
    LexOutcome::Tok { kind, payload: seq![], lexeme: s.subrange(start, end), start, end }
}

/// The token (or error) the lexer produces at index `i` of `s`.
pub open spec fn spec_next(s: Seq<char>, i: int) -> LexOutcome {
    let j = ws_end(s, i);
    if j >= s.len() {
        LexOutcome::Tok { kind: TokenKind::Eof, payload: seq![], lexeme: seq![], start: j, end: j }
    } else {
        let c = s[j];
        if c == '"' || c == '\'' {
            match string_scan(s, j + 1, c) {
                Some((v, e)) => LexOutcome::Tok {
                    kind: TokenKind::String,
                    payload: v,
                    lexeme: seq![c] + v + seq![c],
                    start: j,
                    end: e,
                },
                None => LexOutcome::LexFailure {
                    message: "Unterminated string literal"@,
                    at: s.len() as int,
                    end: s.len() as int,
                },
            }
        } else if '0' <= c && c <= '9' {
            let e = number_end(s, j);
            let raw = s.subrange(j, e);
            if e < s.len() && s[e] == '%' {
                LexOutcome::Tok {
                    kind: TokenKind::Percentage,
                    payload: raw,
                    lexeme: raw + seq!['%'],
                    start: j,
                    end: e + 1,
                }
            } else {
                LexOutcome::Tok { kind: TokenKind::Number, payload: raw, lexeme: raw, start: j, end: e }
            }
        } else if is_ident_start(c) {
            let e = ident_end(s, j);
            let v = s.subrange(j, e);
            if v == "and"@ {
                LexOutcome::Tok { kind: TokenKind::And, payload: seq![], lexeme: v, start: j, end: e }
            } else if v == "or"@ {
                LexOutcome::Tok { kind: TokenKind::Or, payload: seq![], lexeme: v, start: j, end: e }
            } else if v == "not"@ {
                LexOutcome::Tok { kind: TokenKind::Not, payload: seq![], lexeme: v, start: j, end: e }
            } else if v == "when"@ {
                LexOutcome::Tok { kind: TokenKind::When, payload: seq![], lexeme: v, start: j, end: e }
            } else {
                LexOutcome::Tok { kind: TokenKind::Identifier, payload: v, lexeme: v, start: j, end: e }
            }
        } else if c == '#' {
            let e = ident_end(s, j + 1);
            let v = s.subrange(j + 1, e);
            LexOutcome::Tok { kind: TokenKind::Hash, payload: v, lexeme: seq!['#'] + v, start: j, end: e }
        } else if c == '@' {
            if j + 1 < s.len() && s[j + 1] == '{' {
                let k = interp_end(s, j + 2);
                if k < s.len() && s[k] == '}' {
                    let v = s.subrange(j + 2, k);
                    if v.len() == 0 {
                        LexOutcome::LexFailure { message: "Empty variable interpolation"@, at: k + 1, end: k + 1 }
                    } else {
                        LexOutcome::Tok {
                            kind: TokenKind::VariableInterpolation,
                            payload: v,
                            lexeme: seq!['@', '{'] + v + seq!['}'],
                            start: j,
                            end: k + 1,
                        }
                    }
                } else if k < s.len() {
                    LexOutcome::LexFailure {
                        message: "Invalid character in variable interpolation"@,
                        at: k,
                        end: k,
                    }
                } else {
                    let v = s.subrange(j + 2, k);
                    if v.len() == 0 {
                        LexOutcome::LexFailure { message: "Empty variable interpolation"@, at: k, end: k }
                    } else {
                        LexOutcome::Tok {
                            kind: TokenKind::VariableInterpolation,
                            payload: v,
                            lexeme: seq!['@', '{'] + v + seq!['}'],
                            start: j,
                            end: k,
                        }
                    }
                }
            } else {
                let e = ident_end(s, j + 1);
                let v = s.subrange(j + 1, e);
                LexOutcome::Tok { kind: TokenKind::AtKeyword, payload: v, lexeme: seq!['@'] + v, start: j, end: e }
            }
        } else if c == '/' && j + 1 < s.len() && (s[j + 1] == '/' || s[j + 1] == '*') {
            if s[j + 1] == '/' {
                let k = line_end(s, j + 2);
                let v = seq!['/', '/'] + s.subrange(j + 2, k);
                LexOutcome::Tok { kind: TokenKind::Comment, payload: v, lexeme: v, start: j, end: k }
            } else {
                let k = block_end(s, j + 2);
                if k < s.len() {
                    let v = seq!['/', '*'] + s.subrange(j + 2, k) + seq!['*', '/'];
                    LexOutcome::Tok { kind: TokenKind::Comment, payload: v, lexeme: v, start: j, end: k + 2 }
                } else {
                    LexOutcome::ParseFailure {
                        message: "Unterminated block comment"@,
                        at: j,
                        end: s.len() as int,
                    }
                }
            }
        } else if c == '!' {
            let e = ident_end(s, j + 1);
            let v = s.subrange(j + 1, e);
            if v == "important"@ {
                LexOutcome::Tok { kind: TokenKind::Important, payload: seq![], lexeme: seq!['!'] + v, start: j, end: e }
            } else if v == "default"@ {
                LexOutcome::Tok { kind: TokenKind::Default, payload: seq![], lexeme: seq!['!'] + v, start: j, end: e }
            } else {
                LexOutcome::LexFailure { message: "Unknown directive: !"@ + v, at: e, end: e }
            }
        } else if c == '+' {
            if j + 2 < s.len() && s[j + 1] == '_' && s[j + 2] == ':' {
                fixed(s, TokenKind::MergeSpace, j, j + 3)
            } else if j + 1 < s.len() && s[j + 1] == ':' {
                fixed(s, TokenKind::MergeComma, j, j + 2)
            } else {
                fixed(s, TokenKind::Plus, j, j + 1)
            }
        } else if c == '-' {
            if j + 1 < s.len() && alphabetic(s[j + 1]) {
                let e = ident_end(s, j);
                let v = s.subrange(j, e);
                LexOutcome::Tok { kind: TokenKind::Identifier, payload: v, lexeme: v, start: j, end: e }
            } else {
                fixed(s, TokenKind::Minus, j, j + 1)
            }
        } else if c == '<' {
            if j + 1 < s.len() && s[j + 1] == '=' {
                fixed(s, TokenKind::LessThanOrEqual, j, j + 2)
            } else {
                fixed(s, TokenKind::LessThan, j, j + 1)
            }
        } else if c == '>' {
            if j + 1 < s.len() && s[j + 1] == '=' {
                fixed(s, TokenKind::GreaterThanOrEqual, j, j + 2)
            } else {
                fixed(s, TokenKind::GreaterThan, j, j + 1)
            }
        } else if c == '.' {
            if j + 2 < s.len() && s[j + 1] == '.' && s[j + 2] == '.' {
                fixed(s, TokenKind::Ellipsis, j, j + 3)
            } else {
                fixed(s, TokenKind::Dot, j, j + 1)
            }
        } else if single_char_kind(c).is_some() {
            fixed(s, single_char_kind(c).unwrap(), j, j + 1)
        } else {
            LexOutcome::LexFailure { message: "Unexpected character: '"@ + seq![c] + "'"@, at: j, end: j }
        }
    }
}

/// Tokens made of one character that no other rule claims first.
pub open spec fn single_char_kind(c: char) -> Option<TokenKind> {
    if c == '*' { Some(TokenKind::Multiply) }
    else if c == '/' { Some(TokenKind::Divide) }
    else if c == '%' { Some(TokenKind::Modulo) }
    else if c == '=' { Some(TokenKind::Equal) }
    else if c == '(' { Some(TokenKind::LeftParen) }
    else if c == ')' { Some(TokenKind::RightParen) }
    else if c == '{' { Some(TokenKind::LeftBrace) }
    else if c == '}' { Some(TokenKind::RightBrace) }
    else if c == '[' { Some(TokenKind::LeftBracket) }
    else if c == ']' { Some(TokenKind::RightBracket) }
    else if c == ';' { Some(TokenKind::Semicolon) }
    else if c == ':' { Some(TokenKind::Colon) }
    else if c == ',' { Some(TokenKind::Comma) }
    else if c == '&' { Some(TokenKind::Ampersand) }
    else if c == '~' { Some(TokenKind::Tilde) }
    else if c == '|' { Some(TokenKind::Pipe) }
    else { None }
}

/// The outcomes of lexing `s` from `i` until the end token or an error.
pub open spec fn lex_run(s: Seq<char>, i: int) -> Seq<LexOutcome>
    decreases s.len() - i,
{
    let o = spec_next(s, i);
    match o {
        LexOutcome::Tok { kind, end, .. } => if kind != TokenKind::Eof && i < end <= s.len() {
            seq![o] + lex_run(s, end)
        } else {
            seq![o]
        },
        _ => seq![o],
    }
}

/// Whether `t` is the token that outcome `o` describes for input `s`.
pub open spec fn token_is(t: Token, o: LexOutcome, s: Seq<char>) -> bool {
    o matches LexOutcome::Tok { kind, payload, lexeme, start, .. } && t.token_type.spec_kind()
        == kind && t.token_type.spec_payload() == payload && t.lexeme@ == lexeme && (
    t.position.line as int, t.position.column as int) == pos_at(s, start)
}

/// Whether `e` is the error that outcome `o` describes for input `s`.
pub open spec fn error_is(e: Error, o: LexOutcome, s: Seq<char>) -> bool {
    match o {
        LexOutcome::LexFailure { message, at, .. } => e matches Error::LexError {
            message: m,
            line,
            column,
        } && m@ == message && (line as int, column as int) == pos_at(s, at),
        LexOutcome::ParseFailure { message, at, .. } => e matches Error::ParseError {
            message: m,
            line,
            column,
        } && m@ == message && (line as int, column as int) == pos_at(s, at),
        _ => false,
    }
}


/// Whether a kind carries no text.
pub open spec fn is_unit_kind(k: TokenKind) -> bool {
    !(k is String || k is Number || k is Percentage || k is Identifier || k is Hash
        || k is AtKeyword || k is Url || k is Comment || k is VariableInterpolation)
}

fn unit_token(k: TokenKind) -> (res: TokenType)
    requires
        is_unit_kind(k),
    ensures
        res.spec_kind() == k,
        res.spec_payload() == Seq::<char>::empty(),
{
    match k {
        TokenKind::Plus => TokenType::Plus,
        TokenKind::Minus => TokenType::Minus,
        TokenKind::Multiply => TokenType::Multiply,
        TokenKind::Divide => TokenType::Divide,
        TokenKind::Modulo => TokenType::Modulo,
        TokenKind::Equal => TokenType::Equal,
        TokenKind::NotEqual => TokenType::NotEqual,
        TokenKind::LessThan => TokenType::LessThan,
        TokenKind::LessThanOrEqual => TokenType::LessThanOrEqual,
        TokenKind::GreaterThan => TokenType::GreaterThan,
        TokenKind::GreaterThanOrEqual => TokenType::GreaterThanOrEqual,
        TokenKind::And => TokenType::And,
        TokenKind::Or => TokenType::Or,
        TokenKind::Not => TokenType::Not,
        TokenKind::LeftParen => TokenType::LeftParen,
        TokenKind::RightParen => TokenType::RightParen,
        TokenKind::LeftBrace => TokenType::LeftBrace,
        TokenKind::RightBrace => TokenType::RightBrace,
        TokenKind::LeftBracket => TokenType::LeftBracket,
        TokenKind::RightBracket => TokenType::RightBracket,
        TokenKind::Semicolon => TokenType::Semicolon,
        TokenKind::Colon => TokenType::Colon,
        TokenKind::Comma => TokenType::Comma,
        TokenKind::Dot => TokenType::Dot,
        TokenKind::Ampersand => TokenType::Ampersand,
        TokenKind::Tilde => TokenType::Tilde,
        TokenKind::Pipe => TokenType::Pipe,
        TokenKind::Whitespace => TokenType::Whitespace,
        TokenKind::When => TokenType::When,
        TokenKind::Ellipsis => TokenType::Ellipsis,
        TokenKind::Important => TokenType::Important,
        TokenKind::Default => TokenType::Default,
        TokenKind::MergeComma => TokenType::MergeComma,
        TokenKind::MergeSpace => TokenType::MergeSpace,
        TokenKind::Eof => TokenType::Eof,
        _ => TokenType::Eof,
    }
}

fn single_char_kind_exec(c: char) -> (res: Option<TokenKind>)
    ensures
        res == single_char_kind(c),
        res matches Some(k) ==> is_unit_kind(k),
{
    if c == '*' { Some(TokenKind::Multiply) }
    else if c == '/' { Some(TokenKind::Divide) }
    else if c == '%' { Some(TokenKind::Modulo) }
    else if c == '=' { Some(TokenKind::Equal) }
    else if c == '(' { Some(TokenKind::LeftParen) }
    else if c == ')' { Some(TokenKind::RightParen) }
    else if c == '{' { Some(TokenKind::LeftBrace) }
    else if c == '}' { Some(TokenKind::RightBrace) }
    else if c == '[' { Some(TokenKind::LeftBracket) }
    else if c == ']' { Some(TokenKind::RightBracket) }
    else if c == ';' { Some(TokenKind::Semicolon) }
    else if c == ':' { Some(TokenKind::Colon) }
    else if c == ',' { Some(TokenKind::Comma) }
    else if c == '&' { Some(TokenKind::Ampersand) }
    else if c == '~' { Some(TokenKind::Tilde) }
    else if c == '|' { Some(TokenKind::Pipe) }
    else { None }
}

proof fn lemma_pos_bound(s: Seq<char>, n: int)
    requires
        0 <= n,
    ensures
        1 <= pos_at(s, n).0 <= n + 1,
        1 <= pos_at(s, n).1 <= n + 1,
    decreases n,
{
    if n > 0 {
        lemma_pos_bound(s, n - 1);
    }
}

fn escape_push(value: &mut String, c: char)
    ensures
        final(value)@ == old(value)@ + escape_out(c),
{
    let ghost before = value@;
    if c == 'n' {
        push_char(value, '\n');
    } else if c == 't' {
        push_char(value, '\t');
    } else if c == 'r' {
        push_char(value, '\r');
    } else if c == '\\' {
        push_char(value, '\\');
    } else if c == '\'' {
        push_char(value, '\'');
    } else if c == '"' {
        push_char(value, '"');
    } else {
        push_char(value, '\\');
        push_char(value, c);
    }
    assert(value@ =~= before + escape_out(c));
}

/// Lexer for LESS source.
pub struct Lexer {
    input: String,
    char_index: usize,
    chars: Vec<char>,
    line: usize,
    column: usize,
    current_char: Option<char>,
}

impl Lexer {
    /// The characters being lexed.
    pub closed spec fn spec_chars(&self) -> Seq<char> {
        self.chars@
    }

    /// The index of the current character.
    pub closed spec fn spec_index(&self) -> int {
        self.char_index as int
    }

    /// The lexer's state is consistent: the current character and the
    /// line/column match the index.
    pub closed spec fn wf(&self) -> bool {
        &&& self.chars@ == self.input@
        &&& self.chars@.len() < usize::MAX
        &&& self.char_index <= self.chars@.len()
        &&& self.current_char == if self.char_index < self.chars@.len() {
            Some(self.chars@[self.char_index as int])
        } else {
            None
        }
        &&& (self.line as int, self.column as int) == pos_at(self.chars@, self.char_index as int)
    }

    /// Creates a lexer at the start of `input`.
    pub fn new(input: String) -> (res: Self)
        requires
            input@.len() < usize::MAX,
        ensures
            res.wf(),
            res.spec_chars() == input@,
            res.spec_index() == 0,
    {
        let chars = chars_of(input.as_str());
        let current_char = if chars.len() > 0 {
            Some(chars[0])
        } else {
            None
        };
        Lexer { input, char_index: 0, chars, line: 1, column: 1, current_char }
    }

    /// The line and column of the current character.
    pub fn current_position(&self) -> (res: Position)
        requires
            self.wf(),
        ensures
            (res.line as int, res.column as int) == pos_at(self.spec_chars(), self.spec_index()),
    {
        Position::new(self.line, self.column)
    }

    /// Moves to the next character, tracking lines and columns.
    fn advance(&mut self)
        requires
            old(self).wf(),
        ensures
            final(self).wf(),
            final(self).spec_chars() == old(self).spec_chars(),
            final(self).spec_index() == if old(self).spec_index() < old(self).spec_chars().len() {
                old(self).spec_index() + 1
            } else {
                old(self).spec_index()
            },
    {
        if let Some(ch) = self.current_char {
            proof {
                lemma_pos_bound(self.chars@, self.char_index as int);
            }
            self.char_index = self.char_index + 1;
            if ch == '\n' {
                self.line = self.line + 1;
                self.column = 1;
            } else {
                self.column = self.column + 1;
            }
        }
        self.current_char = if self.char_index < self.chars.len() {
            Some(self.chars[self.char_index])
        } else {
            None
        };
    }

    /// The character after the current one.
    fn peek(&self) -> (res: Option<char>)
        requires
            self.wf(),
        ensures
            res == if self.spec_index() + 1 < self.spec_chars().len() {
                Some(self.spec_chars()[self.spec_index() + 1])
            } else {
                None
            },
    {
        if self.char_index + 1 < self.chars.len() {
            Some(self.chars[self.char_index + 1])
        } else {
            None
        }
    }

    /// The character `n` places after the current one.
    fn peek_ahead(&self, n: usize) -> (res: Option<char>)
        requires
            self.wf(),
            n <= 2,
        ensures
            res == if self.spec_index() + n < self.spec_chars().len() {
                Some(self.spec_chars()[self.spec_index() + n])
            } else {
                None
            },
    {
        if n < self.chars.len() - self.char_index {
            Some(self.chars[self.char_index + n])
        } else {
            None
        }
    }

    /// Skips white space.
    fn skip_whitespace(&mut self)
        requires
            old(self).wf(),
        ensures
            final(self).wf(),
            final(self).spec_chars() == old(self).spec_chars(),
            final(self).spec_index() == ws_end(old(self).spec_chars(), old(self).spec_index()),
            final(self).spec_index() >= old(self).spec_index(),
    {
        let ghost s = self.chars@;
        let ghost start = self.char_index as int;
        while self.current_char.is_some() && is_whitespace(self.current_char.unwrap())
            invariant
                self.wf(),
                self.chars@ == s,
                s == old(self).spec_chars(),
                ws_end(s, start) == ws_end(s, self.char_index as int),
                start <= self.char_index,
            decreases s.len() - self.char_index,
        {
            self.advance();
        }
    }

    /// Whether a character may start an identifier.
    fn is_identifier_start(ch: char) -> (res: bool)
        ensures
            res == is_ident_start(ch),
    {
        is_alphabetic(ch) || ch == '_' || ch >= '\u{00A0}'
    }

    /// Whether a character may continue an identifier; every character that
    /// may start one may continue it.
    fn is_identifier_char(ch: char) -> (res: bool)
        ensures
            res == is_ident_char(ch),
            is_ident_start(ch) ==> res,
    {
        is_alphanumeric(ch) || ch == '_' || ch == '-' || ch >= '\u{00A0}'
    }

    /// Reads identifier characters from the current one.
    fn read_identifier(&mut self) -> (res: String)
        requires
            old(self).wf(),
        ensures
            final(self).wf(),
            final(self).spec_chars() == old(self).spec_chars(),
            final(self).spec_index() == ident_end(old(self).spec_chars(), old(self).spec_index()),
            res@ == old(self).spec_chars().subrange(old(self).spec_index(), final(self).spec_index()),
    {
        let ghost s = self.chars@;
        let ghost start = self.char_index as int;
        let mut value = String::new();
        while self.current_char.is_some() && Self::is_identifier_char(self.current_char.unwrap())
            invariant
                self.wf(),
                self.chars@ == s,
                s == old(self).spec_chars(),
                0 <= start <= self.char_index,
                ident_end(s, start) == ident_end(s, self.char_index as int),
                value@ == s.subrange(start, self.char_index as int),
            decreases s.len() - self.char_index,
        {
            let ch = self.current_char.unwrap();
            let ghost i0 = self.char_index as int;
            assert(i0 < s.len() && ch == s[i0]);
            push_char(&mut value, ch);
            self.advance();
            assert(self.char_index == i0 + 1);
            assert(value@ =~= s.subrange(start, self.char_index as int));
        }
        value
    }

    /// Reads a `#name`: skips the `#` and reads the name.
    fn read_hash(&mut self) -> (res: String)
        requires
            old(self).wf(),
            old(self).spec_index() < old(self).spec_chars().len(),
        ensures
            final(self).wf(),
            final(self).spec_chars() == old(self).spec_chars(),
            final(self).spec_index() == ident_end(old(self).spec_chars(), old(self).spec_index() + 1),
            res@ == old(self).spec_chars().subrange(old(self).spec_index() + 1, final(self).spec_index()),
    {
        self.advance();
        self.read_identifier()
    }

    /// Reads an `@name`: skips the `@` and reads the name.
    fn read_at_keyword(&mut self) -> (res: String)
        requires
            old(self).wf(),
            old(self).spec_index() < old(self).spec_chars().len(),
        ensures
            final(self).wf(),
            final(self).spec_chars() == old(self).spec_chars(),
            final(self).spec_index() == ident_end(old(self).spec_chars(), old(self).spec_index() + 1),
            res@ == old(self).spec_chars().subrange(old(self).spec_index() + 1, final(self).spec_index()),
    {
        self.advance();
        self.read_identifier()
    }
}


impl Lexer {
    /// Reads a string literal whose opening quote is the current character.
    fn read_string(&mut self, quote: char) -> (res: Result<String, Error>)
        requires
            old(self).wf(),
            old(self).spec_index() < old(self).spec_chars().len(),
            old(self).spec_chars()[old(self).spec_index()] == quote,
            quote == '"' || quote == '\'',
        ensures
            final(self).wf(),
            final(self).spec_chars() == old(self).spec_chars(),
            match string_scan(old(self).spec_chars(), old(self).spec_index() + 1, quote) {
                Some((v, e)) => res matches Ok(r) && r@ == v && final(self).spec_index() == e,
                None => res matches Err(err) && error_is(
                    err,
                    LexOutcome::LexFailure {
                        message: "Unterminated string literal"@,
                        at: old(self).spec_chars().len() as int,
                        end: old(self).spec_chars().len() as int,
                    },
                    old(self).spec_chars(),
                ) && final(self).spec_index() == old(self).spec_chars().len(),
            },
    {
        let ghost s = self.chars@;
        let ghost j0 = self.char_index as int + 1;
        let mut value = String::new();
        self.advance();
        loop
            invariant
                self.wf(),
                self.chars@ == s,
                s == old(self).spec_chars(),
                j0 <= self.char_index,
                j0 == old(self).spec_index() + 1,
                quote == '"' || quote == '\'',
                string_scan(s, j0, quote) == match string_scan(s, self.char_index as int, quote) {
                    Some((v, e)) => Some((value@ + v, e)),
                    None => None,
                },
            ensures
                self.wf(),
                self.chars@ == s,
                s == old(self).spec_chars(),
                self.char_index == s.len(),
                string_scan(s, j0, quote) is None,
            decreases s.len() - self.char_index,
        {
            match self.current_char {
                None => {
                    proof {
                        assert(string_scan(s, self.char_index as int, quote) is None);
                    }
                    break;
                },
                Some(ch) => {
                    let ghost i0 = self.char_index as int;
                    if ch == quote {
                        self.advance();
                        proof {
                            assert(value@ + seq![] =~= value@);
                        }
                        return Ok(value);
                    } else if ch == '\\' {
                        self.advance();
                        if let Some(escaped) = self.current_char {
                            let ghost before = value@;
                            escape_push(&mut value, escaped);
                            self.advance();
                            proof {
                                match string_scan(s, i0 + 2, quote) {
                                    Some((v, e)) => {
                                        assert(value@ + v =~= before + (escape_out(s[i0 + 1]) + v));
                                    },
                                    None => {},
                                }
                            }
                        }
                    } else {
                        let ghost before = value@;
                        push_char(&mut value, ch);
                        self.advance();
                        proof {
                            match string_scan(s, i0 + 1, quote) {
                                Some((v, e)) => {
                                    assert(value@ + v =~= before + (seq![ch] + v));
                                },
                                None => {},
                            }
                        }
                    }
                },
            }
        }
        Err(Error::lex_error("Unterminated string literal", self.line, self.column))
    }

    /// Reads digits and dots, then an optional `%`; returns the numeral as
    /// written and whether it was a percentage.
    fn read_number(&mut self) -> (res: (String, bool))
        requires
            old(self).wf(),
        ensures
            final(self).wf(),
            final(self).spec_chars() == old(self).spec_chars(),
            ({
                let s = old(self).spec_chars();
                let e = number_end(s, old(self).spec_index());
                &&& res.0@ == s.subrange(old(self).spec_index(), e)
                &&& res.1 == (e < s.len() && s[e] == '%')
                &&& final(self).spec_index() == if res.1 { e + 1 } else { e }
            }),
    {
        let ghost s = self.chars@;
        let ghost start = self.char_index as int;
        let mut value = String::new();
        while self.current_char.is_some() && (('0' <= self.current_char.unwrap()
            && self.current_char.unwrap() <= '9') || self.current_char.unwrap() == '.')
            invariant
                self.wf(),
                self.chars@ == s,
                s == old(self).spec_chars(),
                0 <= start <= self.char_index,
                number_end(s, start) == number_end(s, self.char_index as int),
                value@ == s.subrange(start, self.char_index as int),
            decreases s.len() - self.char_index,
        {
            let ch = self.current_char.unwrap();
            let ghost i0 = self.char_index as int;
            push_char(&mut value, ch);
            self.advance();
            assert(value@ =~= s.subrange(start, self.char_index as int));
        }
        let is_percentage = if self.current_char == Some('%') {
            self.advance();
            true
        } else {
            false
        };
        (value, is_percentage)
    }

    /// Reads an interpolation `@{name}`; the current character is the `@`
    /// and the next one is `{`.
    fn read_variable_interpolation(&mut self) -> (res: Result<String, Error>)
        requires
            old(self).wf(),
            old(self).spec_index() + 1 < old(self).spec_chars().len(),
            old(self).spec_chars()[old(self).spec_index()] == '@',
            old(self).spec_chars()[old(self).spec_index() + 1] == '{',
        ensures
            final(self).wf(),
            final(self).spec_chars() == old(self).spec_chars(),
            ({
                let s = old(self).spec_chars();
                let j = old(self).spec_index();
                let k = interp_end(s, j + 2);
                let closed = k < s.len() && s[k] == '}';
                let v = s.subrange(j + 2, k);
                let after = if closed { k + 1 } else { k };
                if k < s.len() && !closed {
                    &&& res matches Err(err) && error_is(
                        err,
                        LexOutcome::LexFailure {
                            message: "Invalid character in variable interpolation"@,
                            at: k,
                            end: k,
                        },
                        s,
                    )
                    &&& final(self).spec_index() == k
                } else if v.len() == 0 {
                    &&& res matches Err(err) && error_is(
                        err,
                        LexOutcome::LexFailure {
                            message: "Empty variable interpolation"@,
                            at: after,
                            end: after,
                        },
                        s,
                    )
                    &&& final(self).spec_index() == after
                } else {
                    &&& res matches Ok(r) && r@ == v
                    &&& final(self).spec_index() == after
                }
            }),
    {
        let ghost s = self.chars@;
        let ghost j = self.char_index as int;
        let mut value = String::new();
        self.advance();
        if self.current_char != Some('{') {
            return Err(
                Error::lex_error(
                    "Expected '{' after '@' for variable interpolation",
                    self.line,
                    self.column,
                ),
            );
        }
        self.advance();
        loop
            invariant_except_break
                interp_end(s, j + 2) == interp_end(s, self.char_index as int),
                value@ == s.subrange(j + 2, self.char_index as int),
            invariant
                self.wf(),
                self.chars@ == s,
                s == old(self).spec_chars(),
                j + 2 <= self.char_index,
                0 <= j,
                j == old(self).spec_index(),
            ensures
                self.wf(),
                self.chars@ == s,
                s == old(self).spec_chars(),
                ({
                    let k = interp_end(s, j + 2);
                    &&& k == s.len() || s[k] == '}'
                    &&& value@ == s.subrange(j + 2, k)
                    &&& if k < s.len() && s[k] == '}' {
                        self.char_index == k + 1
                    } else {
                        self.char_index == k
                    }
                }),
            decreases s.len() - self.char_index,
        {
            match self.current_char {
                None => {
                    break;
                },
                Some(ch) => {
                    if ch == '}' {
                        proof {
                            assert(interp_end(s, self.char_index as int) == self.char_index);
                        }
                        self.advance();
                        break;
                    } else if Self::is_identifier_char(ch) {
                        let ghost i0 = self.char_index as int;
                        push_char(&mut value, ch);
                        self.advance();
                        assert(value@ =~= s.subrange(j + 2, self.char_index as int));
                    } else {
                        return Err(
                            Error::lex_error(
                                "Invalid character in variable interpolation",
                                self.line,
                                self.column,
                            ),
                        );
                    }
                },
            }
        }
        if value.as_str().is_empty() {
            return Err(Error::lex_error("Empty variable interpolation", self.line, self.column));
        }
        Ok(value)
    }

    /// Reads a comment, markers included; the current character is `/` and
    /// the next one `/` or `*`.
    fn read_comment(&mut self) -> (res: Result<String, Error>)
        requires
            old(self).wf(),
            old(self).spec_index() + 1 < old(self).spec_chars().len(),
            old(self).spec_chars()[old(self).spec_index()] == '/',
            old(self).spec_chars()[old(self).spec_index() + 1] == '/'
                || old(self).spec_chars()[old(self).spec_index() + 1] == '*',
        ensures
            final(self).wf(),
            final(self).spec_chars() == old(self).spec_chars(),
            ({
                let s = old(self).spec_chars();
                let j = old(self).spec_index();
                if s[j + 1] == '/' {
                    let k = line_end(s, j + 2);
                    &&& res matches Ok(r) && r@ == seq!['/', '/'] + s.subrange(j + 2, k)
                    &&& final(self).spec_index() == k
                } else {
                    let k = block_end(s, j + 2);
                    if k < s.len() {
                        &&& res matches Ok(r) && r@ == seq!['/', '*'] + s.subrange(j + 2, k) + seq![
                            '*',
                            '/',
                        ]
                        &&& final(self).spec_index() == k + 2
                    } else {
                        &&& res matches Err(err) && error_is(
                            err,
                            LexOutcome::ParseFailure {
                                message: "Unterminated block comment"@,
                                at: j,
                                end: s.len() as int,
                            },
                            s,
                        )
                        &&& final(self).spec_index() == s.len()
                    }
                }
            }),
    {
        let ghost s = self.chars@;
        let ghost j = self.char_index as int;
        let mut value = String::new();
        if self.current_char == Some('/') && self.peek() == Some('/') {
            push_char(&mut value, '/');
            push_char(&mut value, '/');
            self.advance();
            self.advance();
            while self.current_char.is_some() && self.current_char.unwrap() != '\n'
                invariant
                    self.wf(),
                    self.chars@ == s,
                    s == old(self).spec_chars(),
                    0 <= j,
                    j == old(self).spec_index(),
                    j + 2 <= self.char_index,
                    line_end(s, j + 2) == line_end(s, self.char_index as int),
                    value@ == seq!['/', '/'] + s.subrange(j + 2, self.char_index as int),
                decreases s.len() - self.char_index,
            {
                let ch = self.current_char.unwrap();
                push_char(&mut value, ch);
                self.advance();
                assert(value@ =~= seq!['/', '/'] + s.subrange(j + 2, self.char_index as int));
            }
        } else if self.current_char == Some('/') && self.peek() == Some('*') {
            let start_line = self.line;
            let start_col = self.column;
            push_char(&mut value, '/');
            push_char(&mut value, '*');
            self.advance();
            self.advance();
            let mut found_end = false;
            loop
                invariant_except_break
                    !found_end,
                    block_end(s, j + 2) == block_end(s, self.char_index as int),
                    value@ == seq!['/', '*'] + s.subrange(j + 2, self.char_index as int),
                invariant
                    self.wf(),
                    self.chars@ == s,
                    s == old(self).spec_chars(),
                    0 <= j,
                    j == old(self).spec_index(),
                    j + 2 <= self.char_index,
                    (start_line as int, start_col as int) == pos_at(s, j),
                ensures
                    self.wf(),
                    self.chars@ == s,
                    s == old(self).spec_chars(),
                    (start_line as int, start_col as int) == pos_at(s, j),
                    ({
                        let k = block_end(s, j + 2);
                        if k < s.len() {
                            &&& found_end
                            &&& value@ == seq!['/', '*'] + s.subrange(j + 2, k) + seq!['*', '/']
                            &&& self.char_index == k + 2
                        } else {
                            &&& !found_end
                            &&& self.char_index == s.len()
                        }
                    }),
                decreases s.len() - self.char_index,
            {
                match self.current_char {
                    None => {
                        break;
                    },
                    Some(ch) => {
                        if ch == '*' && self.peek() == Some('/') {
                            let ghost k = self.char_index as int;
                            self.advance();
                            self.advance();
                            push_char(&mut value, '*');
                            push_char(&mut value, '/');
                            found_end = true;
                            assert(value@ =~= seq!['/', '*'] + s.subrange(j + 2, k) + seq!['*', '/']);
                            break;
                        } else {
                            push_char(&mut value, ch);
                            self.advance();
                            assert(value@ =~= seq!['/', '*'] + s.subrange(
                                j + 2,
                                self.char_index as int,
                            ));
                        }
                    },
                }
            }
            if !found_end {
                return Err(Error::parse_error("Unterminated block comment", start_line, start_col));
            }
        }
        Ok(value)
    }
}


proof fn lemma_ends_ge(s: Seq<char>, j: int)
    requires
        0 <= j,
    ensures
        ws_end(s, j) >= j,
        ident_end(s, j) >= j,
        number_end(s, j) >= j,
        interp_end(s, j) >= j,
        line_end(s, j) >= j,
        block_end(s, j) >= j,
        ws_end(s, j) <= s.len() || ws_end(s, j) == j,
        ident_end(s, j) <= s.len() || ident_end(s, j) == j,
    decreases s.len() - j,
{
    if j < s.len() {
        lemma_ends_ge(s, j + 1);
    }
}

proof fn lemma_string_scan_end(s: Seq<char>, j: int, q: char)
    requires
        0 <= j,
    ensures
        string_scan(s, j, q) matches Some((v, e)) ==> j < e <= s.len(),
    decreases s.len() - j,
{
    if j < s.len() {
        lemma_string_scan_end(s, j + 1, q);
        if j + 2 <= s.len() {
            lemma_string_scan_end(s, j + 2, q);
        }
    }
}

/// The outcome of `spec_next` at index `i` is reflected by `res` and the
/// lexer's new index.
pub open spec fn next_reflected(s: Seq<char>, i: int, res: Result<Token, Error>, idx: int) -> bool {
    let o = spec_next(s, i);
    match o {
        LexOutcome::Tok { kind, end, .. } => res matches Ok(t) && token_is(t, o, s) && idx == end
            && (kind != TokenKind::Eof ==> i < end),
        LexOutcome::LexFailure { end, .. } => res matches Err(e) && error_is(e, o, s) && idx == end,
        LexOutcome::ParseFailure { end, .. } => res matches Err(e) && error_is(e, o, s) && idx
            == end,
    }
}

impl Lexer {
    fn fixed_token(&mut self, kind: TokenKind, len: usize, position: Position) -> (res: Token)
        requires
            old(self).wf(),
            is_unit_kind(kind),
            1 <= len <= 3,
            old(self).spec_index() + len <= old(self).spec_chars().len(),
        ensures
            final(self).wf(),
            final(self).spec_chars() == old(self).spec_chars(),
            final(self).spec_index() == old(self).spec_index() + len,
            res.token_type.spec_kind() == kind,
            res.token_type.spec_payload() == Seq::<char>::empty(),
            res.lexeme@ == old(self).spec_chars().subrange(
                old(self).spec_index(),
                old(self).spec_index() + len,
            ),
            res.position == position,
    {
        let start = self.char_index;
        let mut k: usize = 0;
        while k < len
            invariant
                self.wf(),
                self.chars@ == old(self).spec_chars(),
                old(self).spec_index() + len <= self.chars@.len(),
                self.char_index == start + k,
                start == old(self).spec_index(),
                0 <= k <= len,
            decreases len - k,
        {
            self.advance();
            k = k + 1;
        }
        let lexeme = string_from_range(self.chars.as_slice(), start, self.char_index);
        Token { token_type: unit_token(kind), position, lexeme }
    }

    /// Reads the next token, skipping white space first; at the end of the
    /// input the end token.
    pub fn next_token(&mut self) -> (res: Result<Token, Error>)
        requires
            old(self).wf(),
        ensures
            final(self).wf(),
            final(self).spec_chars() == old(self).spec_chars(),
            next_reflected(
                old(self).spec_chars(),
                old(self).spec_index(),
                res,
                final(self).spec_index(),
            ),
    {
        let ghost s = self.chars@;
        let ghost i = self.char_index as int;
        self.skip_whitespace();
        let position = self.current_position();
        let j = self.char_index;
        proof {
            assert(j == ws_end(s, i));
            lemma_ends_ge(s, j as int);
            lemma_ends_ge(s, j + 1);
            lemma_ends_ge(s, j + 2);
            lemma_string_scan_end(s, j + 1, s[j as int]);
        }
        match self.current_char {
            None => {
                return Ok(Token { token_type: TokenType::Eof, position, lexeme: String::new() });
            },
            Some(c) => {
                assert(c == s[j as int]);
                if c == '"' || c == '\'' {
                    match self.read_string(c) {
                        Ok(value) => {
                            let mut lexeme = String::new();
                            push_char(&mut lexeme, c);
                            push_str(&mut lexeme, value.as_str());
                            push_char(&mut lexeme, c);
                            assert(lexeme@ =~= seq![c] + value@ + seq![c]);
                            return Ok(
                                Token { token_type: TokenType::String(value), position, lexeme },
                            );
                        },
                        Err(e) => {
                            return Err(e);
                        },
                    }
                } else if '0' <= c && c <= '9' {
                    let (raw, is_percentage) = self.read_number();
                    if is_percentage {
                        let mut lexeme = String::new();
                        push_str(&mut lexeme, raw.as_str());
                        push_char(&mut lexeme, '%');
                        assert(lexeme@ =~= raw@ + seq!['%']);
                        return Ok(
                            Token { token_type: TokenType::Percentage(raw), position, lexeme },
                        );
                    } else {
                        let lexeme = raw.clone();
                        return Ok(Token { token_type: TokenType::Number(raw), position, lexeme });
                    }
                } else if Self::is_identifier_start(c) {
                    // Asking whether `c` continues an identifier lets the
                    // verifier know it does (a letter is alphanumeric).
                    let continues = Self::is_identifier_char(c);
                    assert(continues);
                    let value = self.read_identifier();
                    let lexeme = value.clone();
                    let token_type = if crate::text::str_eq(value.as_str(), "and") {
                        TokenType::And
                    } else if crate::text::str_eq(value.as_str(), "or") {
                        TokenType::Or
                    } else if crate::text::str_eq(value.as_str(), "not") {
                        TokenType::Not
                    } else if crate::text::str_eq(value.as_str(), "when") {
                        TokenType::When
                    } else {
                        TokenType::Identifier(value)
                    };
                    return Ok(Token { token_type, position, lexeme });
                } else if c == '#' {
                    let value = self.read_hash();
                    let mut lexeme = String::new();
                    push_char(&mut lexeme, '#');
                    push_str(&mut lexeme, value.as_str());
                    return Ok(Token { token_type: TokenType::Hash(value), position, lexeme });
                } else if c == '@' {
                    if self.peek() == Some('{') {
                        match self.read_variable_interpolation() {
                            Ok(value) => {
                                let mut lexeme = String::new();
                                push_char(&mut lexeme, '@');
                                push_char(&mut lexeme, '{');
                                push_str(&mut lexeme, value.as_str());
                                push_char(&mut lexeme, '}');
                                assert(lexeme@ =~= seq!['@', '{'] + value@ + seq!['}']);
                                return Ok(
                                    Token {
                                        token_type: TokenType::VariableInterpolation(value),
                                        position,
                                        lexeme,
                                    },
                                );
                            },
                            Err(e) => {
                                return Err(e);
                            },
                        }
                    } else {
                        let value = self.read_at_keyword();
                        let mut lexeme = String::new();
                        push_char(&mut lexeme, '@');
                        push_str(&mut lexeme, value.as_str());
                        return Ok(
                            Token { token_type: TokenType::AtKeyword(value), position, lexeme },
                        );
                    }
                } else if c == '/' && (self.peek() == Some('/') || self.peek() == Some('*')) {
                    match self.read_comment() {
                        Ok(value) => {
                            let lexeme = value.clone();
                            return Ok(
                                Token { token_type: TokenType::Comment(value), position, lexeme },
                            );
                        },
                        Err(e) => {
                            return Err(e);
                        },
                    }
                } else if c == '!' {
                    self.advance();
                    let identifier = self.read_identifier();
                    let mut lexeme = String::new();
                    push_char(&mut lexeme, '!');
                    push_str(&mut lexeme, identifier.as_str());
                    if crate::text::str_eq(identifier.as_str(), "important") {
                        return Ok(Token { token_type: TokenType::Important, position, lexeme });
                    } else if crate::text::str_eq(identifier.as_str(), "default") {
                        return Ok(Token { token_type: TokenType::Default, position, lexeme });
                    } else {
                        let mut message = String::new();
                        push_str(&mut message, "Unknown directive: !");
                        push_str(&mut message, identifier.as_str());
                        proof {
                            let e = ident_end(s, j + 1);
                            assert(identifier@ == s.subrange(j + 1, e));
                            assert(message@ == "Unknown directive: !"@ + s.subrange(j + 1, e));
                            assert(self.char_index == e);
                        }
                        return Err(Error::lex_error(message.as_str(), self.line, self.column));
                    }
                } else if c == '+' {
                    if self.peek() == Some('_') && self.peek_ahead(2) == Some(':') {
                        return Ok(self.fixed_token(TokenKind::MergeSpace, 3, position));
                    } else if self.peek() == Some(':') {
                        return Ok(self.fixed_token(TokenKind::MergeComma, 2, position));
                    }
                    return Ok(self.fixed_token(TokenKind::Plus, 1, position));
                } else if c == '-' {
                    if let Some(next_ch) = self.peek() {
                        if is_alphabetic(next_ch) {
                            let value = self.read_identifier();
                            let lexeme = value.clone();
                            return Ok(
                                Token { token_type: TokenType::Identifier(value), position, lexeme },
                            );
                        }
                    }
                    return Ok(self.fixed_token(TokenKind::Minus, 1, position));
                } else if c == '<' {
                    if self.peek() == Some('=') {
                        return Ok(self.fixed_token(TokenKind::LessThanOrEqual, 2, position));
                    }
                    return Ok(self.fixed_token(TokenKind::LessThan, 1, position));
                } else if c == '>' {
                    if self.peek() == Some('=') {
                        return Ok(self.fixed_token(TokenKind::GreaterThanOrEqual, 2, position));
                    }
                    return Ok(self.fixed_token(TokenKind::GreaterThan, 1, position));
                } else if c == '.' {
                    if self.peek() == Some('.') && self.peek_ahead(2) == Some('.') {
                        return Ok(self.fixed_token(TokenKind::Ellipsis, 3, position));
                    }
                    return Ok(self.fixed_token(TokenKind::Dot, 1, position));
                } else if let Some(kind) = single_char_kind_exec(c) {
                    return Ok(self.fixed_token(kind, 1, position));
                } else {
                    let mut message = String::new();
                    push_str(&mut message, "Unexpected character: '");
                    push_char(&mut message, c);
                    push_str(&mut message, "'");
                    proof {
                        assert(message@ =~= "Unexpected character: '"@ + seq![c] + "'"@);
                        assert(single_char_kind(c).is_none());
                    }
                    return Err(Error::lex_error(message.as_str(), self.line, self.column));
                }
            },
        }
    }
}


/// Whether `tokens` are, one for one, the tokens that `outs` describe.
pub open spec fn tokens_are(tokens: Seq<Token>, outs: Seq<LexOutcome>, s: Seq<char>) -> bool {
    tokens.len() == outs.len() && forall|k: int|
        0 <= k < tokens.len() ==> #[trigger] token_is(tokens[k], outs[k], s)
}

/// Whether an outcome is a token other than the end token.
pub open spec fn is_continuing(o: LexOutcome) -> bool {
    o matches LexOutcome::Tok { kind, .. } && kind != TokenKind::Eof
}

/// `lex_run` from `i` is never empty, and ends in its last outcome.
proof fn lemma_lex_run_nonempty(s: Seq<char>, i: int)
    ensures
        lex_run(s, i).len() >= 1,
        lex_run(s, i)[0] == spec_next(s, i),
{
}

impl Lexer {
    /// Reads all tokens up to and including the end token; stops at the
    /// first error.
    pub fn tokenize(&mut self) -> (res: Result<Vec<Token>, Error>)
        requires
            old(self).wf(),
        ensures
            final(self).wf(),
            final(self).spec_chars() == old(self).spec_chars(),
            match res {
                Ok(tokens) => {
                    let run = lex_run(old(self).spec_chars(), old(self).spec_index());
                    &&& tokens_are(tokens@, run, old(self).spec_chars())
                    &&& run.last() matches LexOutcome::Tok { kind, .. } && kind == TokenKind::Eof
                },
                Err(e) => error_is(
                    e,
                    lex_run(old(self).spec_chars(), old(self).spec_index()).last(),
                    old(self).spec_chars(),
                ),
            },
    {
        let ghost s = self.chars@;
        let ghost i0 = self.char_index as int;
        let ghost mut done: Seq<LexOutcome> = seq![];
        let mut tokens: Vec<Token> = Vec::new();
        loop
            invariant
                self.wf(),
                self.chars@ == s,
                s == old(self).spec_chars(),
                i0 == old(self).spec_index(),
                0 <= self.char_index <= s.len(),
                done + lex_run(s, self.char_index as int) == lex_run(s, i0),
                tokens_are(tokens@, done, s),
                forall|k: int| 0 <= k < done.len() ==> is_continuing(#[trigger] done[k]),
            decreases s.len() - self.char_index,
        {
            let ghost idx = self.char_index as int;
            proof {
                lemma_lex_run_nonempty(s, idx);
            }
            let r = self.next_token();
            let ghost o = spec_next(s, idx);
            match r {
                Ok(token) => {
                    let is_eof = matches!(token.token_type, TokenType::Eof);
                    proof {
                        let end = self.char_index as int;
                        if is_eof {
                            assert(lex_run(s, idx) == seq![o]);
                        } else {
                            assert(idx < end <= s.len());
                            assert(lex_run(s, idx) == seq![o] + lex_run(s, end));
                        }
                    }
                    let ghost old_tokens = tokens@;
                    tokens.push(token);
                    proof {
                        let old_done = done;
                        done = done.push(o);
                        if !is_eof {
                            assert(done + lex_run(s, self.char_index as int) =~= old_done + lex_run(
                                s,
                                idx,
                            ));
                        }
                        assert forall|k: int| 0 <= k < tokens@.len() implies #[trigger] token_is(
                            tokens@[k],
                            done[k],
                            s,
                        ) by {
                            if k < old_done.len() {
                                assert(tokens@[k] == old_tokens[k]);
                            }
                        }
                    }
                    if is_eof {
                        proof {
                            assert(lex_run(s, idx) == seq![o]);
                            assert(done =~= lex_run(s, i0));
                        }
                        return Ok(tokens);
                    }
                },
                Err(e) => {
                    proof {
                        assert(lex_run(s, idx) == seq![o]);
                        assert(lex_run(s, i0) =~= done.push(o));
                    }
                    return Err(e);
                },
            }
        }
    }
}

/// The character a one-character token kind is written with.
pub open spec fn punctuation_char(k: TokenKind) -> Option<char> {
    match k {
        TokenKind::Multiply => Some('*'),
        TokenKind::Divide => Some('/'),
        TokenKind::Modulo => Some('%'),
        TokenKind::Equal => Some('='),
        TokenKind::LeftParen => Some('('),
        TokenKind::RightParen => Some(')'),
        TokenKind::LeftBrace => Some('{'),
        TokenKind::RightBrace => Some('}'),
        TokenKind::LeftBracket => Some('['),
        TokenKind::RightBracket => Some(']'),
        TokenKind::Semicolon => Some(';'),
        TokenKind::Colon => Some(':'),
        TokenKind::Comma => Some(','),
        TokenKind::Ampersand => Some('&'),
        TokenKind::Tilde => Some('~'),
        TokenKind::Pipe => Some('|'),
        TokenKind::Plus => Some('+'),
        TokenKind::Minus => Some('-'),
        TokenKind::LessThan => Some('<'),
        TokenKind::GreaterThan => Some('>'),
        TokenKind::Dot => Some('.'),
        _ => None,
    }
}

/// Characters that always stand alone as a token: `*`, `%`, `=`, brackets
/// of all kinds, `;`, `:`, `,`, `&`, `~` and `|`.
pub open spec fn is_lone_punctuation(c: char) -> bool {
    c == '*' || c == '%' || c == '=' || c == '(' || c == ')' || c == '{' || c == '}' || c == '['
        || c == ']' || c == ';' || c == ':' || c == ',' || c == '&' || c == '~' || c == '|'
}

/// Punctuation lexes as the token named for it. Every token of a
/// one-character kind (braces, brackets, parentheses, operators, `.`, ...)
/// that `next_token` returns is written with that kind's own character; and
/// a character that always stands alone (`{`, `}`, `;`, ...) met after
/// white space gives the token of its own kind, with itself as lexeme.
pub proof fn lemma_punctuation_tokens(s: Seq<char>, i: int, res: Result<Token, Error>, idx: int)
    requires
        0 <= i <= s.len(),
        next_reflected(s, i, res, idx),
    ensures
        res matches Ok(t) ==> (punctuation_char(t.token_type.spec_kind()) is Some ==> t.lexeme@
            == seq![punctuation_char(t.token_type.spec_kind()).unwrap()]),
        ws_end(s, i) < s.len() && is_lone_punctuation(s[ws_end(s, i)]) ==> (res matches Ok(t)
            && punctuation_char(t.token_type.spec_kind()) == Some(s[ws_end(s, i)]) && t.lexeme@
            == seq![s[ws_end(s, i)]]),
{
    let j = ws_end(s, i);
    lemma_ends_ge(s, i);
    if j < s.len() {
        let c = s[j];
        assert(s.subrange(j, j + 1) =~= seq![c]);
    }
}

} // verus!

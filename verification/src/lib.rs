//! The verified core of a LESS to CSS compiler: the lexer, selectors and
//! their specificity, units and named colours, errors, `:extend`
//! bookkeeping, media-query merging and header source mappings, selector
//! nesting and compiled selector text, rule blocks and queued media
//! blocks, at-rule prelude variables, mixin
//! argument binding and the order in which a call tries its definitions,
//! import file names and once-only imports, hex colours, map keys,
//! source-map generation, and the text helpers of the language server and
//! the command-line tool.

pub mod text;
pub mod ast;
pub mod error;
pub mod extend;
pub mod lexer;
pub mod source_map;
pub mod media;
pub mod units;
pub mod map_keys;
pub mod lsp;
pub mod cli;
pub mod mixin;
pub mod color;
pub mod nesting;
pub mod at_rule;
pub mod import;
pub mod output;

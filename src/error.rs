//! The two families of failure: input that does not match the grammar, and
//! syntax trees that the builder has no case for.
use vstd::prelude::*;

verus! {

/// What the recognizer looked for where the input stopped matching.
#[derive(Debug, Clone, Copy, PartialEq, Eq, Structural)]
pub enum Expected {
    /// `{` opening the top-level dictionary.
    Dictionary,
    /// A dictionary, array, quoted string, identifier or number.
    Value,
    /// A quoted string or an identifier naming a dictionary entry.
    Key,
    /// `=` between a key and its value.
    Equals,
    /// `;` or `}` after a dictionary entry.
    EntrySeparator,
    /// `,` or `)` after an array element.
    ElementSeparator,
    /// `"` closing a quoted string.
    ClosingQuote,
    /// A comment, `//` or `/*`.
    Comment,
    /// `*/` closing a block comment.
    CommentEnd,
    /// Nothing more after the document.
    EndOfInput,
}

impl Expected {
    /// A description of what was expected, for messages.
    pub fn description(&self) -> &'static str {
        match self {
            Expected::Dictionary => "'{' opening the top-level dictionary",
            Expected::Value => "a value",
            Expected::Key => "a key (quoted string or identifier)",
            Expected::Equals => "'='",
            Expected::EntrySeparator => "';' or '}'",
            Expected::ElementSeparator => "',' or ')'",
            Expected::ClosingQuote => "closing '\"'",
            Expected::Comment => "a comment",
            Expected::CommentEnd => "closing '*/'",
            Expected::EndOfInput => "end of input",
        }
    }
}

/// Where the input stopped matching the grammar, and what was expected there.
/// `offset` counts characters from the start of the input; `line` and
/// `column` count from 1.
#[derive(Debug, Clone, Copy, PartialEq, Eq, Structural)]
pub struct SyntaxError {
    pub offset: usize,
    pub line: usize,
    pub column: usize,
    pub expected: Expected,
}

/// The node kinds of the grammar.
#[derive(Debug, Clone, Copy, PartialEq, Eq, Structural)]
pub enum Rule {
    File,
    Value,
    Dictionary,
    PairSequence,
    PairEntry,
    PairComment,
    Pair,
    Key,
    Array,
    ValueList,
    ValueEntry,
    String,
    Identifier,
    Number,
    LineComment,
    BlockComment,
}

/// A failed parse. The builder of this library recognizes the grammar while
/// it builds the model, so `parse_document` reports only `Syntax`; the other
/// kinds name a mismatch between a syntax tree and the builder's rules.
#[derive(Debug, Clone, Copy, PartialEq, Eq, Structural)]
pub enum PbxParseError {
    /// The input does not match the grammar.
    Syntax(SyntaxError),
    /// The syntax tree has no top-level value.
    MissingRoot,
    /// A node kind where the builder has no case for it.
    UnexpectedRule(Rule),
    /// A node lacks a child that it requires.
    MissingChild,
}

} // verus!

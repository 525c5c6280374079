//! The syntax tree of a regular expression, as the translation reads it.

use vstd::prelude::*;

verus! {

/// A single character to match.
#[derive(Clone, Copy, Debug)]
pub enum Literal {
    /// A Unicode character.
    Unicode(char),
    /// A byte that need not be part of valid UTF-8.
    Byte(u8),
}

/// A set of characters to match.
#[derive(Debug)]
pub enum Class {
    /// Inclusive ranges of Unicode characters, each given by its two ends.
    /// A parser gives them disjoint and in ascending order; the translation
    /// takes them in any order and reads them as the set of their characters.
    Unicode(Vec<(char, char)>),
    /// Inclusive ranges of bytes.
    Bytes(Vec<(u8, u8)>),
}

/// How a group is told apart.
#[derive(Debug)]
pub enum GroupKind {
    /// A group that captures nothing.
    NonCapturing,
    /// A capturing group with its number.
    CaptureIndex(u32),
    /// A capturing group with its name.
    CaptureName(String),
}

/// How often a repeated expression may occur.
#[derive(Clone, Copy, Debug)]
pub enum RepetitionKind {
    /// `{n}`
    Exactly(u32),
    /// `{n,}`
    AtLeast(u32),
    /// `{min,max}`
    Bounded(u32, u32),
    /// `+`
    PlainOneOrMore,
    /// `*`
    PlainZeroOrMore,
    /// `?`
    PlainZeroOrOne,
}

/// A position to match.
#[derive(Clone, Copy, Debug)]
pub enum Anchor {
    /// The start of a line.
    StartLine,
    /// The end of a line.
    EndLine,
    /// The start of the text.
    StartText,
    /// The end of the text.
    EndText,
}

/// A word boundary, or what is none.
#[derive(Clone, Copy, Debug)]
pub enum WordBoundary {
    /// A Unicode word boundary.
    Unicode,
    /// What is no Unicode word boundary.
    UnicodeNegate,
    /// An ASCII word boundary.
    Ascii,
    /// What is no ASCII word boundary.
    AsciiNegate,
}

/// A regular expression.
#[derive(Debug)]
pub enum Node {
    /// One of the children.
    Alternation(Vec<Node>),
    /// A group around the child.
    Group(Box<Node>, GroupKind),
    /// A single character.
    Literal(Literal),
    /// The child, repeated.
    Repetition(Box<Node>, RepetitionKind),
    /// The children, one after the other.
    Concatenation(Vec<Node>),
    /// One character of a set.
    Class(Class),
    /// A position.
    Anchor(Anchor),
    /// A word boundary.
    WordBoundary(WordBoundary),
    /// The empty expression.
    Empty,
}

} // verus!

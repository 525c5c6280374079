//! Railroad diagrams and the text that stands for them.

use vstd::prelude::*;
use crate::literal::{quoted, quoted_char};

verus! {

/// A railroad diagram.
pub enum Diagram {
    /// The items one after the other.
    Sequence(Seq<Diagram>),
    /// One of the items; the first is the default.
    Choice(Seq<Diagram>),
    /// The child in a box with a label.
    Group(Box<Diagram>, Seq<char>),
    /// The child once or more often, with a comment on the way back if any.
    OneOrMore(Box<Diagram>, Option<Seq<char>>),
    /// The child any number of times.
    ZeroOrMore(Box<Diagram>),
    /// The child or nothing.
    Optional(Box<Diagram>),
    /// Nothing.
    Skip,
    /// The start of the input.
    Start,
    /// The end of the input.
    End,
    /// A single character.
    Char(char),
    /// A string.
    Text(Seq<char>),
    /// The mark that stands for items left out.
    Ellipsis,
}

/// What follows an item in a list: a comma and a space, but nothing after
/// the mark for items left out.
pub open spec fn separator(d: Diagram) -> Seq<char> {
    if d is Ellipsis {
        Seq::empty()
    } else {
        ", "@
    }
}

/// The expression that stands for `d`.
pub open spec fn render(d: Diagram) -> Seq<char>
    decreases d, 0nat,
{
    match d {
        Diagram::Sequence(items) => "Sequence("@ + render_items(items, items.len()) + ")"@,
        Diagram::Choice(items) => "Choice(0, "@ + render_items(items, items.len()) + ")"@,
        Diagram::Group(child, label) => "Group("@ + render(*child) + ", "@ + quoted(label) + ")"@,
        Diagram::OneOrMore(child, None) => "OneOrMore("@ + render(*child) + ")"@,
        Diagram::OneOrMore(child, Some(comment)) => "OneOrMore("@ + render(*child) + ", Comment("@
            + quoted(comment) + "))"@,
        Diagram::ZeroOrMore(child) => "ZeroOrMore("@ + render(*child) + ")"@,
        Diagram::Optional(child) => "Optional("@ + render(*child) + ")"@,
        Diagram::Skip => "Skip()"@,
        Diagram::Start => "Start()"@,
        Diagram::End => "End()"@,
        Diagram::Char(c) => quoted_char(c),
        Diagram::Text(s) => quoted(s),
        Diagram::Ellipsis => "\"...\""@,
    }
}

/// The expressions of the first `n` items, each with what follows it.
pub open spec fn render_items(items: Seq<Diagram>, n: nat) -> Seq<char>
    decreases items, n,
{
    if n == 0 || n > items.len() {
        Seq::empty()
    } else {
        render_items(items, (n - 1) as nat) + render(items[n - 1]) + separator(items[n - 1])
    }
}

} // verus!

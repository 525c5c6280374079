//! From a regular expression to its railroad diagram.

use vstd::prelude::*;
use vstd::string::*;
use crate::ast::{Anchor, Class, GroupKind, Literal, Node, RepetitionKind};
use crate::complement::{everything_except, is_everything_except, missing, MAX_LEN};
use crate::ranges::same_chars;
use crate::diagram::{render, render_items, separator, Diagram};
use crate::literal::{push_quoted, push_quoted_char, py_char_str, py_str, quoted, quoted_char};
use crate::shorthand::{
    char_class, first_match, first_match_is_least, matches_at, parsed_class, shorthand,
    shorthand_classes, shorthand_pattern, SHORTHANDS,
};
use crate::text::{decimal, push_decimal};

verus! {

/// The greatest number of ranges that a class is shown with.
pub const MAX_RANGES: usize = 20;

/// What the translation cannot draw.
#[derive(Clone, Copy, Debug, PartialEq, Eq)]
pub enum Unsupported {
    /// A literal that is a byte and no character.
    ByteLiteral,
    /// A class of bytes.
    ByteClass,
    /// A repetition with bounds other than none to one, or at least one to
    /// at least two.
    RepetitionBounds,
}

/// The item that stands for one range of a class: the character itself
/// where the range holds one, else its two ends around a hyphen.
pub open spec fn range_entry(r: (char, char)) -> Diagram {
    if r.0 == r.1 {
        Diagram::Char(r.0)
    } else {
        Diagram::Text(seq![r.0, '-', r.1])
    }
}

/// The items for the ranges of a class: one for each of the first
/// `MAX_RANGES` ranges, and the mark for items left out where there are more.
pub open spec fn range_entries(ranges: Seq<(char, char)>) -> Seq<Diagram> {
    if ranges.len() <= MAX_RANGES {
        Seq::new(ranges.len(), |i: int| range_entry(ranges[i]))
    } else {
        Seq::new(MAX_RANGES as nat, |i: int| range_entry(ranges[i])).push(Diagram::Ellipsis)
    }
}

/// The diagram of a class of characters: its shorthand where it has one,
/// else the set of the characters that it leaves out where that is short,
/// else a choice among its ranges.
pub open spec fn class_diagram(ranges: Seq<(char, char)>) -> Diagram {
    match shorthand(ranges) {
        Some(p) => Diagram::Text(p),
        None => match everything_except(ranges) {
            Some(s) => Diagram::Text(s),
            None => Diagram::Choice(range_entries(ranges)),
        },
    }
}

/// Whether a repetition of this kind can be drawn.
pub open spec fn drawable(kind: RepetitionKind) -> bool {
    match kind {
        RepetitionKind::Bounded(min, max) => (min == 0 && max == 1) || (min >= 1 && max >= 2),
        _ => true,
    }
}

/// The comment on a repetition of this kind, where it has one.
pub open spec fn repetition_comment(kind: RepetitionKind) -> Option<Seq<char>> {
    match kind {
        RepetitionKind::Exactly(n) if n >= 2 => Some("= "@ + decimal(n as nat) + " times"@),
        RepetitionKind::AtLeast(n) if n >= 2 => Some(
            seq!['\u{2265}', ' '] + decimal(n as nat) + " times"@,
        ),
        RepetitionKind::Bounded(min, max) if min >= 1 && max >= 2 => Some(
            decimal(min as nat) + " ~ "@ + decimal(max as nat) + " times"@,
        ),
        _ => None,
    }
}

/// The diagram of `child` repeated in the given way.
pub open spec fn repeated(kind: RepetitionKind, child: Diagram) -> Diagram {
    match kind {
        RepetitionKind::Exactly(n) => if n == 0 {
            Diagram::Skip
        } else if n == 1 {
            child
        } else {
            Diagram::OneOrMore(Box::new(child), repetition_comment(kind))
        },
        RepetitionKind::AtLeast(n) => if n == 0 {
            Diagram::ZeroOrMore(Box::new(child))
        } else {
            Diagram::OneOrMore(Box::new(child), repetition_comment(kind))
        },
        RepetitionKind::Bounded(min, max) => if min == 0 {
            Diagram::Optional(Box::new(child))
        } else {
            Diagram::OneOrMore(Box::new(child), repetition_comment(kind))
        },
        RepetitionKind::PlainOneOrMore => Diagram::OneOrMore(Box::new(child), None),
        RepetitionKind::PlainZeroOrMore => Diagram::ZeroOrMore(Box::new(child)),
        RepetitionKind::PlainZeroOrOne => Diagram::Optional(Box::new(child)),
    }
}

/// The label of a capturing group: its name, or its number in decimal.
pub open spec fn group_label(kind: GroupKind) -> Seq<char> {
    match kind {
        GroupKind::CaptureName(name) => name@,
        GroupKind::CaptureIndex(index) => decimal(index as nat),
        GroupKind::NonCapturing => Seq::empty(),
    }
}

/// The diagram of `node`, or the first thing in it, read from left to
/// right, that cannot be drawn.
pub open spec fn translate(node: Node) -> Result<Diagram, Unsupported>
    decreases node, 0nat,
{
    match node {
        Node::Alternation(children) => match translate_prefix(children, children.len() as nat) {
            Ok(items) => Ok(Diagram::Choice(items)),
            Err(e) => Err(e),
        },
        Node::Group(child, kind) => match translate(*child) {
            Ok(d) => if kind is NonCapturing {
                Ok(d)
            } else {
                Ok(Diagram::Group(Box::new(d), group_label(kind)))
            },
            Err(e) => Err(e),
        },
        Node::Literal(Literal::Byte(_)) => Err(Unsupported::ByteLiteral),
        Node::Literal(Literal::Unicode(c)) => Ok(Diagram::Char(c)),
        Node::Repetition(child, kind) => if kind == RepetitionKind::Exactly(0) {
            Ok(Diagram::Skip)
        } else if !drawable(kind) {
            Err(Unsupported::RepetitionBounds)
        } else {
            match translate(*child) {
                Ok(d) => Ok(repeated(kind, d)),
                Err(e) => Err(e),
            }
        },
        Node::Concatenation(children) => match translate_prefix(
            children,
            children.len() as nat,
        ) {
            Ok(items) => Ok(Diagram::Sequence(items)),
            Err(e) => Err(e),
        },
        Node::Class(Class::Bytes(_)) => Err(Unsupported::ByteClass),
        Node::Class(Class::Unicode(ranges)) => Ok(class_diagram(ranges@)),
        Node::Anchor(Anchor::StartLine) => Ok(Diagram::Start),
        Node::Anchor(Anchor::StartText) => Ok(Diagram::Start),
        Node::Anchor(Anchor::EndLine) => Ok(Diagram::End),
        Node::Anchor(Anchor::EndText) => Ok(Diagram::End),
        Node::WordBoundary(_) => Ok(Diagram::Text("\\\\b"@)),
        Node::Empty => Ok(Diagram::Text(Seq::empty())),
    }
}

/// The diagrams of the first `n` children, in their order, or what cannot
/// be drawn in the first child that has such a thing.
pub open spec fn translate_prefix(children: Vec<Node>, n: nat) -> Result<Seq<Diagram>, Unsupported>
    decreases children, n,
{
    if n == 0 || n > children.len() {
        Ok(Seq::empty())
    } else {
        match translate_prefix(children, (n - 1) as nat) {
            Ok(items) => match translate(children[n - 1]) {
                Ok(d) => Ok(items.push(d)),
                Err(e) => Err(e),
            },
            Err(e) => Err(e),
        }
    }
}

/// Whether `r` is the text of the diagram in `t`, or the same refusal.
pub open spec fn agrees(r: Result<String, Unsupported>, t: Result<Diagram, Unsupported>) -> bool {
    match t {
        Ok(d) => r matches Ok(s) && s@ == render(d),
        Err(e) => r matches Err(x) && x == e,
    }
}

/// Whether `r` is the text of the items in `t`, each with what follows it,
/// or the same refusal.
pub open spec fn agrees_items(
    r: Result<String, Unsupported>,
    t: Result<Seq<Diagram>, Unsupported>,
) -> bool {
    match t {
        Ok(items) => r matches Ok(s) && s@ == render_items(items, items.len()),
        Err(e) => r matches Err(x) && x == e,
    }
}

/// The text of the first `n` items depends on these items alone.
pub proof fn render_items_of_prefix(a: Seq<Diagram>, b: Seq<Diagram>, n: nat)
    requires
        n <= a.len(),
        n <= b.len(),
        forall|i: int| 0 <= i < n ==> a[i] == b[i],
    ensures
        render_items(a, n) == render_items(b, n),
    decreases n,
{
    if n > 0 {
        render_items_of_prefix(a, b, (n - 1) as nat);
    }
}

/// The text of a list with one more item is the text of the list, the text
/// of the item, and what follows the item.
pub proof fn render_items_push(items: Seq<Diagram>, d: Diagram)
    ensures
        render_items(items.push(d), items.len() + 1) == render_items(items, items.len()) + render(
            d,
        ) + separator(d),
{
    render_items_of_prefix(items.push(d), items, items.len());
}

/// What cannot be drawn among the first children cannot be drawn among more
/// of them.
pub proof fn translate_prefix_refused(children: Vec<Node>, m: nat, n: nat)
    requires
        m <= n <= children.len(),
        translate_prefix(children, m) is Err,
    ensures
        translate_prefix(children, n) == translate_prefix(children, m),
    decreases n - m,
{
    if m < n {
        translate_prefix_refused(children, m, (n - 1) as nat);
    }
}

/// As many diagrams come out as children went in.
pub proof fn translate_prefix_len(children: Vec<Node>, n: nat)
    requires
        n <= children.len(),
    ensures
        translate_prefix(children, n) matches Ok(items) ==> items.len() == n,
    decreases n,
{
    if n > 0 {
        translate_prefix_len(children, (n - 1) as nat);
    }
}

/// The mark for items left out is no diagram of an expression.
pub proof fn translate_gives_no_ellipsis(node: Node)
    ensures
        translate(node) matches Ok(d) ==> !(d is Ellipsis),
    decreases node,
{
    match node {
        Node::Group(child, kind) => {
            translate_gives_no_ellipsis(*child);
        },
        Node::Repetition(child, kind) => {
            translate_gives_no_ellipsis(*child);
        },
        _ => {},
    }
}

/// The text of the comment on a repetition of this kind, where it has one.
pub fn repetition_note(kind: RepetitionKind) -> (r: Option<String>)
    ensures
        match repetition_comment(kind) {
            Some(t) => r matches Some(s) && s@ == t,
            None => r is None,
        },
{
    match kind {
        RepetitionKind::Exactly(n) => {
            if n >= 2 {
                let mut s = String::from_str("= ");
                push_decimal(&mut s, n);
                s.append(" times");
                Some(s)
            } else {
                None
            }
        },
        RepetitionKind::AtLeast(n) => {
            if n >= 2 {
                let mut s = String::new();
                s.push('\u{2265}');
                s.push(' ');
                push_decimal(&mut s, n);
                s.append(" times");
                assert(s@ =~= seq!['\u{2265}', ' '] + decimal(n as nat) + " times"@);
                Some(s)
            } else {
                None
            }
        },
        RepetitionKind::Bounded(min, max) => {
            if min >= 1 && max >= 2 {
                let mut s = String::new();
                push_decimal(&mut s, min);
                s.append(" ~ ");
                push_decimal(&mut s, max);
                s.append(" times");
                assert(s@ =~= decimal(min as nat) + " ~ "@ + decimal(max as nat) + " times"@);
                Some(s)
            } else {
                None
            }
        },
        _ => None,
    }
}

/// The choice among the ranges of a class: each of the first `MAX_RANGES`
/// ranges, and the mark for items left out where there are more.
pub fn range_choice(class: &Vec<(char, char)>) -> (r: String)
    ensures
        r@ == render(Diagram::Choice(range_entries(class@))),
{
    let ghost entries = range_entries(class@);
    let shown: usize = if class.len() <= MAX_RANGES {
        class.len()
    } else {
        MAX_RANGES
    };
    let mut s = String::from_str("Choice(0, ");
    let mut i: usize = 0;
    while i < shown
        invariant
            i <= shown <= class.len(),
            shown <= MAX_RANGES,
            shown <= entries.len(),
            entries == range_entries(class@),
            s@ == "Choice(0, "@ + render_items(entries, i as nat),
        decreases shown - i,
    {
        let first: char = class[i].0;
        let last: char = class[i].1;
        assert(entries[i as int] == range_entry((first, last)));
        if first == last {
            push_quoted_char(&mut s, first);
        } else {
            let mut ends = String::new();
            ends.push(first);
            ends.push('-');
            ends.push(last);
            assert(ends@ =~= seq![first, '-', last]);
            push_quoted(&mut s, ends.as_str());
        }
        s.append(", ");
        proof {
            let item = entries[i as int];
            assert(render_items(entries, (i + 1) as nat) == render_items(entries, i as nat)
                + render(item) + separator(item));
            assert(render(item) == if first == last {
                quoted_char(first)
            } else {
                quoted(seq![first, '-', last])
            });
            assert(s@ =~= "Choice(0, "@ + render_items(entries, (i + 1) as nat));
        }
        i += 1;
    }
    if class.len() > MAX_RANGES {
        s.append("\"...\"");
        proof {
            let item = entries[MAX_RANGES as int];
            assert(item is Ellipsis);
            assert(entries.len() == MAX_RANGES + 1);
            assert(render_items(entries, entries.len()) == render_items(
                entries,
                MAX_RANGES as nat,
            ) + render(item) + separator(item));
            assert(s@ =~= "Choice(0, "@ + render_items(entries, entries.len()));
        }
    }
    s.append(")");
    assert(s@ =~= render(Diagram::Choice(entries)));
    s
}

/// The text of the diagram of a class of characters.
pub fn class_text(class: &Vec<(char, char)>) -> (r: String)
    ensures
        r@ == render(class_diagram(class@)),
{
    match char_class(class) {
        Some(p) => py_str(p),
        None => match is_everything_except(class) {
            Some(c) => py_str(c.as_str()),
            None => range_choice(class),
        },
    }
}

/// The texts of the diagrams of `children`, each followed by a comma and a
/// space, or the first thing that cannot be drawn.
pub fn descent_items(children: &Vec<Node>) -> (r: Result<String, Unsupported>)
    ensures
        agrees_items(r, translate_prefix(*children, children.len() as nat)),
    decreases children,
{
    let mut s = String::new();
    let mut i: usize = 0;
    while i < children.len()
        invariant
            i <= children.len(),
            translate_prefix(*children, i as nat) matches Ok(items) && s@ == render_items(
                items,
                items.len(),
            ),
        decreases children.len() - i,
    {
        let ghost items = translate_prefix(*children, i as nat)->Ok_0;
        match descent(&children[i]) {
            Ok(t) => {
                proof {
                    let d = translate(children[i as int])->Ok_0;
                    translate_gives_no_ellipsis(children[i as int]);
                    render_items_push(items, d);
                    translate_prefix_len(*children, i as nat);
                }
                s.append(t.as_str());
                s.append(", ");
            },
            Err(e) => {
                proof {
                    translate_prefix_refused(*children, (i + 1) as nat, children.len() as nat);
                }
                return Err(e);
            },
        }
        i += 1;
    }
    Ok(s)
}

/// The text of the diagram of `root`, or the first thing in `root`, read
/// from left to right, that cannot be drawn.
pub fn descent(root: &Node) -> (r: Result<String, Unsupported>)
    ensures
        agrees(r, translate(*root)),
    decreases root,
{
    match root {
        Node::Alternation(children) => match descent_items(children) {
            Ok(inner) => {
                let mut s = String::from_str("Choice(0, ");
                s.append(inner.as_str());
                s.append(")");
                proof {
                    translate_prefix_len(*children, children.len() as nat);
                }
                Ok(s)
            },
            Err(e) => Err(e),
        },
        Node::Group(child, kind) => match descent(child) {
            Ok(inner) => match kind {
                GroupKind::NonCapturing => Ok(inner),
                GroupKind::CaptureIndex(index) => {
                    let mut label = String::new();
                    push_decimal(&mut label, *index);
                    let mut s = String::from_str("Group(");
                    s.append(inner.as_str());
                    s.append(", ");
                    push_quoted(&mut s, label.as_str());
                    s.append(")");
                    assert(label@ =~= decimal(*index as nat));
                    Ok(s)
                },
                GroupKind::CaptureName(name) => {
                    let mut s = String::from_str("Group(");
                    s.append(inner.as_str());
                    s.append(", ");
                    push_quoted(&mut s, name.as_str());
                    s.append(")");
                    Ok(s)
                },
            },
            Err(e) => Err(e),
        },
        Node::Literal(Literal::Byte(_)) => Err(Unsupported::ByteLiteral),
        Node::Literal(Literal::Unicode(c)) => Ok(py_char_str(*c)),
        Node::Repetition(child, kind) => {
            let rail: &'static str = match kind {
                RepetitionKind::Exactly(n) => {
                    if *n == 0 {
                        return Ok(String::from_str("Skip()"));
                    } else if *n == 1 {
                        return descent(child);
                    } else {
                        "OneOrMore("
                    }
                },
                RepetitionKind::AtLeast(n) => if *n == 0 {
                    "ZeroOrMore("
                } else {
                    "OneOrMore("
                },
                RepetitionKind::Bounded(min, max) => {
                    if *min == 0 && *max == 1 {
                        "Optional("
                    } else if *min >= 1 && *max >= 2 {
                        "OneOrMore("
                    } else {
                        return Err(Unsupported::RepetitionBounds);
                    }
                },
                RepetitionKind::PlainOneOrMore => "OneOrMore(",
                RepetitionKind::PlainZeroOrMore => "ZeroOrMore(",
                RepetitionKind::PlainZeroOrOne => "Optional(",
            };
            match descent(child) {
                Ok(inner) => {
                    let mut s = String::from_str(rail);
                    s.append(inner.as_str());
                    match repetition_note(*kind) {
                        Some(note) => {
                            s.append(", Comment(");
                            push_quoted(&mut s, note.as_str());
                            s.append("))");
                        },
                        None => {
                            s.append(")");
                        },
                    }
                    Ok(s)
                },
                Err(e) => Err(e),
            }
        },
        Node::Concatenation(children) => match descent_items(children) {
            Ok(inner) => {
                let mut s = String::from_str("Sequence(");
                s.append(inner.as_str());
                s.append(")");
                proof {
                    translate_prefix_len(*children, children.len() as nat);
                }
                Ok(s)
            },
            Err(e) => Err(e),
        },
        Node::Class(Class::Bytes(_)) => Err(Unsupported::ByteClass),
        Node::Class(Class::Unicode(ranges)) => Ok(class_text(ranges)),
        Node::Anchor(Anchor::StartLine) => Ok(String::from_str("Start()")),
        Node::Anchor(Anchor::StartText) => Ok(String::from_str("Start()")),
        Node::Anchor(Anchor::EndLine) => Ok(String::from_str("End()")),
        Node::Anchor(Anchor::EndText) => Ok(String::from_str("End()")),
        Node::WordBoundary(_) => Ok(py_str("\\\\b")),
        Node::Empty => {
            proof {
                reveal_strlit("");
                assert(""@ =~= Seq::<char>::empty());
            }
            Ok(py_str(""))
        },
    }
}

/// A class that holds the same characters as the class of a shorthand is
/// drawn as a shorthand, never as a set of missing characters or a choice
/// among ranges: as the first shorthand, in their order, whose class holds
/// these characters.
pub proof fn shorthand_class_is_drawn_as_shorthand(class: Vec<(char, char)>, i: int)
    requires
        0 <= i < SHORTHANDS,
        parsed_class(shorthand_pattern(i)) matches Some(c) && same_chars(class@, c),
    ensures
        first_match(class@, shorthand_classes()) matches Some(j) && j <= i && matches_at(
            class@,
            shorthand_classes(),
            j,
        ) && translate(Node::Class(Class::Unicode(class))) == Ok::<Diagram, Unsupported>(
            Diagram::Text(shorthand_pattern(j)),
        ),
{
    first_match_is_least(class@, shorthand_classes());
    assert(matches_at(class@, shorthand_classes(), i));
}

/// A class without a shorthand is drawn as the set of the characters that
/// it leaves out exactly when that set, with the brackets around it, is at
/// most `MAX_LEN` long, and else as a choice among its ranges.
pub proof fn missing_characters_are_drawn_iff_short(class: Vec<(char, char)>)
    requires
        shorthand(class@) is None,
    ensures
        translate(Node::Class(Class::Unicode(class))) == Ok::<Diagram, Unsupported>(
            if ("[^"@ + missing(class@) + "]"@).len() <= MAX_LEN {
                Diagram::Text("[^"@ + missing(class@) + "]"@)
            } else {
                Diagram::Choice(range_entries(class@))
            },
        ),
{
    reveal_strlit("[^");
    reveal_strlit("]");
}

/// An expression repeated exactly zero times is drawn as nothing, whatever
/// the expression.
pub proof fn exactly_zero_is_skip(child: Node)
    ensures
        translate(Node::Repetition(Box::new(child), RepetitionKind::Exactly(0))) == Ok::<
            Diagram,
            Unsupported,
        >(Diagram::Skip),
{
}

/// An expression repeated exactly once is drawn as the expression itself.
pub proof fn exactly_one_is_child(child: Node)
    ensures
        translate(Node::Repetition(Box::new(child), RepetitionKind::Exactly(1))) == translate(
            child,
        ),
{
}

/// Where each of the first `n` children can be drawn, their diagrams come
/// out one for one, in the same order.
pub proof fn translate_prefix_in_order(children: Vec<Node>, n: nat)
    requires
        n <= children.len(),
        forall|i: int| 0 <= i < n ==> translate(#[trigger] children[i]) is Ok,
    ensures
        translate_prefix(children, n) matches Ok(items) && items.len() == n && forall|i: int|
            0 <= i < n ==> Ok::<Diagram, Unsupported>(#[trigger] items[i]) == translate(
                children[i],
            ),
    decreases n,
{
    if n > 0 {
        translate_prefix_in_order(children, (n - 1) as nat);
    }
}

/// A concatenation of children that can be drawn is a sequence of as many
/// items, the diagrams of the children in the same order.
pub proof fn concatenation_is_sequence(children: Vec<Node>)
    requires
        forall|i: int| 0 <= i < children.len() ==> translate(#[trigger] children[i]) is Ok,
    ensures
        translate(Node::Concatenation(children)) matches Ok(Diagram::Sequence(items))
            && items.len() == children.len() && forall|i: int|
            0 <= i < children.len() ==> Ok::<Diagram, Unsupported>(#[trigger] items[i])
                == translate(children[i]),
{
    translate_prefix_in_order(children, children.len() as nat);
}

/// A class drawn as a choice among its ranges shows each of its first
/// `MAX_RANGES` ranges, in their order, and after them only the mark for
/// items left out, which is there exactly when the class has more ranges.
pub proof fn range_choice_is_bounded(class: Vec<(char, char)>)
    requires
        shorthand(class@) is None,
        everything_except(class@) is None,
    ensures
        translate(Node::Class(Class::Unicode(class))) == Ok::<Diagram, Unsupported>(
            Diagram::Choice(range_entries(class@)),
        ),
        range_entries(class@).len() <= MAX_RANGES + 1,
        forall|i: int|
            0 <= i < class.len() && i < MAX_RANGES ==> #[trigger] range_entries(class@)[i]
                == range_entry(class[i]),
        class.len() <= MAX_RANGES ==> range_entries(class@).len() == class.len(),
        class.len() > MAX_RANGES ==> range_entries(class@).len() == MAX_RANGES + 1
            && range_entries(class@)[MAX_RANGES as int] is Ellipsis,
{
}

} // verus!

use regex_railroad::ast::{Anchor, Class, GroupKind, Literal, Node, RepetitionKind, WordBoundary};
use regex_railroad::script::script;
use regex_railroad::translate::{descent, descent_items, repetition_note, Unsupported};

fn lit(c: char) -> Node {
    Node::Literal(Literal::Unicode(c))
}

fn rep(child: Node, kind: RepetitionKind) -> Node {
    Node::Repetition(Box::new(child), kind)
}

fn text(node: &Node) -> String {
    descent(node).unwrap()
}

#[test]
fn literal_char() {
    assert_eq!(text(&lit('a')), "'a'");
    assert_eq!(text(&lit('\'')), "'\\''");
    assert_eq!(text(&lit('\\')), "'\\\\'");
    assert_eq!(text(&lit('\n')), "'<A>'");
}

#[test]
fn empty_expression() {
    assert_eq!(text(&Node::Empty), "''");
}

#[test]
fn anchors() {
    assert_eq!(text(&Node::Anchor(Anchor::StartLine)), "Start()");
    assert_eq!(text(&Node::Anchor(Anchor::StartText)), "Start()");
    assert_eq!(text(&Node::Anchor(Anchor::EndLine)), "End()");
    assert_eq!(text(&Node::Anchor(Anchor::EndText)), "End()");
}

#[test]
fn word_boundaries() {
    for b in [
        WordBoundary::Unicode,
        WordBoundary::UnicodeNegate,
        WordBoundary::Ascii,
        WordBoundary::AsciiNegate,
    ] {
        assert_eq!(text(&Node::WordBoundary(b)), "'\\\\b'");
    }
}

#[test]
fn plain_repetitions() {
    assert_eq!(text(&rep(lit('a'), RepetitionKind::PlainZeroOrMore)), "ZeroOrMore('a')");
    assert_eq!(text(&rep(lit('a'), RepetitionKind::PlainOneOrMore)), "OneOrMore('a')");
    assert_eq!(text(&rep(lit('a'), RepetitionKind::PlainZeroOrOne)), "Optional('a')");
}

#[test]
fn exactly_zero_is_skip() {
    assert_eq!(text(&rep(lit('a'), RepetitionKind::Exactly(0))), "Skip()");
    let nested = Node::Concatenation(vec![lit('a'), rep(lit('b'), RepetitionKind::AtLeast(4))]);
    assert_eq!(text(&rep(nested, RepetitionKind::Exactly(0))), "Skip()");
    assert_eq!(text(&rep(Node::Literal(Literal::Byte(0xff)), RepetitionKind::Exactly(0))), "Skip()");
}

#[test]
fn exactly_one_is_the_child() {
    assert_eq!(text(&rep(lit('a'), RepetitionKind::Exactly(1))), "'a'");
    let child = || Node::Alternation(vec![lit('a'), rep(lit('b'), RepetitionKind::PlainOneOrMore)]);
    assert_eq!(text(&rep(child(), RepetitionKind::Exactly(1))), text(&child()));
    assert_eq!(
        descent(&rep(Node::Literal(Literal::Byte(0xff)), RepetitionKind::Exactly(1))),
        Err(Unsupported::ByteLiteral)
    );
}

#[test]
fn exactly_many_has_a_comment() {
    assert_eq!(
        text(&rep(lit('a'), RepetitionKind::Exactly(3))),
        "OneOrMore('a', Comment('= 3 times'))"
    );
    assert_eq!(
        text(&rep(lit('a'), RepetitionKind::Exactly(2))),
        "OneOrMore('a', Comment('= 2 times'))"
    );
    assert_eq!(
        text(&rep(lit('a'), RepetitionKind::Exactly(1000))),
        "OneOrMore('a', Comment('= 1000 times'))"
    );
}

#[test]
fn at_least() {
    assert_eq!(text(&rep(lit('a'), RepetitionKind::AtLeast(0))), "ZeroOrMore('a')");
    assert_eq!(text(&rep(lit('a'), RepetitionKind::AtLeast(1))), "OneOrMore('a')");
    assert_eq!(
        text(&rep(lit('a'), RepetitionKind::AtLeast(2))),
        "OneOrMore('a', Comment('\u{2265} 2 times'))"
    );
    assert_eq!(
        text(&rep(lit('a'), RepetitionKind::AtLeast(15))),
        "OneOrMore('a', Comment('\u{2265} 15 times'))"
    );
}

#[test]
fn bounded() {
    assert_eq!(text(&rep(lit('a'), RepetitionKind::Bounded(0, 1))), "Optional('a')");
    assert_eq!(
        text(&rep(lit('a'), RepetitionKind::Bounded(2, 4))),
        "OneOrMore('a', Comment('2 ~ 4 times'))"
    );
    assert_eq!(
        text(&rep(lit('a'), RepetitionKind::Bounded(1, 2))),
        "OneOrMore('a', Comment('1 ~ 2 times'))"
    );
    assert_eq!(
        text(&rep(lit('a'), RepetitionKind::Bounded(10, 200))),
        "OneOrMore('a', Comment('10 ~ 200 times'))"
    );
}

#[test]
fn other_bounds_are_refused() {
    for (min, max) in [(0, 0), (0, 2), (0, 5), (1, 1), (1, 0), (3, 1)] {
        assert_eq!(
            descent(&rep(lit('a'), RepetitionKind::Bounded(min, max))),
            Err(Unsupported::RepetitionBounds)
        );
    }
    assert_eq!(
        descent(&rep(Node::Literal(Literal::Byte(1)), RepetitionKind::Bounded(0, 3))),
        Err(Unsupported::RepetitionBounds)
    );
}

#[test]
fn repetition_notes() {
    assert_eq!(repetition_note(RepetitionKind::Exactly(0)), None);
    assert_eq!(repetition_note(RepetitionKind::Exactly(1)), None);
    assert_eq!(repetition_note(RepetitionKind::Exactly(2)), Some(String::from("= 2 times")));
    assert_eq!(repetition_note(RepetitionKind::AtLeast(1)), None);
    assert_eq!(repetition_note(RepetitionKind::AtLeast(7)), Some(String::from("\u{2265} 7 times")));
    assert_eq!(repetition_note(RepetitionKind::Bounded(0, 1)), None);
    assert_eq!(repetition_note(RepetitionKind::Bounded(0, 9)), None);
    assert_eq!(repetition_note(RepetitionKind::Bounded(1, 1)), None);
    assert_eq!(repetition_note(RepetitionKind::Bounded(3, 9)), Some(String::from("3 ~ 9 times")));
    assert_eq!(repetition_note(RepetitionKind::PlainOneOrMore), None);
    assert_eq!(repetition_note(RepetitionKind::PlainZeroOrMore), None);
    assert_eq!(repetition_note(RepetitionKind::PlainZeroOrOne), None);
}

#[test]
fn alternation_is_a_choice() {
    assert_eq!(text(&Node::Alternation(vec![lit('a'), lit('b')])), "Choice(0, 'a', 'b', )");
    assert_eq!(text(&Node::Alternation(vec![])), "Choice(0, )");
}

#[test]
fn concatenation_is_a_sequence_in_order() {
    assert_eq!(text(&Node::Concatenation(vec![])), "Sequence()");
    assert_eq!(text(&Node::Concatenation(vec![lit('a')])), "Sequence('a', )");
    assert_eq!(
        text(&Node::Concatenation(vec![lit('a'), lit('b'), lit('c')])),
        "Sequence('a', 'b', 'c', )"
    );
    let many: Vec<Node> = (0..300u32).map(|i| lit(char::from_u32(0x4e00 + i).unwrap())).collect();
    let mut expected = String::from("Sequence(");
    for i in 0..300u32 {
        expected.push('\'');
        expected.push(char::from_u32(0x4e00 + i).unwrap());
        expected.push_str("', ");
    }
    expected.push(')');
    assert_eq!(text(&Node::Concatenation(many)), expected);
}

#[test]
fn items_are_each_followed_by_a_comma() {
    assert_eq!(descent_items(&vec![]), Ok(String::new()));
    assert_eq!(descent_items(&vec![lit('a'), Node::Empty]), Ok(String::from("'a', '', ")));
    assert_eq!(
        descent_items(&vec![lit('a'), Node::Class(Class::Bytes(vec![(0, 255)]))]),
        Err(Unsupported::ByteClass)
    );
}

#[test]
fn groups() {
    let group = |kind| Node::Group(Box::new(lit('a')), kind);
    assert_eq!(text(&group(GroupKind::NonCapturing)), "'a'");
    assert_eq!(text(&group(GroupKind::CaptureIndex(1))), "Group('a', '1')");
    assert_eq!(text(&group(GroupKind::CaptureIndex(0))), "Group('a', '0')");
    assert_eq!(text(&group(GroupKind::CaptureIndex(120))), "Group('a', '120')");
    assert_eq!(text(&group(GroupKind::CaptureName(String::from("year")))), "Group('a', 'year')");
    assert_eq!(text(&group(GroupKind::CaptureName(String::from("it's")))), "Group('a', 'it\\'s')");
}

#[test]
fn nested_expression() {
    let node = Node::Concatenation(vec![
        Node::Anchor(Anchor::StartText),
        Node::Group(
            Box::new(Node::Alternation(vec![
                rep(lit('a'), RepetitionKind::PlainOneOrMore),
                Node::Concatenation(vec![lit('b'), lit('c')]),
            ])),
            GroupKind::CaptureIndex(1),
        ),
        rep(Node::Class(Class::Unicode(vec![('0', '9')])), RepetitionKind::Bounded(2, 3)),
        Node::Anchor(Anchor::EndText),
    ]);
    assert_eq!(
        text(&node),
        "Sequence(Start(), Group(Choice(0, OneOrMore('a'), Sequence('b', 'c', ), ), '1'), \
         OneOrMore(Choice(0, '0-9', ), Comment('2 ~ 3 times')), End(), )"
    );
}

#[test]
fn classes_in_expressions() {
    assert_eq!(text(&Node::Class(Class::Unicode(vec![('a', 'c'), ('x', 'x')]))), "Choice(0, 'a-c', 'x', )");
    assert_eq!(
        text(&Node::Class(Class::Unicode(vec![('\0', '\t'), ('\u{b}', '\u{10ffff}')]))),
        "'.'"
    );
    assert_eq!(
        text(&Node::Class(Class::Unicode(vec![('\0', '`'), ('b', '\u{10ffff}')]))),
        "'[^a]'"
    );
}

#[test]
fn byte_literal_is_refused() {
    assert_eq!(descent(&Node::Literal(Literal::Byte(0xff))), Err(Unsupported::ByteLiteral));
    assert_eq!(
        descent(&Node::Concatenation(vec![lit('a'), Node::Literal(Literal::Byte(0x80))])),
        Err(Unsupported::ByteLiteral)
    );
    assert_eq!(
        descent(&Node::Group(Box::new(Node::Literal(Literal::Byte(0))), GroupKind::CaptureIndex(1))),
        Err(Unsupported::ByteLiteral)
    );
}

#[test]
fn byte_class_is_refused() {
    assert_eq!(descent(&Node::Class(Class::Bytes(vec![(0, 0xff)]))), Err(Unsupported::ByteClass));
    assert_eq!(descent(&Node::Class(Class::Bytes(vec![]))), Err(Unsupported::ByteClass));
    assert_eq!(
        descent(&rep(Node::Class(Class::Bytes(vec![(1, 2)])), RepetitionKind::PlainZeroOrMore)),
        Err(Unsupported::ByteClass)
    );
}

#[test]
fn first_refusal_from_the_left_wins() {
    let bytes = || Node::Class(Class::Bytes(vec![(0, 1)]));
    let byte = || Node::Literal(Literal::Byte(7));
    let bounds = || rep(lit('a'), RepetitionKind::Bounded(0, 7));
    assert_eq!(
        descent(&Node::Alternation(vec![lit('a'), bytes(), byte(), bounds()])),
        Err(Unsupported::ByteClass)
    );
    assert_eq!(
        descent(&Node::Concatenation(vec![byte(), bytes(), bounds()])),
        Err(Unsupported::ByteLiteral)
    );
    assert_eq!(
        descent(&Node::Concatenation(vec![
            Node::Alternation(vec![lit('a'), bounds()]),
            byte(),
        ])),
        Err(Unsupported::RepetitionBounds)
    );
}

#[test]
fn script_wraps_the_expression() {
    assert_eq!(
        script(&lit('a')),
        Ok(String::from(
            "import sys\nfrom railroad import *\nComplexDiagram('a').writeSvg(sys.stdout.write)\n"
        ))
    );
    assert_eq!(
        script(&Node::Alternation(vec![lit('a'), lit('b')])).unwrap(),
        "import sys\nfrom railroad import *\nComplexDiagram(Choice(0, 'a', 'b', )).writeSvg(sys.stdout.write)\n"
    );
}

#[test]
fn script_of_what_cannot_be_drawn() {
    assert_eq!(script(&Node::Literal(Literal::Byte(1))), Err(Unsupported::ByteLiteral));
    assert_eq!(script(&Node::Class(Class::Bytes(vec![]))), Err(Unsupported::ByteClass));
}

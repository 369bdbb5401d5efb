use ygg_from::from_pest::{PestConverter, TranslateError};
use ygg_from::ir::{ExpressionNode, GrammarInfo, GrammarRule, UnaryOperator};
use ygg_from::source::{RuleKind, SourceExpr, SourceRule};

fn lit(s: &str) -> SourceExpr {
    SourceExpr::Str(s.to_string())
}

fn ident(s: &str) -> SourceExpr {
    SourceExpr::Ident(s.to_string())
}

fn seq(a: SourceExpr, b: SourceExpr) -> SourceExpr {
    SourceExpr::Sequence(Box::new(a), Box::new(b))
}

fn rule(name: &str, kind: RuleKind, body: SourceExpr) -> SourceRule {
    SourceRule { name: name.to_string(), kind, body }
}

fn find<'a>(info: &'a GrammarInfo, name: &str) -> &'a GrammarRule {
    info.rules.iter().find(|r| r.name == name).expect("rule present")
}

fn is_literal(n: &ExpressionNode, s: &str) -> bool {
    matches!(n, ExpressionNode::Literal(v) if v == s)
}

fn is_reference(n: &ExpressionNode, s: &str) -> bool {
    matches!(n, ExpressionNode::Reference(v) if v == s)
}

fn no_loose(n: &ExpressionNode) -> bool {
    match n {
        ExpressionNode::LooseConcat(_, _) => false,
        ExpressionNode::TightConcat(a, b) | ExpressionNode::Alternation(a, b) => no_loose(a) && no_loose(b),
        ExpressionNode::Unary(_, a) => no_loose(a),
        _ => true,
    }
}

fn no_tight(n: &ExpressionNode) -> bool {
    match n {
        ExpressionNode::TightConcat(_, _) => false,
        ExpressionNode::LooseConcat(a, b) | ExpressionNode::Alternation(a, b) => no_tight(a) && no_tight(b),
        ExpressionNode::Unary(_, a) => no_tight(a),
        _ => true,
    }
}

#[test]
fn root_and_reference() {
    let rules = vec![
        rule("Root", RuleKind::Normal, seq(lit("a"), ident("B"))),
        rule("B", RuleKind::Normal, lit("b")),
    ];
    let info = PestConverter::default().parse_pest(&rules).unwrap();
    assert_eq!(info.rules.len(), 2);
    let root = find(&info, "Root");
    assert!(root.entry);
    assert!(!root.atomic);
    match &root.body {
        ExpressionNode::LooseConcat(a, b) => {
            assert!(is_literal(a, "a"));
            assert!(is_reference(b, "B"));
        }
        other => panic!("unexpected body {:?}", other),
    }
    let b = find(&info, "B");
    assert!(!b.entry);
    assert!(!b.atomic);
    assert!(is_literal(&b.body, "b"));
    assert_eq!(info.rules[0].name, "Root");
    assert_eq!(info.rules[1].name, "B");
}

#[test]
fn atomic_rule_uses_tight_concat() {
    let body = seq(lit("0"), SourceExpr::Rep(Box::new(lit("1"))));
    let info = PestConverter::default().parse_pest(&vec![rule("Num", RuleKind::Atomic, body)]).unwrap();
    let num = find(&info, "Num");
    assert!(num.atomic);
    assert!(num.entry);
    match &num.body {
        ExpressionNode::TightConcat(a, b) => {
            assert!(is_literal(a, "0"));
            match &**b {
                ExpressionNode::Unary(UnaryOperator::Repeats, inner) => assert!(is_literal(inner, "1")),
                other => panic!("unexpected node {:?}", other),
            }
        }
        other => panic!("unexpected body {:?}", other),
    }
}

#[test]
fn optional_reference() {
    let body = SourceExpr::Opt(Box::new(ident("X")));
    let info = PestConverter::default().parse_pest(&vec![rule("Opt", RuleKind::Normal, body)]).unwrap();
    match &find(&info, "Opt").body {
        ExpressionNode::Unary(UnaryOperator::Optional, inner) => assert!(is_reference(inner, "X")),
        other => panic!("unexpected body {:?}", other),
    }
}

#[test]
fn character_range_is_rejected() {
    let body = SourceExpr::Range("a".to_string(), "z".to_string());
    let rules = vec![rule("Bad", RuleKind::Normal, body)];
    assert_eq!(PestConverter::default().parse_pest(&rules).unwrap_err(), TranslateError::UnsupportedConstruct);
}

#[test]
fn duplicate_name_last_wins() {
    let rules = vec![
        rule("Dup", RuleKind::Normal, lit("first")),
        rule("Dup", RuleKind::Normal, lit("second")),
    ];
    let info = PestConverter::default().parse_pest(&rules).unwrap();
    assert_eq!(info.rules.len(), 1);
    assert_eq!(info.rules[0].name, "Dup");
    assert!(is_literal(&info.rules[0].body, "second"));
    assert!(!info.rules[0].entry);
}

#[test]
fn duplicate_keeps_first_position() {
    let rules = vec![
        rule("A", RuleKind::Normal, lit("a")),
        rule("B", RuleKind::Normal, lit("b")),
        rule("A", RuleKind::Atomic, lit("again")),
    ];
    let info = PestConverter::default().parse_pest(&rules).unwrap();
    assert_eq!(info.rules.len(), 2);
    assert_eq!(info.rules[0].name, "A");
    assert!(is_literal(&info.rules[0].body, "again"));
    assert!(info.rules[0].atomic);
    assert_eq!(info.rules[1].name, "B");
}

#[test]
fn exactly_one_entry() {
    let rules = vec![
        rule("Start", RuleKind::Silent, ident("A")),
        rule("A", RuleKind::Normal, lit("a")),
        rule("B", RuleKind::CompoundAtomic, lit("b")),
        rule("C", RuleKind::NonAtomic, lit("c")),
    ];
    let info = PestConverter::default().parse_pest(&rules).unwrap();
    let entries: Vec<&GrammarRule> = info.rules.iter().filter(|r| r.entry).collect();
    assert_eq!(entries.len(), 1);
    assert_eq!(entries[0].name, "Start");
}

#[test]
fn empty_rule_list_gives_empty_table() {
    let info = PestConverter::default().parse_pest(&Vec::new()).unwrap();
    assert!(info.rules.is_empty());
}

#[test]
fn atomicity_by_kind() {
    let kinds = [
        (RuleKind::Normal, false),
        (RuleKind::Silent, false),
        (RuleKind::Atomic, true),
        (RuleKind::CompoundAtomic, true),
        (RuleKind::NonAtomic, false),
    ];
    for (kind, atomic) in kinds {
        let info = PestConverter::default().parse_pest(&vec![rule("R", kind, lit("x"))]).unwrap();
        assert_eq!(info.rules[0].atomic, atomic);
        assert_eq!(kind.is_atomic(), atomic);
    }
}

#[test]
fn nested_sequences_follow_atomicity() {
    let body = || {
        SourceExpr::Choice(
            Box::new(seq(lit("a"), SourceExpr::Opt(Box::new(seq(ident("B"), lit("c")))))),
            Box::new(SourceExpr::Rep(Box::new(seq(lit("d"), seq(lit("e"), lit("f")))))),
        )
    };
    let converter = PestConverter::default();
    let tight = converter.visit_expr(&body(), true).unwrap();
    assert!(no_loose(&tight));
    assert!(!no_tight(&tight));
    let loose = converter.visit_expr(&body(), false).unwrap();
    assert!(no_tight(&loose));
    assert!(!no_loose(&loose));
    let info = converter
        .parse_pest(&vec![rule("T", RuleKind::CompoundAtomic, body()), rule("L", RuleKind::Normal, body())])
        .unwrap();
    assert!(no_loose(&find(&info, "T").body));
    assert!(no_tight(&find(&info, "L").body));
}

#[test]
fn literal_and_reference_unchanged() {
    let converter = PestConverter::default();
    for atomic in [false, true] {
        assert!(is_literal(&converter.visit_expr(&lit("abc"), atomic).unwrap(), "abc"));
        assert!(is_reference(&converter.visit_expr(&ident("Foo"), atomic).unwrap(), "Foo"));
    }
}

#[test]
fn every_unsupported_construct_fails() {
    let inner = || Box::new(lit("x"));
    let bad = vec![
        SourceExpr::Insens("x".to_string()),
        SourceExpr::Range("0".to_string(), "9".to_string()),
        SourceExpr::PeekSlice(0, None),
        SourceExpr::PosPred(inner()),
        SourceExpr::NegPred(inner()),
        SourceExpr::RepOnce(inner()),
        SourceExpr::Skip(vec!["x".to_string()]),
        SourceExpr::Push(inner()),
        SourceExpr::RestoreOnErr(inner()),
    ];
    let converter = PestConverter::default();
    for node in bad {
        let nested = SourceExpr::Choice(Box::new(lit("ok")), Box::new(SourceExpr::Opt(Box::new(node))));
        let rules = vec![rule("Good", RuleKind::Normal, lit("g")), rule("Bad", RuleKind::Atomic, nested)];
        assert_eq!(converter.parse_pest(&rules).unwrap_err(), TranslateError::UnsupportedConstruct);
    }
}

#[test]
fn metadata_left_empty() {
    let info = PestConverter::default().parse_pest(&vec![rule("R", RuleKind::Normal, lit("x"))]).unwrap();
    let r = &info.rules[0];
    assert!(r.document.is_empty());
    assert!(r.derives.is_empty());
    assert!(!r.auto_inline && !r.auto_boxed && !r.union && !r.force_export);
}

#[test]
fn visit_rule_entry_from_index() {
    let converter = PestConverter::default();
    let r = rule("R", RuleKind::Normal, lit("x"));
    assert!(converter.visit_rule(&r, 0).unwrap().entry);
    assert!(!converter.visit_rule(&r, 3).unwrap().entry);
}

#[test]
fn insert_replaces_in_place() {
    let converter = PestConverter::default();
    let mut info = GrammarInfo::new();
    info.insert(converter.visit_rule(&rule("A", RuleKind::Normal, lit("1")), 0).unwrap());
    info.insert(converter.visit_rule(&rule("B", RuleKind::Normal, lit("2")), 1).unwrap());
    info.insert(converter.visit_rule(&rule("A", RuleKind::Normal, lit("3")), 2).unwrap());
    assert_eq!(info.rules.len(), 2);
    assert!(is_literal(&info.rules[0].body, "3"));
    assert!(is_literal(&info.rules[1].body, "2"));
}

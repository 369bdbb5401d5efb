//! Translation of optimized source rules into the grammar IR.

use vstd::prelude::*;
use crate::ir::{insert_rule, lemma_insert_rule, names_unique, ExprView, ExpressionNode, GrammarInfo, GrammarRule, RuleView, UnaryOperator};
use crate::source::{SourceExpr, SourceRule};

verus! {

/// The source construct has no representation in the IR.
#[derive(Clone, Copy, Debug, PartialEq, Eq)]
pub enum TranslateError {
    UnsupportedConstruct,
}

/// Translates the rules of one grammar.
#[derive(Clone, Copy, Debug)]
pub struct PestConverter {}

/// Every node of `e` has a counterpart in the IR.
pub open spec fn supported(e: SourceExpr) -> bool
    decreases e,
{
    match e {
        SourceExpr::Str(_) | SourceExpr::Ident(_) => true,
        SourceExpr::Sequence(l, r) | SourceExpr::Choice(l, r) => supported(*l) && supported(*r),
        SourceExpr::Opt(v) | SourceExpr::Rep(v) => supported(*v),
        _ => false,
    }
}

/// The IR value of `e` inside a rule whose atomicity is `atomic`, or `None`
/// where `e` holds a construct that the IR lacks.
pub open spec fn translate_expr(e: SourceExpr, atomic: bool) -> Option<ExprView>
    decreases e,
{
    match e {
        SourceExpr::Str(s) => Some(ExprView::Literal(s@)),
        SourceExpr::Ident(s) => Some(ExprView::Reference(s@)),
        SourceExpr::Sequence(l, r) => match (translate_expr(*l, atomic), translate_expr(*r, atomic)) {
            (Some(a), Some(b)) => if atomic {
                Some(ExprView::TightConcat(Box::new(a), Box::new(b)))
            } else {
                Some(ExprView::LooseConcat(Box::new(a), Box::new(b)))
            },
            _ => None,
        },
        SourceExpr::Choice(l, r) => match (translate_expr(*l, atomic), translate_expr(*r, atomic)) {
            (Some(a), Some(b)) => Some(ExprView::Alternation(Box::new(a), Box::new(b))),
            _ => None,
        },
        SourceExpr::Opt(v) => match translate_expr(*v, atomic) {
            Some(a) => Some(ExprView::Unary(UnaryOperator::Optional, Box::new(a))),
            None => None,
        },
        SourceExpr::Rep(v) => match translate_expr(*v, atomic) {
            Some(a) => Some(ExprView::Unary(UnaryOperator::Repeats, Box::new(a))),
            None => None,
        },
        _ => None,
    }
}

/// The IR rule made from `r`: atomic exactly for atomic and compound-atomic
/// kinds, its body translated under that flag, metadata empty.
pub open spec fn translate_rule(r: SourceRule, entry: bool) -> Option<RuleView> {
    match translate_expr(r.body, r.kind.spec_is_atomic()) {
        Some(body) => Some(
            RuleView {
                name: r.name@,
                entry,
                atomic: r.kind.spec_is_atomic(),
                body,
                document: Seq::empty(),
                derives: Seq::empty(),
                auto_inline: false,
                auto_boxed: false,
                union: false,
                force_export: false,
            },
        ),
        None => None,
    }
}

/// The table made from the first `n` source rules, in order, the first one
/// being the entry; `None` where one of them cannot be translated.
pub open spec fn assemble(src: Seq<SourceRule>, n: nat) -> Option<Seq<RuleView>>
    decreases n,
{
    if n == 0 {
        Some(Seq::empty())
    } else {
        match assemble(src, (n - 1) as nat) {
            Some(t) => match translate_rule(src[n - 1], n - 1 == 0) {
                Some(r) => Some(insert_rule(t, r)),
                None => None,
            },
            None => None,
        }
    }
}

/// Every source rule of `src` has a body that the IR can represent.
pub open spec fn all_supported(src: Seq<SourceRule>) -> bool {
    forall|i: int| 0 <= i < src.len() ==> supported(#[trigger] src[i].body)
}

/// An expression translates exactly when all of its nodes are supported.
pub proof fn lemma_translate_iff_supported(e: SourceExpr, atomic: bool)
    ensures
        translate_expr(e, atomic) is Some <==> supported(e),
    decreases e,
{
    match e {
        SourceExpr::Sequence(l, r) | SourceExpr::Choice(l, r) => {
            lemma_translate_iff_supported(*l, atomic);
            lemma_translate_iff_supported(*r, atomic);
        },
        SourceExpr::Opt(v) | SourceExpr::Rep(v) => {
            lemma_translate_iff_supported(*v, atomic);
        },
        _ => {},
    }
}

/// The name, entry flag and atomicity of a translated rule.
pub proof fn lemma_translate_rule_fields(r: SourceRule, entry: bool)
    ensures
        translate_rule(r, entry) is Some <==> supported(r.body),
        translate_rule(r, entry) is Some ==> {
            let v = translate_rule(r, entry)->Some_0;
            &&& v.name == r.name@
            &&& v.entry == entry
            &&& v.atomic == r.kind.spec_is_atomic()
            &&& translate_expr(r.body, r.kind.spec_is_atomic()) == Some(v.body)
        },
{
    reveal(translate_rule);
    lemma_translate_iff_supported(r.body, r.kind.spec_is_atomic());
}

/// A prefix of the rule list assembles exactly when each of its bodies is
/// supported.
pub proof fn lemma_assemble_iff_supported(src: Seq<SourceRule>, n: nat)
    requires
        n <= src.len(),
    ensures
        assemble(src, n) is Some <==> forall|i: int| 0 <= i < n ==> supported(#[trigger] src[i].body),
    decreases n,
{
    if n > 0 {
        lemma_assemble_iff_supported(src, (n - 1) as nat);
        lemma_translate_rule_fields(src[n - 1], n - 1 == 0);
    }
}

/// No concatenation in `v` is loose when `atomic` holds, and none is tight
/// when it does not.
pub open spec fn concat_uniform(v: ExprView, atomic: bool) -> bool
    decreases v,
{
    match v {
        ExprView::LooseConcat(l, r) => !atomic && concat_uniform(*l, atomic) && concat_uniform(*r, atomic),
        ExprView::TightConcat(l, r) => atomic && concat_uniform(*l, atomic) && concat_uniform(*r, atomic),
        ExprView::Alternation(l, r) => concat_uniform(*l, atomic) && concat_uniform(*r, atomic),
        ExprView::Unary(_, x) => concat_uniform(*x, atomic),
        _ => true,
    }
}

proof fn lemma_expr_concat_uniform(e: SourceExpr, atomic: bool)
    requires
        translate_expr(e, atomic) is Some,
    ensures
        concat_uniform(translate_expr(e, atomic)->Some_0, atomic),
    decreases e,
{
    match e {
        SourceExpr::Sequence(l, r) | SourceExpr::Choice(l, r) => {
            lemma_expr_concat_uniform(*l, atomic);
            lemma_expr_concat_uniform(*r, atomic);
        },
        SourceExpr::Opt(v) | SourceExpr::Rep(v) => {
            lemma_expr_concat_uniform(*v, atomic);
        },
        _ => {},
    }
}

/// The atomic flag of a translated rule is threaded through its whole body:
/// in an atomic rule every sequence, at any depth, becomes a tight
/// concatenation, and in any other rule a loose one.
pub proof fn lemma_atomic_rule_concat(r: SourceRule, entry: bool)
    requires
        supported(r.body),
    ensures
        translate_rule(r, entry) is Some,
        translate_rule(r, entry)->Some_0.atomic == r.kind.spec_is_atomic(),
        concat_uniform(translate_rule(r, entry)->Some_0.body, r.kind.spec_is_atomic()),
{
    lemma_translate_rule_fields(r, entry);
    lemma_expr_concat_uniform(r.body, r.kind.spec_is_atomic());
}

/// A literal becomes a literal of the same text, and a rule reference a
/// reference to the same name, whatever the atomic flag.
pub proof fn lemma_literal_reference_unchanged(s: String, atomic: bool)
    ensures
        translate_expr(SourceExpr::Str(s), atomic) == Some(ExprView::Literal(s@)),
        translate_expr(SourceExpr::Ident(s), atomic) == Some(ExprView::Reference(s@)),
{
}

/// One rule whose body holds an unsupported node, at any depth, makes the
/// whole grammar fail: no table comes out.
pub proof fn lemma_unsupported_fails(src: Seq<SourceRule>, k: int)
    requires
        0 <= k < src.len(),
        !supported(src[k].body),
    ensures
        assemble(src, src.len() as nat) is None,
{
    lemma_assemble_iff_supported(src, src.len() as nat);
}

/// The name and entry flag of a translated rule.
proof fn lemma_rule_name_entry(r: SourceRule, entry: bool)
    requires
        translate_rule(r, entry) is Some,
    ensures
        translate_rule(r, entry)->Some_0.name == r.name@,
        translate_rule(r, entry)->Some_0.entry == entry,
{
    reveal(translate_rule);
}

/// Some rule of `t` has the name `name`.
#[verifier::opaque]
pub open spec fn holds_name(t: Seq<RuleView>, name: Seq<char>) -> bool {
    exists|k: int| 0 <= k < t.len() && t[k].name == name
}

/// `v` is one of the rules of `t`.
#[verifier::opaque]
pub open spec fn holds_rule(t: Seq<RuleView>, v: RuleView) -> bool {
    exists|k: int| 0 <= k < t.len() && t[k] == v
}

/// No rule after index `i` and before `n` has the name of rule `i`.
#[verifier::opaque]
pub open spec fn last_of_name(src: Seq<SourceRule>, i: int, n: int) -> bool {
    forall|j: int| i < j < n ==> src[j].name@ != src[i].name@
}

/// What the first `n` rules make: names unique, each source name present, and
/// the last rule of each name standing as its translation.
proof fn lemma_assemble_prefix(src: Seq<SourceRule>, n: nat)
    requires
        n <= src.len(),
        assemble(src, n) is Some,
    ensures
        names_unique(assemble(src, n)->Some_0),
        forall|i: int|
            0 <= i < n ==> #[trigger] holds_name(assemble(src, n)->Some_0, src[i].name@),
        forall|i: int|
            0 <= i < n && #[trigger] last_of_name(src, i, n as int) ==> holds_rule(
                assemble(src, n)->Some_0,
                translate_rule(src[i], i == 0)->Some_0,
            ),
    decreases n,
{
    if n > 0 {
        let m = (n - 1) as nat;
        lemma_assemble_prefix(src, m);
        let t = assemble(src, m)->Some_0;
        let last = src[m as int];
        let r = translate_rule(last, m == 0)->Some_0;
        lemma_rule_name_entry(last, m == 0);
        lemma_insert_rule(t, r);
        let t2 = insert_rule(t, r);
        assert(assemble(src, n) == Some(t2));
        assert(holds_rule(t2, r)) by {
            reveal(holds_rule);
        }
        assert forall|i: int| 0 <= i < n implies #[trigger] holds_name(t2, src[i].name@) by {
            reveal(holds_name);
            if i < m {
                assert(holds_name(t, src[i].name@));
                let k = choose|k: int| 0 <= k < t.len() && t[k].name == src[i].name@;
                assert(t2[k].name == t[k].name);
            } else {
                reveal(holds_rule);
                let k = choose|k: int| 0 <= k < t2.len() && t2[k] == r;
                assert(t2[k].name == src[i].name@);
            }
        }
        assert forall|i: int| 0 <= i < n && #[trigger] last_of_name(src, i, n as int) implies holds_rule(
            t2,
            translate_rule(src[i], i == 0)->Some_0,
        ) by {
            if i < m {
                reveal(last_of_name);
                assert(src[m as int].name@ != src[i].name@);
                assert(last_of_name(src, i, m as int));
                let v = translate_rule(src[i], i == 0)->Some_0;
                assert(holds_rule(t, v));
                reveal(holds_rule);
                let k = choose|k: int| 0 <= k < t.len() && t[k] == v;
                assert(assemble(src, (i + 1) as nat) is Some) by {
                    lemma_assemble_some_prefix(src, (i + 1) as nat, m);
                }
                lemma_rule_name_entry(src[i], i == 0);
                assert(t2[k] == t[k]);
            }
        }
    }
}

/// A table for a longer prefix means a table for each shorter one.
proof fn lemma_assemble_some_prefix(src: Seq<SourceRule>, p: nat, n: nat)
    requires
        p <= n <= src.len(),
        assemble(src, n) is Some,
    ensures
        assemble(src, p) is Some,
        p > 0 ==> translate_rule(src[p - 1], p - 1 == 0) is Some,
    decreases n - p,
{
    if p < n {
        lemma_assemble_some_prefix(src, p + 1, n);
    }
}

/// Every source rule's name is in the table, and each rule that no later
/// rule of the same name replaces stands there as its own translation
/// (a later rule of the same name wins).
pub proof fn lemma_names_preserved(src: Seq<SourceRule>)
    requires
        all_supported(src),
    ensures
        assemble(src, src.len() as nat) is Some,
        forall|i: int|
            0 <= i < src.len() ==> #[trigger] holds_name(
                assemble(src, src.len() as nat)->Some_0,
                src[i].name@,
            ),
        forall|i: int|
            0 <= i < src.len() && #[trigger] last_of_name(src, i, src.len() as int) ==> holds_rule(
                assemble(src, src.len() as nat)->Some_0,
                translate_rule(src[i], i == 0)->Some_0,
            ),
{
    lemma_assemble_iff_supported(src, src.len() as nat);
    lemma_assemble_prefix(src, src.len() as nat);
}

/// Exactly one rule of `t` is the entry, and it is `v`.
#[verifier::opaque]
pub open spec fn sole_entry(t: Seq<RuleView>, v: RuleView) -> bool {
    exists|k: int|
        0 <= k < t.len() && t[k] == v && forall|j: int| 0 <= j < t.len() ==> (t[j].entry <==> j == k)
}

proof fn lemma_entry_prefix(src: Seq<SourceRule>, n: nat)
    requires
        1 <= n <= src.len(),
        assemble(src, n) is Some,
        last_of_name(src, 0, src.len() as int),
    ensures
        sole_entry(assemble(src, n)->Some_0, translate_rule(src[0], true)->Some_0),
    decreases n,
{
    let m = (n - 1) as nat;
    lemma_assemble_prefix(src, m);
    let t = assemble(src, m)->Some_0;
    let last = src[m as int];
    let r = translate_rule(last, m == 0)->Some_0;
    lemma_rule_name_entry(last, m == 0);
    lemma_insert_rule(t, r);
    let t2 = insert_rule(t, r);
    assert(assemble(src, n) == Some(t2));
    reveal(sole_entry);
    if n == 1 {
        assert(t2.len() == 1);
        assert(t2[0] == r);
        assert(forall|j: int| 0 <= j < t2.len() ==> (t2[j].entry <==> j == 0));
    } else {
        lemma_entry_prefix(src, m);
        lemma_assemble_some_prefix(src, 1, m);
        let v = translate_rule(src[0], true)->Some_0;
        lemma_rule_name_entry(src[0], true);
        let k = choose|k: int|
            0 <= k < t.len() && t[k] == v && forall|j: int| 0 <= j < t.len() ==> (t[j].entry <==> j == k);
        reveal(last_of_name);
        assert(r.name != v.name);
        assert(t2[k] == t[k]);
        assert forall|j: int| 0 <= j < t2.len() implies (t2[j].entry <==> j == k) by {
            if j != k {
                if t2[j] != r {
                    assert(t[j] == t2[j]);
                    assert(!t[j].entry);
                }
            }
        }
    }
}

/// In a grammar of at least one rule, where no later rule takes the first
/// rule's name, exactly one rule of the table is the entry, and it is the
/// translation of the first rule.
pub proof fn lemma_entry_unique(src: Seq<SourceRule>)
    requires
        src.len() > 0,
        all_supported(src),
        last_of_name(src, 0, src.len() as int),
    ensures
        assemble(src, src.len() as nat) is Some,
        translate_rule(src[0], true) is Some,
        sole_entry(assemble(src, src.len() as nat)->Some_0, translate_rule(src[0], true)->Some_0),
{
    lemma_assemble_iff_supported(src, src.len() as nat);
    lemma_assemble_some_prefix(src, 1, src.len() as nat);
    lemma_entry_prefix(src, src.len() as nat);
}

impl Default for PestConverter {
    fn default() -> (r: PestConverter)
        ensures
            r == (PestConverter {}),
    {
        PestConverter {}
    }
}

impl PestConverter {
    /// Translates one expression; `atomic` picks tight over loose concatenation.
    pub fn visit_expr(&self, expr: &SourceExpr, atomic: bool) -> (r: Result<ExpressionNode, TranslateError>)
        ensures
            r is Ok <==> translate_expr(*expr, atomic) is Some,
            r is Ok ==> translate_expr(*expr, atomic) == Some(r->Ok_0@),
        decreases expr,
    {
        match expr {
            SourceExpr::Str(s) => Ok(ExpressionNode::Literal(s.clone())),
            SourceExpr::Ident(v) => Ok(ExpressionNode::Reference(v.clone())),
            SourceExpr::Sequence(l, r) => {
                let a = match self.visit_expr(l, atomic) {
                    Ok(a) => a,
                    Err(e) => return Err(e),
                };
                let b = match self.visit_expr(r, atomic) {
                    Ok(b) => b,
                    Err(e) => return Err(e),
                };
                if atomic {
                    Ok(ExpressionNode::TightConcat(Box::new(a), Box::new(b)))
                } else {
                    Ok(ExpressionNode::LooseConcat(Box::new(a), Box::new(b)))
                }
            },
            SourceExpr::Choice(l, r) => {
                let a = match self.visit_expr(l, atomic) {
                    Ok(a) => a,
                    Err(e) => return Err(e),
                };
                let b = match self.visit_expr(r, atomic) {
                    Ok(b) => b,
                    Err(e) => return Err(e),
                };
                Ok(ExpressionNode::Alternation(Box::new(a), Box::new(b)))
            },
            SourceExpr::Opt(v) => match self.visit_expr(v, atomic) {
                Ok(a) => Ok(ExpressionNode::Unary(UnaryOperator::Optional, Box::new(a))),
                Err(e) => Err(e),
            },
            SourceExpr::Rep(v) => match self.visit_expr(v, atomic) {
                Ok(a) => Ok(ExpressionNode::Unary(UnaryOperator::Repeats, Box::new(a))),
                Err(e) => Err(e),
            },
            _ => Err(TranslateError::UnsupportedConstruct),
        }
    }

    /// Translates one rule; the rule at `index` 0 is the entry.
    pub fn visit_rule(&self, rule: &SourceRule, index: usize) -> (r: Result<GrammarRule, TranslateError>)
        ensures
            r is Ok <==> translate_rule(*rule, index == 0) is Some,
            r is Ok ==> translate_rule(*rule, index == 0) == Some(r->Ok_0@),
    {
        let name = rule.name.clone();
        let entry = index == 0;
        let atomic = rule.kind.is_atomic();
        let body = match self.visit_expr(&rule.body, atomic) {
            Ok(b) => b,
            Err(e) => return Err(e),
        };
        proof {
            reveal(translate_rule);
        }
        let derives: Vec<String> = Vec::new();
        let out = GrammarRule {
            name,
            entry,
            atomic,
            body,
            document: String::new(),
            derives,
            auto_inline: false,
            auto_boxed: false,
            union: false,
            force_export: false,
        };
        assert(out@.derives =~= Seq::<Seq<char>>::empty());
        Ok(out)
    }

    /// Translates a whole grammar, rule by rule, into a name-keyed table. It
    /// fails, with no partial result, as soon as one rule cannot be translated.
    pub fn parse_pest(&self, rules: &Vec<SourceRule>) -> (r: Result<GrammarInfo, TranslateError>)
        ensures
            r is Ok <==> all_supported(rules@),
            match r {
                Ok(info) => info.wf() && assemble(rules@, rules@.len() as nat) == Some(info@),
                Err(e) => assemble(rules@, rules@.len() as nat) is None
                    && e == TranslateError::UnsupportedConstruct,
            },
    {
        let mut info = GrammarInfo::new();
        let mut index: usize = 0;
        while index < rules.len()
            invariant
                0 <= index <= rules.len(),
                info.wf(),
                assemble(rules@, index as nat) == Some(info@),
                forall|i: int| 0 <= i < index ==> supported(#[trigger] rules@[i].body),
            decreases rules.len() - index,
        {
            let rule = &rules[index];
            let out = match self.visit_rule(rule, index) {
                Ok(out) => out,
                Err(e) => {
                    proof {
                        lemma_translate_rule_fields(*rule, index == 0);
                        lemma_assemble_iff_supported(rules@, rules@.len() as nat);
                    }
                    return Err(e);
                },
            };
            proof {
                lemma_translate_rule_fields(*rule, index == 0);
            }
            info.insert(out);
            index += 1;
        }
        proof {
            lemma_assemble_iff_supported(rules@, rules@.len() as nat);
        }
        Ok(info)
    }
}

} // verus!

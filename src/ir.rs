//! The target grammar IR: a name-keyed table of rules whose bodies are built
//! from literals, references, two kinds of concatenation, alternation and
//! unary operators.

use vstd::prelude::*;

verus! {

/// A unary operator applied to an inner node.
#[derive(Clone, Copy, Debug, PartialEq, Eq)]
pub enum UnaryOperator {
    Optional,
    Repeats,
}

/// An IR expression node.
#[derive(Debug)]
pub enum ExpressionNode {
    /// Matches the string exactly.
    Literal(String),
    /// Matches the rule of that name.
    Reference(String),
    /// Concatenation with an implicit skippable gap between the operands.
    LooseConcat(Box<ExpressionNode>, Box<ExpressionNode>),
    /// Concatenation with no gap between the operands.
    TightConcat(Box<ExpressionNode>, Box<ExpressionNode>),
    /// Ordered alternation.
    Alternation(Box<ExpressionNode>, Box<ExpressionNode>),
    /// A unary operator around one node.
    Unary(UnaryOperator, Box<ExpressionNode>),
}

/// The mathematical value of an [`ExpressionNode`].
pub ghost enum ExprView {
    Literal(Seq<char>),
    Reference(Seq<char>),
    LooseConcat(Box<ExprView>, Box<ExprView>),
    TightConcat(Box<ExprView>, Box<ExprView>),
    Alternation(Box<ExprView>, Box<ExprView>),
    Unary(UnaryOperator, Box<ExprView>),
}

pub open spec fn node_view(n: ExpressionNode) -> ExprView
    decreases n,
{
    match n {
        ExpressionNode::Literal(s) => ExprView::Literal(s@),
        ExpressionNode::Reference(s) => ExprView::Reference(s@),
        ExpressionNode::LooseConcat(l, r) => ExprView::LooseConcat(
            Box::new(node_view(*l)),
            Box::new(node_view(*r)),
        ),
        ExpressionNode::TightConcat(l, r) => ExprView::TightConcat(
            Box::new(node_view(*l)),
            Box::new(node_view(*r)),
        ),
        ExpressionNode::Alternation(l, r) => ExprView::Alternation(
            Box::new(node_view(*l)),
            Box::new(node_view(*r)),
        ),
        ExpressionNode::Unary(op, v) => ExprView::Unary(op, Box::new(node_view(*v))),
    }
}

impl View for ExpressionNode {
    type V = ExprView;

    open spec fn view(&self) -> ExprView {
        node_view(*self)
    }
}

} // verus!

verus! {

/// One rule of the IR. Besides name, entry flag, atomicity and body it carries
/// descriptive metadata that translation leaves at its defaults.
#[derive(Debug)]
pub struct GrammarRule {
    pub name: String,
    pub entry: bool,
    pub atomic: bool,
    pub body: ExpressionNode,
    pub document: String,
    pub derives: Vec<String>,
    pub auto_inline: bool,
    pub auto_boxed: bool,
    pub union: bool,
    pub force_export: bool,
}

/// The mathematical value of a [`GrammarRule`].
pub ghost struct RuleView {
    pub name: Seq<char>,
    pub entry: bool,
    pub atomic: bool,
    pub body: ExprView,
    pub document: Seq<char>,
    pub derives: Seq<Seq<char>>,
    pub auto_inline: bool,
    pub auto_boxed: bool,
    pub union: bool,
    pub force_export: bool,
}

impl View for GrammarRule {
    type V = RuleView;

    open spec fn view(&self) -> RuleView {
        RuleView {
            name: self.name@,
            entry: self.entry,
            atomic: self.atomic,
            body: self.body@,
            document: self.document@,
            derives: self.derives@.map_values(|d: String| d@),
            auto_inline: self.auto_inline,
            auto_boxed: self.auto_boxed,
            union: self.union,
            force_export: self.force_export,
        }
    }
}

/// No two rules of `t` share a name.
pub open spec fn names_unique(t: Seq<RuleView>) -> bool {
    forall|i: int, j: int|
        0 <= i < t.len() && 0 <= j < t.len() && i != j ==> t[i].name != t[j].name
}

/// `r` put into table `t`: it replaces the rule of the same name in place, or
/// else comes last.
#[verifier::opaque]
pub open spec fn insert_rule(t: Seq<RuleView>, r: RuleView) -> Seq<RuleView> {
    if exists|i: int| 0 <= i < t.len() && t[i].name == r.name {
        t.update(choose|i: int| 0 <= i < t.len() && t[i].name == r.name, r)
    } else {
        t.push(r)
    }
}

/// Inserting keeps names unique and every old name in its place; the new rule
/// stands in the result, and what is not it is the old rule at that index.
pub proof fn lemma_insert_rule(t: Seq<RuleView>, r: RuleView)
    requires
        names_unique(t),
    ensures
        names_unique(insert_rule(t, r)),
        t.len() <= insert_rule(t, r).len() <= t.len() + 1,
        forall|i: int| 0 <= i < t.len() ==> (#[trigger] insert_rule(t, r)[i]).name == t[i].name,
        forall|i: int|
            0 <= i < t.len() && t[i].name != r.name ==> #[trigger] insert_rule(t, r)[i] == t[i],
        forall|i: int|
            0 <= i < insert_rule(t, r).len() ==> #[trigger] insert_rule(t, r)[i] == r || (i < t.len()
                && insert_rule(t, r)[i] == t[i]),
        exists|k: int| 0 <= k < insert_rule(t, r).len() && #[trigger] insert_rule(t, r)[k] == r,
{
    reveal(insert_rule);
    if exists|i: int| 0 <= i < t.len() && t[i].name == r.name {
        let c = choose|i: int| 0 <= i < t.len() && t[i].name == r.name;
        assert(insert_rule(t, r)[c] == r);
    } else {
        assert(insert_rule(t, r)[t.len() as int] == r);
    }
}

/// The grammar IR: rules keyed by their name, in order of first insertion.
#[derive(Debug)]
pub struct GrammarInfo {
    pub rules: Vec<GrammarRule>,
}

impl View for GrammarInfo {
    type V = Seq<RuleView>;

    open spec fn view(&self) -> Seq<RuleView> {
        self.rules@.map_values(|r: GrammarRule| r@)
    }
}

impl GrammarInfo {
    pub open spec fn wf(&self) -> bool {
        names_unique(self@)
    }

    pub fn new() -> (r: GrammarInfo)
        ensures
            r.wf(),
            r@ == Seq::<RuleView>::empty(),
    {
        let r = GrammarInfo { rules: Vec::new() };
        assert(r@ =~= Seq::<RuleView>::empty());
        r
    }

    /// Puts `rule` into the table, replacing a rule of the same name.
    pub fn insert(&mut self, rule: GrammarRule)
        requires
            old(self).wf(),
        ensures
            final(self).wf(),
            final(self)@ == insert_rule(old(self)@, rule@),
    {
        let ghost t = self@;
        let mut i: usize = 0;
        while i < self.rules.len()
            invariant
                0 <= i <= self.rules.len(),
                self@ == t,
                t == old(self)@,
                names_unique(t),
                forall|k: int| 0 <= k < i ==> t[k].name != rule@.name,
            decreases self.rules.len() - i,
        {
            if self.rules[i].name == rule.name {
                proof {
                    assert(t[i as int].name == rule@.name);
                    let c = choose|c: int| 0 <= c < t.len() && t[c].name == rule@.name;
                    assert(c == i);
                }
                let ghost r = rule@;
                self.rules.set(i, rule);
                assert(self@ =~= t.update(i as int, r));
                assert(insert_rule(t, r) == t.update(i as int, r)) by {
                    reveal(insert_rule);
                }
                return;
            }
            i += 1;
        }
        let ghost r = rule@;
        self.rules.push(rule);
        assert(self@ =~= t.push(r));
        proof {
            reveal(insert_rule);
        }
    }
}

} // verus!

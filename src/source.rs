//! The source grammar model: optimized rules as the PEG parser hands them over.

use vstd::prelude::*;

verus! {

/// How a source rule treats implicit whitespace and its own node.
#[derive(Clone, Copy, Debug, PartialEq, Eq)]
pub enum RuleKind {
    Normal,
    Silent,
    Atomic,
    CompoundAtomic,
    NonAtomic,
}

impl RuleKind {
    /// Atomic and compound-atomic rules insert no implicit whitespace.
    pub open spec fn spec_is_atomic(self) -> bool {
        match self {
            RuleKind::Atomic | RuleKind::CompoundAtomic => true,
            _ => false,
        }
    }

    pub fn is_atomic(&self) -> (r: bool)
        ensures
            r == self.spec_is_atomic(),
    {
        match self {
            RuleKind::Atomic | RuleKind::CompoundAtomic => true,
            _ => false,
        }
    }
}

/// One node of an optimized source expression. Binary nodes are right-nested
/// pairs, as the optimizer emits them.
#[derive(Debug)]
pub enum SourceExpr {
    /// An exact string, e.g. `"a"`.
    Str(String),
    /// A case-insensitive string, e.g. `^"a"`.
    Insens(String),
    /// One character of a range, e.g. `'a'..'z'`.
    Range(String, String),
    /// A reference to a rule by name.
    Ident(String),
    /// A slice of the stack, e.g. `PEEK[..]`.
    PeekSlice(i32, Option<i32>),
    /// Positive lookahead, `&e`.
    PosPred(Box<SourceExpr>),
    /// Negative lookahead, `!e`.
    NegPred(Box<SourceExpr>),
    /// Ordered concatenation, `a ~ b`.
    Sequence(Box<SourceExpr>, Box<SourceExpr>),
    /// Ordered choice, `a | b`.
    Choice(Box<SourceExpr>, Box<SourceExpr>),
    /// Zero or one, `e?`.
    Opt(Box<SourceExpr>),
    /// Zero or more, `e*`.
    Rep(Box<SourceExpr>),
    /// One or more, `e+`.
    RepOnce(Box<SourceExpr>),
    /// Skip until one of the strings is found.
    Skip(Vec<String>),
    /// Match and push onto the stack, `PUSH(e)`.
    Push(Box<SourceExpr>),
    /// Restore the stack checkpoint when the inner expression fails.
    RestoreOnErr(Box<SourceExpr>),
}

/// An optimized source rule.
#[derive(Debug)]
pub struct SourceRule {
    pub name: String,
    pub kind: RuleKind,
    pub body: SourceExpr,
}

} // verus!

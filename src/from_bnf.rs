//! Rendering of optimized source rules as Yggdrasil grammar text: one `class`
//! block per rule, one line per terminal.

use vstd::prelude::*;
use convert_case::{Case, Casing};
use crate::source::{RuleKind, SourceExpr, SourceRule};

verus! {

/// What `convert_case` makes of a name in Pascal case.
pub uninterp spec fn pascal_case_of(s: Seq<char>) -> Seq<char>;

/// What `Debug` prints for a string: the text quoted, with escapes.
pub uninterp spec fn debug_text_of(s: Seq<char>) -> Seq<char>;

/// The decimal digits of a natural number.
pub open spec fn digits_of(n: nat) -> Seq<char>
    decreases n,
{
    if n < 10 {
        seq![(('0' as nat) + n) as char]
    } else {
        digits_of(n / 10).push((('0' as nat) + n % 10) as char)
    }
}

/// An integer in decimal, with a leading `-` when negative.
pub open spec fn decimal_of(n: int) -> Seq<char> {
    if n < 0 {
        seq!['-'] + digits_of((-n) as nat)
    } else {
        digits_of(n as nat)
    }
}

/// Relies on `convert_case`'s `Casing::to_case` with `Case::Pascal`.
#[verifier::external_body]
fn pascal_case(s: &str) -> (r: String)
    ensures
        r@ == pascal_case_of(s@),
{
    s.to_case(Case::Pascal)
}

/// Relies on `Debug` for `str`: the quoted, escaped form of the text.
#[verifier::external_body]
fn debug_text(s: &str) -> (r: String)
    ensures
        r@ == debug_text_of(s@),
{
    format!("{:?}", s)
}

/// Relies on `Display` for `i32`: decimal digits, `-` before a negative value.
#[verifier::external_body]
fn decimal_text(n: i32) -> (r: String)
    ensures
        r@ == decimal_of(n as int),
{
    format!("{}", n)
}

/// The names of a skip list, comma separated.
pub open spec fn skip_text(names: Seq<String>, n: nat) -> Seq<char>
    decreases n,
{
    if n == 0 {
        Seq::empty()
    } else if n == 1 {
        names[0]@
    } else {
        skip_text(names, (n - 1) as nat) + ", "@ + names[n - 1]@
    }
}

/// The text of one expression.
pub open spec fn expr_text(e: SourceExpr) -> Seq<char>
    decreases e,
{
    match e {
        SourceExpr::Str(s) => " "@ + debug_text_of(s@) + "\n"@,
        SourceExpr::Insens(s) => " @insensitive("@ + debug_text_of(s@) + ")\n"@,
        SourceExpr::Range(min, max) => " ["@ + min@ + "-"@ + max@ + "]\n"@,
        SourceExpr::Ident(s) => " "@ + pascal_case_of(s@) + "\n"@,
        SourceExpr::PeekSlice(a, b) => "@peek("@ + decimal_of(a as int) + ", "@ + decimal_of(
            match b {
                Some(b) => b as int,
                None => i32::MAX as int,
            },
        ) + ")\n"@,
        SourceExpr::PosPred(a) => "&("@ + expr_text(*a) + ")"@,
        SourceExpr::NegPred(a) => "!("@ + expr_text(*a) + ")"@,
        SourceExpr::Sequence(a, b) => expr_text(*a) + expr_text(*b),
        SourceExpr::Choice(a, b) => expr_text(*a) + " | "@ + expr_text(*b),
        SourceExpr::Opt(a) => "("@ + expr_text(*a) + ")?"@,
        SourceExpr::Rep(a) => "("@ + expr_text(*a) + ")*"@,
        SourceExpr::RepOnce(a) => "("@ + expr_text(*a) + ")+"@,
        SourceExpr::Skip(names) => "@skip("@ + skip_text(names@, names@.len()) + ")"@,
        SourceExpr::Push(a) => "@push("@ + expr_text(*a) + ")"@,
        SourceExpr::RestoreOnErr(a) => "@restore("@ + expr_text(*a) + ")"@,
    }
}

/// The modifier written before `class` for a rule kind.
pub open spec fn kind_prefix(k: RuleKind) -> Seq<char> {
    match k {
        RuleKind::Atomic | RuleKind::CompoundAtomic => "atomic "@,
        RuleKind::Silent => "ignore "@,
        _ => Seq::empty(),
    }
}

/// The `class` block of one rule.
pub open spec fn rule_text(r: SourceRule) -> Seq<char> {
    kind_prefix(r.kind) + "class "@ + pascal_case_of(r.name@) + " {\n"@ + expr_text(r.body) + "}\n"@
}

/// The blocks of the first `n` rules, in order.
pub open spec fn grammar_text(rules: Seq<SourceRule>, n: nat) -> Seq<char>
    decreases n,
{
    if n == 0 {
        Seq::empty()
    } else {
        grammar_text(rules, (n - 1) as nat) + rule_text(rules[n - 1])
    }
}

/// Renders rules as grammar text.
#[derive(Clone, Copy, Debug)]
pub struct PestConverter {}

impl Default for PestConverter {
    fn default() -> (r: PestConverter)
        ensures
            r == (PestConverter {}),
    {
        PestConverter {}
    }
}

impl PestConverter {
    /// Appends the text of `expr` to `out`.
    pub fn build_expr(&self, expr: &SourceExpr, out: &mut String)
        ensures
            final(out)@ == old(out)@ + expr_text(*expr),
        decreases expr,
    {
        let ghost start = out@;
        match expr {
            SourceExpr::Str(s) => {
                let d = debug_text(s.as_str());
                out.append(" ");
                out.append(d.as_str());
                out.append("\n");
            },
            SourceExpr::Insens(s) => {
                let d = debug_text(s.as_str());
                out.append(" @insensitive(");
                out.append(d.as_str());
                out.append(")\n");
            },
            SourceExpr::Range(min, max) => {
                out.append(" [");
                out.append(min.as_str());
                out.append("-");
                out.append(max.as_str());
                out.append("]\n");
            },
            SourceExpr::Ident(s) => {
                let p = pascal_case(s.as_str());
                out.append(" ");
                out.append(p.as_str());
                out.append("\n");
            },
            SourceExpr::PeekSlice(a, b) => {
                let end = match b {
                    Some(b) => *b,
                    None => i32::MAX,
                };
                let first = decimal_text(*a);
                let second = decimal_text(end);
                out.append("@peek(");
                out.append(first.as_str());
                out.append(", ");
                out.append(second.as_str());
                out.append(")\n");
            },
            SourceExpr::PosPred(a) => {
                out.append("&(");
                self.build_expr(a, out);
                out.append(")");
            },
            SourceExpr::NegPred(a) => {
                out.append("!(");
                self.build_expr(a, out);
                out.append(")");
            },
            SourceExpr::Sequence(a, b) => {
                self.build_expr(a, out);
                self.build_expr(b, out);
            },
            SourceExpr::Choice(a, b) => {
                self.build_expr(a, out);
                out.append(" | ");
                self.build_expr(b, out);
            },
            SourceExpr::Opt(a) => {
                out.append("(");
                self.build_expr(a, out);
                out.append(")?");
            },
            SourceExpr::Rep(a) => {
                out.append("(");
                self.build_expr(a, out);
                out.append(")*");
            },
            SourceExpr::RepOnce(a) => {
                out.append("(");
                self.build_expr(a, out);
                out.append(")+");
            },
            SourceExpr::Skip(names) => {
                out.append("@skip(");
                let ghost mid = out@;
                let mut index: usize = 0;
                while index < names.len()
                    invariant
                        0 <= index <= names.len(),
                        out@ == mid + skip_text(names@, index as nat),
                    decreases names.len() - index,
                {
                    if index != 0 {
                        out.append(", ");
                    }
                    out.append(names[index].as_str());
                    index += 1;
                }
                out.append(")");
            },
            SourceExpr::Push(a) => {
                out.append("@push(");
                self.build_expr(a, out);
                out.append(")");
            },
            SourceExpr::RestoreOnErr(a) => {
                out.append("@restore(");
                self.build_expr(a, out);
                out.append(")");
            },
        }
        assert(out@ =~= start + expr_text(*expr));
    }

    /// Appends the `class` block of `rule` to `out`.
    pub fn build_rule(&self, rule: &SourceRule, out: &mut String)
        ensures
            final(out)@ == old(out)@ + rule_text(*rule),
    {
        let ghost start = out@;
        match rule.kind {
            RuleKind::Atomic | RuleKind::CompoundAtomic => out.append("atomic "),
            RuleKind::Silent => out.append("ignore "),
            _ => {},
        }
        let name = pascal_case(rule.name.as_str());
        out.append("class ");
        out.append(name.as_str());
        out.append(" {\n");
        self.build_expr(&rule.body, out);
        out.append("}\n");
        assert(out@ =~= start + rule_text(*rule));
    }

    /// Renders every rule, in order, as grammar text.
    pub fn parse_pest(&self, rules: &Vec<SourceRule>) -> (r: String)
        ensures
            r@ == grammar_text(rules@, rules@.len() as nat),
    {
        let mut out = String::new();
        let mut index: usize = 0;
        while index < rules.len()
            invariant
                0 <= index <= rules.len(),
                out@ == grammar_text(rules@, index as nat),
            decreases rules.len() - index,
        {
            self.build_rule(&rules[index], &mut out);
            index += 1;
        }
        out
    }
}

} // verus!

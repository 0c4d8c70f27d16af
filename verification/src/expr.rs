//! The expression tree: an immutable tagged variant, built bottom-up by the
//! parser, displayed in fully parenthesized Polish notation.

use vstd::prelude::*;

use crate::token::Token;

verus! {

/// An expression node. Nodes own the tokens that produced them; node
/// identity is structural.
#[derive(Debug)]
pub enum Expr {
    Binary { left: Box<Expr>, operator: Token, right: Box<Expr> },
    Grouping { expression: Box<Expr> },
    Literal { value: Token },
    Unary { operator: Token, right: Box<Expr> },
}

impl Expr {
    /// Structural equality: two trees are equal exactly when their shapes
    /// match and corresponding tokens agree on kind and span.
    pub open spec fn equal_tree(self, other: Expr) -> bool
        decreases self,
    {
        match (self, other) {
            (
                Expr::Binary { left: l1, operator: o1, right: r1 },
                Expr::Binary { left: l2, operator: o2, right: r2 },
            ) => l1.equal_tree(*l2) && o1.model() == o2.model() && r1.equal_tree(*r2),
            (Expr::Grouping { expression: e1 }, Expr::Grouping { expression: e2 }) => e1.equal_tree(
                *e2,
            ),
            (Expr::Literal { value: v1 }, Expr::Literal { value: v2 }) => v1.model() == v2.model(),
            (
                Expr::Unary { operator: o1, right: r1 },
                Expr::Unary { operator: o2, right: r2 },
            ) => o1.model() == o2.model() && r1.equal_tree(*r2),
            _ => false,
        }
    }

    /// Structural equality test.
    pub fn equals(&self, other: &Expr) -> (r: bool)
        ensures
            r == self.equal_tree(*other),
        decreases *self,
    {
        match (self, other) {
            (
                Expr::Binary { left: l1, operator: o1, right: r1 },
                Expr::Binary { left: l2, operator: o2, right: r2 },
            ) => l1.equals(l2) && o1 == o2 && r1.equals(r2),
            (Expr::Grouping { expression: e1 }, Expr::Grouping { expression: e2 }) => e1.equals(e2),
            (Expr::Literal { value: v1 }, Expr::Literal { value: v2 }) => v1 == v2,
            (Expr::Unary { operator: o1, right: r1 }, Expr::Unary { operator: o2, right: r2 }) => o1
                == o2 && r1.equals(r2),
            _ => false,
        }
    }

    /// The fully parenthesized prefix rendering of the tree: `1 + 2` renders
    /// as `(+ 1 2)`, a grouped expression as `(group <expr>)`.
    pub open spec fn spec_text(self) -> Seq<char>
        decreases self,
    {
        match self {
            Expr::Binary { left, operator, right } => seq!['('] + operator.spec_text() + seq![' ']
                + left.spec_text() + seq![' '] + right.spec_text() + seq![')'],
            Expr::Grouping { expression } => seq!['(', 'g', 'r', 'o', 'u', 'p', ' ']
                + expression.spec_text() + seq![')'],
            Expr::Literal { value } => value.spec_text(),
            Expr::Unary { operator, right } => seq!['('] + operator.spec_text() + seq![' ']
                + right.spec_text() + seq![')'],
        }
    }

    /// Display the expression in Polish notation: `1 + 2` becomes
    /// `(+ 1 2)`.
    pub fn to_text(&self) -> (r: String)
        ensures
            r@ == self.spec_text(),
        decreases *self,
    {
        proof {
            reveal_strlit("(");
            reveal_strlit(" ");
            reveal_strlit(")");
            reveal_strlit("(group ");
        }
        match self {
            Expr::Binary { left, operator, right } => {
                let mut r = String::from_str("(");
                let op = operator.text();
                r.append(op.as_str());
                r.append(" ");
                let lt = left.to_text();
                r.append(lt.as_str());
                r.append(" ");
                let rt = right.to_text();
                r.append(rt.as_str());
                r.append(")");
                proof {
                    assert(r@ =~= self.spec_text());
                }
                r
            },
            Expr::Grouping { expression } => {
                let mut r = String::from_str("(group ");
                let inner = expression.to_text();
                r.append(inner.as_str());
                r.append(")");
                proof {
                    assert(r@ =~= self.spec_text());
                }
                r
            },
            Expr::Literal { value } => value.text(),
            Expr::Unary { operator, right } => {
                let mut r = String::from_str("(");
                let op = operator.text();
                r.append(op.as_str());
                r.append(" ");
                let rt = right.to_text();
                r.append(rt.as_str());
                r.append(")");
                proof {
                    assert(r@ =~= self.spec_text());
                }
                r
            },
        }
    }
}

impl PartialEq for Expr {
    fn eq(&self, other: &Self) -> bool {
        self.equals(other)
    }
}

impl vstd::std_specs::cmp::PartialEqSpecImpl for Expr {
    open spec fn obeys_eq_spec() -> bool {
        true
    }

    open spec fn eq_spec(&self, other: &Self) -> bool {
        self.equal_tree(*other)
    }
}

} // verus!

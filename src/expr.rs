use vstd::prelude::*;

verus! {

/// A binary operator: four arithmetic ones and the binding operator `=`.
#[derive(Clone, Copy, Debug, PartialEq, Eq, Structural)]
pub enum Op {
    Add,
    Sub,
    Mul,
    Div,
    Bind,
}

/// A leaf of an expression.
///
/// A literal carries the bit pattern of its binary64 value, so that the
/// library never computes with floating-point numbers itself.
#[derive(Clone, Debug, PartialEq, Eq)]
pub enum Atom {
    Ident(String),
    Literal(u64),
}

/// A parsed line: an atom or a binary operation on two sub-expressions.
#[derive(Debug)]
pub enum Expr {
    Unary(Atom),
    BinOp { lhs: Box<Expr>, op: Op, rhs: Box<Expr> },
}

impl Expr {
    /// The literal whose value has the given bit pattern.
    pub fn literal(bits: u64) -> (r: Expr)
        ensures
            r == Expr::Unary(Atom::Literal(bits)),
    {
        Expr::Unary(Atom::Literal(bits))
    }

    /// A reference to a name.
    pub fn ident(name: &str) -> (r: Expr)
        ensures
            r matches Expr::Unary(Atom::Ident(n)) && n@ == name@,
    {
        Expr::Unary(Atom::Ident(name.to_owned()))
    }

    /// The binary operation `lhs op rhs`.
    pub fn binop(lhs: Expr, op: Op, rhs: Expr) -> (r: Expr)
        ensures
            r == (Expr::BinOp { lhs: Box::new(lhs), op, rhs: Box::new(rhs) }),
    {
        Expr::BinOp { lhs: Box::new(lhs), op, rhs: Box::new(rhs) }
    }
}

} // verus!

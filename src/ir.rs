use vstd::prelude::*;

verus! {

/// An arithmetic instruction's operation.
#[derive(Clone, Copy, Debug, PartialEq, Eq, Structural)]
pub enum ArithOp {
    Add,
    Sub,
    Mul,
    Div,
}

/// One instruction of a compilation unit. Operands name earlier
/// instructions of the same unit by their position.
#[derive(Clone, Copy, Debug, PartialEq, Eq, Structural)]
pub enum Inst {
    /// A binary64 constant, given by its bit pattern.
    Const(u64),
    Arith(ArithOp, usize, usize),
}

/// The computation that an instruction stands for, with every operand
/// unfolded: constants at the leaves, arithmetic at the nodes.
pub enum Term {
    Lit(u64),
    Arith(ArithOp, Box<Term>, Box<Term>),
}

/// Every operand refers to an instruction placed before the one that reads it.
pub open spec fn wf_insts(s: Seq<Inst>) -> bool {
    forall|i: int|
        0 <= i < s.len() ==> match #[trigger] s[i] {
            Inst::Const(_) => true,
            Inst::Arith(_, a, b) => a < i && b < i,
        }
}

/// The term computed by instruction `i` of `s`.
pub open spec fn term_at(s: Seq<Inst>, i: nat) -> Term
    decreases i,
{
    if i < s.len() {
        match s[i as int] {
            Inst::Const(bits) => Term::Lit(bits),
            Inst::Arith(op, a, b) => if a < i && b < i {
                Term::Arith(op, Box::new(term_at(s, a as nat)), Box::new(term_at(s, b as nat)))
            } else {
                Term::Lit(0)
            },
        }
    } else {
        Term::Lit(0)
    }
}

/// Appending instructions leaves the terms of the earlier ones as they were.
pub proof fn lemma_term_at_prefix(s: Seq<Inst>, t: Seq<Inst>, i: nat)
    requires
        s.len() <= t.len(),
        s == t.subrange(0, s.len() as int),
        i < s.len(),
    ensures
        term_at(t, i) == term_at(s, i),
    decreases i,
{
    assert(t[i as int] == s[i as int]);
    match s[i as int] {
        Inst::Const(_) => {},
        Inst::Arith(_, a, b) => {
            if a < i && b < i {
                lemma_term_at_prefix(s, t, a as nat);
                lemma_term_at_prefix(s, t, b as nat);
            }
        },
    }
}

} // verus!

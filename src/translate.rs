use vstd::prelude::*;
use crate::env::{names_of, SymbolEnv};
use crate::expr::{Atom, Expr, Op};
use crate::ir::{lemma_term_at_prefix, term_at, wf_insts, ArithOp, Inst, Term};

verus! {

/// Why a line could not be translated.
#[derive(Clone, Debug, PartialEq, Eq)]
pub enum TranslateError {
    /// A name was read before any line bound it.
    Unbound(String),
    /// A binding whose left side is not a bare name, or a binding where a
    /// value is required.
    BadBinding,
}

/// The arithmetic instruction that an operator emits, if it is arithmetic.
pub open spec fn arith_of(op: Op) -> Option<ArithOp> {
    match op {
        Op::Add => Some(ArithOp::Add),
        Op::Sub => Some(ArithOp::Sub),
        Op::Mul => Some(ArithOp::Mul),
        Op::Div => Some(ArithOp::Div),
        Op::Bind => None,
    }
}

/// The term that an expression in value position computes under `env`:
/// names are replaced by the durable values bound to them; the left operand
/// is translated before the right one.
pub open spec fn lower(e: Expr, env: Map<Seq<char>, u64>) -> Result<Term, TranslateError>
    decreases e,
{
    match e {
        Expr::Unary(Atom::Literal(bits)) => Ok(Term::Lit(bits)),
        Expr::Unary(Atom::Ident(n)) => if env.contains_key(n@) {
            Ok(Term::Lit(env[n@]))
        } else {
            Err(TranslateError::Unbound(n))
        },
        Expr::BinOp { lhs, op, rhs } => match arith_of(op) {
            None => Err(TranslateError::BadBinding),
            Some(a) => match lower(*lhs, env) {
                Err(err) => Err(err),
                Ok(l) => match lower(*rhs, env) {
                    Err(err) => Err(err),
                    Ok(r) => Ok(Term::Arith(a, Box::new(l), Box::new(r))),
                },
            },
        },
    }
}

/// What a whole line computes under `env`, with the names that it binds to
/// that value. A line is a chain of zero or more bindings `x = y = ...`
/// ending in an expression in value position.
pub open spec fn lower_line(e: Expr, env: Map<Seq<char>, u64>) -> Result<
    (Term, Seq<Seq<char>>),
    TranslateError,
>
    decreases e,
{
    match e {
        Expr::BinOp { lhs, op: Op::Bind, rhs } => match *lhs {
            Expr::Unary(Atom::Ident(n)) => match lower_line(*rhs, env) {
                Err(err) => Err(err),
                Ok((t, names)) => Ok((t, seq![n@].add(names))),
            },
            _ => Err(TranslateError::BadBinding),
        },
        _ => match lower(e, env) {
            Err(err) => Err(err),
            Ok(t) => Ok((t, Seq::empty())),
        },
    }
}

/// The number of nodes of an expression tree.
pub open spec fn size(e: Expr) -> nat
    decreases e,
{
    match e {
        Expr::Unary(_) => 1,
        Expr::BinOp { lhs, op: _, rhs } => 1 + size(*lhs) + size(*rhs),
    }
}

/// One compilation unit being built: its instructions in the order they
/// are emitted, and the names that the line binds to its result. A fresh
/// translator starts every line, so positions never cross units.
pub struct Translator {
    pub insts: Vec<Inst>,
    pub binds: Vec<String>,
}

impl Translator {
    /// A translator for a new, empty compilation unit.
    pub fn new() -> (r: Translator)
        ensures
            r.insts@ == Seq::<Inst>::empty(),
            r.binds@ == Seq::<String>::empty(),
    {
        Translator { insts: Vec::new(), binds: Vec::new() }
    }

    fn emit(&mut self, inst: Inst) -> (r: usize)
        requires
            wf_insts(old(self).insts@),
            old(self).insts@.len() < usize::MAX,
            match inst {
                Inst::Const(_) => true,
                Inst::Arith(_, a, b) => a < old(self).insts@.len() && b < old(self).insts@.len(),
            },
        ensures
            final(self).insts@ == old(self).insts@.push(inst),
            final(self).binds@ == old(self).binds@,
            r == old(self).insts@.len(),
            wf_insts(final(self).insts@),
    {
        let r = self.insts.len();
        self.insts.push(inst);
        proof {
            let s = self.insts@;
            assert forall|i: int| 0 <= i < s.len() implies match #[trigger] s[i] {
                Inst::Const(_) => true,
                Inst::Arith(_, a, b) => a < i && b < i,
            } by {
                if i < s.len() - 1 {
                    assert(s[i] == old(self).insts@[i]);
                }
            }
        }
        r
    }

    /// Emits the value of an atom as one new constant at the end of the
    /// unit: a literal's own bits, or the durable value bound to a name. An
    /// unbound name emits nothing.
    pub fn translate_atom(&mut self, atom: &Atom, env: &SymbolEnv) -> (r: Result<
        usize,
        TranslateError,
    >)
        requires
            env.wf(),
            wf_insts(old(self).insts@),
            old(self).insts@.len() < usize::MAX,
        ensures
            wf_insts(final(self).insts@),
            final(self).binds@ == old(self).binds@,
            match lower(Expr::Unary(*atom), env@) {
                Ok(Term::Lit(bits)) => r == Ok::<usize, TranslateError>(old(self).insts.len())
                    && final(self).insts@ == old(self).insts@.push(Inst::Const(bits)),
                Ok(_) => false,
                Err(err) => r == Err::<usize, TranslateError>(err) && final(self).insts@ == old(
                    self,
                ).insts@,
            },
    {
        let bits = match atom {
            Atom::Literal(bits) => *bits,
            Atom::Ident(name) => match env.lookup(name) {
                Some(bits) => bits,
                None => {
                    return Err(TranslateError::Unbound(name.clone()));
                },
            },
        };
        let i = self.emit(Inst::Const(bits));
        Ok(i)
    }

    /// Emits an expression in value position: operands left to right, then
    /// the instruction that combines them, which is the last one appended.
    /// A binding here is an error.
    fn translate_value(&mut self, expr: &Expr, env: &SymbolEnv) -> (r: Result<
        usize,
        TranslateError,
    >)
        requires
            env.wf(),
            wf_insts(old(self).insts@),
            old(self).insts@.len() + size(*expr) <= usize::MAX,
        ensures
            wf_insts(final(self).insts@),
            final(self).binds@ == old(self).binds@,
            old(self).insts@.len() <= final(self).insts@.len() <= old(self).insts@.len() + size(
                *expr,
            ),
            old(self).insts@ == final(self).insts@.subrange(0, old(self).insts@.len() as int),
            match lower(*expr, env@) {
                Ok(t) => r matches Ok(i) && i + 1 == final(self).insts@.len() && term_at(
                    final(self).insts@,
                    i as nat,
                ) == t,
                Err(err) => r == Err::<usize, TranslateError>(err),
            },
        decreases size(*expr), 1nat,
    {
        let ghost s0 = self.insts@;
        match expr {
            Expr::Unary(atom) => {
                let r = self.translate_atom(atom, env);
                assert(s0 =~= self.insts@.subrange(0, s0.len() as int));
                r
            },
            Expr::BinOp { lhs, op, rhs } => {
                let a = match op {
                    Op::Add => ArithOp::Add,
                    Op::Sub => ArithOp::Sub,
                    Op::Mul => ArithOp::Mul,
                    Op::Div => ArithOp::Div,
                    Op::Bind => {
                        return Err(TranslateError::BadBinding);
                    },
                };
                self.translate_arith(lhs, a, rhs, env)
            },
        }
    }

    /// Emits `lhs a rhs` with both operands in value position, left first;
    /// the combining instruction is the last one appended.
    fn translate_arith(&mut self, lhs: &Expr, a: ArithOp, rhs: &Expr, env: &SymbolEnv) -> (r:
        Result<usize, TranslateError>)
        requires
            env.wf(),
            wf_insts(old(self).insts@),
            old(self).insts@.len() + size(*lhs) + size(*rhs) + 1 <= usize::MAX,
        ensures
            wf_insts(final(self).insts@),
            final(self).binds@ == old(self).binds@,
            old(self).insts@.len() <= final(self).insts@.len() <= old(self).insts@.len() + size(
                *lhs,
            ) + size(*rhs) + 1,
            old(self).insts@ == final(self).insts@.subrange(0, old(self).insts@.len() as int),
            match (lower(*lhs, env@), lower(*rhs, env@)) {
                (Ok(l), Ok(t)) => r matches Ok(i) && i + 1 == final(self).insts@.len() && term_at(
                    final(self).insts@,
                    i as nat,
                ) == Term::Arith(a, Box::new(l), Box::new(t)),
                (Err(err), _) => r == Err::<usize, TranslateError>(err),
                (Ok(_), Err(err)) => r == Err::<usize, TranslateError>(err),
            },
        decreases size(*lhs) + size(*rhs) + 1, 0nat,
    {
        let ghost s0 = self.insts@;
        let l = self.translate_value(lhs, env)?;
        let ghost s1 = self.insts@;
        let r = self.translate_value(rhs, env)?;
        let ghost s2 = self.insts@;
        proof {
            lemma_term_at_prefix(s1, s2, l as nat);
        }
        let i = self.emit(Inst::Arith(a, l, r));
        proof {
            let s3 = self.insts@;
            assert(s2 =~= s3.subrange(0, s2.len() as int));
            lemma_term_at_prefix(s2, s3, l as nat);
            lemma_term_at_prefix(s2, s3, r as nat);
            assert(s0 =~= s3.subrange(0, s0.len() as int));
        }
        Ok(i)
    }

    /// Emits a whole line: a chain of bindings `x = y = ...` ending in an
    /// expression in value position. The value's instructions are appended,
    /// its position is returned (the last one), and the bound names are
    /// recorded in order. On an error the unit is left as it was.
    pub fn translate_expr(&mut self, expr: &Expr, env: &SymbolEnv) -> (r: Result<
        usize,
        TranslateError,
    >)
        requires
            env.wf(),
            wf_insts(old(self).insts@),
            old(self).insts@.len() + size(*expr) <= usize::MAX,
        ensures
            wf_insts(final(self).insts@),
            old(self).insts@.len() <= final(self).insts@.len() <= old(self).insts@.len() + size(
                *expr,
            ),
            old(self).insts@ == final(self).insts@.subrange(0, old(self).insts@.len() as int),
            match lower_line(*expr, env@) {
                Ok((t, names)) => r matches Ok(i) && i + 1 == final(self).insts@.len() && term_at(
                    final(self).insts@,
                    i as nat,
                ) == t && names_of(final(self).binds@) == names_of(old(self).binds@).add(names),
                Err(err) => r == Err::<usize, TranslateError>(err) && final(self).insts@ == old(
                    self,
                ).insts@ && final(self).binds@ == old(self).binds@,
            },
        decreases size(*expr), 1nat,
    {
        match expr {
            Expr::Unary(atom) => self.translate_atom(atom, env),
            Expr::BinOp { lhs, op, rhs } => self.translate_binop(lhs, *op, rhs, env),
        }
    }

    /// Emits `lhs op rhs` as a line. For an arithmetic operator: both
    /// operands in value position, left first, then the combining
    /// instruction, last. For `=`: `lhs` must be a bare name, which is
    /// recorded, and `rhs` is translated as the rest of the line; its value is
    /// the binding's value. On an error the unit is left as it was.
    pub fn translate_binop(&mut self, lhs: &Expr, op: Op, rhs: &Expr, env: &SymbolEnv) -> (r:
        Result<usize, TranslateError>)
        requires
            env.wf(),
            wf_insts(old(self).insts@),
            old(self).insts@.len() + size(*lhs) + size(*rhs) + 1 <= usize::MAX,
        ensures
            wf_insts(final(self).insts@),
            old(self).insts@.len() <= final(self).insts@.len() <= old(self).insts@.len() + size(
                *lhs,
            ) + size(*rhs) + 1,
            old(self).insts@ == final(self).insts@.subrange(0, old(self).insts@.len() as int),
            match lower_line(Expr::BinOp { lhs: Box::new(*lhs), op, rhs: Box::new(*rhs) }, env@) {
                Ok((t, names)) => r matches Ok(i) && i + 1 == final(self).insts@.len() && term_at(
                    final(self).insts@,
                    i as nat,
                ) == t && names_of(final(self).binds@) == names_of(old(self).binds@).add(names),
                Err(err) => r == Err::<usize, TranslateError>(err) && final(self).insts@ == old(
                    self,
                ).insts@ && final(self).binds@ == old(self).binds@,
            },
        decreases size(*lhs) + size(*rhs) + 1, 0nat,
    {
        let ghost s0 = self.insts@;
        let ghost b0 = self.binds@;
        let len0 = self.insts.len();
        let nbinds0 = self.binds.len();
        let r = match op {
            Op::Bind => match lhs {
                Expr::Unary(Atom::Ident(name)) => {
                    self.binds.push(name.clone());
                    let r = self.translate_expr(rhs, env);
                    proof {
                        if let Ok((term, names)) = lower_line(*rhs, env@) {
                            assert(names_of(b0.push(*name)) =~= names_of(b0).push(name@));
                            assert(names_of(b0).add(seq![name@].add(names)) =~= names_of(b0).push(
                                name@,
                            ).add(names));
                        }
                    }
                    r
                },
                _ => Err(TranslateError::BadBinding),
            },
            Op::Add => self.translate_arith(lhs, ArithOp::Add, rhs, env),
            Op::Sub => self.translate_arith(lhs, ArithOp::Sub, rhs, env),
            Op::Mul => self.translate_arith(lhs, ArithOp::Mul, rhs, env),
            Op::Div => self.translate_arith(lhs, ArithOp::Div, rhs, env),
        };
        if r.is_err() {
            self.insts.truncate(len0);
            self.binds.truncate(nbinds0);
            assert(self.insts@ =~= s0);
            assert(self.binds@ =~= b0);
        }
        r
    }
}

} // verus!

use vstd::prelude::*;
use crate::env::{names_of, SymbolEnv};
use crate::expr::Expr;
use crate::ir::{term_at, wf_insts, Inst};
use crate::translate::{lower_line, size, TranslateError, Translator};

verus! {

/// One line, lowered: a self-contained instruction list whose instruction
/// `result` is returned, and the names to bind to that result once it has
/// been computed.
pub struct Unit {
    /// Unique among the units of one compiler; names the function.
    pub id: u64,
    pub insts: Vec<Inst>,
    pub result: usize,
    pub binds: Vec<String>,
}

/// Turns one line at a time into a compilation unit, numbering the units.
pub struct Compiler {
    pub units: u64,
}

impl Compiler {
    /// A compiler that has produced no unit yet.
    pub fn new() -> (r: Compiler)
        ensures
            r.units == 0,
    {
        Compiler { units: 0 }
    }

    /// Lowers one line under `env` into a fresh unit. The unit computes
    /// exactly what `lower_line` gives, reads no instruction of any other
    /// unit, and carries the names that the line binds. `env` is left as it
    /// is: the bindings take effect when `SymbolEnv::commit` is given the
    /// computed result.
    pub fn compile(&mut self, expr: &Expr, env: &SymbolEnv) -> (r: Result<Unit, TranslateError>)
        requires
            env.wf(),
            size(*expr) <= usize::MAX,
            old(self).units < u64::MAX,
        ensures
            match lower_line(*expr, env@) {
                Ok((term, names)) => r matches Ok(u) && u.id == old(self).units && wf_insts(
                    u.insts@,
                ) && u.result < u.insts@.len() && term_at(u.insts@, u.result as nat) == term
                    && names_of(u.binds@) == names,
                Err(err) => r == Err::<Unit, TranslateError>(err),
            },
            final(self).units == if r is Ok {
                old(self).units + 1
            } else {
                old(self).units as int
            },
    {
        let mut t = Translator::new();
        assert(names_of(t.binds@) =~= Seq::<Seq<char>>::empty());
        let result = t.translate_expr(expr, env)?;
        proof {
            if let Ok((term, names)) = lower_line(*expr, env@) {
                assert(names_of(t.binds@) =~= names);
            }
        }
        let id = self.units;
        self.units = self.units + 1;
        Ok(Unit { id, insts: t.insts, result, binds: t.binds })
    }
}

} // verus!

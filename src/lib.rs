//! Compiles arithmetic lines with variable bindings into a self-contained
//! SSA instruction list per line, and keeps bound names alive across lines as
//! durable values (IEEE-754 binary64 bit patterns).

mod backend;
mod compile;
mod env;
mod expr;
mod ir;
mod laws;
mod translate;

pub use backend::{emit_unit, EmitState, Emitted, Emitter};
pub use compile::{Compiler, Unit};
pub use env::SymbolEnv;
pub use expr::{Atom, Expr, Op};
pub use ir::{ArithOp, Inst, Term};
pub use translate::{TranslateError, Translator};
pub use laws::{
    arith_on_literals, bind_then_reference, closed, closed_line_independent, literal_round_trip,
    line_depends_only_on_reads, reads, reference_materializes, unbound_read_fails,
    unbound_reference_fails, agree_on,
};

use vstd::prelude::*;
use crate::env::bind_all;
use crate::expr::{Atom, Expr, Op};
use crate::ir::Term;
use crate::translate::{arith_of, lower, lower_line, TranslateError};

verus! {

/// An expression that reads no name.
pub open spec fn closed(e: Expr) -> bool
    decreases e,
{
    match e {
        Expr::Unary(Atom::Ident(_)) => false,
        Expr::Unary(Atom::Literal(_)) => true,
        Expr::BinOp { lhs, op: _, rhs } => closed(*lhs) && closed(*rhs),
    }
}

/// A line holding a single literal computes exactly that literal and binds
/// nothing.
pub proof fn literal_round_trip(n: u64, env: Map<Seq<char>, u64>)
    ensures
        lower_line(Expr::Unary(Atom::Literal(n)), env) == Ok::<
            (Term, Seq<Seq<char>>),
            TranslateError,
        >((Term::Lit(n), Seq::empty())),
{
}

/// `a op b` on two literals is the single instruction of `op` applied to the
/// two constants, for each arithmetic operator.
pub proof fn arith_on_literals(a: u64, op: Op, b: u64, env: Map<Seq<char>, u64>)
    requires
        op != Op::Bind,
    ensures
        lower_line(
            Expr::BinOp {
                lhs: Box::new(Expr::Unary(Atom::Literal(a))),
                op,
                rhs: Box::new(Expr::Unary(Atom::Literal(b))),
            },
            env,
        ) == Ok::<(Term, Seq<Seq<char>>), TranslateError>(
            (
                Term::Arith(
                    arith_of(op).unwrap(),
                    Box::new(Term::Lit(a)),
                    Box::new(Term::Lit(b)),
                ),
                Seq::empty(),
            ),
        ),
{
    reveal_with_fuel(lower, 2);
}

/// After the line `name = v` has run, the line `name` computes `v`; after a
/// later line `name = w`, it computes `w`: the latest binding wins.
pub proof fn bind_then_reference(env: Map<Seq<char>, u64>, name: String, v: u64, w: u64)
    ensures
        lower_line(
            Expr::BinOp {
                lhs: Box::new(Expr::Unary(Atom::Ident(name))),
                op: Op::Bind,
                rhs: Box::new(Expr::Unary(Atom::Literal(v))),
            },
            env,
        ) == Ok::<(Term, Seq<Seq<char>>), TranslateError>((Term::Lit(v), seq![name@])),
        lower_line(Expr::Unary(Atom::Ident(name)), bind_all(env, seq![name@], v)) == Ok::<
            (Term, Seq<Seq<char>>),
            TranslateError,
        >((Term::Lit(v), Seq::empty())),
        lower_line(
            Expr::Unary(Atom::Ident(name)),
            bind_all(bind_all(env, seq![name@], v), seq![name@], w),
        ) == Ok::<(Term, Seq<Seq<char>>), TranslateError>((Term::Lit(w), Seq::empty())),
{
    reveal_with_fuel(lower_line, 2);
    let env1 = bind_all(env, seq![name@], v);
    assert(seq![name@].contains(name@)) by {
        assert(seq![name@][0] == name@);
    }
    assert(env1.contains_key(name@) && env1[name@] == v);
    let env2 = bind_all(env1, seq![name@], w);
    assert(env2.contains_key(name@) && env2[name@] == w);
    assert(seq![name@].add(Seq::<Seq<char>>::empty()) =~= seq![name@]);
}

/// Reading a name that no line has bound fails with the unbound-name error
/// for that name.
pub proof fn unbound_reference_fails(env: Map<Seq<char>, u64>, name: String)
    requires
        !env.contains_key(name@),
    ensures
        lower_line(Expr::Unary(Atom::Ident(name)), env) == Err::<
            (Term, Seq<Seq<char>>),
            TranslateError,
        >(TranslateError::Unbound(name)),
{
}

proof fn closed_lower_independent(e: Expr, env1: Map<Seq<char>, u64>, env2: Map<Seq<char>, u64>)
    requires
        closed(e),
    ensures
        lower(e, env1) == lower(e, env2),
    decreases e,
{
    if let Expr::BinOp { lhs, op: _, rhs } = e {
        closed_lower_independent(*lhs, env1, env2);
        closed_lower_independent(*rhs, env1, env2);
    }
}

/// A line that reads no name computes the same, whatever has been bound
/// before it: evaluating it again after other bindings gives the same unit.
pub proof fn closed_line_independent(e: Expr, env1: Map<Seq<char>, u64>, env2: Map<Seq<char>, u64>)
    requires
        closed(e),
    ensures
        lower_line(e, env1) == lower_line(e, env2),
    decreases e,
{
    match e {
        Expr::BinOp { lhs, op: Op::Bind, rhs } => {
            closed_line_independent(*rhs, env1, env2);
        },
        _ => {
            closed_lower_independent(e, env1, env2);
        },
    }
}

/// A bound name is brought into a unit as a fresh constant holding its
/// durable value: nothing computed in an earlier unit is read.
pub proof fn reference_materializes(env: Map<Seq<char>, u64>, name: String)
    requires
        env.contains_key(name@),
    ensures
        lower_line(Expr::Unary(Atom::Ident(name)), env) == Ok::<
            (Term, Seq<Seq<char>>),
            TranslateError,
        >((Term::Lit(env[name@]), Seq::empty())),
{
}

/// The names that an expression reads. The bare name on the left of a
/// binding is written, not read.
pub open spec fn reads(e: Expr) -> Set<Seq<char>>
    decreases e,
{
    match e {
        Expr::Unary(Atom::Ident(n)) => set![n@],
        Expr::Unary(Atom::Literal(_)) => Set::empty(),
        Expr::BinOp { lhs, op, rhs } => if op == Op::Bind && (*lhs matches Expr::Unary(
            Atom::Ident(_),
        )) {
            reads(*rhs)
        } else {
            reads(*lhs).union(reads(*rhs))
        },
    }
}

/// `env1` and `env2` agree on every name of `names`.
pub open spec fn agree_on(
    env1: Map<Seq<char>, u64>,
    env2: Map<Seq<char>, u64>,
    names: Set<Seq<char>>,
) -> bool {
    forall|n: Seq<char>|
        #[trigger] names.contains(n) ==> (env1.contains_key(n) == env2.contains_key(n) && (
        env1.contains_key(n) ==> env1[n] == env2[n]))
}

proof fn lower_unbound_fails(e: Expr, env: Map<Seq<char>, u64>, n: Seq<char>)
    requires
        reads(e).contains(n),
        !env.contains_key(n),
    ensures
        lower(e, env) is Err,
    decreases e,
{
    if let Expr::BinOp { lhs, op, rhs } = e {
        if op != Op::Bind {
            if reads(*lhs).contains(n) {
                lower_unbound_fails(*lhs, env, n);
            } else {
                lower_unbound_fails(*rhs, env, n);
            }
        }
    }
}

/// A line that reads a name bound neither before it nor anywhere fails;
/// it never stands in a default value.
pub proof fn unbound_read_fails(e: Expr, env: Map<Seq<char>, u64>, n: Seq<char>)
    requires
        reads(e).contains(n),
        !env.contains_key(n),
    ensures
        lower_line(e, env) is Err,
    decreases e,
{
    match e {
        Expr::BinOp { lhs, op: Op::Bind, rhs } => {
            if *lhs matches Expr::Unary(Atom::Ident(_)) {
                unbound_read_fails(*rhs, env, n);
            }
        },
        _ => {
            lower_unbound_fails(e, env, n);
        },
    }
}

proof fn lower_depends_on_reads(e: Expr, env1: Map<Seq<char>, u64>, env2: Map<Seq<char>, u64>)
    requires
        agree_on(env1, env2, reads(e)),
    ensures
        lower(e, env1) == lower(e, env2),
    decreases e,
{
    match e {
        Expr::Unary(Atom::Ident(n)) => {
            assert(reads(e).contains(n@));
        },
        Expr::Unary(Atom::Literal(_)) => {},
        Expr::BinOp { lhs, op, rhs } => {
            if op != Op::Bind {
                assert(reads(e) == reads(*lhs).union(reads(*rhs)));
                assert forall|n: Seq<char>| #[trigger] reads(*lhs).contains(n) implies reads(
                    e,
                ).contains(n) by {}
                assert forall|n: Seq<char>| #[trigger] reads(*rhs).contains(n) implies reads(
                    e,
                ).contains(n) by {}
                lower_depends_on_reads(*lhs, env1, env2);
                lower_depends_on_reads(*rhs, env1, env2);
            }
        },
    }
}

/// What a line computes and binds depends on the environment only through
/// the durable values of the names it reads: two sessions whose
/// environments agree on those names give the same unit, whatever lines
/// each compiled before.
pub proof fn line_depends_only_on_reads(
    e: Expr,
    env1: Map<Seq<char>, u64>,
    env2: Map<Seq<char>, u64>,
)
    requires
        agree_on(env1, env2, reads(e)),
    ensures
        lower_line(e, env1) == lower_line(e, env2),
    decreases e,
{
    match e {
        Expr::BinOp { lhs, op: Op::Bind, rhs } => {
            if *lhs matches Expr::Unary(Atom::Ident(_)) {
                line_depends_only_on_reads(*rhs, env1, env2);
            }
        },
        _ => {
            lower_depends_on_reads(e, env1, env2);
        },
    }
}

} // verus!

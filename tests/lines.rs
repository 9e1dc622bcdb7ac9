use rc_lib::{ArithOp, Compiler, Expr, Inst, Op, SymbolEnv, TranslateError, Translator, Unit};

fn lit(v: f64) -> Expr {
    Expr::literal(v.to_bits())
}

fn bin(l: Expr, op: Op, r: Expr) -> Expr {
    Expr::binop(l, op, r)
}

fn run(unit: &Unit) -> f64 {
    let mut vals: Vec<f64> = Vec::new();
    for inst in &unit.insts {
        let v = match *inst {
            Inst::Const(bits) => f64::from_bits(bits),
            Inst::Arith(op, a, b) => {
                assert!(a < vals.len() && b < vals.len());
                match op {
                    ArithOp::Add => vals[a] + vals[b],
                    ArithOp::Sub => vals[a] - vals[b],
                    ArithOp::Mul => vals[a] * vals[b],
                    ArithOp::Div => vals[a] / vals[b],
                }
            }
        };
        vals.push(v);
    }
    vals[unit.result]
}

fn eval(c: &mut Compiler, env: &mut SymbolEnv, e: &Expr) -> Result<f64, TranslateError> {
    let unit = c.compile(e, env)?;
    let v = run(&unit);
    env.commit(&unit.binds, v.to_bits());
    Ok(v)
}

#[test]
fn literal_evaluates_to_itself() {
    let mut c = Compiler::new();
    let mut env = SymbolEnv::new();
    for v in [0.0, 1.0, -2.5, 1e300, f64::MAX, f64::MIN_POSITIVE] {
        assert_eq!(eval(&mut c, &mut env, &lit(v)), Ok(v));
    }
    let unit = Compiler::new().compile(&lit(42.0), &env).unwrap();
    assert_eq!(unit.insts, vec![Inst::Const(42.0f64.to_bits())]);
    assert_eq!(unit.result, 0);
    assert!(unit.binds.is_empty());
}

#[test]
fn arithmetic_on_pairs() {
    let mut c = Compiler::new();
    let mut env = SymbolEnv::new();
    let cases = [(6.0, 3.0), (-1.5, 0.25), (7.0, 2.0)];
    for (a, b) in cases {
        assert_eq!(eval(&mut c, &mut env, &bin(lit(a), Op::Add, lit(b))), Ok(a + b));
        assert_eq!(eval(&mut c, &mut env, &bin(lit(a), Op::Sub, lit(b))), Ok(a - b));
        assert_eq!(eval(&mut c, &mut env, &bin(lit(a), Op::Mul, lit(b))), Ok(a * b));
        assert_eq!(eval(&mut c, &mut env, &bin(lit(a), Op::Div, lit(b))), Ok(a / b));
    }
    assert_eq!(eval(&mut c, &mut env, &bin(lit(1.0), Op::Div, lit(0.0))), Ok(f64::INFINITY));
    let nan = eval(&mut c, &mut env, &bin(lit(0.0), Op::Div, lit(0.0))).unwrap();
    assert!(nan.is_nan());
}

#[test]
fn arithmetic_unit_shape() {
    let env = SymbolEnv::new();
    let unit = Compiler::new().compile(&bin(lit(2.0), Op::Sub, lit(3.0)), &env).unwrap();
    assert_eq!(
        unit.insts,
        vec![
            Inst::Const(2.0f64.to_bits()),
            Inst::Const(3.0f64.to_bits()),
            Inst::Arith(ArithOp::Sub, 0, 1)
        ]
    );
    assert_eq!(unit.result, 2);
}

#[test]
fn nested_expression_precedence_by_tree() {
    let mut c = Compiler::new();
    let mut env = SymbolEnv::new();
    // (1 + 2) * (10 - 4) / 3
    let e = bin(
        bin(bin(lit(1.0), Op::Add, lit(2.0)), Op::Mul, bin(lit(10.0), Op::Sub, lit(4.0))),
        Op::Div,
        lit(3.0),
    );
    assert_eq!(eval(&mut c, &mut env, &e), Ok(6.0));
}

#[test]
fn bind_then_reference_last_write_wins() {
    let mut c = Compiler::new();
    let mut env = SymbolEnv::new();
    assert_eq!(eval(&mut c, &mut env, &bin(Expr::ident("x"), Op::Bind, lit(5.0))), Ok(5.0));
    assert_eq!(env.lookup(&"x".to_string()), Some(5.0f64.to_bits()));
    assert_eq!(eval(&mut c, &mut env, &Expr::ident("x")), Ok(5.0));
    assert_eq!(eval(&mut c, &mut env, &bin(Expr::ident("x"), Op::Bind, lit(7.0))), Ok(7.0));
    assert_eq!(eval(&mut c, &mut env, &Expr::ident("x")), Ok(7.0));
}

#[test]
fn binding_uses_previous_value() {
    let mut c = Compiler::new();
    let mut env = SymbolEnv::new();
    eval(&mut c, &mut env, &bin(Expr::ident("x"), Op::Bind, lit(5.0))).unwrap();
    let incr = bin(Expr::ident("x"), Op::Bind, bin(Expr::ident("x"), Op::Add, lit(1.0)));
    assert_eq!(eval(&mut c, &mut env, &incr), Ok(6.0));
    assert_eq!(eval(&mut c, &mut env, &incr), Ok(7.0));
    assert_eq!(eval(&mut c, &mut env, &Expr::ident("x")), Ok(7.0));
}

#[test]
fn chained_binding_binds_every_name() {
    let mut c = Compiler::new();
    let mut env = SymbolEnv::new();
    let e = bin(Expr::ident("a"), Op::Bind, bin(Expr::ident("b"), Op::Bind, lit(3.0)));
    assert_eq!(eval(&mut c, &mut env, &e), Ok(3.0));
    assert_eq!(eval(&mut c, &mut env, &bin(Expr::ident("a"), Op::Mul, Expr::ident("b"))), Ok(9.0));
}

#[test]
fn unbound_reference_is_an_error() {
    let mut c = Compiler::new();
    let mut env = SymbolEnv::new();
    eval(&mut c, &mut env, &bin(Expr::ident("y"), Op::Bind, lit(1.0))).unwrap();
    let r = eval(&mut c, &mut env, &bin(Expr::ident("y"), Op::Add, Expr::ident("z")));
    assert_eq!(r, Err(TranslateError::Unbound("z".to_string())));
    assert_eq!(env.lookup(&"z".to_string()), None);
    assert_eq!(env.lookup(&"y".to_string()), Some(1.0f64.to_bits()));
    let r = eval(&mut c, &mut env, &bin(Expr::ident("w"), Op::Bind, Expr::ident("q")));
    assert_eq!(r, Err(TranslateError::Unbound("q".to_string())));
    assert_eq!(env.lookup(&"w".to_string()), None);
    assert_eq!(eval(&mut c, &mut env, &Expr::ident("y")), Ok(1.0));
}

#[test]
fn bad_bindings_are_errors() {
    let mut c = Compiler::new();
    let mut env = SymbolEnv::new();
    let not_a_name = bin(lit(1.0), Op::Bind, lit(2.0));
    assert_eq!(eval(&mut c, &mut env, &not_a_name), Err(TranslateError::BadBinding));
    let compound = bin(bin(Expr::ident("a"), Op::Add, lit(1.0)), Op::Bind, lit(2.0));
    assert_eq!(eval(&mut c, &mut env, &compound), Err(TranslateError::BadBinding));
    let nested = bin(lit(1.0), Op::Add, bin(Expr::ident("a"), Op::Bind, lit(2.0)));
    assert_eq!(eval(&mut c, &mut env, &nested), Err(TranslateError::BadBinding));
    assert_eq!(env.lookup(&"a".to_string()), None);
}

#[test]
fn independent_line_is_idempotent() {
    let mut c = Compiler::new();
    let mut env = SymbolEnv::new();
    let two_plus_two = bin(lit(2.0), Op::Add, lit(2.0));
    let first = c.compile(&two_plus_two, &env).unwrap();
    for i in 0..5 {
        assert_eq!(eval(&mut c, &mut env, &two_plus_two), Ok(4.0));
        let name = format!("v{}", i);
        eval(&mut c, &mut env, &bin(Expr::ident(&name), Op::Bind, lit(i as f64))).unwrap();
        let again = c.compile(&two_plus_two, &env).unwrap();
        assert_eq!(again.insts, first.insts);
        assert_eq!(run(&again), 4.0);
    }
}

#[test]
fn units_are_self_contained() {
    let mut c = Compiler::new();
    let mut env = SymbolEnv::new();
    eval(&mut c, &mut env, &bin(Expr::ident("x"), Op::Bind, bin(lit(2.0), Op::Mul, lit(21.0))))
        .unwrap();
    let unit = c.compile(&bin(Expr::ident("x"), Op::Sub, lit(2.0)), &env).unwrap();
    // the name comes back as a constant of its value, not as a position of
    // the unit that computed it
    assert_eq!(unit.insts[0], Inst::Const(42.0f64.to_bits()));
    for (i, inst) in unit.insts.iter().enumerate() {
        if let Inst::Arith(_, a, b) = *inst {
            assert!(a < i && b < i);
        }
    }
    assert_eq!(run(&unit), 40.0);
}

#[test]
fn unit_ids_are_unique() {
    let mut c = Compiler::new();
    let env = SymbolEnv::new();
    let a = c.compile(&lit(1.0), &env).unwrap();
    let b = c.compile(&lit(1.0), &env).unwrap();
    assert!(c.compile(&Expr::ident("nope"), &env).is_err());
    let d = c.compile(&lit(1.0), &env).unwrap();
    assert_eq!((a.id, b.id, d.id), (0, 1, 2));
    assert_eq!(c.units, 3);
}

#[test]
fn translator_emits_in_order() {
    let env = SymbolEnv::new();
    let mut t = Translator::new();
    let i = t.translate_expr(&bin(lit(1.0), Op::Div, lit(4.0)), &env).unwrap();
    assert_eq!(i, 2);
    let j = t.translate_atom(&rc_lib::Atom::Literal(9), &env).unwrap();
    assert_eq!(j, 3);
    assert_eq!(t.insts[3], Inst::Const(9));
    let k = t.translate_binop(&lit(1.0), Op::Bind, &lit(2.0), &env);
    assert_eq!(k, Err(TranslateError::BadBinding));
    assert_eq!(t.insts.len(), 4);
}

#[test]
fn translator_binds_names() {
    let mut env = SymbolEnv::new();
    env.bind("y".to_string(), 2.0f64.to_bits());
    let mut t = Translator::new();
    let line = bin(Expr::ident("x"), Op::Bind, bin(Expr::ident("z"), Op::Bind, lit(5.0)));
    assert_eq!(t.translate_expr(&line, &env), Ok(0));
    assert_eq!(t.binds, vec!["x".to_string(), "z".to_string()]);
    assert_eq!(t.insts, vec![Inst::Const(5.0f64.to_bits())]);
    let k = t.translate_binop(&Expr::ident("w"), Op::Bind, &bin(Expr::ident("y"), Op::Mul, lit(3.0)), &env);
    assert_eq!(k, Ok(3));
    assert_eq!(t.binds.len(), 3);
    assert_eq!(t.insts[1], Inst::Const(2.0f64.to_bits()));
    assert_eq!(t.insts[3], Inst::Arith(ArithOp::Mul, 1, 2));
}

#[test]
fn translator_errors_leave_unit_unchanged() {
    let env = SymbolEnv::new();
    let mut t = Translator::new();
    t.translate_atom(&rc_lib::Atom::Literal(1), &env).unwrap();
    let r = t.translate_atom(&rc_lib::Atom::Ident("nope".to_string()), &env);
    assert_eq!(r, Err(TranslateError::Unbound("nope".to_string())));
    assert_eq!(t.insts.len(), 1);
    let line = bin(Expr::ident("x"), Op::Bind, bin(lit(1.0), Op::Add, Expr::ident("q")));
    assert_eq!(t.translate_expr(&line, &env), Err(TranslateError::Unbound("q".to_string())));
    assert_eq!(t.insts, vec![Inst::Const(1)]);
    assert!(t.binds.is_empty());
    let nested = bin(lit(1.0), Op::Add, bin(Expr::ident("a"), Op::Bind, lit(2.0)));
    assert_eq!(t.translate_expr(&nested, &env), Err(TranslateError::BadBinding));
    assert_eq!(t.insts, vec![Inst::Const(1)]);
}

#[test]
fn environment_rebinds_in_place() {
    let mut env = SymbolEnv::new();
    env.bind("a".to_string(), 1);
    env.bind("b".to_string(), 2);
    env.bind("a".to_string(), 3);
    assert_eq!(env.lookup(&"a".to_string()), Some(3));
    assert_eq!(env.lookup(&"b".to_string()), Some(2));
    env.commit(&vec!["b".to_string(), "c".to_string()], 9);
    assert_eq!(env.lookup(&"b".to_string()), Some(9));
    assert_eq!(env.lookup(&"c".to_string()), Some(9));
    assert_eq!(env.lookup(&"a".to_string()), Some(3));
}

#[test]
fn sessions_agreeing_on_read_names_give_same_unit() {
    let mut c1 = Compiler::new();
    let mut env1 = SymbolEnv::new();
    eval(&mut c1, &mut env1, &bin(Expr::ident("x"), Op::Bind, lit(3.0))).unwrap();
    eval(&mut c1, &mut env1, &bin(Expr::ident("other"), Op::Bind, lit(8.0))).unwrap();
    let mut c2 = Compiler::new();
    let mut env2 = SymbolEnv::new();
    for i in 0..4 {
        eval(&mut c2, &mut env2, &bin(lit(i as f64), Op::Mul, lit(2.0))).unwrap();
    }
    eval(&mut c2, &mut env2, &bin(Expr::ident("x"), Op::Bind, bin(lit(1.0), Op::Add, lit(2.0))))
        .unwrap();
    let line = bin(Expr::ident("y"), Op::Bind, bin(Expr::ident("x"), Op::Mul, lit(4.0)));
    let u1 = c1.compile(&line, &env1).unwrap();
    let u2 = c2.compile(&line, &env2).unwrap();
    assert_eq!(u1.insts, u2.insts);
    assert_eq!(u1.result, u2.result);
    assert_eq!(u1.binds, u2.binds);
    assert_ne!(u1.id, u2.id);
    assert_eq!(run(&u1), 12.0);
}

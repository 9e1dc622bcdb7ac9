use vstd::prelude::*;
use cranelift::codegen::ir::immediates::Ieee64;
use cranelift::codegen::ir::{Block, Value};
use cranelift::frontend::FunctionBuilder;
use cranelift::prelude::InstBuilder;
use crate::compile::Unit;
use crate::ir::{wf_insts, ArithOp, Inst};

verus! {

/// Cranelift's builder of one function body, carried through unopened.
#[verifier::external_type_specification]
#[verifier::external_body]
pub struct ExFunctionBuilder<'a>(FunctionBuilder<'a>);

/// A basic block of the function being built.
#[verifier::external_type_specification]
#[verifier::external_body]
pub struct ExBlock(Block);

/// An SSA value of the function being built; meaningless in any other.
#[verifier::external_type_specification]
#[verifier::external_body]
pub struct ExValue(Value);

/// What a builder has been given so far, as far as this library uses it.
/// Only the wrappers below change it, each as its call changes the builder.
pub struct EmitState {
    /// The one block this library creates.
    pub entry: Option<Block>,
    /// Whether instructions now go into the entry block.
    pub positioned: bool,
    pub sealed: bool,
    /// Whether the entry block ends in its terminator.
    pub filled: bool,
    /// The results issued so far, all distinct, in order.
    pub values: Seq<Value>,
    /// The instruction that defined each of `values`.
    pub body: Seq<Emitted>,
    /// The value that the function returns, once the return is emitted.
    pub ret: Option<Value>,
}

/// An instruction emitted into the builder, over the builder's own values.
pub enum Emitted {
    Const(u64),
    Arith(ArithOp, Value, Value),
}

/// The state of a builder on which nothing has been emitted.
pub open spec fn fresh_state(m: EmitState) -> bool {
    &&& m.entry is None
    &&& !m.positioned
    &&& !m.sealed
    &&& !m.filled
    &&& m.values.len() == 0
    &&& m.body.len() == 0
    &&& m.ret is None
}

/// The instruction that emitting `inst` gives, where `values[k]` was
/// emitted for position `k` of the unit.
pub open spec fn emitted_for(inst: Inst, values: Seq<Value>) -> Emitted {
    match inst {
        Inst::Const(bits) => Emitted::Const(bits),
        Inst::Arith(op, a, b) => Emitted::Arith(op, values[a as int], values[b as int]),
    }
}

/// The builder holds exactly `unit`: one sealed entry block whose
/// instructions are the unit's, one for each position, over distinct
/// values, ending in a return of the value of position `unit.result`.
pub open spec fn holds_unit(m: EmitState, unit: Unit) -> bool {
    &&& m.entry is Some
    &&& m.sealed
    &&& m.filled
    &&& m.values.len() == unit.insts@.len()
    &&& m.body.len() == unit.insts@.len()
    &&& forall|i: int, j: int|
        0 <= i < j < m.values.len() ==> #[trigger] m.values[i] != #[trigger] m.values[j]
    &&& forall|i: int|
        0 <= i < m.body.len() ==> #[trigger] m.body[i] == emitted_for(unit.insts@[i], m.values)
    &&& m.ret == Some(m.values[unit.result as int])
}

/// A function builder with the state that this library has given it.
pub struct Emitter<'a> {
    builder: FunctionBuilder<'a>,
    state: Ghost<EmitState>,
}

/// Relies on FunctionBuilder::create_block: makes a new block and changes
/// nothing else.
#[verifier::external_body]
fn create_block(e: &mut Emitter) -> (r: Block)
    requires
        old(e).state@.entry is None,
    ensures
        final(e).state@ == (EmitState { entry: Some(r), ..old(e).state@ }),
{
    e.builder.create_block()
}

/// Relies on FunctionBuilder::switch_to_block: later instructions go into
/// `block`. It asserts that no other block is current and unfilled, and
/// that `block` is not filled.
#[verifier::external_body]
fn switch_to_block(e: &mut Emitter, block: Block)
    requires
        old(e).state@.entry == Some(block),
        !old(e).state@.positioned,
        !old(e).state@.filled,
    ensures
        final(e).state@ == (EmitState { positioned: true, ..old(e).state@ }),
{
    e.builder.switch_to_block(block)
}

/// Relies on FunctionBuilder::seal_block: declares that all predecessors
/// of `block` are known. It asserts that `block` is not sealed yet.
#[verifier::external_body]
fn seal_block(e: &mut Emitter, block: Block)
    requires
        old(e).state@.entry == Some(block),
        !old(e).state@.sealed,
    ensures
        final(e).state@ == (EmitState { sealed: true, ..old(e).state@ }),
{
    e.builder.seal_block(block)
}

/// Relies on InstBuilder::f64const: appends a constant with the given bit
/// pattern to the current block, defining a new value. `ins` panics
/// without a current block; an instruction after the terminator is refused.
#[verifier::external_body]
fn f64const(e: &mut Emitter, bits: u64) -> (r: Value)
    requires
        old(e).state@.positioned,
        !old(e).state@.filled,
    ensures
        !old(e).state@.values.contains(r),
        final(e).state@ == (EmitState {
            values: old(e).state@.values.push(r),
            body: old(e).state@.body.push(Emitted::Const(bits)),
            ..old(e).state@
        }),
{
    e.builder.ins().f64const(Ieee64::with_bits(bits))
}

/// Relies on InstBuilder::fadd: appends a binary64 addition of two values
/// of this function, defining a new value.
#[verifier::external_body]
fn fadd(e: &mut Emitter, x: Value, y: Value) -> (r: Value)
    requires
        old(e).state@.positioned,
        !old(e).state@.filled,
        old(e).state@.values.contains(x),
        old(e).state@.values.contains(y),
    ensures
        !old(e).state@.values.contains(r),
        final(e).state@ == (EmitState {
            values: old(e).state@.values.push(r),
            body: old(e).state@.body.push(Emitted::Arith(ArithOp::Add, x, y)),
            ..old(e).state@
        }),
{
    e.builder.ins().fadd(x, y)
}

/// Relies on InstBuilder::fsub: appends a binary64 subtraction of two
/// values of this function, defining a new value.
#[verifier::external_body]
fn fsub(e: &mut Emitter, x: Value, y: Value) -> (r: Value)
    requires
        old(e).state@.positioned,
        !old(e).state@.filled,
        old(e).state@.values.contains(x),
        old(e).state@.values.contains(y),
    ensures
        !old(e).state@.values.contains(r),
        final(e).state@ == (EmitState {
            values: old(e).state@.values.push(r),
            body: old(e).state@.body.push(Emitted::Arith(ArithOp::Sub, x, y)),
            ..old(e).state@
        }),
{
    e.builder.ins().fsub(x, y)
}

/// Relies on InstBuilder::fmul: appends a binary64 multiplication of two
/// values of this function, defining a new value.
#[verifier::external_body]
fn fmul(e: &mut Emitter, x: Value, y: Value) -> (r: Value)
    requires
        old(e).state@.positioned,
        !old(e).state@.filled,
        old(e).state@.values.contains(x),
        old(e).state@.values.contains(y),
    ensures
        !old(e).state@.values.contains(r),
        final(e).state@ == (EmitState {
            values: old(e).state@.values.push(r),
            body: old(e).state@.body.push(Emitted::Arith(ArithOp::Mul, x, y)),
            ..old(e).state@
        }),
{
    e.builder.ins().fmul(x, y)
}

/// Relies on InstBuilder::fdiv: appends a binary64 division of two values
/// of this function, defining a new value.
#[verifier::external_body]
fn fdiv(e: &mut Emitter, x: Value, y: Value) -> (r: Value)
    requires
        old(e).state@.positioned,
        !old(e).state@.filled,
        old(e).state@.values.contains(x),
        old(e).state@.values.contains(y),
    ensures
        !old(e).state@.values.contains(r),
        final(e).state@ == (EmitState {
            values: old(e).state@.values.push(r),
            body: old(e).state@.body.push(Emitted::Arith(ArithOp::Div, x, y)),
            ..old(e).state@
        }),
{
    e.builder.ins().fdiv(x, y)
}

/// Relies on InstBuilder::return_: ends the current block with a return of
/// `v`, which fills it.
#[verifier::external_body]
fn return_value(e: &mut Emitter, v: Value)
    requires
        old(e).state@.positioned,
        !old(e).state@.filled,
        old(e).state@.values.contains(v),
    ensures
        final(e).state@ == (EmitState { filled: true, ret: Some(v), ..old(e).state@ }),
{
    e.builder.ins().return_(&[v]);
}

/// Relies on FunctionBuilder::finalize: completes the function. It asserts
/// that every block used is sealed and filled.
#[verifier::external_body]
fn finalize(e: Emitter)
    requires
        e.state@.entry is Some,
        e.state@.sealed,
        e.state@.filled,
{
    e.builder.finalize()
}

impl<'a> Emitter<'a> {
    /// The state given so far to the builder.
    pub closed spec fn model(&self) -> EmitState {
        self.state@
    }

    /// Wraps a builder fresh from `FunctionBuilder::new`, on a function that
    /// takes no parameters and returns one binary64 value.
    pub fn new(builder: FunctionBuilder<'a>) -> (r: Emitter<'a>)
        ensures
            fresh_state(r.model()),
    {
        Emitter {
            builder,
            state: Ghost(
                EmitState {
                    entry: None,
                    positioned: false,
                    sealed: false,
                    filled: false,
                    values: Seq::empty(),
                    body: Seq::empty(),
                    ret: None,
                },
            ),
        }
    }

    /// Completes a function whose entry block is sealed and filled.
    pub fn finish(self)
        requires
            self.model().entry is Some,
            self.model().sealed,
            self.model().filled,
    {
        finalize(self)
    }
}

/// Writes a unit as the body of a fresh builder's function: one entry
/// block, sealed at once since no branch reaches it, the unit's
/// instructions in order, each over the values emitted for its operands in
/// this same function, and a return of the value of its result.
pub fn emit_unit(e: &mut Emitter, unit: &Unit)
    requires
        fresh_state(old(e).model()),
        wf_insts(unit.insts@),
        unit.result < unit.insts@.len(),
    ensures
        holds_unit(final(e).model(), *unit),
{
    let entry = create_block(e);
    switch_to_block(e, entry);
    seal_block(e, entry);
    let mut vals: Vec<Value> = Vec::new();
    let mut i: usize = 0;
    while i < unit.insts.len()
        invariant
            wf_insts(unit.insts@),
            i <= unit.insts@.len(),
            e.state@.entry is Some,
            e.state@.positioned,
            e.state@.sealed,
            !e.state@.filled,
            e.state@.ret is None,
            vals@ == e.state@.values,
            vals@.len() == i,
            e.state@.body.len() == i,
            forall|j: int, k: int|
                0 <= j < k < vals@.len() ==> #[trigger] vals@[j] != #[trigger] vals@[k],
            forall|j: int|
                0 <= j < i ==> #[trigger] e.state@.body[j] == emitted_for(unit.insts@[j], vals@),
        decreases unit.insts@.len() - i,
    {
        let ghost before = vals@;
        let v = match unit.insts[i] {
            Inst::Const(bits) => f64const(e, bits),
            Inst::Arith(op, a, b) => {
                assert(a < i && b < i);
                let x = vals[a];
                let y = vals[b];
                assert(vals@.contains(x) && vals@.contains(y));
                match op {
                    ArithOp::Add => fadd(e, x, y),
                    ArithOp::Sub => fsub(e, x, y),
                    ArithOp::Mul => fmul(e, x, y),
                    ArithOp::Div => fdiv(e, x, y),
                }
            },
        };
        vals.push(v);
        proof {
            assert forall|j: int, k: int|
                0 <= j < k < vals@.len() implies #[trigger] vals@[j] != #[trigger] vals@[k] by {
                if k == vals@.len() - 1 {
                    assert(before.contains(vals@[j]));
                } else {
                    assert(vals@[j] == before[j] && vals@[k] == before[k]);
                }
            }
            assert forall|j: int| 0 <= j <= i implies #[trigger] e.state@.body[j] == emitted_for(
                unit.insts@[j],
                vals@,
            ) by {
                if j < i {
                    assert(emitted_for(unit.insts@[j], vals@) == emitted_for(unit.insts@[j], before));
                }
            }
        }
        i = i + 1;
    }
    let rv = vals[unit.result];
    assert(vals@.contains(rv));
    return_value(e, rv);
}

} // verus!

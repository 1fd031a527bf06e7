//! What a list of LLVM operations computes, and the law that ties code
//! generation to the interpreter: the operations emitted for an expression
//! compute the value that the interpreter gives the expression.
use vstd::prelude::*;
use crate::ast::{BinOp, LogOp, NumCompOp, SpecExpr};
use crate::interpret::{MachineView, eval, trunc_div};
use crate::llvm::{Instr, LlvmView, expr_spec, instr_spec};
use crate::memory::{MemView, SpecIntRep, spec_read_var};

verus! {

/// What an operation gives: an `i32` value, an `i1` value, or nothing (a
/// slot, a store, a return, or an operation whose operands are not of the
/// kind it takes).
pub enum OpValue {
    Int(int),
    Bit(bool),
    Nothing,
}

/// The state after a list of operations: the value of each operation, the
/// contents of each stack slot (keyed by the index of its `Alloca`), and the
/// value of the first return, if one ran.
pub struct OpState {
    pub vals: Seq<OpValue>,
    pub slots: Map<int, OpValue>,
    pub ret: Option<OpValue>,
}

/// An integer taken to 32 bits, two's complement.
pub open spec fn wrap_i32(x: int) -> int {
    (x as i32) as int
}

/// A signed comparison of two integers.
pub open spec fn int_compare(op: NumCompOp, a: int, b: int) -> bool {
    match op {
        NumCompOp::Les => a < b,
        NumCompOp::Gre => a > b,
        NumCompOp::LeEq => a <= b,
        NumCompOp::GrEq => a >= b,
        NumCompOp::Eq => a == b,
        NumCompOp::Neq => a != b,
    }
}

/// An `i1` read as a signed integer.
pub open spec fn bit_int(b: bool) -> int {
    if b {
        -1
    } else {
        0
    }
}

/// Wrapping `add`, `sub` and `mul`; `sdiv`, which has no value when the
/// divisor is zero or the quotient does not fit.
pub open spec fn bin_value(op: BinOp, x: int, y: int) -> OpValue {
    match op {
        BinOp::Add => OpValue::Int(wrap_i32(x + y)),
        BinOp::Sub => OpValue::Int(wrap_i32(x - y)),
        BinOp::Mul => OpValue::Int(wrap_i32(x * y)),
        BinOp::Div => if y == 0 || (x == i32::MIN && y == -1) {
            OpValue::Nothing
        } else {
            OpValue::Int(trunc_div(x, y))
        },
    }
}

/// The value of the operation at index `i`.
pub open spec fn val_at(s: OpState, i: usize) -> OpValue {
    s.vals[i as int]
}

/// What a load of the slot made at index `slot` reads.
pub open spec fn load_value(s: OpState, slot: usize) -> OpValue {
    if s.slots.contains_key(slot as int) {
        s.slots[slot as int]
    } else {
        OpValue::Nothing
    }
}

/// An `i32` constant.
pub open spec fn const_value(x: u64) -> OpValue {
    OpValue::Int(wrap_i32(x as int))
}

/// A constant multiplied by the all-ones `i32`.
pub open spec fn negated(v: OpValue) -> OpValue {
    match v {
        OpValue::Int(k) => OpValue::Int(wrap_i32(-k)),
        _ => OpValue::Nothing,
    }
}

/// A signed comparison of two `i32` or two `i1` values.
pub open spec fn compare_value(op: NumCompOp, a: OpValue, b: OpValue) -> OpValue {
    match (a, b) {
        (OpValue::Int(x), OpValue::Int(y)) => OpValue::Bit(int_compare(op, x, y)),
        (OpValue::Bit(x), OpValue::Bit(y)) => OpValue::Bit(int_compare(op, bit_int(x), bit_int(y))),
        _ => OpValue::Nothing,
    }
}

/// The value of operation `ins` run after the state `s`.
pub open spec fn op_value(s: OpState, ins: Instr) -> OpValue {
    match ins {
        Instr::ConstI32(x) => const_value(x),
        Instr::ConstBool(b) => OpValue::Bit(b),
        Instr::NegateConst(c) => negated(val_at(s, c)),
        Instr::Load(slot) => load_value(s, slot),
        Instr::Bin(op, a, b) => match (val_at(s, a), val_at(s, b)) {
            (OpValue::Int(x), OpValue::Int(y)) => bin_value(op, x, y),
            _ => OpValue::Nothing,
        },
        Instr::Cmp(op, a, b) => compare_value(op, val_at(s, a), val_at(s, b)),
        Instr::Log(op, a, b) => match (val_at(s, a), val_at(s, b)) {
            (OpValue::Bit(x), OpValue::Bit(y)) => OpValue::Bit(
                match op {
                    LogOp::And => x && y,
                    LogOp::Or => x || y,
                },
            ),
            _ => OpValue::Nothing,
        },
        _ => OpValue::Nothing,
    }
}

/// Runs one more operation: its value is appended; an `Alloca` makes an
/// empty slot, a store fills one, and the first return records its value.
pub open spec fn step(s: OpState, ins: Instr) -> OpState {
    let i = s.vals.len() as int;
    OpState {
        vals: s.vals.push(op_value(s, ins)),
        slots: match ins {
            Instr::Alloca => s.slots.insert(i, OpValue::Nothing),
            Instr::Store(slot, v) => s.slots.insert(slot as int, s.vals[v as int]),
            _ => s.slots,
        },
        ret: match ins {
            Instr::Ret(v) => if s.ret is None {
                Some(s.vals[v as int])
            } else {
                s.ret
            },
            _ => s.ret,
        },
    }
}

/// Runs a list of operations from the first to the last.
pub open spec fn exec_ops(code: Seq<Instr>) -> OpState
    decreases code.len(),
{
    if code.len() == 0 {
        OpState { vals: Seq::empty(), slots: Map::empty(), ret: None }
    } else {
        step(exec_ops(code.drop_last()), code.last())
    }
}

/// The LLVM value that stands for an interpreter value.
pub open spec fn meaning(v: SpecIntRep) -> OpValue {
    match v {
        SpecIntRep::Number(n) => OpValue::Int(n as int),
        SpecIntRep::Bool(b) => OpValue::Bit(b),
        _ => OpValue::Nothing,
    }
}

/// Every variable with a slot holds, in that slot, what the interpreter reads
/// for it.
pub open spec fn slots_agree(vars: Map<Seq<char>, usize>, s: OpState, m: MemView) -> bool {
    forall|k: Seq<char>|
        #[trigger] vars.contains_key(k) ==> (spec_read_var(m, k) matches Ok(x) ==> s.slots.contains_key(
            vars[k] as int,
        ) && s.slots[vars[k] as int] == meaning(x))
}

proof fn lemma_exec_push(code: Seq<Instr>, ins: Instr)
    ensures
        exec_ops(code.push(ins)) == step(exec_ops(code), ins),
{
    assert(code.push(ins).drop_last() =~= code);
}

proof fn lemma_exec_len(code: Seq<Instr>)
    ensures
        exec_ops(code).vals.len() == code.len(),
    decreases code.len(),
{
    if code.len() > 0 {
        lemma_exec_len(code.drop_last());
    }
}

/// Emitting a value-only operation keeps the earlier values and the slots.
proof fn lemma_emit_value(g: LlvmView, ins: Instr)
    requires
        !(ins is Alloca) && !(ins is Store) && !(ins is Ret),
    ensures
        ({
            let s0 = exec_ops(g.code);
            let s1 = exec_ops(g.code.push(ins));
            &&& s1.slots == s0.slots
            &&& s1.vals.len() == g.code.len() + 1
            &&& s1.vals[g.code.len() as int] == op_value(s0, ins)
            &&& forall|i: int| 0 <= i < g.code.len() ==> #[trigger] s1.vals[i] == s0.vals[i]
        }),
{
    lemma_exec_push(g.code, ins);
    lemma_exec_len(g.code);
}

proof fn lemma_expr_meaning(fuel: nat, st: MachineView, g: LlvmView, e: SpecExpr)
    requires
        slots_agree(g.variables, exec_ops(g.code), st.mem),
        expr_spec(g, e).0.code.len() <= usize::MAX,
        expr_spec(g, e).1 is Ok,
        eval(fuel, st, e).1 is Ok,
    ensures
        ({
            let (g1, r) = expr_spec(g, e);
            let (st1, x) = eval(fuel, st, e);
            let s0 = exec_ops(g.code);
            let s1 = exec_ops(g1.code);
            &&& st1 == st
            &&& g1.variables == g.variables
            &&& g.code.len() <= r.unwrap() < g1.code.len()
            &&& s1.vals[r.unwrap() as int] == meaning(x.unwrap())
            &&& s1.slots == s0.slots
            &&& s1.vals.len() == g1.code.len()
            &&& forall|i: int| 0 <= i < g.code.len() ==> #[trigger] s1.vals[i] == s0.vals[i]
        }),
    decreases e,
{
    let f = (fuel - 1) as nat;
    lemma_exec_len(g.code);
    match e {
        SpecExpr::Var(name) => {
            assert(g.variables.contains_key(name));
            let slot = g.variables[name];
            lemma_emit_value(g, Instr::Load(slot));
        },
        SpecExpr::Number(n) => {
            if n < 0 {
                let ins = Instr::ConstI32((-n) as u64);
                lemma_emit_value(g, ins);
                let g1 = LlvmView { code: g.code.push(ins), ..g };
                lemma_emit_value(g1, Instr::NegateConst(g.code.len() as usize));
                assert(exec_ops(g1.code).vals[g.code.len() as int] == OpValue::Int(-n));
            } else {
                lemma_emit_value(g, Instr::ConstI32(n as u64));
            }
        },
        SpecExpr::Bool(b) => {
            lemma_emit_value(g, Instr::ConstBool(crate::interpret::bool_of(b)));
        },
        SpecExpr::BinNode(l, _, r) | SpecExpr::NumCompNode(l, _, r) | SpecExpr::LogNode(l, _, r) => {
            let (g1, lv) = expr_spec(g, *l);
            let (g2, rv) = expr_spec(g1, *r);
            crate::llvm::lemma_expr_grows(g1, *r);
            lemma_expr_meaning(f, st, g, *l);
            lemma_expr_meaning(f, st, g1, *r);
            let a = lv.unwrap();
            let b = rv.unwrap();
            let ins = crate::llvm::binary_instr(e, a, b);
            lemma_emit_value(g2, ins);
            let s2 = exec_ops(g2.code);
            assert(s2.vals[a as int] == exec_ops(g1.code).vals[a as int]);
            let x = eval(f, st, *l).1.unwrap();
            let y = eval(f, st, *r).1.unwrap();
            assert(s2.vals[a as int] == meaning(x));
            assert(s2.vals[b as int] == meaning(y));
            match e {
                SpecExpr::BinNode(_, op, _) => {
                    if op == BinOp::Div {
                        if let (SpecIntRep::Number(p), SpecIntRep::Number(q)) = (x, y) {
                            if p == i32::MIN && q == -1 {
                                assert(trunc_div(p as int, q as int) == 0x8000_0000);
                            }
                        }
                    }
                },
                _ => {},
            }
        },
        _ => {},
    }
}

/// The operations emitted for an expression compute the interpreter's value
/// of it. Start from any operations whose stack slots hold what the
/// interpreter reads for the variables they belong to; where both code
/// generation and evaluation succeed, the emitted result operation has the
/// LLVM value of the interpreter's result (an `i32` for a number, an `i1` for
/// a boolean), evaluation leaves the machine as it was, and the slots and the
/// values of the earlier operations stay as they were. (The emitted list is
/// taken to be indexable by `usize`.)
pub proof fn law_expr_code_computes_eval(fuel: nat, st: MachineView, g: LlvmView, e: SpecExpr)
    requires
        slots_agree(g.variables, exec_ops(g.code), st.mem),
        expr_spec(g, e).0.code.len() <= usize::MAX,
        expr_spec(g, e).1 is Ok,
        eval(fuel, st, e).1 is Ok,
    ensures
        exec_ops(expr_spec(g, e).0.code).vals[expr_spec(g, e).1.unwrap() as int] == meaning(
            eval(fuel, st, e).1.unwrap(),
        ),
        eval(fuel, st, e).0 == st,
        exec_ops(expr_spec(g, e).0.code).slots == exec_ops(g.code).slots,
        forall|i: int|
            0 <= i < g.code.len() ==> #[trigger] exec_ops(expr_spec(g, e).0.code).vals[i]
                == exec_ops(g.code).vals[i],
{
    lemma_expr_meaning(fuel, st, g, e);
}

/// Compiling `return x` makes the function return the interpreter's value of
/// `x`: where no return has run yet and the slots agree with the interpreter's
/// variables, the first return of the emitted operations gives the LLVM value
/// of what the interpreter evaluates `x` to.
pub proof fn law_return_code_returns_eval(fuel: nat, st: MachineView, g: LlvmView, x: SpecExpr)
    requires
        slots_agree(g.variables, exec_ops(g.code), st.mem),
        exec_ops(g.code).ret is None,
        instr_spec(g, SpecExpr::Return(Box::new(x))).0.code.len() <= usize::MAX,
        instr_spec(g, SpecExpr::Return(Box::new(x))).1 is Ok,
        eval(fuel, st, x).1 is Ok,
    ensures
        exec_ops(instr_spec(g, SpecExpr::Return(Box::new(x))).0.code).ret == Some(
            meaning(eval(fuel, st, x).1.unwrap()),
        ),
{
    lemma_expr_meaning(fuel, st, g, x);
    let (g1, v) = expr_spec(g, x);
    lemma_exec_push(g1.code, Instr::Ret(v.unwrap()));
    assert(exec_ops(g1.code).ret == exec_ops(g.code).ret) by {
        lemma_ret_unchanged(g, x);
    }
}

/// Operations emitted for an expression run no return.
proof fn lemma_ret_unchanged(g: LlvmView, e: SpecExpr)
    requires
        expr_spec(g, e).1 is Ok,
    ensures
        exec_ops(expr_spec(g, e).0.code).ret == exec_ops(g.code).ret,
    decreases e,
{
    match e {
        SpecExpr::Var(name) => {
            lemma_exec_push(g.code, Instr::Load(g.variables[name]));
        },
        SpecExpr::Number(n) => {
            if n < 0 {
                let ins = Instr::ConstI32((-n) as u64);
                lemma_exec_push(g.code, ins);
                lemma_exec_push(g.code.push(ins), Instr::NegateConst(g.code.len() as usize));
            } else {
                lemma_exec_push(g.code, Instr::ConstI32(n as u64));
            }
        },
        SpecExpr::Bool(b) => {
            lemma_exec_push(g.code, Instr::ConstBool(crate::interpret::bool_of(b)));
        },
        SpecExpr::BinNode(l, _, r) | SpecExpr::NumCompNode(l, _, r) | SpecExpr::LogNode(l, _, r) => {
            lemma_ret_unchanged(g, *l);
            let (g1, lv) = expr_spec(g, *l);
            lemma_ret_unchanged(g1, *r);
            let (g2, rv) = expr_spec(g1, *r);
            lemma_exec_push(g2.code, crate::llvm::binary_instr(e, lv.unwrap(), rv.unwrap()));
        },
        _ => {},
    }
}

/// The expressions that have a compiled form: a variable with a stack slot,
/// a number other than `i32::MIN`, a boolean, and an arithmetic, comparison
/// or logical node of such expressions.
pub open spec fn compilable(vars: Map<Seq<char>, usize>, e: SpecExpr) -> bool
    decreases e,
{
    match e {
        SpecExpr::Var(name) => vars.contains_key(name),
        SpecExpr::Number(n) => n != i32::MIN,
        SpecExpr::Bool(_) => true,
        SpecExpr::BinNode(l, _, r) | SpecExpr::NumCompNode(l, _, r) | SpecExpr::LogNode(l, _, r) =>
            compilable(vars, *l) && compilable(vars, *r),
        _ => false,
    }
}

/// How many operations an expression compiles to: one per leaf (two for a
/// negative number: its magnitude, then the negation) and one per operator.
pub open spec fn op_count(e: SpecExpr) -> nat
    decreases e,
{
    match e {
        SpecExpr::Number(n) => if n < 0 {
            2
        } else {
            1
        },
        SpecExpr::BinNode(l, _, r) | SpecExpr::NumCompNode(l, _, r) | SpecExpr::LogNode(l, _, r) =>
            op_count(*l) + op_count(*r) + 1,
        _ => 1,
    }
}

proof fn lemma_expr_compiles(g: LlvmView, e: SpecExpr)
    ensures
        expr_spec(g, e).0.variables == g.variables,
        (expr_spec(g, e).1 is Ok) == compilable(g.variables, e),
        compilable(g.variables, e) && g.code.len() + op_count(e) <= usize::MAX ==> {
            &&& expr_spec(g, e).0.code.len() == g.code.len() + op_count(e)
            &&& expr_spec(g, e).1 == Ok::<usize, crate::llvm::CodegenError>(
                (g.code.len() + op_count(e) - 1) as usize,
            )
        },
    decreases e,
{
    match e {
        SpecExpr::BinNode(l, _, r) | SpecExpr::NumCompNode(l, _, r) | SpecExpr::LogNode(l, _, r) => {
            lemma_expr_compiles(g, *l);
            let (g1, lv) = expr_spec(g, *l);
            lemma_expr_compiles(g1, *r);
        },
        _ => {},
    }
}

/// Code generation succeeds exactly on the expressions that have a compiled
/// form (it never changes which variables have slots); then it emits
/// `op_count(e)` operations, and the last of them gives the expression's
/// value. (The emitted list is taken to be indexable by `usize`.) Together
/// with `law_expr_code_computes_eval` this fixes what a compiled expression
/// computes.
pub proof fn law_expr_compiles(g: LlvmView, e: SpecExpr)
    ensures
        expr_spec(g, e).0.variables == g.variables,
        (expr_spec(g, e).1 is Ok) == compilable(g.variables, e),
        compilable(g.variables, e) && g.code.len() + op_count(e) <= usize::MAX ==> {
            &&& expr_spec(g, e).0.code.len() == g.code.len() + op_count(e)
            &&& expr_spec(g, e).1 == Ok::<usize, crate::llvm::CodegenError>(
                (g.code.len() + op_count(e) - 1) as usize,
            )
        },
{
    lemma_expr_compiles(g, e);
}

/// `return x` compiles exactly when `x` does: to the operations of `x`
/// followed by one return of their result, which ends the block.
pub proof fn law_return_compiles(g: LlvmView, x: SpecExpr)
    requires
        g.code.len() + op_count(x) + 1 <= usize::MAX,
    ensures
        (instr_spec(g, SpecExpr::Return(Box::new(x))).1 is Ok) == compilable(g.variables, x),
        compilable(g.variables, x) ==> {
            let (g1, r) = instr_spec(g, SpecExpr::Return(Box::new(x)));
            let v = (g.code.len() + op_count(x) - 1) as usize;
            &&& g1.code == expr_spec(g, x).0.code.push(Instr::Ret(v))
            &&& r == Ok::<(usize, bool), crate::llvm::CodegenError>(
                ((g.code.len() + op_count(x)) as usize, true),
            )
        },
{
    lemma_expr_compiles(g, x);
}

} // verus!

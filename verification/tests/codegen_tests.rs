use first::ast::{BinOp, BoolType, ExprTree, LogOp, NumCompOp, Type};
use first::interpret::{match_node, Machine};
use first::llvm::{CodegenError, Instr, LLVM};
use first::memory::{IntRep, push_on_mem_stack};

fn cb(e: ExprTree) -> Box<ExprTree> {
    Box::new(e)
}

fn cvar(name: &str) -> ExprTree {
    ExprTree::Var(name.to_string())
}

#[test]
fn return_of_arithmetic() {
    let mut g = LLVM::new();
    let body = ExprTree::Return(cb(ExprTree::BinNode(
        cb(ExprTree::Number(3)),
        BinOp::Add,
        cb(ExprTree::Number(-2)),
    )));
    assert_eq!(g.compile_block(&body), Ok(4));
    assert_eq!(
        *g.instructions(),
        vec![
            Instr::ConstI32(3),
            Instr::ConstI32(2),
            Instr::NegateConst(1),
            Instr::Bin(BinOp::Add, 0, 2),
            Instr::Ret(3),
        ]
    );
}

#[test]
fn declaration_then_return_stops_at_return() {
    let mut g = LLVM::new();
    let body = ExprTree::SeqNode(
        cb(ExprTree::AssignNode(cb(cvar("a")), Type::I32, cb(ExprTree::Number(5)))),
        cb(ExprTree::SeqNode(
            cb(ExprTree::Return(cb(ExprTree::NumCompNode(
                cb(cvar("a")),
                NumCompOp::Les,
                cb(ExprTree::Number(9)),
            )))),
            cb(ExprTree::Return(cb(ExprTree::Bool(BoolType::True)))),
        )),
    );
    assert_eq!(g.compile_block(&body), Ok(6));
    assert_eq!(
        *g.instructions(),
        vec![
            Instr::ConstI32(5),
            Instr::Alloca,
            Instr::Store(1, 0),
            Instr::Load(1),
            Instr::ConstI32(9),
            Instr::Cmp(NumCompOp::Les, 3, 4),
            Instr::Ret(5),
        ]
    );
}

#[test]
fn declared_slot_is_registered_as_a() {
    let mut g = LLVM::new();
    let body = ExprTree::SeqNode(
        cb(ExprTree::AssignNode(cb(cvar("x")), Type::I32, cb(ExprTree::Number(1)))),
        cb(ExprTree::SetVarNode(cb(cvar("x")), cb(ExprTree::Number(2)))),
    );
    assert_eq!(g.compile_block(&body), Err(CodegenError::UnknownVariable));
}

#[test]
fn unsupported_and_overflowing_nodes() {
    let mut g = LLVM::new();
    assert_eq!(g.compile_block(&ExprTree::Pass), Err(CodegenError::Unsupported));
    let mut h = LLVM::new();
    assert_eq!(
        h.compile_block(&ExprTree::Return(cb(ExprTree::Number(i32::MIN)))),
        Err(CodegenError::NumberOverflow)
    );
}

#[derive(Debug, Clone, Copy, PartialEq)]
enum OpVal {
    Int(i32),
    Bit(bool),
    Nothing,
}

/// Replays straight-line operations as LLVM runs them: the value of each
/// operation, and the value of the first return.
fn replay(code: &[Instr]) -> (Vec<OpVal>, Option<OpVal>) {
    let mut vals: Vec<OpVal> = Vec::new();
    let mut slots: Vec<(usize, OpVal)> = Vec::new();
    let mut ret = None;
    for (i, ins) in code.iter().enumerate() {
        let load = |slots: &Vec<(usize, OpVal)>, s: usize| {
            slots.iter().rev().find(|(k, _)| *k == s).map(|(_, v)| *v).unwrap_or(OpVal::Nothing)
        };
        let v = match *ins {
            Instr::ConstI32(x) => OpVal::Int(x as i32),
            Instr::ConstBool(b) => OpVal::Bit(b),
            Instr::NegateConst(c) => match vals[c] {
                OpVal::Int(k) => OpVal::Int(k.wrapping_mul(-1)),
                _ => OpVal::Nothing,
            },
            Instr::Load(s) => load(&slots, s),
            Instr::Bin(op, a, b) => match (vals[a], vals[b]) {
                (OpVal::Int(x), OpVal::Int(y)) => match op {
                    BinOp::Add => OpVal::Int(x.wrapping_add(y)),
                    BinOp::Sub => OpVal::Int(x.wrapping_sub(y)),
                    BinOp::Mul => OpVal::Int(x.wrapping_mul(y)),
                    BinOp::Div => x.checked_div(y).map(OpVal::Int).unwrap_or(OpVal::Nothing),
                },
                _ => OpVal::Nothing,
            },
            Instr::Cmp(op, a, b) => {
                let as_int = |v: OpVal| match v {
                    OpVal::Int(x) => Some(x as i64),
                    OpVal::Bit(b) => Some(if b { -1 } else { 0 }),
                    OpVal::Nothing => None,
                };
                match (as_int(vals[a]), as_int(vals[b])) {
                    (Some(x), Some(y)) => OpVal::Bit(match op {
                        NumCompOp::Les => x < y,
                        NumCompOp::Gre => x > y,
                        NumCompOp::LeEq => x <= y,
                        NumCompOp::GrEq => x >= y,
                        NumCompOp::Eq => x == y,
                        NumCompOp::Neq => x != y,
                    }),
                    _ => OpVal::Nothing,
                }
            }
            Instr::Log(op, a, b) => match (vals[a], vals[b]) {
                (OpVal::Bit(x), OpVal::Bit(y)) => OpVal::Bit(match op {
                    LogOp::And => x && y,
                    LogOp::Or => x || y,
                }),
                _ => OpVal::Nothing,
            },
            Instr::Alloca => {
                slots.push((i, OpVal::Nothing));
                OpVal::Nothing
            }
            Instr::Store(s, v) => {
                slots.push((s, vals[v]));
                OpVal::Nothing
            }
            Instr::Ret(v) => {
                if ret.is_none() {
                    ret = Some(vals[v]);
                }
                OpVal::Nothing
            }
        };
        vals.push(v);
    }
    (vals, ret)
}

fn interpreted(e: &ExprTree) -> OpVal {
    let mut st = Machine::new();
    push_on_mem_stack(&mut st.mem);
    match match_node(&mut st, e, 100) {
        Ok(IntRep::Number(n)) => OpVal::Int(n),
        Ok(IntRep::Bool(b)) => OpVal::Bit(b),
        _ => OpVal::Nothing,
    }
}

fn num(n: i32) -> Box<ExprTree> {
    cb(ExprTree::Number(n))
}

#[test]
fn compiled_expressions_compute_interpreted_values() {
    let exprs = vec![
        // (7 - 10) * 3 / 2 = -4, rounding towards zero
        ExprTree::BinNode(
            cb(ExprTree::BinNode(
                cb(ExprTree::BinNode(num(7), BinOp::Sub, num(10))),
                BinOp::Mul,
                num(3),
            )),
            BinOp::Div,
            num(2),
        ),
        ExprTree::NumCompNode(
            cb(ExprTree::Bool(BoolType::True)),
            NumCompOp::Eq,
            cb(ExprTree::Bool(BoolType::False)),
        ),
        ExprTree::LogNode(
            cb(ExprTree::NumCompNode(num(1), NumCompOp::Les, num(2))),
            LogOp::And,
            cb(ExprTree::NumCompNode(num(-3), NumCompOp::GrEq, num(-3))),
        ),
        ExprTree::Number(-2147483647),
    ];
    let expected = vec![OpVal::Int(-4), OpVal::Bit(false), OpVal::Bit(true), OpVal::Int(-2147483647)];
    for (e, want) in exprs.iter().zip(expected) {
        let mut g = LLVM::new();
        let r = g.match_node(e).unwrap();
        let (vals, _) = replay(g.instructions());
        assert_eq!(vals[r], want);
        assert_eq!(interpreted(e), want);
    }
}

#[test]
fn compiled_return_returns_interpreted_value() {
    let x = ExprTree::BinNode(num(6), BinOp::Mul, cb(ExprTree::BinNode(num(2), BinOp::Add, num(5))));
    let mut g = LLVM::new();
    assert_eq!(g.compile_block(&ExprTree::Return(cb(ExprTree::BinNode(
        num(6),
        BinOp::Mul,
        cb(ExprTree::BinNode(num(2), BinOp::Add, num(5))),
    )))), Ok(5));
    let (_, ret) = replay(g.instructions());
    assert_eq!(ret, Some(OpVal::Int(42)));
    assert_eq!(interpreted(&x), OpVal::Int(42));
}

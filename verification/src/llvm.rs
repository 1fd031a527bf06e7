//! Code generation for straight-line function bodies: lowers a body to the
//! list of LLVM builder operations that compute it. Each operation's result
//! is named by its index in the list; a program that replays the list on an
//! LLVM builder gets the compiled function.
use vstd::prelude::*;
use crate::assoc::{assoc_map, assoc_insert, find_last, lemma_assoc_absent, lemma_assoc_found};
use crate::ast::{BinOp, BoolType, ExprTree, LogOp, NumCompOp, SpecExpr};
use crate::interpret::bool_of;

verus! {

/// One LLVM builder operation; operands are indices of earlier operations.
#[derive(Debug, Clone, Copy, PartialEq, Eq)]
pub enum Instr {
    /// An `i32` constant with the given magnitude.
    ConstI32(u64),
    /// An `i1` constant.
    ConstBool(bool),
    /// A constant multiplied by the all-ones `i32` (that is, negated).
    NegateConst(usize),
    /// A load of the stack slot made by the `Alloca` at that index.
    Load(usize),
    Bin(BinOp, usize, usize),
    /// A signed integer comparison.
    Cmp(NumCompOp, usize, usize),
    Log(LogOp, usize, usize),
    /// A new `i32` stack slot in the entry block.
    Alloca,
    /// A store of a value into a stack slot: slot, value.
    Store(usize, usize),
    /// A return of a value.
    Ret(usize),
}

/// Why a body cannot be compiled.
#[derive(Debug, Clone, Copy, PartialEq, Eq, Structural)]
pub enum CodegenError {
    /// A variable that has no stack slot.
    UnknownVariable,
    /// The target of an assignment is not a variable node.
    NotAVariableName,
    /// The negation of `i32::MIN` does not fit in an `i32`.
    NumberOverflow,
    /// A node that has no compiled form.
    Unsupported,
}

/// The state of code generation: the operations emitted so far, and the stack
/// slot of each variable name.
pub struct LLVM {
    code: Vec<Instr>,
    variables: Vec<(String, usize)>,
}

/// Mathematical model of `LLVM`.
pub struct LlvmView {
    pub code: Seq<Instr>,
    pub variables: Map<Seq<char>, usize>,
}

impl View for LLVM {
    type V = LlvmView;

    closed spec fn view(&self) -> LlvmView {
        LlvmView { code: self.code@, variables: assoc_map(self.variables@) }
    }
}

/// Appends an operation; its index names its result.
pub open spec fn emit_spec(g: LlvmView, i: Instr) -> (LlvmView, usize) {
    (LlvmView { code: g.code.push(i), ..g }, g.code.len() as usize)
}

/// An integer literal: a constant of its magnitude, negated when it is below zero.
pub open spec fn num_spec(g: LlvmView, n: i32) -> (LlvmView, Result<usize, CodegenError>) {
    if n < 0 {
        if n == i32::MIN {
            (g, Err(CodegenError::NumberOverflow))
        } else {
            let (g1, c) = emit_spec(g, Instr::ConstI32((-n) as u64));
            let (g2, v) = emit_spec(g1, Instr::NegateConst(c));
            (g2, Ok(v))
        }
    } else {
        let (g1, c) = emit_spec(g, Instr::ConstI32(n as u64));
        (g1, Ok(c))
    }
}

/// The instruction of a binary node on the values of its operands.
pub open spec fn binary_instr(e: SpecExpr, a: usize, b: usize) -> Instr {
    match e {
        SpecExpr::BinNode(_, op, _) => Instr::Bin(op, a, b),
        SpecExpr::NumCompNode(_, op, _) => Instr::Cmp(op, a, b),
        SpecExpr::LogNode(_, op, _) => Instr::Log(op, a, b),
        _ => Instr::Alloca,
    }
}

/// The operations that compute an expression; the result names its value.
pub open spec fn expr_spec(g: LlvmView, e: SpecExpr) -> (LlvmView, Result<usize, CodegenError>)
    decreases e,
{
    match e {
        SpecExpr::Var(name) => if g.variables.contains_key(name) {
            let (g1, v) = emit_spec(g, Instr::Load(g.variables[name]));
            (g1, Ok(v))
        } else {
            (g, Err(CodegenError::UnknownVariable))
        },
        SpecExpr::Number(n) => num_spec(g, n),
        SpecExpr::Bool(b) => {
            let (g1, v) = emit_spec(g, Instr::ConstBool(bool_of(b)));
            (g1, Ok(v))
        },
        SpecExpr::BinNode(l, _, r) | SpecExpr::NumCompNode(l, _, r) | SpecExpr::LogNode(l, _, r) => {
            let (g1, lv) = expr_spec(g, *l);
            match lv {
                Err(x) => (g1, Err(x)),
                Ok(a) => {
                    let (g2, rv) = expr_spec(g1, *r);
                    match rv {
                        Err(x) => (g2, Err(x)),
                        Ok(b) => {
                            let (g3, v) = emit_spec(g2, binary_instr(e, a, b));
                            (g3, Ok(v))
                        },
                    }
                },
            }
        },
        _ => (g, Err(CodegenError::Unsupported)),
    }
}

/// A declaration allocates a slot (registered under the name `a`) and stores
/// the value in it.
pub open spec fn declare_spec(g: LlvmView, n: SpecExpr, val: SpecExpr) -> (
    LlvmView,
    Result<(usize, bool), CodegenError>,
) {
    match n {
        SpecExpr::Var(_) => {
            let (g1, v) = expr_spec(g, val);
            match v {
                Err(x) => (g1, Err(x)),
                Ok(v) => {
                    let (g2, slot) = emit_spec(g1, Instr::Alloca);
                    let g3 = LlvmView { variables: g2.variables.insert("a"@, slot), ..g2 };
                    let (g4, st) = emit_spec(g3, Instr::Store(slot, v));
                    (g4, Ok((st, false)))
                },
            }
        },
        _ => (g, Err(CodegenError::NotAVariableName)),
    }
}

/// An assignment stores the value into the variable's slot.
pub open spec fn store_spec(g: LlvmView, n: SpecExpr, val: SpecExpr) -> (
    LlvmView,
    Result<(usize, bool), CodegenError>,
) {
    match n {
        SpecExpr::Var(name) => if g.variables.contains_key(name) {
            let slot = g.variables[name];
            let (g1, v) = expr_spec(g, val);
            match v {
                Err(x) => (g1, Err(x)),
                Ok(v) => {
                    let (g2, st) = emit_spec(g1, Instr::Store(slot, v));
                    (g2, Ok((st, false)))
                },
            }
        } else {
            (g, Err(CodegenError::UnknownVariable))
        },
        _ => (g, Err(CodegenError::NotAVariableName)),
    }
}

/// One statement: a declaration, an assignment, or a return, which ends the
/// block; the flag tells whether it returns.
pub open spec fn instr_spec(g: LlvmView, e: SpecExpr) -> (
    LlvmView,
    Result<(usize, bool), CodegenError>,
) {
    match e {
        SpecExpr::AssignNode(n, _t, val) => declare_spec(g, *n, *val),
        SpecExpr::SetVarNode(n, val) => store_spec(g, *n, *val),
        SpecExpr::Return(x) => {
            let (g1, v) = expr_spec(g, *x);
            match v {
                Err(x) => (g1, Err(x)),
                Ok(v) => {
                    let (g2, r) = emit_spec(g1, Instr::Ret(v));
                    (g2, Ok((r, true)))
                },
            }
        },
        _ => (g, Err(CodegenError::Unsupported)),
    }
}

/// A block: the statements of a sequence in order, up to and including the
/// first return; the result names the last operation.
pub open spec fn block_spec(g: LlvmView, e: SpecExpr) -> (LlvmView, Result<usize, CodegenError>)
    decreases e,
{
    match e {
        SpecExpr::SeqNode(b1, b2) => {
            let (g1, r) = instr_spec(g, *b1);
            match r {
                Err(e) => (g1, Err(e)),
                Ok((inst, ret)) => if ret {
                    (g1, Ok(inst))
                } else {
                    block_spec(g1, *b2)
                },
            }
        },
        _ => {
            let (g1, r) = instr_spec(g, e);
            match r {
                Err(e) => (g1, Err(e)),
                Ok((inst, _)) => (g1, Ok(inst)),
            }
        },
    }
}

impl LLVM {
    /// A generator with no operations and no variables.
    pub fn new() -> (r: LLVM)
        ensures
            r@.code == Seq::<Instr>::empty(),
            r@.variables == Map::<Seq<char>, usize>::empty(),
    {
        LLVM { code: Vec::new(), variables: Vec::new() }
    }

    /// The operations emitted so far.
    pub fn instructions(&self) -> (r: &Vec<Instr>)
        ensures
            r@ == self@.code,
    {
        &self.code
    }

    fn emit(&mut self, i: Instr) -> (r: usize)
        ensures
            (final(self)@, r) == emit_spec(old(self)@, i),
    {
        let r = self.code.len();
        self.code.push(i);
        r
    }

    /// The stack slot of a variable.
    fn get_variable(&self, name: &String) -> (r: Result<usize, CodegenError>)
        ensures
            self@.variables.contains_key(name@) ==> r == Ok::<usize, CodegenError>(
                self@.variables[name@],
            ),
            !self@.variables.contains_key(name@) ==> r == Err::<usize, CodegenError>(
                CodegenError::UnknownVariable,
            ),
    {
        match find_last(&self.variables, name) {
            Some(j) => {
                proof {
                    lemma_assoc_found(self.variables@, j as int, name@);
                }
                Ok(self.variables[j].1)
            },
            None => {
                proof {
                    lemma_assoc_absent(self.variables@, name@);
                }
                Err(CodegenError::UnknownVariable)
            },
        }
    }

    /// Makes a new stack slot and registers it under `name`.
    fn create_entry_block_alloca(&mut self, name: &str) -> (r: usize)
        ensures
            ({
                let (g1, slot) = emit_spec(old(self)@, Instr::Alloca);
                &&& r == slot
                &&& final(self)@ == LlvmView { variables: g1.variables.insert(name@, slot), ..g1 }
            }),
    {
        let alloca = self.emit(Instr::Alloca);
        let key = name.to_string();
        proof {
            vstd::string::to_string_from_display_ensures_for_str(name, key);
        }
        assoc_insert(&mut self.variables, key, alloca);
        alloca
    }

    /// The operations that compute an expression.
    pub fn match_node(&mut self, expr: &ExprTree) -> (r: Result<usize, CodegenError>)
        ensures
            (final(self)@, r) == expr_spec(old(self)@, expr@),
        decreases expr,
    {
        match expr {
            ExprTree::Var(name) => {
                let var = match self.get_variable(name) {
                    Ok(v) => v,
                    Err(e) => {
                        return Err(e);
                    },
                };
                Ok(self.emit(Instr::Load(var)))
            },
            ExprTree::Number(num) => self.compile_num(*num),
            ExprTree::Bool(b) => Ok(
                self.compile_bool(
                    match b {
                        BoolType::True => true,
                        BoolType::False => false,
                    },
                ),
            ),
            ExprTree::BinNode(l, op, r) => {
                let lv = match self.match_node(l) {
                    Ok(v) => v,
                    Err(e) => {
                        return Err(e);
                    },
                };
                let rv = match self.match_node(r) {
                    Ok(v) => v,
                    Err(e) => {
                        return Err(e);
                    },
                };
                Ok(self.compile_bin(*op, lv, rv))
            },
            ExprTree::NumCompNode(l, op, r) => {
                let lv = match self.match_node(l) {
                    Ok(v) => v,
                    Err(e) => {
                        return Err(e);
                    },
                };
                let rv = match self.match_node(r) {
                    Ok(v) => v,
                    Err(e) => {
                        return Err(e);
                    },
                };
                Ok(self.compile_num_comp(*op, lv, rv))
            },
            ExprTree::LogNode(l, op, r) => {
                let lv = match self.match_node(l) {
                    Ok(v) => v,
                    Err(e) => {
                        return Err(e);
                    },
                };
                let rv = match self.match_node(r) {
                    Ok(v) => v,
                    Err(e) => {
                        return Err(e);
                    },
                };
                Ok(self.compile_log(*op, lv, rv))
            },
            _ => Err(CodegenError::Unsupported),
        }
    }

    /// The operations of one statement; the flag tells whether it returns.
    #[verifier::spinoff_prover]
    pub fn match_instruction(&mut self, expr: &ExprTree) -> (r: Result<(usize, bool), CodegenError>)
        ensures
            (final(self)@, r) == instr_spec(old(self)@, expr@),
    {
        match expr {
            ExprTree::AssignNode(var, _t, val) => match &**var {
                ExprTree::Var(_name) => {
                    assert(instr_spec(old(self)@, expr@) == declare_spec(old(self)@, var@, val@));
                    assert(var@ is Var);
                    let e = match self.match_node(val) {
                        Ok(v) => v,
                        Err(e) => {
                            assert(expr_spec(old(self)@, val@) == (self@, Err::<usize, CodegenError>(e)));
                            assert(declare_spec(old(self)@, var@, val@) == (self@, Err::<(usize, bool), CodegenError>(e)));
                            return Err(e);
                        },
                    };
                    let ghost g1 = self@;
                    let alloca = self.create_entry_block_alloca("a");
                    let ghost g3 = self@;
                    let store = self.emit(Instr::Store(alloca, e));
                    assert(declare_spec(old(self)@, var@, val@) == (self@, Ok::<(usize, bool), CodegenError>((store, false)))) by {
                        assert(expr_spec(old(self)@, val@) == (g1, Ok::<usize, CodegenError>(e)));
                        assert(g3 == LlvmView { variables: emit_spec(g1, Instr::Alloca).0.variables.insert("a"@, alloca), ..emit_spec(g1, Instr::Alloca).0 });
                    }
                    Ok((store, false))
                },
                _ => Err(CodegenError::NotAVariableName),
            },
            ExprTree::SetVarNode(var, val) => match &**var {
                ExprTree::Var(name) => {
                    assert(instr_spec(old(self)@, expr@) == store_spec(old(self)@, var@, val@));
                    let slot = match self.get_variable(name) {
                        Ok(v) => v,
                        Err(e) => {
                            return Err(e);
                        },
                    };
                    let e = match self.match_node(val) {
                        Ok(v) => v,
                        Err(e) => {
                            assert(expr_spec(old(self)@, val@) == (self@, Err::<usize, CodegenError>(e)));
                            return Err(e);
                        },
                    };
                    assert(expr_spec(old(self)@, val@) == (self@, Ok::<usize, CodegenError>(e)));
                    Ok((self.emit(Instr::Store(slot, e)), false))
                },
                _ => Err(CodegenError::NotAVariableName),
            },
            ExprTree::Return(e) => {
                let v = match self.match_node(e) {
                    Ok(v) => v,
                    Err(e) => {
                        return Err(e);
                    },
                };
                Ok((self.emit(Instr::Ret(v)), true))
            },
            _ => Err(CodegenError::Unsupported),
        }
    }

    /// Compiles a block: its statements in order up to the first return.
    /// The result names the last operation.
    pub fn compile_block(&mut self, expr: &ExprTree) -> (r: Result<usize, CodegenError>)
        ensures
            (final(self)@, r) == block_spec(old(self)@, expr@),
        decreases expr,
    {
        match expr {
            ExprTree::SeqNode(b1, b2) => {
                let (inst, ret) = match self.match_instruction(b1) {
                    Ok(p) => p,
                    Err(e) => {
                        return Err(e);
                    },
                };
                if ret {
                    Ok(inst)
                } else {
                    self.compile_block(b2)
                }
            },
            _ => match self.match_instruction(expr) {
                Ok((inst, _ret)) => Ok(inst),
                Err(e) => Err(e),
            },
        }
    }

    fn compile_log(&mut self, op: LogOp, l: usize, r: usize) -> (v: usize)
        ensures
            (final(self)@, v) == emit_spec(old(self)@, Instr::Log(op, l, r)),
    {
        self.emit(Instr::Log(op, l, r))
    }

    fn compile_num_comp(&mut self, op: NumCompOp, l: usize, r: usize) -> (v: usize)
        ensures
            (final(self)@, v) == emit_spec(old(self)@, Instr::Cmp(op, l, r)),
    {
        self.emit(Instr::Cmp(op, l, r))
    }

    fn compile_bin(&mut self, op: BinOp, l: usize, r: usize) -> (v: usize)
        ensures
            (final(self)@, v) == emit_spec(old(self)@, Instr::Bin(op, l, r)),
    {
        self.emit(Instr::Bin(op, l, r))
    }

    fn compile_bool(&mut self, b: bool) -> (v: usize)
        ensures
            (final(self)@, v) == emit_spec(old(self)@, Instr::ConstBool(b)),
    {
        self.emit(Instr::ConstBool(b))
    }

    /// An integer literal: its magnitude, negated when it is below zero.
    fn compile_num(&mut self, num: i32) -> (r: Result<usize, CodegenError>)
        ensures
            (final(self)@, r) == num_spec(old(self)@, num),
    {
        if num < 0 {
            if num == i32::MIN {
                return Err(CodegenError::NumberOverflow);
            }
            let tmp_val = -num;
            let c = self.emit(Instr::ConstI32(tmp_val as u64));
            Ok(self.emit(Instr::NegateConst(c)))
        } else {
            Ok(self.emit(Instr::ConstI32(num as u64)))
        }
    }
}

// ---------------------------------------------------------------------------
// Laws
// ---------------------------------------------------------------------------

/// An operation whose result is an integer value.
pub open spec fn is_int(i: Instr) -> bool {
    !(i is Alloca) && !(i is Store) && !(i is Ret)
}

/// The operands of operation `i` are results of earlier operations of the right kind.
pub open spec fn operand_ok(code: Seq<Instr>, i: int) -> bool {
    match code[i] {
        Instr::NegateConst(a) => a < i && code[a as int] is ConstI32,
        Instr::Load(s) => s < i && code[s as int] is Alloca,
        Instr::Bin(_, a, b) => a < i && b < i && is_int(code[a as int]) && is_int(code[b as int]),
        Instr::Cmp(_, a, b) => a < i && b < i && is_int(code[a as int]) && is_int(code[b as int]),
        Instr::Log(_, a, b) => a < i && b < i && is_int(code[a as int]) && is_int(code[b as int]),
        Instr::Store(s, v) => s < i && code[s as int] is Alloca && v < i && is_int(code[v as int]),
        Instr::Ret(v) => v < i && is_int(code[v as int]),
        _ => true,
    }
}

/// Every operation refers only to earlier results of the right kind, and
/// every variable's slot is an `Alloca`.
pub open spec fn well_formed(g: LlvmView) -> bool {
    &&& g.code.len() <= usize::MAX
    &&& forall|i: int| 0 <= i < g.code.len() ==> #[trigger] operand_ok(g.code, i)
    &&& forall|k: Seq<char>|
        #[trigger] g.variables.contains_key(k) ==> g.variables[k] < g.code.len()
            && g.code[g.variables[k] as int] is Alloca
}

/// `a` is a prefix of `b`.
pub open spec fn extends(a: Seq<Instr>, b: Seq<Instr>) -> bool {
    a.len() <= b.len() && forall|i: int| 0 <= i < a.len() ==> #[trigger] b[i] == a[i]
}

proof fn lemma_extends_trans(a: Seq<Instr>, b: Seq<Instr>, c: Seq<Instr>)
    requires
        extends(a, b),
        extends(b, c),
    ensures
        extends(a, c),
{
    assert forall|i: int| 0 <= i < a.len() implies #[trigger] c[i] == a[i] by {
        assert(b[i] == a[i]);
    }
}

proof fn lemma_emit_wf(g: LlvmView, i: Instr)
    requires
        well_formed(g),
        g.code.len() < usize::MAX,
        operand_ok(g.code.push(i), g.code.len() as int),
    ensures
        well_formed(emit_spec(g, i).0),
        extends(g.code, emit_spec(g, i).0.code),
        emit_spec(g, i).1 == g.code.len(),
        emit_spec(g, i).0.code[g.code.len() as int] == i,
{
    let c = g.code.push(i);
    assert forall|j: int| 0 <= j < c.len() implies #[trigger] operand_ok(c, j) by {
        if j < g.code.len() {
            assert(operand_ok(g.code, j));
            assert(c[j] == g.code[j]);
            assert(forall|k: int| 0 <= k < j ==> c[k] == g.code[k]);
        }
    }
    assert forall|k: Seq<char>| #[trigger] g.variables.contains_key(k) implies g.variables[k]
        < c.len() && c[g.variables[k] as int] is Alloca by {
        assert(c[g.variables[k] as int] == g.code[g.variables[k] as int]);
    }
}

pub(crate) proof fn lemma_expr_grows(g: LlvmView, e: SpecExpr)
    ensures
        extends(g.code, expr_spec(g, e).0.code),
    decreases e,
{
    match e {
        SpecExpr::BinNode(l, _, r) | SpecExpr::NumCompNode(l, _, r) | SpecExpr::LogNode(l, _, r) => {
            lemma_expr_grows(g, *l);
            let (g1, lv) = expr_spec(g, *l);
            lemma_expr_grows(g1, *r);
            let (g2, rv) = expr_spec(g1, *r);
            lemma_extends_trans(g.code, g1.code, g2.code);
            if lv is Ok && rv is Ok {
                let g3 = emit_spec(g2, binary_instr(e, lv.unwrap(), rv.unwrap())).0;
                assert(extends(g2.code, g3.code));
                lemma_extends_trans(g.code, g2.code, g3.code);
            }
        },
        SpecExpr::Number(n) => {
            if n < 0 && n != i32::MIN {
                let (g1, c) = emit_spec(g, Instr::ConstI32((-n) as u64));
                let g2 = emit_spec(g1, Instr::NegateConst(c)).0;
                assert(extends(g.code, g1.code));
                assert(extends(g1.code, g2.code));
                lemma_extends_trans(g.code, g1.code, g2.code);
            }
        },
        _ => {},
    }
}

proof fn lemma_instr_grows(g: LlvmView, e: SpecExpr)
    ensures
        extends(g.code, instr_spec(g, e).0.code),
{
    match e {
        SpecExpr::AssignNode(n, _t, val) => {
            lemma_expr_grows(g, *val);
            let (g1, v) = expr_spec(g, *val);
            if *n is Var && v is Ok {
                let (g2, slot) = emit_spec(g1, Instr::Alloca);
                let g3 = LlvmView { variables: g2.variables.insert("a"@, slot), ..g2 };
                let g4 = emit_spec(g3, Instr::Store(slot, v.unwrap())).0;
                assert(extends(g1.code, g4.code));
                lemma_extends_trans(g.code, g1.code, g4.code);
            }
        },
        SpecExpr::SetVarNode(n, val) => {
            lemma_expr_grows(g, *val);
            if let SpecExpr::Var(name) = *n {
                if g.variables.contains_key(name) {
                    let (g1, v) = expr_spec(g, *val);
                    if v is Ok {
                        let g2 = emit_spec(g1, Instr::Store(g.variables[name], v.unwrap())).0;
                        assert(extends(g1.code, g2.code));
                        lemma_extends_trans(g.code, g1.code, g2.code);
                    }
                }
            }
        },
        SpecExpr::Return(x) => {
            lemma_expr_grows(g, *x);
            let (g1, v) = expr_spec(g, *x);
            if v is Ok {
                let g2 = emit_spec(g1, Instr::Ret(v.unwrap())).0;
                assert(extends(g1.code, g2.code));
                lemma_extends_trans(g.code, g1.code, g2.code);
            }
        },
        _ => {},
    }
}

proof fn lemma_block_grows(g: LlvmView, e: SpecExpr)
    ensures
        extends(g.code, block_spec(g, e).0.code),
    decreases e,
{
    match e {
        SpecExpr::SeqNode(b1, b2) => {
            lemma_instr_grows(g, *b1);
            let (g1, r) = instr_spec(g, *b1);
            if r matches Ok((_, false)) {
                lemma_block_grows(g1, *b2);
                lemma_extends_trans(g.code, g1.code, block_spec(g1, *b2).0.code);
            }
        },
        _ => {
            lemma_instr_grows(g, e);
        },
    }
}

proof fn lemma_expr_wf(g: LlvmView, e: SpecExpr)
    requires
        well_formed(g),
        expr_spec(g, e).0.code.len() <= usize::MAX,
    ensures
        well_formed(expr_spec(g, e).0),
        extends(g.code, expr_spec(g, e).0.code),
        expr_spec(g, e).0.variables == g.variables,
        expr_spec(g, e).1 matches Ok(v) ==> v < expr_spec(g, e).0.code.len() && is_int(
            expr_spec(g, e).0.code[v as int],
        ),
    decreases e,
{
    match e {
        SpecExpr::Var(name) => {
            if g.variables.contains_key(name) {
                lemma_emit_wf(g, Instr::Load(g.variables[name]));
            }
        },
        SpecExpr::Number(n) => {
            if n < 0 {
                if n != i32::MIN {
                    lemma_emit_wf(g, Instr::ConstI32((-n) as u64));
                    let (g1, c) = emit_spec(g, Instr::ConstI32((-n) as u64));
                    lemma_emit_wf(g1, Instr::NegateConst(c));
                    lemma_extends_trans(g.code, g1.code, emit_spec(g1, Instr::NegateConst(c)).0.code);
                }
            } else {
                lemma_emit_wf(g, Instr::ConstI32(n as u64));
            }
        },
        SpecExpr::Bool(b) => {
            lemma_emit_wf(g, Instr::ConstBool(bool_of(b)));
        },
        SpecExpr::BinNode(l, _, r) | SpecExpr::NumCompNode(l, _, r) | SpecExpr::LogNode(l, _, r) => {
            let (g1, lv) = expr_spec(g, *l);
            if lv is Err {
                lemma_expr_wf(g, *l);
            } else {
                let (g2, rv) = expr_spec(g1, *r);
                if rv is Err {
                    assert(expr_spec(g, e).0 == g2);
                } else {
                    let (g3, _) = emit_spec(g2, binary_instr(e, lv.unwrap(), rv.unwrap()));
                    assert(g3.code.len() == g2.code.len() + 1);
                }
                lemma_expr_grows(g1, *r);
                lemma_expr_wf(g, *l);
                lemma_expr_wf(g1, *r);
                lemma_extends_trans(g.code, g1.code, g2.code);
                if rv is Ok {
                    let a = lv.unwrap();
                    let b = rv.unwrap();
                    assert(g2.code[a as int] == g1.code[a as int]);
                    lemma_emit_wf(g2, binary_instr(e, a, b));
                    lemma_extends_trans(g.code, g2.code, emit_spec(g2, binary_instr(e, a, b)).0.code);
                }
            }
        },
        _ => {},
    }
}

proof fn lemma_instr_wf(g: LlvmView, e: SpecExpr)
    requires
        well_formed(g),
        instr_spec(g, e).0.code.len() <= usize::MAX,
    ensures
        well_formed(instr_spec(g, e).0),
        extends(g.code, instr_spec(g, e).0.code),
        instr_spec(g, e).1 matches Ok((v, _)) ==> v < instr_spec(g, e).0.code.len(),
{
    match e {
        SpecExpr::AssignNode(n, _t, val) => {
            if *n is Var {
                let (g1, v) = expr_spec(g, *val);
                if v is Ok {
                    let (g2, slot) = emit_spec(g1, Instr::Alloca);
                    let g3 = LlvmView { variables: g2.variables.insert("a"@, slot), ..g2 };
                    let (g4, st) = emit_spec(g3, Instr::Store(slot, v.unwrap()));
                    assert(g4.code.len() == g1.code.len() + 2);
                    lemma_expr_wf(g, *val);
                    lemma_emit_wf(g1, Instr::Alloca);
                    assert(well_formed(g3)) by {
                        assert forall|k: Seq<char>| #[trigger] g3.variables.contains_key(k) implies g3.variables[k]
                            < g3.code.len() && g3.code[g3.variables[k] as int] is Alloca by {
                            if k != "a"@ {
                                assert(g2.variables.contains_key(k));
                            }
                        }
                    }
                    assert(g2.code[v.unwrap() as int] == g1.code[v.unwrap() as int]);
                    lemma_emit_wf(g3, Instr::Store(slot, v.unwrap()));
                    lemma_extends_trans(g.code, g1.code, g2.code);
                    lemma_extends_trans(g.code, g2.code, g4.code);
                } else {
                    lemma_expr_wf(g, *val);
                }
            }
        },
        SpecExpr::SetVarNode(n, val) => {
            if let SpecExpr::Var(name) = *n {
                if g.variables.contains_key(name) {
                    let slot = g.variables[name];
                    let (g1, v) = expr_spec(g, *val);
                    if v is Ok {
                        let (g2, _) = emit_spec(g1, Instr::Store(slot, v.unwrap()));
                        assert(g2.code.len() == g1.code.len() + 1);
                        lemma_expr_wf(g, *val);
                        assert(g1.code[slot as int] == g.code[slot as int]);
                        lemma_emit_wf(g1, Instr::Store(slot, v.unwrap()));
                        lemma_extends_trans(g.code, g1.code, g2.code);
                    } else {
                        lemma_expr_wf(g, *val);
                    }
                }
            }
        },
        SpecExpr::Return(x) => {
            let (g1, v) = expr_spec(g, *x);
            if v is Ok {
                let (g2, _) = emit_spec(g1, Instr::Ret(v.unwrap()));
                assert(g2.code.len() == g1.code.len() + 1);
                lemma_expr_wf(g, *x);
                lemma_emit_wf(g1, Instr::Ret(v.unwrap()));
                lemma_extends_trans(g.code, g1.code, g2.code);
            } else {
                lemma_expr_wf(g, *x);
            }
        },
        _ => {},
    }
}

proof fn lemma_block_wf(g: LlvmView, e: SpecExpr)
    requires
        well_formed(g),
        block_spec(g, e).0.code.len() <= usize::MAX,
    ensures
        well_formed(block_spec(g, e).0),
        extends(g.code, block_spec(g, e).0.code),
        block_spec(g, e).1 matches Ok(v) ==> v < block_spec(g, e).0.code.len(),
    decreases e,
{
    match e {
        SpecExpr::SeqNode(b1, b2) => {
            let (g1, r) = instr_spec(g, *b1);
            if r matches Ok((_, false)) {
                lemma_block_grows(g1, *b2);
                lemma_instr_wf(g, *b1);
                lemma_block_wf(g1, *b2);
                lemma_extends_trans(g.code, g1.code, block_spec(g1, *b2).0.code);
            } else {
                lemma_instr_wf(g, *b1);
            }
        },
        _ => {
            lemma_instr_wf(g, e);
        },
    }
}

/// The operations emitted for a block only add to what was emitted before,
/// and each refers only to earlier results of the right kind: an operand of
/// arithmetic, a comparison, a logical operation, a store or a return is an
/// integer value, a loaded or stored slot is an `Alloca`, and a negated
/// operand is a constant. (Indices stay within `usize`.)
pub proof fn law_block_well_formed(g: LlvmView, e: SpecExpr)
    requires
        well_formed(g),
        block_spec(g, e).0.code.len() <= usize::MAX,
    ensures
        well_formed(block_spec(g, e).0),
        extends(g.code, block_spec(g, e).0.code),
        block_spec(g, e).1 matches Ok(v) ==> v < block_spec(g, e).0.code.len(),
{
    lemma_block_wf(g, e);
}

} // verus!

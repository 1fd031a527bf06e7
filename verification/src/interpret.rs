//! The interpreter: runs a program's syntax trees on a memory.
//!
//! Every evaluation gets a budget (`fuel`): each nested evaluation step, each
//! loop iteration and each call uses one unit of depth, and a run that needs
//! more stops with `RuntimeError::OutOfFuel`.
use vstd::prelude::*;
use crate::ast::{BinOp, BoolType, ExprTree, FnHead, LogOp, NumCompOp, SpecExpr, SpecFnHead, Type, copy_expr, copy_exprs, exprs_view};
use crate::error::RuntimeError;
use crate::memory::{
    IntRep, MemView, Memory, SpecIntRep, assign_to, assign_var, copy_value, insert_function,
    pop_from_mem_stack, pop_from_return_stack, push_on_mem_stack, push_on_return_stack,
    read_from_var, read_function, res_view, spec_assign, spec_assign_var, spec_insert_function,
    spec_pop_return, spec_pop_scope, spec_push_return, spec_push_scope, spec_read_function,
    spec_read_var,
};

verus! {

broadcast use vstd::std_specs::vec::group_vec_axioms;

/// The state of a running program: its memory and what it has printed.
pub struct Machine {
    pub mem: Memory,
    pub output: Vec<IntRep>,
}

/// Mathematical model of `Machine`.
pub struct MachineView {
    pub mem: MemView,
    pub output: Seq<SpecIntRep>,
}

/// The models of a list of values.
pub open spec fn values_view(s: Seq<IntRep>) -> Seq<SpecIntRep> {
    s.map_values(|v: IntRep| v@)
}

impl View for Machine {
    type V = MachineView;

    open spec fn view(&self) -> MachineView {
        MachineView { mem: self.mem@, output: values_view(self.output@) }
    }
}

impl Machine {
    /// A machine with an empty memory that has printed nothing.
    pub fn new() -> (r: Machine)
        ensures
            r@ == initial_state(),
    {
        let r = Machine { mem: Memory::new(), output: Vec::new() };
        assert(r@.output =~= Seq::<SpecIntRep>::empty());
        r
    }
}

/// An empty memory that has printed nothing.
pub open spec fn initial_state() -> MachineView {
    MachineView {
        mem: MemView {
            functions: Map::empty(),
            scopes: Seq::empty(),
            returns: Seq::empty(),
        },
        output: Seq::empty(),
    }
}

// ---------------------------------------------------------------------------
// Operators
// ---------------------------------------------------------------------------

pub open spec fn fits_i32(x: int) -> bool {
    i32::MIN <= x <= i32::MAX
}

/// Division rounding towards zero, as `i32` division does.
pub open spec fn trunc_div(x: int, d: int) -> int {
    if x == 0 {
        0
    } else if x > 0 && d > 0 {
        x / d
    } else if x < 0 && d < 0 {
        (x * -1) / (d * -1)
    } else if x < 0 {
        ((x * -1) / d) * -1
    } else {
        (x / (d * -1)) * -1
    }
}

/// A number result that must fit in an `i32`.
pub open spec fn checked_number(x: int) -> Result<SpecIntRep, RuntimeError> {
    if fits_i32(x) {
        Ok(SpecIntRep::Number(x as i32))
    } else {
        Err(RuntimeError::Overflow)
    }
}

/// Arithmetic on two numbers.
pub open spec fn spec_bin_op(op: BinOp, l: SpecIntRep, r: SpecIntRep) -> Result<
    SpecIntRep,
    RuntimeError,
> {
    match (l, r) {
        (SpecIntRep::Number(a), SpecIntRep::Number(b)) => match op {
            BinOp::Add => checked_number(a + b),
            BinOp::Sub => checked_number(a - b),
            BinOp::Mul => checked_number(a * b),
            BinOp::Div => if b == 0 {
                Err(RuntimeError::DivisionByZero)
            } else {
                checked_number(trunc_div(a as int, b as int))
            },
        },
        _ => Err(RuntimeError::NotNumber),
    }
}

/// `&&` and `||` on two booleans.
pub open spec fn spec_bool_log_op(op: LogOp, l: SpecIntRep, r: SpecIntRep) -> Result<
    SpecIntRep,
    RuntimeError,
> {
    match (l, r) {
        (SpecIntRep::Bool(a), SpecIntRep::Bool(b)) => match op {
            LogOp::And => Ok(SpecIntRep::Bool(a && b)),
            LogOp::Or => Ok(SpecIntRep::Bool(a || b)),
        },
        _ => Err(RuntimeError::BoolOpMismatch),
    }
}

pub open spec fn spec_num_comp_op(op: NumCompOp, l: i32, r: i32) -> bool {
    match op {
        NumCompOp::Les => l < r,
        NumCompOp::Gre => l > r,
        NumCompOp::LeEq => l <= r,
        NumCompOp::GrEq => l >= r,
        NumCompOp::Eq => l == r,
        NumCompOp::Neq => l != r,
    }
}

/// Booleans can only be compared for (in)equality.
pub open spec fn spec_bool_comp_op(op: NumCompOp, l: bool, r: bool) -> Result<
    SpecIntRep,
    RuntimeError,
> {
    match op {
        NumCompOp::Eq => Ok(SpecIntRep::Bool(l == r)),
        NumCompOp::Neq => Ok(SpecIntRep::Bool(l != r)),
        _ => Err(RuntimeError::BoolCompare),
    }
}

/// A comparison of two numbers or of two booleans.
pub open spec fn spec_comp_op(op: NumCompOp, l: SpecIntRep, r: SpecIntRep) -> Result<
    SpecIntRep,
    RuntimeError,
> {
    match (l, r) {
        (SpecIntRep::Number(a), SpecIntRep::Number(b)) => Ok(
            SpecIntRep::Bool(spec_num_comp_op(op, a, b)),
        ),
        (SpecIntRep::Bool(a), SpecIntRep::Bool(b)) => spec_bool_comp_op(op, a, b),
        _ => Err(RuntimeError::CompareMismatch),
    }
}

pub open spec fn bool_of(b: BoolType) -> bool {
    b == BoolType::True
}

/// Two values are of the same variant.
pub open spec fn same_kind(a: SpecIntRep, b: SpecIntRep) -> bool {
    match (a, b) {
        (SpecIntRep::Number(_), SpecIntRep::Number(_)) => true,
        (SpecIntRep::Var(_), SpecIntRep::Var(_)) => true,
        (SpecIntRep::Const(_), SpecIntRep::Const(_)) => true,
        (SpecIntRep::Bool(_), SpecIntRep::Bool(_)) => true,
        (SpecIntRep::Function(..), SpecIntRep::Function(..)) => true,
        (SpecIntRep::Undefined(_), SpecIntRep::Undefined(_)) => true,
        (SpecIntRep::TypeError(_), SpecIntRep::TypeError(_)) => true,
        (SpecIntRep::NewLine, SpecIntRep::NewLine) => true,
        _ => false,
    }
}

/// Whether two values are of the same variant.
pub fn same_kind_exec(a: &IntRep, b: &IntRep) -> (r: bool)
    ensures
        r == same_kind(a@, b@),
{
    match (a, b) {
        (IntRep::Number(_), IntRep::Number(_)) => true,
        (IntRep::Var(_), IntRep::Var(_)) => true,
        (IntRep::Const(_), IntRep::Const(_)) => true,
        (IntRep::Bool(_), IntRep::Bool(_)) => true,
        (IntRep::Function(..), IntRep::Function(..)) => true,
        (IntRep::Undefined(_), IntRep::Undefined(_)) => true,
        (IntRep::TypeError(_), IntRep::TypeError(_)) => true,
        (IntRep::NewLine, IntRep::NewLine) => true,
        _ => false,
    }
}

/// Arithmetic on two numbers; overflow and division by zero are errors.
pub fn eval_bin_op(op: BinOp, l: IntRep, r: IntRep) -> (res: Result<IntRep, RuntimeError>)
    ensures
        res_view(res) == spec_bin_op(op, l@, r@),
{
    let (left, right) = match (l, r) {
        (IntRep::Number(left_num), IntRep::Number(right_num)) => (left_num, right_num),
        _ => {
            return Err(RuntimeError::NotNumber);
        },
    };
    let v = match op {
        BinOp::Add => left.checked_add(right),
        BinOp::Sub => left.checked_sub(right),
        BinOp::Mul => left.checked_mul(right),
        BinOp::Div => {
            if right == 0 {
                return Err(RuntimeError::DivisionByZero);
            }
            left.checked_div(right)
        },
    };
    match v {
        Some(n) => Ok(IntRep::Number(n)),
        None => Err(RuntimeError::Overflow),
    }
}

/// `&&` and `||` on two booleans.
pub fn eval_bool_log_op(op: LogOp, l: IntRep, r: IntRep) -> (res: Result<IntRep, RuntimeError>)
    ensures
        res_view(res) == spec_bool_log_op(op, l@, r@),
{
    let (left, right) = match (l, r) {
        (IntRep::Bool(l_bool), IntRep::Bool(r_bool)) => (l_bool, r_bool),
        _ => {
            return Err(RuntimeError::BoolOpMismatch);
        },
    };
    match op {
        LogOp::And => Ok(IntRep::Bool(left && right)),
        LogOp::Or => Ok(IntRep::Bool(left || right)),
    }
}

/// A comparison of two numbers or of two booleans.
pub fn eval_comp_op(op: NumCompOp, l: IntRep, r: IntRep) -> (res: Result<IntRep, RuntimeError>)
    ensures
        res_view(res) == spec_comp_op(op, l@, r@),
{
    match (l, r) {
        (IntRep::Number(l_num), IntRep::Number(r_num)) => Ok(eval_num_comp_op(op, l_num, r_num)),
        (IntRep::Bool(l_bool), IntRep::Bool(r_bool)) => eval_bool_comp_op(op, l_bool, r_bool),
        _ => Err(RuntimeError::CompareMismatch),
    }
}

/// Equality and inequality of booleans; other comparisons are errors.
pub fn eval_bool_comp_op(op: NumCompOp, l: bool, r: bool) -> (res: Result<IntRep, RuntimeError>)
    ensures
        res_view(res) == spec_bool_comp_op(op, l, r),
{
    match op {
        NumCompOp::Eq => Ok(IntRep::Bool(l == r)),
        NumCompOp::Neq => Ok(IntRep::Bool(l != r)),
        _ => Err(RuntimeError::BoolCompare),
    }
}

/// A comparison of two numbers.
pub fn eval_num_comp_op(op: NumCompOp, l: i32, r: i32) -> (res: IntRep)
    ensures
        res@ == SpecIntRep::Bool(spec_num_comp_op(op, l, r)),
{
    match op {
        NumCompOp::Les => IntRep::Bool(l < r),
        NumCompOp::Gre => IntRep::Bool(l > r),
        NumCompOp::LeEq => IntRep::Bool(l <= r),
        NumCompOp::GrEq => IntRep::Bool(l >= r),
        NumCompOp::Eq => IntRep::Bool(l == r),
        NumCompOp::Neq => IntRep::Bool(l != r),
    }
}

/// The boolean inside a value.
pub fn get_bool_from_enum(comp: IntRep) -> (r: Result<bool, RuntimeError>)
    ensures
        match comp@ {
            SpecIntRep::Bool(b) => r == Ok::<bool, RuntimeError>(b),
            _ => r == Err::<bool, RuntimeError>(RuntimeError::NotBool),
        },
{
    match comp {
        IntRep::Bool(b) => Ok(b),
        _ => Err(RuntimeError::NotBool),
    }
}

// ---------------------------------------------------------------------------
// Function heads and definitions
// ---------------------------------------------------------------------------

pub open spec fn spec_function_name(h: SpecFnHead) -> Result<Seq<char>, RuntimeError> {
    match h {
        SpecFnHead::Name(n) => Ok(n),
        _ => Err(RuntimeError::BadFunctionName),
    }
}

pub open spec fn spec_function_params_expr(h: SpecFnHead) -> Result<Seq<SpecExpr>, RuntimeError> {
    match h {
        SpecFnHead::Params(p) => Ok(p),
        _ => Err(RuntimeError::BadFunctionParams),
    }
}

pub open spec fn spec_function_return_type(h: SpecFnHead) -> Result<Type, RuntimeError> {
    match h {
        SpecFnHead::Return(t) => Ok(t),
        _ => Err(RuntimeError::BadReturnType),
    }
}

/// The name in a function head.
pub fn get_function_name(fun_name: &FnHead) -> (r: Result<String, RuntimeError>)
    ensures
        match r {
            Ok(s) => spec_function_name(fun_name@) == Ok::<Seq<char>, RuntimeError>(s@),
            Err(e) => spec_function_name(fun_name@) == Err::<Seq<char>, RuntimeError>(e),
        },
{
    match fun_name {
        FnHead::Name(n) => Ok(n.clone()),
        _ => Err(RuntimeError::BadFunctionName),
    }
}

/// The parameter (or argument) trees in a function head.
pub fn get_function_params_expr(fun_params: &FnHead) -> (r: Result<
    Vec<Box<ExprTree>>,
    RuntimeError,
>)
    ensures
        match r {
            Ok(p) => spec_function_params_expr(fun_params@) == Ok::<
                Seq<SpecExpr>,
                RuntimeError,
            >(exprs_view(p@)),
            Err(e) => spec_function_params_expr(fun_params@) == Err::<
                Seq<SpecExpr>,
                RuntimeError,
            >(e),
        },
{
    match fun_params {
        FnHead::Params(p) => Ok(copy_exprs(p)),
        _ => Err(RuntimeError::BadFunctionParams),
    }
}

/// The return type in a function head.
pub fn get_function_return_type(fun_return: &FnHead) -> (r: Result<Type, RuntimeError>)
    ensures
        r == spec_function_return_type(fun_return@),
{
    match fun_return {
        FnHead::Return(t) => Ok(*t),
        _ => Err(RuntimeError::BadReturnType),
    }
}

/// Defining a function stores it in the function table.
pub open spec fn spec_eval_function(
    m: MemView,
    n: SpecFnHead,
    p: SpecFnHead,
    r: SpecFnHead,
    b: SpecExpr,
) -> (MemView, Result<SpecIntRep, RuntimeError>) {
    match spec_function_name(n) {
        Err(e) => (m, Err(e)),
        Ok(name) => match spec_function_params_expr(p) {
            Err(e) => (m, Err(e)),
            Ok(params) => match spec_function_return_type(r) {
                Err(e) => (m, Err(e)),
                Ok(t) => (
                    spec_insert_function(m, name, SpecIntRep::Function(params, t, b)),
                    Ok(SpecIntRep::NewLine),
                ),
            },
        },
    }
}

/// Takes a function definition and stores it in the function table.
pub fn eval_function(
    mem: &mut Memory,
    fun_name: &FnHead,
    fun_params: &FnHead,
    fun_return: &FnHead,
    b: &ExprTree,
) -> (r: Result<IntRep, RuntimeError>)
    ensures
        (final(mem)@, res_view(r)) == spec_eval_function(
            old(mem)@,
            fun_name@,
            fun_params@,
            fun_return@,
            b@,
        ),
{
    let name = match get_function_name(fun_name) {
        Ok(n) => n,
        Err(e) => {
            return Err(e);
        },
    };
    let params = match get_function_params_expr(fun_params) {
        Ok(p) => p,
        Err(e) => {
            return Err(e);
        },
    };
    let return_type = match get_function_return_type(fun_return) {
        Ok(t) => t,
        Err(e) => {
            return Err(e);
        },
    };
    insert_function(mem, name, IntRep::Function(params, return_type, copy_expr(b)));
    Ok(IntRep::NewLine)
}

/// Returning a value pushes it on the return stack.
pub fn return_function(mem: &mut Memory, return_val: IntRep) -> (r: IntRep)
    ensures
        final(mem)@ == spec_push_return(old(mem)@, return_val@),
        r@ == SpecIntRep::NewLine,
{
    push_on_return_stack(mem, return_val);
    IntRep::NewLine
}

/// Binds the first `n` parameters to the first `n` arguments, in order.
pub open spec fn spec_bind_params(
    m: MemView,
    params: Seq<SpecExpr>,
    args: Seq<SpecIntRep>,
    n: nat,
) -> (MemView, Result<(), RuntimeError>)
    decreases n,
{
    if n == 0 {
        (m, Ok(()))
    } else {
        let (m1, r) = spec_bind_params(m, params, args, (n - 1) as nat);
        match r {
            Err(e) => (m1, Err(e)),
            Ok(_) => match params[n - 1] {
                SpecExpr::ParamNode(pn, _) => match *pn {
                    SpecExpr::Var(na) => match spec_assign(m1, na, args[n - 1]) {
                        Ok(m2) => (m2, Ok(())),
                        Err(e) => (m1, Err(e)),
                    },
                    _ => (m1, Err(RuntimeError::ParamNotVariable)),
                },
                _ => (m1, Err(RuntimeError::NotAParameter)),
            },
        }
    }
}

proof fn lemma_bind_error_sticks(
    m: MemView,
    params: Seq<SpecExpr>,
    args: Seq<SpecIntRep>,
    k: nat,
    n: nat,
)
    requires
        k <= n,
        spec_bind_params(m, params, args, k).1 is Err,
    ensures
        spec_bind_params(m, params, args, n) == spec_bind_params(m, params, args, k),
    decreases n - k,
{
    if k < n {
        lemma_bind_error_sticks(m, params, args, k, (n - 1) as nat);
    }
}

/// Binds each parameter name to the argument at the same place.
pub fn bind_params(mem: &mut Memory, params: &Vec<Box<ExprTree>>, args: &Vec<IntRep>) -> (r: Result<
    (),
    RuntimeError,
>)
    requires
        params.len() == args.len(),
    ensures
        (final(mem)@, r) == spec_bind_params(
            old(mem)@,
            exprs_view(params@),
            values_view(args@),
            params.len() as nat,
        ),
{
    let ghost ps = exprs_view(params@);
    let ghost avs = values_view(args@);
    let mut i: usize = 0;
    while i < params.len()
        invariant
            i <= params.len(),
            params.len() == args.len(),
            ps == exprs_view(params@),
            avs == values_view(args@),
            (mem@, Ok::<(), RuntimeError>(())) == spec_bind_params(old(mem)@, ps, avs, i as nat),
        decreases params.len() - i,
    {
        let ghost m1 = mem@;
        assert(ps[i as int] == params[i as int].to_spec());
        assert(avs[i as int] == args[i as int]@);
        let r: Result<(), RuntimeError> = match &*params[i] {
            ExprTree::ParamNode(n, _t) => match &**n {
                ExprTree::Var(na) => assign_to(mem, na.clone(), copy_value(&args[i])),
                _ => Err(RuntimeError::ParamNotVariable),
            },
            _ => Err(RuntimeError::NotAParameter),
        };
        match r {
            Ok(()) => {},
            Err(e) => {
                proof {
                    lemma_bind_error_sticks(old(mem)@, ps, avs, (i + 1) as nat, params.len() as nat);
                }
                return Err(e);
            },
        }
        i = i + 1;
    }
    Ok(())
}

// ---------------------------------------------------------------------------
// Evaluation
// ---------------------------------------------------------------------------

/// The machine with another memory.
pub open spec fn with_mem(st: MachineView, m: MemView) -> MachineView {
    MachineView { mem: m, ..st }
}

/// Evaluates a tree with a budget of `fuel` nested steps.
pub open spec fn eval(fuel: nat, st: MachineView, e: SpecExpr) -> (
    MachineView,
    Result<SpecIntRep, RuntimeError>,
)
    decreases fuel, 0nat,
{
    if fuel == 0 {
        (st, Err(RuntimeError::OutOfFuel))
    } else {
        let f = (fuel - 1) as nat;
        match e {
            SpecExpr::Number(n) => (st, Ok(SpecIntRep::Number(n))),
            SpecExpr::Var(name) => (st, spec_read_var(st.mem, name)),
            SpecExpr::Bool(b) => (st, Ok(SpecIntRep::Bool(bool_of(b)))),
            SpecExpr::BinNode(l, op, r) => {
                let (s, p) = operands_spec(f, st, *l, *r);
                (s, apply_bin(op, p))
            },
            SpecExpr::NumCompNode(l, op, r) => {
                let (s, p) = operands_spec(f, st, *l, *r);
                (s, apply_comp(op, p))
            },
            SpecExpr::LogNode(l, op, r) => {
                let (s, p) = operands_spec(f, st, *l, *r);
                (s, apply_log(op, p))
            },
            SpecExpr::SeqNode(l, r) => {
                let (s, p) = operands_spec(f, st, *l, *r);
                (s, apply_seq(p))
            },
            SpecExpr::Print(x) => print_spec(f, st, *x),
            SpecExpr::AssignNode(n, _t, val) => assign_spec(f, st, *n, *val),
            SpecExpr::SetVarNode(n, val) => assign_existing_spec(f, st, *n, *val),
            SpecExpr::IfNode(c, b) => if_node_spec(f, st, *c, *b),
            SpecExpr::IfElseNode(c, b1, b2) => if_else_node_spec(f, st, *c, *b1, *b2),
            SpecExpr::WhileNode(c, b) => while_spec(f, st, *c, *b),
            SpecExpr::FnNode(n, p, r, b) => {
                let (m2, res) = spec_eval_function(st.mem, n, p, r, *b);
                (with_mem(st, m2), res)
            },
            SpecExpr::ParamNode(n, t) => param_spec(st, *n, t),
            SpecExpr::FunctionCall(n, p) => call_node_spec(f, st, n, p),
            SpecExpr::Return(x) => return_spec(f, st, *x),
            SpecExpr::Pass => (st, Err(RuntimeError::UnmatchedNode)),
            SpecExpr::Const(_) => (st, Err(RuntimeError::UnmatchedNode)),
        }
    }
}

/// Applies an operator to evaluated operands.
pub open spec fn apply_bin(op: BinOp, p: Result<(SpecIntRep, SpecIntRep), RuntimeError>) -> Result<
    SpecIntRep,
    RuntimeError,
> {
    match p {
        Err(e) => Err(e),
        Ok((a, b)) => spec_bin_op(op, a, b),
    }
}

pub open spec fn apply_comp(op: NumCompOp, p: Result<(SpecIntRep, SpecIntRep), RuntimeError>) -> Result<
    SpecIntRep,
    RuntimeError,
> {
    match p {
        Err(e) => Err(e),
        Ok((a, b)) => spec_comp_op(op, a, b),
    }
}

pub open spec fn apply_log(op: LogOp, p: Result<(SpecIntRep, SpecIntRep), RuntimeError>) -> Result<
    SpecIntRep,
    RuntimeError,
> {
    match p {
        Err(e) => Err(e),
        Ok((a, b)) => spec_bool_log_op(op, a, b),
    }
}

pub open spec fn apply_seq(p: Result<(SpecIntRep, SpecIntRep), RuntimeError>) -> Result<
    SpecIntRep,
    RuntimeError,
> {
    match p {
        Err(e) => Err(e),
        Ok(_) => Ok(SpecIntRep::NewLine),
    }
}

/// Evaluates two trees, left first.
pub open spec fn operands_spec(fuel: nat, st: MachineView, l: SpecExpr, r: SpecExpr) -> (
    MachineView,
    Result<(SpecIntRep, SpecIntRep), RuntimeError>,
)
    decreases fuel, 1nat,
{
    let (s1, lv) = eval(fuel, st, l);
    match lv {
        Err(x) => (s1, Err(x)),
        Ok(a) => {
            let (s2, rv) = eval(fuel, s1, r);
            match rv {
                Err(x) => (s2, Err(x)),
                Ok(b) => (s2, Ok((a, b))),
            }
        },
    }
}

/// `print`: the value is appended to the output.
pub open spec fn print_spec(fuel: nat, st: MachineView, x: SpecExpr) -> (
    MachineView,
    Result<SpecIntRep, RuntimeError>,
)
    decreases fuel, 1nat,
{
    let (s1, v) = eval(fuel, st, x);
    match v {
        Err(e) => (s1, Err(e)),
        Ok(v) => (MachineView { output: s1.output.push(v), ..s1 }, Ok(SpecIntRep::NewLine)),
    }
}

/// `return`: the value is pushed on the return stack; evaluation goes on.
pub open spec fn return_spec(fuel: nat, st: MachineView, x: SpecExpr) -> (
    MachineView,
    Result<SpecIntRep, RuntimeError>,
)
    decreases fuel, 1nat,
{
    let (s1, v) = eval(fuel, st, x);
    match v {
        Err(e) => (s1, Err(e)),
        Ok(v) => (with_mem(s1, spec_push_return(s1.mem, v)), Ok(SpecIntRep::NewLine)),
    }
}

/// A new variable: the target must be a variable node.
pub open spec fn assign_spec(fuel: nat, st: MachineView, n: SpecExpr, val: SpecExpr) -> (
    MachineView,
    Result<SpecIntRep, RuntimeError>,
)
    decreases fuel, 1nat,
{
    match n {
        SpecExpr::Var(name) => {
            let (s1, v) = eval(fuel, st, val);
            match v {
                Err(e) => (s1, Err(e)),
                Ok(v) => {
                    let (m2, r) = spec_assign_var(s1.mem, SpecIntRep::Var(name), v);
                    (with_mem(s1, m2), r)
                },
            }
        },
        _ => (st, Err(RuntimeError::NotAVariableName)),
    }
}

/// A parameter declaration binds the name to `Undefined` of its type.
pub open spec fn param_spec(st: MachineView, n: SpecExpr, t: Type) -> (
    MachineView,
    Result<SpecIntRep, RuntimeError>,
) {
    match n {
        SpecExpr::Var(name) => {
            let (m2, r) = spec_assign_var(st.mem, SpecIntRep::Var(name), SpecIntRep::Undefined(t));
            (with_mem(st, m2), r)
        },
        _ => (st, Err(RuntimeError::NotAVariableName)),
    }
}

/// `if`: the condition, then the branch.
pub open spec fn if_node_spec(fuel: nat, st: MachineView, c: SpecExpr, b: SpecExpr) -> (
    MachineView,
    Result<SpecIntRep, RuntimeError>,
)
    decreases fuel, 2nat,
{
    let (s1, cv) = eval(fuel, st, c);
    match cv {
        Err(e) => (s1, Err(e)),
        Ok(cv) => if_spec(fuel, s1, cv, b),
    }
}

/// `if`/`else`: the condition, then one of the branches.
pub open spec fn if_else_node_spec(
    fuel: nat,
    st: MachineView,
    c: SpecExpr,
    b1: SpecExpr,
    b2: SpecExpr,
) -> (MachineView, Result<SpecIntRep, RuntimeError>)
    decreases fuel, 2nat,
{
    let (s1, cv) = eval(fuel, st, c);
    match cv {
        Err(e) => (s1, Err(e)),
        Ok(cv) => if_else_spec(fuel, s1, cv, b1, b2),
    }
}

/// The number of argument trees in a head (zero when it is not a list).
pub open spec fn head_len(h: SpecFnHead) -> nat {
    match h {
        SpecFnHead::Params(ps) => ps.len(),
        _ => 0,
    }
}

/// A call node: the name, then the arguments from first to last, then the call.
pub open spec fn call_node_spec(fuel: nat, st: MachineView, n: SpecFnHead, p: SpecFnHead) -> (
    MachineView,
    Result<SpecIntRep, RuntimeError>,
)
    decreases fuel, head_len(p) + 2,
{
    match spec_function_name(n) {
        Err(e) => (st, Err(e)),
        Ok(name) => match p {
            SpecFnHead::Params(ps) => {
                let (s1, args) = args_spec(fuel, st, ps);
                match args {
                    Err(e) => (s1, Err(e)),
                    Ok(a) => call_spec(fuel, s1, name, a),
                }
            },
            _ => (st, Err(RuntimeError::BadFunctionParams)),
        },
    }
}

/// A `while` loop: each round evaluates the condition, and the body while it holds.
pub open spec fn while_spec(fuel: nat, st: MachineView, c: SpecExpr, b: SpecExpr) -> (
    MachineView,
    Result<SpecIntRep, RuntimeError>,
)
    decreases fuel, 0nat,
{
    if fuel == 0 {
        (st, Err(RuntimeError::OutOfFuel))
    } else {
        let f = (fuel - 1) as nat;
        let (s1, cv) = eval(f, st, c);
        match cv {
            Err(e) => (s1, Err(e)),
            Ok(SpecIntRep::Bool(true)) => {
                let (s2, bv) = eval(f, s1, b);
                match bv {
                    Err(e) => (s2, Err(e)),
                    Ok(_) => while_spec(f, s2, c, b),
                }
            },
            Ok(SpecIntRep::Bool(false)) => (s1, Ok(SpecIntRep::NewLine)),
            Ok(_) => (s1, Err(RuntimeError::NotBool)),
        }
    }
}

/// `if`: the branch runs when the condition is `Bool(true)`.
pub open spec fn if_spec(fuel: nat, st: MachineView, cv: SpecIntRep, b: SpecExpr) -> (
    MachineView,
    Result<SpecIntRep, RuntimeError>,
)
    decreases fuel, 1nat,
{
    match cv {
        SpecIntRep::Bool(true) => {
            let (s1, r) = eval(fuel, st, b);
            match r {
                Err(e) => (s1, Err(e)),
                Ok(_) => (s1, Ok(SpecIntRep::NewLine)),
            }
        },
        _ => (st, Ok(SpecIntRep::NewLine)),
    }
}

/// `if`/`else`: the first branch on `Bool(true)`, the second on `Bool(false)`,
/// neither on any other value.
pub open spec fn if_else_spec(
    fuel: nat,
    st: MachineView,
    cv: SpecIntRep,
    b1: SpecExpr,
    b2: SpecExpr,
) -> (MachineView, Result<SpecIntRep, RuntimeError>)
    decreases fuel, 1nat,
{
    match cv {
        SpecIntRep::Bool(c) => {
            let (s1, r) = eval(fuel, st, if c { b1 } else { b2 });
            match r {
                Err(e) => (s1, Err(e)),
                Ok(_) => (s1, Ok(SpecIntRep::NewLine)),
            }
        },
        _ => (st, Ok(SpecIntRep::NewLine)),
    }
}

/// Assignment to an existing variable: the new value must be of the same kind.
pub open spec fn assign_existing_spec(fuel: nat, st: MachineView, n: SpecExpr, val: SpecExpr) -> (
    MachineView,
    Result<SpecIntRep, RuntimeError>,
)
    decreases fuel, 1nat,
{
    match n {
        SpecExpr::Var(name) => {
            let (s1, v) = eval(fuel, st, val);
            match v {
                Err(e) => (s1, Err(e)),
                Ok(v) => match spec_read_var(s1.mem, name) {
                    Err(e) => (s1, Err(e)),
                    Ok(saved) => if same_kind(v, saved) {
                        let (m2, r) = spec_assign_var(s1.mem, SpecIntRep::Var(name), v);
                        (with_mem(s1, m2), r)
                    } else {
                        (s1, Err(RuntimeError::AssignTypeMismatch))
                    },
                },
            }
        },
        _ => (st, Err(RuntimeError::NotAVariableName)),
    }
}

/// Evaluates a list of argument trees from first to last.
pub open spec fn args_spec(fuel: nat, st: MachineView, ps: Seq<SpecExpr>) -> (
    MachineView,
    Result<Seq<SpecIntRep>, RuntimeError>,
)
    decreases fuel, ps.len() + 1,
{
    if ps.len() == 0 {
        (st, Ok(Seq::empty()))
    } else {
        let (s1, r) = args_spec(fuel, st, ps.drop_last());
        match r {
            Err(e) => (s1, Err(e)),
            Ok(vs) => {
                let (s2, v) = eval(fuel, s1, ps.last());
                match v {
                    Err(e) => (s2, Err(e)),
                    Ok(v) => (s2, Ok(vs.push(v))),
                }
            },
        }
    }
}

/// A call: open a scope, bind the parameters, run the body, close the scope
/// and pop the return stack (`NewLine` when it is empty).
pub open spec fn call_spec(fuel: nat, st: MachineView, name: Seq<char>, args: Seq<SpecIntRep>) -> (
    MachineView,
    Result<SpecIntRep, RuntimeError>,
)
    decreases fuel, 1nat,
{
    let m1 = spec_push_scope(st.mem);
    match spec_read_function(m1, name) {
        Err(e) => (with_mem(st, m1), Err(e)),
        Ok((body, params)) => if params.len() != args.len() {
            (
                with_mem(st, m1),
                Err(
                    RuntimeError::WrongArgCount {
                        expected: params.len() as usize,
                        found: args.len() as usize,
                    },
                ),
            )
        } else {
            let (m2, br) = spec_bind_params(m1, params, args, params.len());
            match br {
                Err(e) => (with_mem(st, m2), Err(e)),
                Ok(_) => {
                    let (s3, r) = eval(fuel, with_mem(st, m2), body);
                    match r {
                        Err(e) => (s3, Err(e)),
                        Ok(_) => {
                            let (m5, v) = spec_pop_return(spec_pop_scope(s3.mem));
                            (with_mem(s3, m5), Ok(v))
                        },
                    }
                },
            }
        },
    }
}

/// Evaluates a tree.
#[verifier::rlimit(40)]
pub fn match_node(st: &mut Machine, ast: &ExprTree, fuel: u64) -> (r: Result<IntRep, RuntimeError>)
    ensures
        (final(st)@, res_view(r)) == eval(fuel as nat, old(st)@, ast@),
    decreases fuel, 0nat,
{
    if fuel == 0 {
        return Err(RuntimeError::OutOfFuel);
    }
    let f = fuel - 1;
    match ast {
        ExprTree::Number(num) => Ok(IntRep::Number(*num)),
        ExprTree::Var(name) => read_from_var(&st.mem, name.as_str()),
        ExprTree::Bool(b) => Ok(
            IntRep::Bool(
                match b {
                    BoolType::True => true,
                    BoolType::False => false,
                },
            ),
        ),
        ExprTree::BinNode(l, op, r) => match eval_operands(st, l, r, f) {
            Ok((lv, rv)) => eval_bin_op(*op, lv, rv),
            Err(e) => Err(e),
        },
        ExprTree::NumCompNode(l, op, r) => match eval_operands(st, l, r, f) {
            Ok((lv, rv)) => eval_comp_op(*op, lv, rv),
            Err(e) => Err(e),
        },
        ExprTree::LogNode(l, op, r) => match eval_operands(st, l, r, f) {
            Ok((lv, rv)) => eval_bool_log_op(*op, lv, rv),
            Err(e) => Err(e),
        },
        ExprTree::SeqNode(l, r) => match eval_operands(st, l, r, f) {
            Ok(_) => Ok(IntRep::NewLine),
            Err(e) => Err(e),
        },
        ExprTree::Print(s) => eval_print(st, s, f),
        ExprTree::AssignNode(n, _t, val) => eval_assign(st, n, val, f),
        ExprTree::SetVarNode(n, val) => assign_existing_var(st, n, val, f),
        ExprTree::IfNode(c, b) => eval_if_node(st, c, b, f),
        ExprTree::IfElseNode(c, bi, be) => eval_if_else_node(st, c, bi, be, f),
        ExprTree::WhileNode(c, b) => eval_while(st, c, b, f),
        ExprTree::FnNode(n, p, r, b) => eval_function(&mut st.mem, n, p, r, b),
        ExprTree::ParamNode(n, t) => eval_param(&mut st.mem, n, *t),
        ExprTree::FunctionCall(n, p) => eval_call_node(st, n, p, f),
        ExprTree::Return(e) => eval_return(st, e, f),
        ExprTree::Pass => Err(RuntimeError::UnmatchedNode),
        ExprTree::Const(_) => Err(RuntimeError::UnmatchedNode),
    }
}

/// Evaluates two trees, left first.
fn eval_operands(st: &mut Machine, l: &ExprTree, r: &ExprTree, fuel: u64) -> (res: Result<
    (IntRep, IntRep),
    RuntimeError,
>)
    ensures
        ({
            let (s, p) = operands_spec(fuel as nat, old(st)@, l@, r@);
            &&& final(st)@ == s
            &&& match res {
                Ok((a, b)) => p == Ok::<(SpecIntRep, SpecIntRep), RuntimeError>((a@, b@)),
                Err(e) => p == Err::<(SpecIntRep, SpecIntRep), RuntimeError>(e),
            }
        }),
    decreases fuel, 1nat,
{
    let lv = match match_node(st, l, fuel) {
        Ok(v) => v,
        Err(e) => {
            return Err(e);
        },
    };
    let rv = match match_node(st, r, fuel) {
        Ok(v) => v,
        Err(e) => {
            return Err(e);
        },
    };
    Ok((lv, rv))
}

/// Evaluates a tree and appends its value to the output.
fn eval_print(st: &mut Machine, s: &ExprTree, fuel: u64) -> (r: Result<IntRep, RuntimeError>)
    ensures
        (final(st)@, res_view(r)) == print_spec(fuel as nat, old(st)@, s@),
    decreases fuel, 1nat,
{
    let v = match match_node(st, s, fuel) {
        Ok(v) => v,
        Err(e) => {
            return Err(e);
        },
    };
    let ghost before = st.output@;
    st.output.push(v);
    assert(values_view(st.output@) =~= values_view(before).push(v@));
    Ok(IntRep::NewLine)
}

/// Evaluates a tree and pushes its value on the return stack.
fn eval_return(st: &mut Machine, e: &ExprTree, fuel: u64) -> (r: Result<IntRep, RuntimeError>)
    ensures
        (final(st)@, res_view(r)) == return_spec(fuel as nat, old(st)@, e@),
    decreases fuel, 1nat,
{
    let v = match match_node(st, e, fuel) {
        Ok(v) => v,
        Err(e) => {
            return Err(e);
        },
    };
    Ok(return_function(&mut st.mem, v))
}

/// Binds a new variable to the value of a tree.
fn eval_assign(st: &mut Machine, n: &ExprTree, val: &ExprTree, fuel: u64) -> (r: Result<
    IntRep,
    RuntimeError,
>)
    ensures
        (final(st)@, res_view(r)) == assign_spec(fuel as nat, old(st)@, n@, val@),
    decreases fuel, 1nat,
{
    match n {
        ExprTree::Var(name) => {
            let v = match match_node(st, val, fuel) {
                Ok(v) => v,
                Err(e) => {
                    return Err(e);
                },
            };
            assign_var(&mut st.mem, IntRep::Var(name.clone()), v)
        },
        _ => Err(RuntimeError::NotAVariableName),
    }
}

/// Declares a parameter: binds it to `Undefined` of its type.
fn eval_param(mem: &mut Memory, n: &ExprTree, t: Type) -> (r: Result<IntRep, RuntimeError>)
    ensures
        ({
            let (s, sr) = param_spec(
                MachineView { mem: old(mem)@, output: Seq::empty() },
                n@,
                t,
            );
            final(mem)@ == s.mem && res_view(r) == sr
        }),
{
    match n {
        ExprTree::Var(name) => assign_var(mem, IntRep::Var(name.clone()), IntRep::Undefined(t)),
        _ => Err(RuntimeError::NotAVariableName),
    }
}

/// Evaluates the condition, then the branch when it is `Bool(true)`.
fn eval_if_node(st: &mut Machine, c: &ExprTree, b: &ExprTree, fuel: u64) -> (r: Result<
    IntRep,
    RuntimeError,
>)
    ensures
        (final(st)@, res_view(r)) == if_node_spec(fuel as nat, old(st)@, c@, b@),
    decreases fuel, 2nat,
{
    let cv = match match_node(st, c, fuel) {
        Ok(v) => v,
        Err(e) => {
            return Err(e);
        },
    };
    eval_if_statement(st, cv, b, fuel)
}

/// Evaluates the condition, then one of the branches.
fn eval_if_else_node(
    st: &mut Machine,
    c: &ExprTree,
    bi: &ExprTree,
    be: &ExprTree,
    fuel: u64,
) -> (r: Result<IntRep, RuntimeError>)
    ensures
        (final(st)@, res_view(r)) == if_else_node_spec(fuel as nat, old(st)@, c@, bi@, be@),
    decreases fuel, 2nat,
{
    let cv = match match_node(st, c, fuel) {
        Ok(v) => v,
        Err(e) => {
            return Err(e);
        },
    };
    eval_if_else_statement(st, cv, bi, be, fuel)
}

/// A call node: the name, then the arguments, then the call.
fn eval_call_node(st: &mut Machine, n: &FnHead, p: &FnHead, fuel: u64) -> (r: Result<
    IntRep,
    RuntimeError,
>)
    ensures
        (final(st)@, res_view(r)) == call_node_spec(fuel as nat, old(st)@, n@, p@),
    decreases fuel, 2nat,
{
    let name = match get_function_name(n) {
        Ok(name) => name,
        Err(e) => {
            return Err(e);
        },
    };
    let args = match get_function_params(st, p, fuel) {
        Ok(a) => a,
        Err(e) => {
            return Err(e);
        },
    };
    call_function(st, name, args, fuel)
}

/// Runs a `while` loop.
pub fn eval_while(st: &mut Machine, comp: &ExprTree, while_branch: &ExprTree, fuel: u64) -> (r:
    Result<IntRep, RuntimeError>)
    ensures
        (final(st)@, res_view(r)) == while_spec(fuel as nat, old(st)@, comp@, while_branch@),
    decreases fuel, 0nat,
{
    let mut k = fuel;
    loop
        invariant
            k <= fuel,
            while_spec(fuel as nat, old(st)@, comp@, while_branch@) == while_spec(
                k as nat,
                st@,
                comp@,
                while_branch@,
            ),
        decreases k,
    {
        if k == 0 {
            return Err(RuntimeError::OutOfFuel);
        }
        let cv = match match_node(st, comp, k - 1) {
            Ok(v) => v,
            Err(e) => {
                return Err(e);
            },
        };
        let c = match get_bool_from_enum(cv) {
            Ok(c) => c,
            Err(e) => {
                return Err(e);
            },
        };
        if !c {
            return Ok(IntRep::NewLine);
        }
        match match_node(st, while_branch, k - 1) {
            Ok(_) => {},
            Err(e) => {
                return Err(e);
            },
        }
        k = k - 1;
    }
}

/// Runs the branch when the condition is `Bool(true)`.
pub fn eval_if_statement(st: &mut Machine, comp: IntRep, if_branch: &ExprTree, fuel: u64) -> (r:
    Result<IntRep, RuntimeError>)
    ensures
        (final(st)@, res_view(r)) == if_spec(fuel as nat, old(st)@, comp@, if_branch@),
    decreases fuel, 1nat,
{
    if let IntRep::Bool(c) = comp {
        if c {
            match match_node(st, if_branch, fuel) {
                Ok(_) => {},
                Err(e) => {
                    return Err(e);
                },
            }
        }
    }
    Ok(IntRep::NewLine)
}

/// Runs the first branch on `Bool(true)`, the second on `Bool(false)`.
pub fn eval_if_else_statement(
    st: &mut Machine,
    comp: IntRep,
    if_branch: &ExprTree,
    else_branch: &ExprTree,
    fuel: u64,
) -> (r: Result<IntRep, RuntimeError>)
    ensures
        (final(st)@, res_view(r)) == if_else_spec(
            fuel as nat,
            old(st)@,
            comp@,
            if_branch@,
            else_branch@,
        ),
    decreases fuel, 1nat,
{
    if let IntRep::Bool(c) = comp {
        let r = if c {
            match_node(st, if_branch, fuel)
        } else {
            match_node(st, else_branch, fuel)
        };
        match r {
            Ok(_) => {},
            Err(e) => {
                return Err(e);
            },
        }
    }
    Ok(IntRep::NewLine)
}

/// Assigns to an existing variable a new value of the same kind.
pub fn assign_existing_var(st: &mut Machine, n: &ExprTree, val: &ExprTree, fuel: u64) -> (r:
    Result<IntRep, RuntimeError>)
    ensures
        (final(st)@, res_view(r)) == assign_existing_spec(fuel as nat, old(st)@, n@, val@),
    decreases fuel, 1nat,
{
    match n {
        ExprTree::Var(name) => {
            let value = match match_node(st, val, fuel) {
                Ok(v) => v,
                Err(e) => {
                    return Err(e);
                },
            };
            let saved_value = match read_from_var(&st.mem, name.as_str()) {
                Ok(v) => v,
                Err(e) => {
                    return Err(e);
                },
            };
            if same_kind_exec(&value, &saved_value) {
                assign_var(&mut st.mem, IntRep::Var(name.clone()), value)
            } else {
                Err(RuntimeError::AssignTypeMismatch)
            }
        },
        _ => Err(RuntimeError::NotAVariableName),
    }
}

proof fn lemma_args_error_sticks(fuel: nat, st: MachineView, ps: Seq<SpecExpr>, k: nat, n: nat)
    requires
        k <= n <= ps.len(),
        args_spec(fuel, st, ps.take(k as int)).1 is Err,
    ensures
        args_spec(fuel, st, ps.take(n as int)) == args_spec(fuel, st, ps.take(k as int)),
    decreases n - k,
{
    if k < n {
        lemma_args_error_sticks(fuel, st, ps, k, (n - 1) as nat);
        assert(ps.take(n as int).drop_last() =~= ps.take(n - 1));
    }
}

/// Evaluates the argument trees of a call, first to last.
pub fn get_function_params(st: &mut Machine, fun_params: &FnHead, fuel: u64) -> (r: Result<
    Vec<IntRep>,
    RuntimeError,
>)
    ensures
        match spec_function_params_expr(fun_params@) {
            Err(e) => r == Err::<Vec<IntRep>, RuntimeError>(e) && final(st)@ == old(st)@,
            Ok(ps) => {
                let (s1, sr) = args_spec(fuel as nat, old(st)@, ps);
                &&& final(st)@ == s1
                &&& match r {
                    Ok(vs) => sr == Ok::<Seq<SpecIntRep>, RuntimeError>(values_view(vs@)),
                    Err(e) => sr == Err::<Seq<SpecIntRep>, RuntimeError>(e),
                }
            },
        },
    decreases fuel, 1nat,
{
    let params = match get_function_params_expr(fun_params) {
        Ok(p) => p,
        Err(e) => {
            return Err(e);
        },
    };
    let ghost ps = exprs_view(params@);
    let mut params_int: Vec<IntRep> = Vec::new();
    let mut i: usize = 0;
    assert(ps.take(0) =~= Seq::<SpecExpr>::empty());
    assert(values_view(params_int@) =~= Seq::<SpecIntRep>::empty());
    while i < params.len()
        invariant
            i <= params.len(),
            ps == exprs_view(params@),
            spec_function_params_expr(fun_params@) == Ok::<Seq<SpecExpr>, RuntimeError>(ps),
            (st@, Ok::<Seq<SpecIntRep>, RuntimeError>(values_view(params_int@))) == args_spec(
                fuel as nat,
                old(st)@,
                ps.take(i as int),
            ),
        decreases params.len() - i,
    {
        proof {
            assert(ps.take(i + 1).drop_last() =~= ps.take(i as int));
            assert(ps.take(i + 1).last() == params[i as int].to_spec());
        }
        let v = match match_node(st, &params[i], fuel) {
            Ok(v) => v,
            Err(e) => {
                proof {
                    assert(args_spec(fuel as nat, old(st)@, ps.take(i + 1)) == (st@, Err::<Seq<SpecIntRep>, RuntimeError>(e)));
                    lemma_args_error_sticks(fuel as nat, old(st)@, ps, (i + 1) as nat, ps.len());
                    assert(ps.take(ps.len() as int) =~= ps);
                }
                return Err(e);
            },
        };
        let ghost before = params_int@;
        params_int.push(v);
        assert(values_view(params_int@) =~= values_view(before).push(v@));
        i = i + 1;
    }
    assert(ps.take(params.len() as int) =~= ps);
    Ok(params_int)
}

/// Calls the named function with the given arguments.
pub fn call_function(st: &mut Machine, name: String, args: Vec<IntRep>, fuel: u64) -> (r: Result<
    IntRep,
    RuntimeError,
>)
    ensures
        (final(st)@, res_view(r)) == call_spec(fuel as nat, old(st)@, name@, values_view(args@)),
    decreases fuel, 1nat,
{
    push_on_mem_stack(&mut st.mem);
    let (branch, params) = match read_function(&st.mem, name) {
        Ok(x) => x,
        Err(e) => {
            return Err(e);
        },
    };
    if params.len() != args.len() {
        return Err(RuntimeError::WrongArgCount { expected: params.len(), found: args.len() });
    }
    match bind_params(&mut st.mem, &params, &args) {
        Ok(()) => {},
        Err(e) => {
            return Err(e);
        },
    }
    match match_node(st, &branch, fuel) {
        Ok(_) => {},
        Err(e) => {
            return Err(e);
        },
    }
    pop_from_mem_stack(&mut st.mem);
    Ok(pop_from_return_stack(&mut st.mem))
}


// ---------------------------------------------------------------------------
// Programs
// ---------------------------------------------------------------------------

/// Evaluates the top-level trees from the last to the first; stops at the first error.
pub open spec fn defs_spec(fuel: nat, st: MachineView, defs: Seq<SpecExpr>) -> (
    MachineView,
    Result<(), RuntimeError>,
)
    decreases defs.len(),
{
    if defs.len() == 0 {
        (st, Ok(()))
    } else {
        let (s1, r) = eval(fuel, st, defs.last());
        match r {
            Err(e) => (s1, Err(e)),
            Ok(_) => defs_spec(fuel, s1, defs.drop_last()),
        }
    }
}

/// A program run from state `st`: the top-level trees (function definitions)
/// from the last to the first, then a call of `main` without arguments.
pub open spec fn run_spec(fuel: nat, st: MachineView, defs: Seq<SpecExpr>) -> (
    MachineView,
    Result<SpecIntRep, RuntimeError>,
) {
    let (s1, r) = defs_spec(fuel, st, defs);
    match r {
        Err(e) => (s1, Err(e)),
        Ok(_) => call_spec(fuel, s1, "main"@, Seq::empty()),
    }
}

/// Runs a program on the machine: evaluates its top-level trees from the last
/// to the first, then calls `main`. What the program prints is appended to
/// the machine's output, and the machine's memory keeps what the run left in
/// it (such as the function table). The result is the value `main` returned,
/// or the error that stopped the run.
pub fn run(st: &mut Machine, ast: Vec<Box<ExprTree>>, fuel: u64) -> (r: Result<IntRep, RuntimeError>)
    ensures
        (final(st)@, res_view(r)) == run_spec(fuel as nat, old(st)@, exprs_view(ast@)),
{
    let ghost defs = exprs_view(ast@);
    let mut i = ast.len();
    assert(defs.take(ast.len() as int) =~= defs);
    while i > 0
        invariant
            i <= ast.len(),
            defs == exprs_view(ast@),
            defs_spec(fuel as nat, old(st)@, defs) == defs_spec(
                fuel as nat,
                st@,
                defs.take(i as int),
            ),
        decreases i,
    {
        i = i - 1;
        proof {
            assert(defs.take(i + 1).drop_last() =~= defs.take(i as int));
            assert(defs.take(i + 1).last() == ast[i as int].to_spec());
        }
        match match_node(st, &ast[i], fuel) {
            Ok(_) => {},
            Err(e) => {
                return Err(e);
            },
        }
    }
    assert(defs.take(0) =~= Seq::<SpecExpr>::empty());
    let main_name = "main".to_string();
    proof {
        vstd::string::to_string_from_display_ensures_for_str("main", main_name);
    }
    let args: Vec<IntRep> = Vec::new();
    assert(values_view(args@) =~= Seq::<SpecIntRep>::empty());
    call_function(st, main_name, args, fuel)
}

/// Defining a function stores it in the function table: its name then reads
/// back as its body and parameters, and its type as the placeholder of its
/// return type.
pub proof fn law_define_then_read(
    m: MemView,
    name: Seq<char>,
    params: Seq<SpecExpr>,
    t: Type,
    body: SpecExpr,
)
    ensures
        ({
            let (m2, r) = spec_eval_function(
                m,
                SpecFnHead::Name(name),
                SpecFnHead::Params(params),
                SpecFnHead::Return(t),
                body,
            );
            &&& r == Ok::<SpecIntRep, RuntimeError>(SpecIntRep::NewLine)
            &&& spec_read_function(m2, name) == Ok::<(SpecExpr, Seq<SpecExpr>), RuntimeError>(
                (body, params),
            )
            &&& crate::memory::spec_get_function_type(m2, name) == Ok::<SpecIntRep, RuntimeError>(
                crate::memory::type_value(t),
            )
        }),
{
}

/// A function definition with a name, a parameter list and a return type.
pub open spec fn is_definition(e: SpecExpr) -> bool {
    e matches SpecExpr::FnNode(SpecFnHead::Name(_), SpecFnHead::Params(_), SpecFnHead::Return(_), _)
}

/// The name that a definition defines.
pub open spec fn def_name(e: SpecExpr) -> Seq<char> {
    match e {
        SpecExpr::FnNode(SpecFnHead::Name(n), _, _, _) => n,
        _ => Seq::empty(),
    }
}

/// The function-table entry that a definition stores.
pub open spec fn def_entry(e: SpecExpr) -> SpecIntRep {
    match e {
        SpecExpr::FnNode(_, SpecFnHead::Params(p), SpecFnHead::Return(t), b) => SpecIntRep::Function(
            p,
            t,
            *b,
        ),
        _ => SpecIntRep::NewLine,
    }
}

/// A function table after storing the definitions from the last to the first.
pub open spec fn registered(funs: Map<Seq<char>, SpecIntRep>, defs: Seq<SpecExpr>) -> Map<
    Seq<char>,
    SpecIntRep,
>
    decreases defs.len(),
{
    if defs.len() == 0 {
        funs
    } else {
        registered(funs.insert(def_name(defs.last()), def_entry(defs.last())), defs.drop_last())
    }
}

proof fn lemma_defs_register(fuel: nat, st: MachineView, defs: Seq<SpecExpr>)
    requires
        fuel > 0,
        forall|k: int| 0 <= k < defs.len() ==> #[trigger] is_definition(defs[k]),
    ensures
        defs_spec(fuel, st, defs) == (
            with_mem(
                st,
                MemView { functions: registered(st.mem.functions, defs), ..st.mem },
            ),
            Ok::<(), RuntimeError>(()),
        ),
    decreases defs.len(),
{
    if defs.len() > 0 {
        let d = defs.last();
        assert(is_definition(defs[defs.len() - 1]));
        let s1 = with_mem(st, spec_insert_function(st.mem, def_name(d), def_entry(d)));
        assert(eval(fuel, st, d) == (s1, Ok::<SpecIntRep, RuntimeError>(SpecIntRep::NewLine)));
        assert forall|k: int| 0 <= k < defs.drop_last().len() implies #[trigger] is_definition(
            defs.drop_last()[k],
        ) by {
            assert(is_definition(defs[k]));
        }
        lemma_defs_register(fuel, s1, defs.drop_last());
        assert(with_mem(s1, MemView { functions: registered(s1.mem.functions, defs.drop_last()), ..s1.mem })
            == with_mem(st, MemView { functions: registered(st.mem.functions, defs), ..st.mem }));
    }
}

proof fn lemma_registered_other(funs: Map<Seq<char>, SpecIntRep>, defs: Seq<SpecExpr>, n: Seq<char>)
    requires
        forall|k: int| 0 <= k < defs.len() ==> #[trigger] def_name(defs[k]) != n,
    ensures
        registered(funs, defs).contains_key(n) == funs.contains_key(n),
        registered(funs, defs)[n] == funs[n],
    decreases defs.len(),
{
    if defs.len() > 0 {
        assert(def_name(defs[defs.len() - 1]) != n);
        assert forall|k: int| 0 <= k < defs.drop_last().len() implies #[trigger] def_name(
            defs.drop_last()[k],
        ) != n by {
            assert(def_name(defs[k]) != n);
        }
        lemma_registered_other(
            funs.insert(def_name(defs.last()), def_entry(defs.last())),
            defs.drop_last(),
            n,
        );
    }
}

proof fn lemma_registered_first(funs: Map<Seq<char>, SpecIntRep>, defs: Seq<SpecExpr>, i: int)
    requires
        0 <= i < defs.len(),
        forall|j: int| 0 <= j < i ==> #[trigger] def_name(defs[j]) != def_name(defs[i]),
    ensures
        registered(funs, defs).contains_key(def_name(defs[i])),
        registered(funs, defs)[def_name(defs[i])] == def_entry(defs[i]),
    decreases defs.len(),
{
    let rest = defs.drop_last();
    let funs1 = funs.insert(def_name(defs.last()), def_entry(defs.last()));
    if i == defs.len() - 1 {
        assert forall|k: int| 0 <= k < rest.len() implies #[trigger] def_name(rest[k]) != def_name(
            defs[i],
        ) by {
            assert(def_name(defs[k]) != def_name(defs[i]));
        }
        lemma_registered_other(funs1, rest, def_name(defs[i]));
    } else {
        assert forall|j: int| 0 <= j < i implies #[trigger] def_name(rest[j]) != def_name(
            rest[i],
        ) by {
            assert(def_name(defs[j]) != def_name(defs[i]));
        }
        lemma_registered_first(funs1, rest, i);
    }
}

/// Running the definitions of a program stores each in the function table,
/// from the last to the first, so that of several definitions of one name the
/// first stays: a definition whose name no earlier definition has is what the
/// table holds for that name after the definitions ran, names that no
/// definition has keep their entries, and nothing else of the machine changes.
pub proof fn law_first_definition_wins(
    fuel: nat,
    st: MachineView,
    defs: Seq<SpecExpr>,
    i: int,
    other: Seq<char>,
)
    requires
        fuel > 0,
        forall|k: int| 0 <= k < defs.len() ==> #[trigger] is_definition(defs[k]),
        0 <= i < defs.len(),
        forall|j: int| 0 <= j < i ==> #[trigger] def_name(defs[j]) != def_name(defs[i]),
        forall|k: int| 0 <= k < defs.len() ==> #[trigger] def_name(defs[k]) != other,
    ensures
        defs_spec(fuel, st, defs).1 is Ok,
        defs_spec(fuel, st, defs).0.mem.functions.contains_key(def_name(defs[i])),
        defs_spec(fuel, st, defs).0.mem.functions[def_name(defs[i])] == def_entry(defs[i]),
        defs_spec(fuel, st, defs).0.mem.functions.contains_key(other)
            == st.mem.functions.contains_key(other),
        defs_spec(fuel, st, defs).0.mem.functions[other] == st.mem.functions[other],
        defs_spec(fuel, st, defs).0.mem.scopes == st.mem.scopes,
        defs_spec(fuel, st, defs).0.mem.returns == st.mem.returns,
        defs_spec(fuel, st, defs).0.output == st.output,
{
    lemma_defs_register(fuel, st, defs);
    lemma_registered_first(st.mem.functions, defs, i);
    lemma_registered_other(st.mem.functions, defs, other);
}

} // verus!

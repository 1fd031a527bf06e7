//! The type checker: runs a program abstractly, with `Number(0)` standing for
//! every number and `Bool(false)`/`Bool(true)` for every boolean, and reports
//! the first type error it meets.
//!
//! Like the interpreter it has a budget (`fuel`) of nested steps; loops are
//! checked once, but a recursive function is entered again on every call.
use vstd::prelude::*;
use crate::ast::{ExprTree, FnHead, SpecExpr, SpecFnHead, Type, exprs_view};
use crate::error::RuntimeError;
use crate::interpret::{
    eval_function, get_function_name, get_function_params_expr, head_len, return_function,
    same_kind, same_kind_exec, spec_eval_function, spec_function_name,
    spec_function_params_expr, values_view,
};
use crate::memory::{
    IntRep, MemView, Memory, SpecIntRep, assign_to, copy_value, get_function_type,
    pop_from_mem_stack, pop_from_return_stack, push_on_mem_stack, push_on_return_stack,
    read_from_var, read_function, res_view, spec_assign, spec_assign_var,
    spec_get_function_type, spec_pop_return, spec_pop_scope, spec_push_return, spec_push_scope,
    spec_read_function, spec_read_var,
};

verus! {

broadcast use vstd::std_specs::vec::group_vec_axioms;

// ---------------------------------------------------------------------------
// Type errors
// ---------------------------------------------------------------------------

pub open spec fn bin_mismatch() -> SpecIntRep {
    SpecIntRep::TypeError("ERROR: missmatch types in binary operation"@)
}

pub open spec fn comp_mismatch() -> SpecIntRep {
    SpecIntRep::TypeError("ERROR: missmatch types in compare operation"@)
}

pub open spec fn log_mismatch() -> SpecIntRep {
    SpecIntRep::TypeError("ERROR: missmatch types in boolean operation"@)
}

pub open spec fn cond_type_error() -> SpecIntRep {
    SpecIntRep::TypeError("ERROR: Wrong type in condition"@)
}

pub open spec fn assign_type_error() -> SpecIntRep {
    SpecIntRep::TypeError("ERROR: Can't assign to var"@)
}

pub open spec fn args_type_error() -> SpecIntRep {
    SpecIntRep::TypeError("ERROR: params and args type does not match"@)
}

/// A type error carrying the given message.
fn type_error(msg: &str) -> (r: IntRep)
    ensures
        r@ == SpecIntRep::TypeError(msg@),
{
    let s = msg.to_string();
    proof {
        vstd::string::to_string_from_display_ensures_for_str(msg, s);
    }
    IntRep::TypeError(s)
}

// ---------------------------------------------------------------------------
// Rules on checked values
// ---------------------------------------------------------------------------

/// The value inside one `Const` layer.
pub open spec fn strip_const(c: SpecIntRep) -> SpecIntRep {
    match c {
        SpecIntRep::Const(v) => *v,
        _ => c,
    }
}

/// Operands of the same kind (after one `Const` layer) give `ok`; others give `err`.
pub open spec fn spec_same_or(l: SpecIntRep, r: SpecIntRep, ok: SpecIntRep, err: SpecIntRep) -> SpecIntRep {
    if same_kind(strip_const(l), strip_const(r)) {
        ok
    } else {
        err
    }
}

/// The check of a condition and one branch (`if`, `while`).
pub open spec fn spec_cond_branch(c: SpecIntRep, b: SpecIntRep) -> SpecIntRep {
    match (c, b) {
        (SpecIntRep::TypeError(e), _) => SpecIntRep::TypeError(e),
        (SpecIntRep::Number(_), _) => cond_type_error(),
        (_, SpecIntRep::TypeError(e)) => SpecIntRep::TypeError(e),
        _ => SpecIntRep::NewLine,
    }
}

/// The check of a condition and two branches (`if`/`else`).
pub open spec fn spec_cond_mult_branch(c: SpecIntRep, b1: SpecIntRep, b2: SpecIntRep) -> SpecIntRep {
    match (c, b1, b2) {
        (SpecIntRep::TypeError(e), _, _) => SpecIntRep::TypeError(e),
        (SpecIntRep::Number(_), _, _) => cond_type_error(),
        (_, SpecIntRep::TypeError(e), _) => SpecIntRep::TypeError(e),
        (_, _, SpecIntRep::TypeError(e)) => SpecIntRep::TypeError(e),
        _ => SpecIntRep::NewLine,
    }
}

/// The check of a sequence: its first type error, if any.
pub open spec fn spec_seq_node(l: SpecIntRep, r: SpecIntRep) -> SpecIntRep {
    match (l, r) {
        (SpecIntRep::TypeError(e), _) => SpecIntRep::TypeError(e),
        (_, SpecIntRep::TypeError(e)) => SpecIntRep::TypeError(e),
        _ => SpecIntRep::NewLine,
    }
}

/// The result of a checked call: the first type error of the body, the
/// returned value and the arguments, else the returned value.
pub open spec fn spec_call_result(ft: SpecIntRep, rt: SpecIntRep, chk: SpecIntRep) -> SpecIntRep {
    match (ft, rt, chk) {
        (SpecIntRep::TypeError(e), _, _) => SpecIntRep::TypeError(e),
        (_, SpecIntRep::TypeError(e), _) => SpecIntRep::TypeError(e),
        (_, _, SpecIntRep::TypeError(e)) => SpecIntRep::TypeError(e),
        _ => rt,
    }
}

/// Whether an argument fits the declared type of its parameter.
pub open spec fn arg_fits(a: SpecIntRep, t: Type) -> bool {
    match (a, t) {
        (SpecIntRep::Number(_), Type::I32) => true,
        (SpecIntRep::Bool(_), Type::Bool) => true,
        _ => false,
    }
}

/// The value inside one `Const` layer.
pub fn get_val_from_const(c: IntRep) -> (r: IntRep)
    ensures
        r@ == strip_const(c@),
{
    if let IntRep::Const(val) = c {
        *val
    } else {
        c
    }
}

/// Arithmetic: operands of the same kind give `Number(0)`.
pub fn eval_bin_node(l: IntRep, r: IntRep) -> (res: IntRep)
    ensures
        res@ == spec_same_or(l@, r@, SpecIntRep::Number(0), bin_mismatch()),
{
    if same_kind_exec(&get_val_from_const(l), &get_val_from_const(r)) {
        IntRep::Number(0)
    } else {
        type_error("ERROR: missmatch types in binary operation")
    }
}

/// Comparison: operands of the same kind give `Bool(true)`.
pub fn eval_num_comp_node(l: IntRep, r: IntRep) -> (res: IntRep)
    ensures
        res@ == spec_same_or(l@, r@, SpecIntRep::Bool(true), comp_mismatch()),
{
    if same_kind_exec(&get_val_from_const(l), &get_val_from_const(r)) {
        IntRep::Bool(true)
    } else {
        type_error("ERROR: missmatch types in compare operation")
    }
}

/// Boolean operator: operands of the same kind give `Bool(true)`.
pub fn eval_log_node(l: IntRep, r: IntRep) -> (res: IntRep)
    ensures
        res@ == spec_same_or(l@, r@, SpecIntRep::Bool(true), log_mismatch()),
{
    if same_kind_exec(&get_val_from_const(l), &get_val_from_const(r)) {
        IntRep::Bool(true)
    } else {
        type_error("ERROR: missmatch types in boolean operation")
    }
}

/// Checks a condition and one branch (`if`, `while`).
pub fn eval_cond_branch(c: IntRep, b: IntRep) -> (r: IntRep)
    ensures
        r@ == spec_cond_branch(c@, b@),
{
    match (c, b) {
        (IntRep::TypeError(e), _) => IntRep::TypeError(e),
        (IntRep::Number(_), _) => type_error("ERROR: Wrong type in condition"),
        (_, IntRep::TypeError(e)) => IntRep::TypeError(e),
        _ => IntRep::NewLine,
    }
}

/// Checks a condition and two branches (`if`/`else`).
pub fn eval_cond_mult_branch(c: IntRep, b1: IntRep, b2: IntRep) -> (r: IntRep)
    ensures
        r@ == spec_cond_mult_branch(c@, b1@, b2@),
{
    match (c, b1, b2) {
        (IntRep::TypeError(e), _, _) => IntRep::TypeError(e),
        (IntRep::Number(_), _, _) => type_error("ERROR: Wrong type in condition"),
        (_, IntRep::TypeError(e), _) => IntRep::TypeError(e),
        (_, _, IntRep::TypeError(e)) => IntRep::TypeError(e),
        _ => IntRep::NewLine,
    }
}

/// Checks a sequence: its first type error, if any.
pub fn eval_seq_node(l: IntRep, r: IntRep) -> (res: IntRep)
    ensures
        res@ == spec_seq_node(l@, r@),
{
    match (l, r) {
        (IntRep::TypeError(e), _) => IntRep::TypeError(e),
        (_, IntRep::TypeError(e)) => IntRep::TypeError(e),
        _ => IntRep::NewLine,
    }
}

/// Combines the checks of a call.
fn call_result(function_type: IntRep, return_type: IntRep, arg_type_checker: IntRep) -> (r: IntRep)
    ensures
        r@ == spec_call_result(function_type@, return_type@, arg_type_checker@),
{
    match (function_type, return_type, arg_type_checker) {
        (IntRep::TypeError(e), _, _) => IntRep::TypeError(e),
        (_, IntRep::TypeError(e), _) => IntRep::TypeError(e),
        (_, _, IntRep::TypeError(e)) => IntRep::TypeError(e),
        (_, rt, _) => rt,
    }
}

/// The declaration of a variable with a type: the value must be of that type.
pub open spec fn spec_assign_node(m: MemView, n: SpecExpr, t: Type, value: SpecIntRep) -> (
    MemView,
    Result<SpecIntRep, RuntimeError>,
) {
    match (value, t) {
        (SpecIntRep::Number(_), Type::I32) => spec_assign_named(m, n, value),
        (SpecIntRep::Bool(_), Type::Bool) => spec_assign_named(m, n, value),
        (SpecIntRep::Const(var), _) => match (*var, t) {
            (SpecIntRep::Number(v), Type::I32) => spec_assign_named(m, n, SpecIntRep::Number(v)),
            (SpecIntRep::Bool(v), Type::Bool) => spec_assign_named(m, n, SpecIntRep::Bool(v)),
            _ => (m, Ok(assign_type_error())),
        },
        _ => (m, Ok(assign_type_error())),
    }
}

/// Binds the variable that a node names.
pub open spec fn spec_assign_named(m: MemView, n: SpecExpr, v: SpecIntRep) -> (
    MemView,
    Result<SpecIntRep, RuntimeError>,
) {
    match n {
        SpecExpr::Var(name) => spec_assign_var(m, SpecIntRep::Var(name), v),
        _ => (m, Err(RuntimeError::NotAVariableName)),
    }
}

/// Binds the variable that a node names; the result is `NewLine`.
pub fn assign_var(mem: &mut Memory, name: &ExprTree, val: IntRep) -> (r: Result<
    IntRep,
    RuntimeError,
>)
    ensures
        (final(mem)@, res_view(r)) == spec_assign_named(old(mem)@, name@, val@),
{
    match name {
        ExprTree::Var(n) => crate::memory::assign_var(mem, IntRep::Var(n.clone()), val),
        _ => Err(RuntimeError::NotAVariableName),
    }
}

/// Checks a declaration `name: t = value` whose value has been checked.
#[verifier::spinoff_prover]
pub fn eval_assign_node(mem: &mut Memory, name: &ExprTree, t: Type, value: IntRep) -> (r: Result<
    IntRep,
    RuntimeError,
>)
    ensures
        (final(mem)@, res_view(r)) == spec_assign_node(old(mem)@, name@, t, value@),
{
    match (value, t) {
        (IntRep::Number(n), Type::I32) => assign_var(mem, name, IntRep::Number(n)),
        (IntRep::Bool(b), Type::Bool) => assign_var(mem, name, IntRep::Bool(b)),
        (IntRep::Const(var), _) => match (*var, t) {
            (IntRep::Number(v), Type::I32) => assign_var(mem, name, IntRep::Number(v)),
            (IntRep::Bool(v), Type::Bool) => assign_var(mem, name, IntRep::Bool(v)),
            _ => Ok(type_error("ERROR: Can't assign to var")),
        },
        _ => Ok(type_error("ERROR: Can't assign to var")),
    }
}

// ---------------------------------------------------------------------------
// Checking trees
// ---------------------------------------------------------------------------

/// Checks a tree with a budget of `fuel` nested steps.
pub open spec fn check(fuel: nat, m: MemView, e: SpecExpr) -> (
    MemView,
    Result<SpecIntRep, RuntimeError>,
)
    decreases fuel, 0nat,
{
    if fuel == 0 {
        (m, Err(RuntimeError::OutOfFuel))
    } else {
        let f = (fuel - 1) as nat;
        match e {
            SpecExpr::Var(n) => (m, spec_read_var(m, n)),
            SpecExpr::Number(_) => (m, Ok(SpecIntRep::Number(0))),
            SpecExpr::Bool(_) => (m, Ok(SpecIntRep::Bool(false))),
            SpecExpr::Const(val) => {
                let (m1, v) = check(f, m, *val);
                match v {
                    Err(e) => (m1, Err(e)),
                    Ok(v) => (m1, Ok(SpecIntRep::Const(Box::new(v)))),
                }
            },
            SpecExpr::BinNode(l, _op, r) => {
                let (m1, p) = check_pair(f, m, *l, *r);
                (m1, lift2(p, |a: SpecIntRep, b: SpecIntRep| spec_same_or(a, b, SpecIntRep::Number(0), bin_mismatch())))
            },
            SpecExpr::NumCompNode(l, _op, r) => {
                let (m1, p) = check_pair(f, m, *l, *r);
                (m1, lift2(p, |a: SpecIntRep, b: SpecIntRep| spec_same_or(a, b, SpecIntRep::Bool(true), comp_mismatch())))
            },
            SpecExpr::LogNode(l, _op, r) => {
                let (m1, p) = check_pair(f, m, *l, *r);
                (m1, lift2(p, |a: SpecIntRep, b: SpecIntRep| spec_same_or(a, b, SpecIntRep::Bool(true), log_mismatch())))
            },
            SpecExpr::AssignNode(n, t, val) => {
                let (m1, v) = check(f, m, *val);
                match v {
                    Err(e) => (m1, Err(e)),
                    Ok(v) => spec_assign_node(m1, *n, t, v),
                }
            },
            SpecExpr::SetVarNode(n, val) => check_set_var(f, m, *n, *val),
            SpecExpr::FnNode(n, p, r, b) => spec_eval_function(m, n, p, r, *b),
            SpecExpr::FunctionCall(n, p) => check_call_node(f, m, n, p),
            SpecExpr::Return(x) => {
                let (m1, v) = check(f, m, *x);
                match v {
                    Err(e) => (m1, Err(e)),
                    Ok(v) => (spec_push_return(m1, v), Ok(SpecIntRep::NewLine)),
                }
            },
            SpecExpr::ParamNode(n, t) => spec_assign_named(m, *n, SpecIntRep::Undefined(t)),
            SpecExpr::WhileNode(c, b) => {
                let (m1, p) = check_pair(f, m, *c, *b);
                (m1, lift2(p, |a: SpecIntRep, b: SpecIntRep| spec_cond_branch(a, b)))
            },
            SpecExpr::IfNode(c, b) => {
                let (m1, p) = check_pair(f, m, *c, *b);
                (m1, lift2(p, |a: SpecIntRep, b: SpecIntRep| spec_cond_branch(a, b)))
            },
            SpecExpr::IfElseNode(c, b1, b2) => check_if_else(f, m, *c, *b1, *b2),
            SpecExpr::SeqNode(l, r) => {
                let (m1, p) = check_pair(f, m, *l, *r);
                (m1, lift2(p, |a: SpecIntRep, b: SpecIntRep| spec_seq_node(a, b)))
            },
            SpecExpr::Print(x) => check(f, m, *x),
            SpecExpr::Pass => (m, Ok(SpecIntRep::NewLine)),
        }
    }
}

/// Applies a rule to a pair of checked values.
pub open spec fn lift2(
    p: Result<(SpecIntRep, SpecIntRep), RuntimeError>,
    g: spec_fn(SpecIntRep, SpecIntRep) -> SpecIntRep,
) -> Result<SpecIntRep, RuntimeError> {
    match p {
        Err(e) => Err(e),
        Ok((a, b)) => Ok(g(a, b)),
    }
}

/// Checks two trees, left first.
pub open spec fn check_pair(fuel: nat, m: MemView, l: SpecExpr, r: SpecExpr) -> (
    MemView,
    Result<(SpecIntRep, SpecIntRep), RuntimeError>,
)
    decreases fuel, 1nat,
{
    let (m1, lv) = check(fuel, m, l);
    match lv {
        Err(e) => (m1, Err(e)),
        Ok(a) => {
            let (m2, rv) = check(fuel, m1, r);
            match rv {
                Err(e) => (m2, Err(e)),
                Ok(b) => (m2, Ok((a, b))),
            }
        },
    }
}

/// Checks the condition and the two branches of an `if`/`else`.
pub open spec fn check_if_else(fuel: nat, m: MemView, c: SpecExpr, b1: SpecExpr, b2: SpecExpr) -> (
    MemView,
    Result<SpecIntRep, RuntimeError>,
)
    decreases fuel, 2nat,
{
    let (m1, p) = check_pair(fuel, m, c, b1);
    match p {
        Err(e) => (m1, Err(e)),
        Ok((cv, v1)) => {
            let (m2, v2) = check(fuel, m1, b2);
            match v2 {
                Err(e) => (m2, Err(e)),
                Ok(v2) => (m2, Ok(spec_cond_mult_branch(cv, v1, v2))),
            }
        },
    }
}

/// Assignment to an existing variable: the value (without its `Const` layer)
/// must be of the variable's kind.
pub open spec fn check_set_var(fuel: nat, m: MemView, n: SpecExpr, val: SpecExpr) -> (
    MemView,
    Result<SpecIntRep, RuntimeError>,
)
    decreases fuel, 1nat,
{
    match n {
        SpecExpr::Var(name) => {
            let (m1, v) = check(fuel, m, val);
            match v {
                Err(e) => (m1, Err(e)),
                Ok(v) => match spec_read_var(m1, name) {
                    Err(e) => (m1, Err(e)),
                    Ok(saved) => {
                        let value = strip_const(v);
                        if same_kind(value, saved) {
                            spec_assign_var(m1, SpecIntRep::Var(name), value)
                        } else {
                            (m1, Err(RuntimeError::AssignTypeMismatch))
                        }
                    },
                },
            }
        },
        _ => (m, Err(RuntimeError::NotAVariableName)),
    }
}

/// Checks a list of argument trees from first to last.
pub open spec fn check_args(fuel: nat, m: MemView, ps: Seq<SpecExpr>) -> (
    MemView,
    Result<Seq<SpecIntRep>, RuntimeError>,
)
    decreases fuel, ps.len() + 1,
{
    if ps.len() == 0 {
        (m, Ok(Seq::empty()))
    } else {
        let (m1, r) = check_args(fuel, m, ps.drop_last());
        match r {
            Err(e) => (m1, Err(e)),
            Ok(vs) => {
                let (m2, v) = check(fuel, m1, ps.last());
                match v {
                    Err(e) => (m2, Err(e)),
                    Ok(v) => (m2, Ok(vs.push(v))),
                }
            },
        }
    }
}

/// A call node: the name, then the arguments from first to last, then the call.
pub open spec fn check_call_node(fuel: nat, m: MemView, n: SpecFnHead, p: SpecFnHead) -> (
    MemView,
    Result<SpecIntRep, RuntimeError>,
)
    decreases fuel, head_len(p) + 2,
{
    match spec_function_name(n) {
        Err(e) => (m, Err(e)),
        Ok(name) => match p {
            SpecFnHead::Params(ps) => {
                let (m1, args) = check_args(fuel, m, ps);
                match args {
                    Err(e) => (m1, Err(e)),
                    Ok(a) => check_call(fuel, m1, name, a),
                }
            },
            _ => (m, Err(RuntimeError::BadFunctionParams)),
        },
    }
}

/// Binds the first `n` parameters whose declared type the argument fits;
/// the result is a type error when some argument does not fit.
pub open spec fn spec_check_bind(
    m: MemView,
    params: Seq<SpecExpr>,
    args: Seq<SpecIntRep>,
    n: nat,
) -> (MemView, Result<SpecIntRep, RuntimeError>)
    decreases n,
{
    if n == 0 {
        (m, Ok(SpecIntRep::NewLine))
    } else {
        let (m1, r) = spec_check_bind(m, params, args, (n - 1) as nat);
        match r {
            Err(e) => (m1, Err(e)),
            Ok(chk) => match params[n - 1] {
                SpecExpr::ParamNode(pn, t) => match *pn {
                    SpecExpr::Var(na) => if arg_fits(args[n - 1], t) {
                        match spec_assign(m1, na, args[n - 1]) {
                            Ok(m2) => (m2, Ok(chk)),
                            Err(e) => (m1, Err(e)),
                        }
                    } else {
                        (m1, Ok(args_type_error()))
                    },
                    _ => (m1, Err(RuntimeError::ParamNotVariable)),
                },
                _ => (m1, Err(RuntimeError::NotAParameter)),
            },
        }
    }
}

/// A checked call: open a scope, push the placeholder of the return type,
/// bind the arguments that fit, check the body, close the scope and pop the
/// return stack.
///
/// The placeholder is never compared with what the body returns: when the
/// body returns a value, the pop takes that value and the placeholder stays
/// on the return stack; when it returns nothing, the pop takes the placeholder.
pub open spec fn check_call(fuel: nat, m: MemView, name: Seq<char>, args: Seq<SpecIntRep>) -> (
    MemView,
    Result<SpecIntRep, RuntimeError>,
)
    decreases fuel, 1nat,
{
    let m1 = spec_push_scope(m);
    match spec_read_function(m1, name) {
        Err(e) => (m1, Err(e)),
        Ok((body, params)) => if params.len() != args.len() {
            (
                m1,
                Err(
                    RuntimeError::WrongArgCount {
                        expected: params.len() as usize,
                        found: args.len() as usize,
                    },
                ),
            )
        } else {
            match spec_get_function_type(m1, name) {
                Err(e) => (m1, Err(e)),
                Ok(rt) => {
                    let m2 = spec_push_return(m1, rt);
                    let (m3, br) = spec_check_bind(m2, params, args, params.len());
                    match br {
                        Err(e) => (m3, Err(e)),
                        Ok(chk) => {
                            let (m4, ft) = check(fuel, m3, body);
                            match ft {
                                Err(e) => (m4, Err(e)),
                                Ok(ft) => {
                                    let (m6, ret) = spec_pop_return(spec_pop_scope(m4));
                                    (m6, Ok(spec_call_result(ft, ret, chk)))
                                },
                            }
                        },
                    }
                },
            }
        },
    }
}

proof fn lemma_check_bind_error_sticks(
    m: MemView,
    params: Seq<SpecExpr>,
    args: Seq<SpecIntRep>,
    k: nat,
    n: nat,
)
    requires
        k <= n,
        spec_check_bind(m, params, args, k).1 is Err,
    ensures
        spec_check_bind(m, params, args, n) == spec_check_bind(m, params, args, k),
    decreases n - k,
{
    if k < n {
        lemma_check_bind_error_sticks(m, params, args, k, (n - 1) as nat);
    }
}

/// Binds each parameter to the argument at the same place when the argument
/// fits the parameter's type; gives a type error when one does not.
fn check_bind(mem: &mut Memory, params: &Vec<Box<ExprTree>>, args: &Vec<IntRep>) -> (r: Result<
    IntRep,
    RuntimeError,
>)
    requires
        params.len() == args.len(),
    ensures
        (final(mem)@, res_view(r)) == spec_check_bind(
            old(mem)@,
            exprs_view(params@),
            values_view(args@),
            params.len() as nat,
        ),
{
    let ghost ps = exprs_view(params@);
    let ghost avs = values_view(args@);
    let mut arg_type_checker = IntRep::NewLine;
    let mut i: usize = 0;
    while i < params.len()
        invariant
            i <= params.len(),
            params.len() == args.len(),
            ps == exprs_view(params@),
            avs == values_view(args@),
            (mem@, Ok::<SpecIntRep, RuntimeError>(arg_type_checker@)) == spec_check_bind(
                old(mem)@,
                ps,
                avs,
                i as nat,
            ),
        decreases params.len() - i,
    {
        assert(ps[i as int] == params[i as int].to_spec());
        assert(avs[i as int] == args[i as int]@);
        let r: Result<(), RuntimeError> = match &*params[i] {
            ExprTree::ParamNode(n, t) => match &**n {
                ExprTree::Var(na) => {
                    let fits = match (&args[i], t) {
                        (IntRep::Number(_), Type::I32) => true,
                        (IntRep::Bool(_), Type::Bool) => true,
                        _ => false,
                    };
                    if fits {
                        assign_to(mem, na.clone(), copy_value(&args[i]))
                    } else {
                        arg_type_checker = type_error("ERROR: params and args type does not match");
                        Ok(())
                    }
                },
                _ => Err(RuntimeError::ParamNotVariable),
            },
            _ => Err(RuntimeError::NotAParameter),
        };
        match r {
            Ok(()) => {},
            Err(e) => {
                proof {
                    lemma_check_bind_error_sticks(
                        old(mem)@,
                        ps,
                        avs,
                        (i + 1) as nat,
                        params.len() as nat,
                    );
                }
                return Err(e);
            },
        }
        i = i + 1;
    }
    Ok(arg_type_checker)
}

/// Checks a tree.
#[verifier::rlimit(40)]
pub fn match_node(mem: &mut Memory, ast: &ExprTree, fuel: u64) -> (r: Result<IntRep, RuntimeError>)
    ensures
        (final(mem)@, res_view(r)) == check(fuel as nat, old(mem)@, ast@),
    decreases fuel, 0nat,
{
    if fuel == 0 {
        return Err(RuntimeError::OutOfFuel);
    }
    let f = fuel - 1;
    match ast {
        ExprTree::Var(n) => read_from_var(mem, n.as_str()),
        ExprTree::Number(_) => Ok(IntRep::Number(0)),
        ExprTree::Bool(_) => Ok(IntRep::Bool(false)),
        ExprTree::Const(val) => match match_node(mem, val, f) {
            Ok(v) => Ok(IntRep::Const(Box::new(v))),
            Err(e) => Err(e),
        },
        ExprTree::BinNode(l, _op, r) => match check_operands(mem, l, r, f) {
            Ok((a, b)) => Ok(eval_bin_node(a, b)),
            Err(e) => Err(e),
        },
        ExprTree::NumCompNode(l, _op, r) => match check_operands(mem, l, r, f) {
            Ok((a, b)) => Ok(eval_num_comp_node(a, b)),
            Err(e) => Err(e),
        },
        ExprTree::LogNode(l, _op, r) => match check_operands(mem, l, r, f) {
            Ok((a, b)) => Ok(eval_log_node(a, b)),
            Err(e) => Err(e),
        },
        ExprTree::AssignNode(n, t, val) => match match_node(mem, val, f) {
            Ok(v) => eval_assign_node(mem, n, *t, v),
            Err(e) => Err(e),
        },
        ExprTree::SetVarNode(n, val) => assign_existing_var(mem, n, val, f),
        ExprTree::FnNode(n, p, r, b) => eval_function(mem, n, p, r, b),
        ExprTree::FunctionCall(n, p) => check_call_node_exec(mem, n, p, f),
        ExprTree::Return(e) => match match_node(mem, e, f) {
            Ok(v) => Ok(return_function(mem, v)),
            Err(e) => Err(e),
        },
        ExprTree::ParamNode(n, t) => assign_var(mem, n, IntRep::Undefined(*t)),
        ExprTree::WhileNode(c, b) => match check_operands(mem, c, b, f) {
            Ok((a, b)) => Ok(eval_cond_branch(a, b)),
            Err(e) => Err(e),
        },
        ExprTree::IfNode(c, b) => match check_operands(mem, c, b, f) {
            Ok((a, b)) => Ok(eval_cond_branch(a, b)),
            Err(e) => Err(e),
        },
        ExprTree::IfElseNode(c, b1, b2) => check_if_else_exec(mem, c, b1, b2, f),
        ExprTree::SeqNode(l, r) => match check_operands(mem, l, r, f) {
            Ok((a, b)) => Ok(eval_seq_node(a, b)),
            Err(e) => Err(e),
        },
        ExprTree::Print(b) => match_node(mem, b, f),
        ExprTree::Pass => Ok(IntRep::NewLine),
    }
}

/// Checks two trees, left first.
fn check_operands(mem: &mut Memory, l: &ExprTree, r: &ExprTree, fuel: u64) -> (res: Result<
    (IntRep, IntRep),
    RuntimeError,
>)
    ensures
        ({
            let (m, p) = check_pair(fuel as nat, old(mem)@, l@, r@);
            &&& final(mem)@ == m
            &&& match res {
                Ok((a, b)) => p == Ok::<(SpecIntRep, SpecIntRep), RuntimeError>((a@, b@)),
                Err(e) => p == Err::<(SpecIntRep, SpecIntRep), RuntimeError>(e),
            }
        }),
    decreases fuel, 1nat,
{
    let lv = match match_node(mem, l, fuel) {
        Ok(v) => v,
        Err(e) => {
            return Err(e);
        },
    };
    let rv = match match_node(mem, r, fuel) {
        Ok(v) => v,
        Err(e) => {
            return Err(e);
        },
    };
    Ok((lv, rv))
}

/// Checks the condition and both branches of an `if`/`else`.
fn check_if_else_exec(mem: &mut Memory, c: &ExprTree, b1: &ExprTree, b2: &ExprTree, fuel: u64) -> (r:
    Result<IntRep, RuntimeError>)
    ensures
        (final(mem)@, res_view(r)) == check_if_else(fuel as nat, old(mem)@, c@, b1@, b2@),
    decreases fuel, 2nat,
{
    let (cv, v1) = match check_operands(mem, c, b1, fuel) {
        Ok(p) => p,
        Err(e) => {
            return Err(e);
        },
    };
    let v2 = match match_node(mem, b2, fuel) {
        Ok(v) => v,
        Err(e) => {
            return Err(e);
        },
    };
    Ok(eval_cond_mult_branch(cv, v1, v2))
}

/// Checks an assignment to an existing variable.
pub fn assign_existing_var(mem: &mut Memory, n: &ExprTree, val: &ExprTree, fuel: u64) -> (r:
    Result<IntRep, RuntimeError>)
    ensures
        (final(mem)@, res_view(r)) == check_set_var(fuel as nat, old(mem)@, n@, val@),
    decreases fuel, 1nat,
{
    match n {
        ExprTree::Var(name) => {
            let value = match match_node(mem, val, fuel) {
                Ok(v) => v,
                Err(e) => {
                    return Err(e);
                },
            };
            let saved_value = match read_from_var(mem, name.as_str()) {
                Ok(v) => v,
                Err(e) => {
                    return Err(e);
                },
            };
            let value = get_val_from_const(value);
            if same_kind_exec(&value, &saved_value) {
                crate::memory::assign_var(mem, IntRep::Var(name.clone()), value)
            } else {
                Err(RuntimeError::AssignTypeMismatch)
            }
        },
        _ => Err(RuntimeError::NotAVariableName),
    }
}

proof fn lemma_check_args_error_sticks(fuel: nat, m: MemView, ps: Seq<SpecExpr>, k: nat, n: nat)
    requires
        k <= n <= ps.len(),
        check_args(fuel, m, ps.take(k as int)).1 is Err,
    ensures
        check_args(fuel, m, ps.take(n as int)) == check_args(fuel, m, ps.take(k as int)),
    decreases n - k,
{
    if k < n {
        lemma_check_args_error_sticks(fuel, m, ps, k, (n - 1) as nat);
        assert(ps.take(n as int).drop_last() =~= ps.take(n - 1));
    }
}

/// Checks the argument trees of a call, first to last.
pub fn get_function_params(mem: &mut Memory, fun_params: &FnHead, fuel: u64) -> (r: Result<
    Vec<IntRep>,
    RuntimeError,
>)
    ensures
        match spec_function_params_expr(fun_params@) {
            Err(e) => r == Err::<Vec<IntRep>, RuntimeError>(e) && final(mem)@ == old(mem)@,
            Ok(ps) => {
                let (m1, sr) = check_args(fuel as nat, old(mem)@, ps);
                &&& final(mem)@ == m1
                &&& match r {
                    Ok(vs) => sr == Ok::<Seq<SpecIntRep>, RuntimeError>(values_view(vs@)),
                    Err(e) => sr == Err::<Seq<SpecIntRep>, RuntimeError>(e),
                }
            },
        },
    decreases fuel, 1nat,
{
    let params = match get_function_params_expr(fun_params) {
        Ok(p) => p,
        Err(e) => {
            return Err(e);
        },
    };
    let ghost ps = exprs_view(params@);
    let mut params_int: Vec<IntRep> = Vec::new();
    let mut i: usize = 0;
    assert(ps.take(0) =~= Seq::<SpecExpr>::empty());
    assert(values_view(params_int@) =~= Seq::<SpecIntRep>::empty());
    while i < params.len()
        invariant
            i <= params.len(),
            ps == exprs_view(params@),
            spec_function_params_expr(fun_params@) == Ok::<Seq<SpecExpr>, RuntimeError>(ps),
            (mem@, Ok::<Seq<SpecIntRep>, RuntimeError>(values_view(params_int@))) == check_args(
                fuel as nat,
                old(mem)@,
                ps.take(i as int),
            ),
        decreases params.len() - i,
    {
        proof {
            assert(ps.take(i + 1).drop_last() =~= ps.take(i as int));
            assert(ps.take(i + 1).last() == params[i as int].to_spec());
        }
        let v = match match_node(mem, &params[i], fuel) {
            Ok(v) => v,
            Err(e) => {
                proof {
                    assert(check_args(fuel as nat, old(mem)@, ps.take(i + 1)) == (
                        mem@,
                        Err::<Seq<SpecIntRep>, RuntimeError>(e),
                    ));
                    lemma_check_args_error_sticks(fuel as nat, old(mem)@, ps, (i + 1) as nat, ps.len());
                    assert(ps.take(ps.len() as int) =~= ps);
                }
                return Err(e);
            },
        };
        let ghost before = params_int@;
        params_int.push(v);
        assert(values_view(params_int@) =~= values_view(before).push(v@));
        i = i + 1;
    }
    assert(ps.take(params.len() as int) =~= ps);
    Ok(params_int)
}

/// A call node: the name, then the arguments, then the checked call.
fn check_call_node_exec(mem: &mut Memory, n: &FnHead, p: &FnHead, fuel: u64) -> (r: Result<
    IntRep,
    RuntimeError,
>)
    ensures
        (final(mem)@, res_view(r)) == check_call_node(fuel as nat, old(mem)@, n@, p@),
    decreases fuel, 2nat,
{
    let name = match get_function_name(n) {
        Ok(name) => name,
        Err(e) => {
            return Err(e);
        },
    };
    let args = match get_function_params(mem, p, fuel) {
        Ok(a) => a,
        Err(e) => {
            return Err(e);
        },
    };
    call_function(mem, name, args, fuel)
}

/// Checks a call of the named function with the given (checked) arguments.
pub fn call_function(mem: &mut Memory, name: String, args: Vec<IntRep>, fuel: u64) -> (r: Result<
    IntRep,
    RuntimeError,
>)
    ensures
        (final(mem)@, res_view(r)) == check_call(fuel as nat, old(mem)@, name@, values_view(args@)),
    decreases fuel, 1nat,
{
    push_on_mem_stack(mem);
    let (branch, params) = match read_function(mem, name.clone()) {
        Ok(x) => x,
        Err(e) => {
            return Err(e);
        },
    };
    if params.len() != args.len() {
        return Err(RuntimeError::WrongArgCount { expected: params.len(), found: args.len() });
    }
    let return_type = match get_function_type(mem, name) {
        Ok(t) => t,
        Err(e) => {
            return Err(e);
        },
    };
    push_on_return_stack(mem, return_type);
    let arg_type_checker = match check_bind(mem, &params, &args) {
        Ok(c) => c,
        Err(e) => {
            return Err(e);
        },
    };
    let function_type = match match_node(mem, &branch, fuel) {
        Ok(v) => v,
        Err(e) => {
            return Err(e);
        },
    };
    pop_from_mem_stack(mem);
    let return_type = pop_from_return_stack(mem);
    Ok(call_result(function_type, return_type, arg_type_checker))
}

// ---------------------------------------------------------------------------
// Programs
// ---------------------------------------------------------------------------

/// Checks the top-level trees from the last to the first; stops at the first error.
pub open spec fn check_defs(fuel: nat, m: MemView, defs: Seq<SpecExpr>) -> (
    MemView,
    Result<(), RuntimeError>,
)
    decreases defs.len(),
{
    if defs.len() == 0 {
        (m, Ok(()))
    } else {
        let (m1, r) = check(fuel, m, defs.last());
        match r {
            Err(e) => (m1, Err(e)),
            Ok(_) => check_defs(fuel, m1, defs.drop_last()),
        }
    }
}

/// A program check from memory `m`: open a scope, check the top-level trees
/// from the last to the first, then check a call of `main` without arguments.
pub open spec fn check_program(fuel: nat, m: MemView, defs: Seq<SpecExpr>) -> (
    MemView,
    Result<SpecIntRep, RuntimeError>,
) {
    let m0 = spec_push_scope(m);
    let (m1, r) = check_defs(fuel, m0, defs);
    match r {
        Err(e) => (m1, Err(e)),
        Ok(_) => check_call(fuel, m1, "main"@, Seq::empty()),
    }
}

/// Type checks a program on the memory, which keeps what checking left in it.
/// `Ok(None)`: it passed; `Ok(Some(message))`: it failed with that type
/// error; `Err`: checking stopped.
pub fn run(mem: &mut Memory, ast: Vec<Box<ExprTree>>, fuel: u64) -> (r: Result<
    Option<String>,
    RuntimeError,
>)
    ensures
        final(mem)@ == check_program(fuel as nat, old(mem)@, exprs_view(ast@)).0,
        match check_program(fuel as nat, old(mem)@, exprs_view(ast@)).1 {
            Ok(SpecIntRep::TypeError(e)) => r matches Ok(Some(s)) && s@ == e,
            Ok(_) => r == Ok::<Option<String>, RuntimeError>(None),
            Err(e) => r == Err::<Option<String>, RuntimeError>(e),
        },
{
    let ghost defs = exprs_view(ast@);
    push_on_mem_stack(mem);
    let ghost m0 = mem@;
    let mut i = ast.len();
    assert(defs.take(ast.len() as int) =~= defs);
    while i > 0
        invariant
            i <= ast.len(),
            defs == exprs_view(ast@),
            m0 == spec_push_scope(old(mem)@),
            check_defs(fuel as nat, m0, defs) == check_defs(fuel as nat, mem@, defs.take(i as int)),
        decreases i,
    {
        i = i - 1;
        proof {
            assert(defs.take(i + 1).drop_last() =~= defs.take(i as int));
            assert(defs.take(i + 1).last() == ast[i as int].to_spec());
        }
        match match_node(mem, &ast[i], fuel) {
            Ok(_) => {},
            Err(e) => {
                return Err(e);
            },
        }
    }
    assert(defs.take(0) =~= Seq::<SpecExpr>::empty());
    let main_name = "main".to_string();
    proof {
        vstd::string::to_string_from_display_ensures_for_str("main", main_name);
    }
    let args: Vec<IntRep> = Vec::new();
    assert(values_view(args@) =~= Seq::<SpecIntRep>::empty());
    match call_function(mem, main_name, args, fuel) {
        Ok(IntRep::TypeError(e)) => Ok(Some(e)),
        Ok(_) => Ok(None),
        Err(e) => Err(e),
    }
}

// ---------------------------------------------------------------------------
// Laws
// ---------------------------------------------------------------------------

/// A type error anywhere in a call makes the call's check a type error: in the
/// checked body, in the returned value, or in an argument that does not fit
/// its parameter (first found in that order). Without one, the call checks as
/// the value returned.
pub proof fn law_call_type_error(ft: SpecIntRep, rt: SpecIntRep, chk: SpecIntRep)
    ensures
        ft is TypeError ==> spec_call_result(ft, rt, chk) == ft,
        !(ft is TypeError) && rt is TypeError ==> spec_call_result(ft, rt, chk) == rt,
        !(ft is TypeError) && !(rt is TypeError) && chk is TypeError ==> spec_call_result(
            ft,
            rt,
            chk,
        ) == chk,
        !(ft is TypeError) && !(rt is TypeError) && !(chk is TypeError) ==> spec_call_result(
            ft,
            rt,
            chk,
        ) == rt,
{
}

/// A type error in either part of a sequence, or in a condition or branch, is
/// the check's result; a number as a condition is a type error.
pub proof fn law_type_errors_propagate(a: SpecIntRep, b: SpecIntRep, c: SpecIntRep)
    ensures
        a is TypeError ==> spec_seq_node(a, b) == a && spec_cond_branch(a, b) == a
            && spec_cond_mult_branch(a, b, c) == a,
        !(a is TypeError) && b is TypeError ==> spec_seq_node(a, b) == b,
        !(a is TypeError) && !(b is TypeError) ==> spec_seq_node(a, b) == SpecIntRep::NewLine,
        a is Number ==> spec_cond_branch(a, b) == cond_type_error() && spec_cond_mult_branch(
            a,
            b,
            c,
        ) == cond_type_error(),
{
}

/// Operands of different kinds (after one `Const` layer) are a type error;
/// operands of the same kind give the operator's result type.
pub proof fn law_operand_kinds(l: SpecIntRep, r: SpecIntRep)
    ensures
        same_kind(strip_const(l), strip_const(r)) ==> spec_same_or(
            l,
            r,
            SpecIntRep::Number(0),
            bin_mismatch(),
        ) == SpecIntRep::Number(0) && spec_same_or(
            l,
            r,
            SpecIntRep::Bool(true),
            comp_mismatch(),
        ) == SpecIntRep::Bool(true),
        !same_kind(strip_const(l), strip_const(r)) ==> spec_same_or(
            l,
            r,
            SpecIntRep::Number(0),
            bin_mismatch(),
        ) == bin_mismatch() && spec_same_or(l, r, SpecIntRep::Bool(true), comp_mismatch())
            == comp_mismatch() && spec_same_or(l, r, SpecIntRep::Bool(true), log_mismatch())
            == log_mismatch(),
{
}

/// A parameter node that declares a variable, with its declared type.
pub open spec fn declared_param_type(p: SpecExpr) -> Option<Type> {
    match p {
        SpecExpr::ParamNode(b, t) => match *b {
            SpecExpr::Var(_) => Some(t),
            _ => None,
        },
        _ => None,
    }
}

/// Some argument among the first `n` does not fit its parameter's declared type.
pub open spec fn some_arg_misfits(params: Seq<SpecExpr>, args: Seq<SpecIntRep>, n: nat) -> bool {
    exists|i: int|
        0 <= i < n && #[trigger] declared_param_type(params[i]) is Some && !arg_fits(
            args[i],
            declared_param_type(params[i]).unwrap(),
        )
}

proof fn lemma_misfit_sticks(m: MemView, params: Seq<SpecExpr>, args: Seq<SpecIntRep>, n: nat)
    requires
        n <= params.len(),
        params.len() == args.len(),
        some_arg_misfits(params, args, n),
        spec_check_bind(m, params, args, n).1 is Ok,
    ensures
        spec_check_bind(m, params, args, n).1 == Ok::<SpecIntRep, RuntimeError>(args_type_error()),
    decreases n,
{
    let i = choose|i: int|
        0 <= i < n && #[trigger] declared_param_type(params[i]) is Some && !arg_fits(
            args[i],
            declared_param_type(params[i]).unwrap(),
        );
    if i < n - 1 {
        assert(some_arg_misfits(params, args, (n - 1) as nat));
        lemma_misfit_sticks(m, params, args, (n - 1) as nat);
    }
}

/// Arguments are checked against their parameters: when an argument does not
/// fit the declared type of its parameter, checking the call gives a type
/// error (or stops with an error).
pub proof fn law_argument_misfit_is_type_error(
    fuel: nat,
    m: MemView,
    name: Seq<char>,
    args: Seq<SpecIntRep>,
)
    requires
        spec_read_function(spec_push_scope(m), name) matches Ok((_, params)) && params.len()
            == args.len() && some_arg_misfits(params, args, params.len()),
        check_call(fuel, m, name, args).1 is Ok,
    ensures
        check_call(fuel, m, name, args).1 matches Ok(v) && v is TypeError,
{
    let m1 = spec_push_scope(m);
    let (body, params) = spec_read_function(m1, name).unwrap();
    let rt = spec_get_function_type(m1, name).unwrap();
    let m2 = spec_push_return(m1, rt);
    lemma_misfit_sticks(m2, params, args, params.len());
}

} // verus!

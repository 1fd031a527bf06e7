//! Laws about the budget of the interpreter and of the type checker: once a
//! run completes without running out of budget, any larger budget gives the
//! same run.
use vstd::prelude::*;
use crate::ast::{SpecExpr, SpecFnHead};
use crate::error::RuntimeError;
use crate::interpret::{
    MachineView, args_spec, assign_existing_spec, assign_spec, call_node_spec, call_spec,
    defs_spec, eval, head_len, if_else_node_spec, if_else_spec, if_node_spec, if_spec,
    operands_spec, print_spec, return_spec, run_spec, spec_function_name,
    while_spec, with_mem,
};
use crate::memory::{SpecIntRep, spec_push_scope, spec_read_function};
use crate::interpret::spec_bind_params;
use crate::memory::{MemView, spec_get_function_type, spec_push_return};
use crate::type_checker::{
    check, check_args, check_call, check_call_node, check_defs, check_if_else, check_pair,
    check_program, check_set_var, spec_check_bind,
};

verus! {

/// The result is the error of an exhausted budget.
pub open spec fn exhausted<T>(r: Result<T, RuntimeError>) -> bool {
    r matches Err(RuntimeError::OutOfFuel)
}

proof fn lemma_eval_mono(f1: nat, f2: nat, st: MachineView, e: SpecExpr)
    requires
        f1 <= f2,
        !exhausted(eval(f1, st, e).1),
    ensures
        eval(f2, st, e) == eval(f1, st, e),
    decreases f1, 0nat,
{
    let g1 = (f1 - 1) as nat;
    let g2 = (f2 - 1) as nat;
    match e {
        SpecExpr::BinNode(l, _, r) => lemma_operands_mono(g1, g2, st, *l, *r),
        SpecExpr::NumCompNode(l, _, r) => lemma_operands_mono(g1, g2, st, *l, *r),
        SpecExpr::LogNode(l, _, r) => lemma_operands_mono(g1, g2, st, *l, *r),
        SpecExpr::SeqNode(l, r) => lemma_operands_mono(g1, g2, st, *l, *r),
        SpecExpr::Print(x) => lemma_print_mono(g1, g2, st, *x),
        SpecExpr::AssignNode(n, _, val) => lemma_assign_mono(g1, g2, st, *n, *val),
        SpecExpr::SetVarNode(n, val) => lemma_assign_existing_mono(g1, g2, st, *n, *val),
        SpecExpr::IfNode(c, b) => lemma_if_node_mono(g1, g2, st, *c, *b),
        SpecExpr::IfElseNode(c, b1, b2) => lemma_if_else_node_mono(g1, g2, st, *c, *b1, *b2),
        SpecExpr::WhileNode(c, b) => lemma_while_mono(g1, g2, st, *c, *b),
        SpecExpr::FunctionCall(n, p) => lemma_call_node_mono(g1, g2, st, n, p),
        SpecExpr::Return(x) => lemma_return_mono(g1, g2, st, *x),
        _ => {},
    }
}

proof fn lemma_while_mono(f1: nat, f2: nat, st: MachineView, c: SpecExpr, b: SpecExpr)
    requires
        f1 <= f2,
        !exhausted(while_spec(f1, st, c, b).1),
    ensures
        while_spec(f2, st, c, b) == while_spec(f1, st, c, b),
    decreases f1, 0nat,
{
    let g1 = (f1 - 1) as nat;
    let g2 = (f2 - 1) as nat;
    lemma_eval_mono(g1, g2, st, c);
    let (s1, cv) = eval(g1, st, c);
    if cv == Ok::<SpecIntRep, RuntimeError>(SpecIntRep::Bool(true)) {
        lemma_eval_mono(g1, g2, s1, b);
        let (s2, bv) = eval(g1, s1, b);
        if bv is Ok {
            lemma_while_mono(g1, g2, s2, c, b);
        }
    }
}

proof fn lemma_operands_mono(f1: nat, f2: nat, st: MachineView, l: SpecExpr, r: SpecExpr)
    requires
        f1 <= f2,
        !exhausted(operands_spec(f1, st, l, r).1),
    ensures
        operands_spec(f2, st, l, r) == operands_spec(f1, st, l, r),
    decreases f1, 1nat,
{
    lemma_eval_mono(f1, f2, st, l);
    let (s1, lv) = eval(f1, st, l);
    if lv is Ok {
        lemma_eval_mono(f1, f2, s1, r);
    }
}

proof fn lemma_print_mono(f1: nat, f2: nat, st: MachineView, x: SpecExpr)
    requires
        f1 <= f2,
        !exhausted(print_spec(f1, st, x).1),
    ensures
        print_spec(f2, st, x) == print_spec(f1, st, x),
    decreases f1, 1nat,
{
    lemma_eval_mono(f1, f2, st, x);
}

proof fn lemma_return_mono(f1: nat, f2: nat, st: MachineView, x: SpecExpr)
    requires
        f1 <= f2,
        !exhausted(return_spec(f1, st, x).1),
    ensures
        return_spec(f2, st, x) == return_spec(f1, st, x),
    decreases f1, 1nat,
{
    lemma_eval_mono(f1, f2, st, x);
}

proof fn lemma_assign_mono(f1: nat, f2: nat, st: MachineView, n: SpecExpr, val: SpecExpr)
    requires
        f1 <= f2,
        !exhausted(assign_spec(f1, st, n, val).1),
    ensures
        assign_spec(f2, st, n, val) == assign_spec(f1, st, n, val),
    decreases f1, 1nat,
{
    if n is Var {
        lemma_eval_mono(f1, f2, st, val);
    }
}

proof fn lemma_assign_existing_mono(f1: nat, f2: nat, st: MachineView, n: SpecExpr, val: SpecExpr)
    requires
        f1 <= f2,
        !exhausted(assign_existing_spec(f1, st, n, val).1),
    ensures
        assign_existing_spec(f2, st, n, val) == assign_existing_spec(f1, st, n, val),
    decreases f1, 1nat,
{
    if n is Var {
        lemma_eval_mono(f1, f2, st, val);
    }
}

proof fn lemma_if_mono(f1: nat, f2: nat, st: MachineView, cv: SpecIntRep, b: SpecExpr)
    requires
        f1 <= f2,
        !exhausted(if_spec(f1, st, cv, b).1),
    ensures
        if_spec(f2, st, cv, b) == if_spec(f1, st, cv, b),
    decreases f1, 1nat,
{
    if cv == SpecIntRep::Bool(true) {
        lemma_eval_mono(f1, f2, st, b);
    }
}

proof fn lemma_if_else_mono(
    f1: nat,
    f2: nat,
    st: MachineView,
    cv: SpecIntRep,
    b1: SpecExpr,
    b2: SpecExpr,
)
    requires
        f1 <= f2,
        !exhausted(if_else_spec(f1, st, cv, b1, b2).1),
    ensures
        if_else_spec(f2, st, cv, b1, b2) == if_else_spec(f1, st, cv, b1, b2),
    decreases f1, 1nat,
{
    if let SpecIntRep::Bool(c) = cv {
        lemma_eval_mono(f1, f2, st, if c { b1 } else { b2 });
    }
}

proof fn lemma_if_node_mono(f1: nat, f2: nat, st: MachineView, c: SpecExpr, b: SpecExpr)
    requires
        f1 <= f2,
        !exhausted(if_node_spec(f1, st, c, b).1),
    ensures
        if_node_spec(f2, st, c, b) == if_node_spec(f1, st, c, b),
    decreases f1, 2nat,
{
    lemma_eval_mono(f1, f2, st, c);
    let (s1, cv) = eval(f1, st, c);
    if cv is Ok {
        lemma_if_mono(f1, f2, s1, cv.unwrap(), b);
    }
}

proof fn lemma_if_else_node_mono(
    f1: nat,
    f2: nat,
    st: MachineView,
    c: SpecExpr,
    b1: SpecExpr,
    b2: SpecExpr,
)
    requires
        f1 <= f2,
        !exhausted(if_else_node_spec(f1, st, c, b1, b2).1),
    ensures
        if_else_node_spec(f2, st, c, b1, b2) == if_else_node_spec(f1, st, c, b1, b2),
    decreases f1, 2nat,
{
    lemma_eval_mono(f1, f2, st, c);
    let (s1, cv) = eval(f1, st, c);
    if cv is Ok {
        lemma_if_else_mono(f1, f2, s1, cv.unwrap(), b1, b2);
    }
}

proof fn lemma_args_mono(f1: nat, f2: nat, st: MachineView, ps: Seq<SpecExpr>)
    requires
        f1 <= f2,
        !exhausted(args_spec(f1, st, ps).1),
    ensures
        args_spec(f2, st, ps) == args_spec(f1, st, ps),
    decreases f1, ps.len() + 1,
{
    if ps.len() > 0 {
        lemma_args_mono(f1, f2, st, ps.drop_last());
        let (s1, r) = args_spec(f1, st, ps.drop_last());
        if r is Ok {
            lemma_eval_mono(f1, f2, s1, ps.last());
        }
    }
}

proof fn lemma_call_node_mono(f1: nat, f2: nat, st: MachineView, n: SpecFnHead, p: SpecFnHead)
    requires
        f1 <= f2,
        !exhausted(call_node_spec(f1, st, n, p).1),
    ensures
        call_node_spec(f2, st, n, p) == call_node_spec(f1, st, n, p),
    decreases f1, head_len(p) + 2,
{
    if let Ok(name) = spec_function_name(n) {
        if let SpecFnHead::Params(ps) = p {
            lemma_args_mono(f1, f2, st, ps);
            let (s1, args) = args_spec(f1, st, ps);
            if let Ok(a) = args {
                lemma_call_mono(f1, f2, s1, name, a);
            }
        }
    }
}

proof fn lemma_call_mono(f1: nat, f2: nat, st: MachineView, name: Seq<char>, args: Seq<SpecIntRep>)
    requires
        f1 <= f2,
        !exhausted(call_spec(f1, st, name, args).1),
    ensures
        call_spec(f2, st, name, args) == call_spec(f1, st, name, args),
    decreases f1, 1nat,
{
    let m1 = spec_push_scope(st.mem);
    if let Ok((body, params)) = spec_read_function(m1, name) {
        if params.len() == args.len() {
            let (m2, br) = spec_bind_params(m1, params, args, params.len());
            if br is Ok {
                lemma_eval_mono(f1, f2, with_mem(st, m2), body);
            }
        }
    }
}

proof fn lemma_defs_mono(f1: nat, f2: nat, st: MachineView, defs: Seq<SpecExpr>)
    requires
        f1 <= f2,
        !exhausted(defs_spec(f1, st, defs).1),
    ensures
        defs_spec(f2, st, defs) == defs_spec(f1, st, defs),
    decreases defs.len(),
{
    if defs.len() > 0 {
        lemma_eval_mono(f1, f2, st, defs.last());
        let (s1, r) = eval(f1, st, defs.last());
        if r is Ok {
            lemma_defs_mono(f1, f2, s1, defs.drop_last());
        }
    }
}

/// A larger budget changes nothing once an evaluation completes: if
/// evaluating with budget `f1` does not stop for want of budget, evaluating
/// with any budget `f2 >= f1` ends in the same state with the same result.
pub proof fn law_eval_fuel_monotone(f1: nat, f2: nat, st: MachineView, e: SpecExpr)
    requires
        f1 <= f2,
        !exhausted(eval(f1, st, e).1),
    ensures
        eval(f2, st, e) == eval(f1, st, e),
{
    lemma_eval_mono(f1, f2, st, e);
}

/// The same for a whole program run from any machine state: the final state
/// (what it prints, what it leaves in memory) and what `main` returns do not
/// depend on the budget, once the budget suffices.
pub proof fn law_run_fuel_monotone(f1: nat, f2: nat, st: MachineView, defs: Seq<SpecExpr>)
    requires
        f1 <= f2,
        !exhausted(run_spec(f1, st, defs).1),
    ensures
        run_spec(f2, st, defs) == run_spec(f1, st, defs),
{
    lemma_defs_mono(f1, f2, st, defs);
    let (s1, r) = defs_spec(f1, st, defs);
    if r is Ok {
        lemma_call_mono(f1, f2, s1, "main"@, Seq::empty());
    }
}

proof fn lemma_check_mono(f1: nat, f2: nat, m: MemView, e: SpecExpr)
    requires
        f1 <= f2,
        !exhausted(check(f1, m, e).1),
    ensures
        check(f2, m, e) == check(f1, m, e),
    decreases f1, 0nat,
{
    let g1 = (f1 - 1) as nat;
    let g2 = (f2 - 1) as nat;
    match e {
        SpecExpr::Const(x) => lemma_check_mono(g1, g2, m, *x),
        SpecExpr::BinNode(l, _, r) => lemma_check_pair_mono(g1, g2, m, *l, *r),
        SpecExpr::NumCompNode(l, _, r) => lemma_check_pair_mono(g1, g2, m, *l, *r),
        SpecExpr::LogNode(l, _, r) => lemma_check_pair_mono(g1, g2, m, *l, *r),
        SpecExpr::AssignNode(_, _, val) => lemma_check_mono(g1, g2, m, *val),
        SpecExpr::SetVarNode(n, val) => lemma_check_set_var_mono(g1, g2, m, *n, *val),
        SpecExpr::FunctionCall(n, p) => lemma_check_call_node_mono(g1, g2, m, n, p),
        SpecExpr::Return(x) => lemma_check_mono(g1, g2, m, *x),
        SpecExpr::WhileNode(c, b) => lemma_check_pair_mono(g1, g2, m, *c, *b),
        SpecExpr::IfNode(c, b) => lemma_check_pair_mono(g1, g2, m, *c, *b),
        SpecExpr::IfElseNode(c, b1, b2) => lemma_check_if_else_mono(g1, g2, m, *c, *b1, *b2),
        SpecExpr::SeqNode(l, r) => lemma_check_pair_mono(g1, g2, m, *l, *r),
        SpecExpr::Print(x) => lemma_check_mono(g1, g2, m, *x),
        _ => {},
    }
}

proof fn lemma_check_pair_mono(f1: nat, f2: nat, m: MemView, l: SpecExpr, r: SpecExpr)
    requires
        f1 <= f2,
        !exhausted(check_pair(f1, m, l, r).1),
    ensures
        check_pair(f2, m, l, r) == check_pair(f1, m, l, r),
    decreases f1, 1nat,
{
    lemma_check_mono(f1, f2, m, l);
    let (m1, lv) = check(f1, m, l);
    if lv is Ok {
        lemma_check_mono(f1, f2, m1, r);
    }
}

proof fn lemma_check_if_else_mono(
    f1: nat,
    f2: nat,
    m: MemView,
    c: SpecExpr,
    b1: SpecExpr,
    b2: SpecExpr,
)
    requires
        f1 <= f2,
        !exhausted(check_if_else(f1, m, c, b1, b2).1),
    ensures
        check_if_else(f2, m, c, b1, b2) == check_if_else(f1, m, c, b1, b2),
    decreases f1, 2nat,
{
    lemma_check_pair_mono(f1, f2, m, c, b1);
    let (m1, p) = check_pair(f1, m, c, b1);
    if p is Ok {
        lemma_check_mono(f1, f2, m1, b2);
    }
}

proof fn lemma_check_set_var_mono(f1: nat, f2: nat, m: MemView, n: SpecExpr, val: SpecExpr)
    requires
        f1 <= f2,
        !exhausted(check_set_var(f1, m, n, val).1),
    ensures
        check_set_var(f2, m, n, val) == check_set_var(f1, m, n, val),
    decreases f1, 1nat,
{
    if n is Var {
        lemma_check_mono(f1, f2, m, val);
    }
}

proof fn lemma_check_args_mono(f1: nat, f2: nat, m: MemView, ps: Seq<SpecExpr>)
    requires
        f1 <= f2,
        !exhausted(check_args(f1, m, ps).1),
    ensures
        check_args(f2, m, ps) == check_args(f1, m, ps),
    decreases f1, ps.len() + 1,
{
    if ps.len() > 0 {
        lemma_check_args_mono(f1, f2, m, ps.drop_last());
        let (m1, r) = check_args(f1, m, ps.drop_last());
        if r is Ok {
            lemma_check_mono(f1, f2, m1, ps.last());
        }
    }
}

proof fn lemma_check_call_node_mono(f1: nat, f2: nat, m: MemView, n: SpecFnHead, p: SpecFnHead)
    requires
        f1 <= f2,
        !exhausted(check_call_node(f1, m, n, p).1),
    ensures
        check_call_node(f2, m, n, p) == check_call_node(f1, m, n, p),
    decreases f1, head_len(p) + 2,
{
    if let Ok(name) = spec_function_name(n) {
        if let SpecFnHead::Params(ps) = p {
            lemma_check_args_mono(f1, f2, m, ps);
            let (m1, args) = check_args(f1, m, ps);
            if let Ok(a) = args {
                lemma_check_call_mono(f1, f2, m1, name, a);
            }
        }
    }
}

proof fn lemma_check_call_mono(f1: nat, f2: nat, m: MemView, name: Seq<char>, args: Seq<SpecIntRep>)
    requires
        f1 <= f2,
        !exhausted(check_call(f1, m, name, args).1),
    ensures
        check_call(f2, m, name, args) == check_call(f1, m, name, args),
    decreases f1, 1nat,
{
    let m1 = spec_push_scope(m);
    if let Ok((body, params)) = spec_read_function(m1, name) {
        if params.len() == args.len() {
            if let Ok(rt) = spec_get_function_type(m1, name) {
                let m2 = spec_push_return(m1, rt);
                let (m3, br) = spec_check_bind(m2, params, args, params.len());
                if br is Ok {
                    lemma_check_mono(f1, f2, m3, body);
                }
            }
        }
    }
}

proof fn lemma_check_defs_mono(f1: nat, f2: nat, m: MemView, defs: Seq<SpecExpr>)
    requires
        f1 <= f2,
        !exhausted(check_defs(f1, m, defs).1),
    ensures
        check_defs(f2, m, defs) == check_defs(f1, m, defs),
    decreases defs.len(),
{
    if defs.len() > 0 {
        lemma_check_mono(f1, f2, m, defs.last());
        let (m1, r) = check(f1, m, defs.last());
        if r is Ok {
            lemma_check_defs_mono(f1, f2, m1, defs.drop_last());
        }
    }
}

/// The type checker's verdict does not depend on the budget, once the budget
/// suffices: if checking a program with budget `f1` does not stop for want of
/// budget, checking it with any budget `f2 >= f1` gives the same verdict.
pub proof fn law_check_fuel_monotone(f1: nat, f2: nat, m: MemView, defs: Seq<SpecExpr>)
    requires
        f1 <= f2,
        !exhausted(check_program(f1, m, defs).1),
    ensures
        check_program(f2, m, defs) == check_program(f1, m, defs),
{
    let m0 = spec_push_scope(m);
    lemma_check_defs_mono(f1, f2, m0, defs);
    let (m1, r) = check_defs(f1, m0, defs);
    if r is Ok {
        lemma_check_call_mono(f1, f2, m1, "main"@, Seq::empty());
    }
}

} // verus!

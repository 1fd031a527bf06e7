//! Laws of the interpreter and of the type checker about memory scopes:
//! evaluation and checking only ever change the innermost scope, and a
//! completed call leaves its caller's scopes as they were.
use vstd::prelude::*;
use crate::ast::{SpecExpr, SpecFnHead};
use crate::error::RuntimeError;
use crate::interpret::{
    MachineView, args_spec, assign_existing_spec, assign_spec, call_node_spec, call_spec, eval,
    head_len, if_else_node_spec, if_else_spec, if_node_spec, if_spec, operands_spec,
    print_spec, return_spec, spec_bind_params, spec_function_name, while_spec, with_mem,
};
use crate::memory::{MemView, SpecIntRep, spec_get_function_type, spec_pop_return, spec_pop_scope, spec_push_return, spec_push_scope, spec_read_function, spec_read_var, is_readable};
use crate::type_checker::{
    check, check_args, check_call, check_call_node, check_if_else, check_pair, check_set_var,
    spec_check_bind,
};

verus! {

/// `b` has as many scopes as `a`, and all of them but the innermost are equal.
pub open spec fn outer_kept(a: MemView, b: MemView) -> bool {
    &&& b.scopes.len() == a.scopes.len()
    &&& forall|i: int| 0 <= i < a.scopes.len() - 1 ==> #[trigger] b.scopes[i] == a.scopes[i]
}

proof fn lemma_outer_kept_trans(a: MemView, b: MemView, c: MemView)
    requires
        outer_kept(a, b),
        outer_kept(b, c),
    ensures
        outer_kept(a, c),
{
    assert forall|i: int| 0 <= i < a.scopes.len() - 1 implies #[trigger] c.scopes[i]
        == a.scopes[i] by {
        assert(b.scopes[i] == a.scopes[i]);
    }
}

proof fn lemma_bind_keeps(m: MemView, params: Seq<SpecExpr>, args: Seq<SpecIntRep>, n: nat)
    ensures
        spec_bind_params(m, params, args, n).1 is Ok ==> outer_kept(
            m,
            spec_bind_params(m, params, args, n).0,
        ),
    decreases n,
{
    if n > 0 {
        lemma_bind_keeps(m, params, args, (n - 1) as nat);
        let (m1, r) = spec_bind_params(m, params, args, (n - 1) as nat);
        if r is Ok && spec_bind_params(m, params, args, n).1 is Ok {
            lemma_outer_kept_trans(m, m1, spec_bind_params(m, params, args, n).0);
        }
    }
}

proof fn lemma_eval_keeps(fuel: nat, st: MachineView, e: SpecExpr)
    ensures
        eval(fuel, st, e).1 is Ok ==> outer_kept(st.mem, eval(fuel, st, e).0.mem),
    decreases fuel, 0nat,
{
    if fuel > 0 {
        let f = (fuel - 1) as nat;
        match e {
            SpecExpr::BinNode(l, _, r) => lemma_operands_keeps(f, st, *l, *r),
            SpecExpr::NumCompNode(l, _, r) => lemma_operands_keeps(f, st, *l, *r),
            SpecExpr::LogNode(l, _, r) => lemma_operands_keeps(f, st, *l, *r),
            SpecExpr::SeqNode(l, r) => lemma_operands_keeps(f, st, *l, *r),
            SpecExpr::Print(x) => lemma_print_keeps(f, st, *x),
            SpecExpr::AssignNode(n, _, val) => lemma_assign_keeps(f, st, *n, *val),
            SpecExpr::SetVarNode(n, val) => lemma_assign_existing_keeps(f, st, *n, *val),
            SpecExpr::IfNode(c, b) => lemma_if_node_keeps(f, st, *c, *b),
            SpecExpr::IfElseNode(c, b1, b2) => lemma_if_else_node_keeps(f, st, *c, *b1, *b2),
            SpecExpr::WhileNode(c, b) => lemma_while_keeps(f, st, *c, *b),
            SpecExpr::FunctionCall(n, p) => lemma_call_node_keeps(f, st, n, p),
            SpecExpr::Return(x) => lemma_return_keeps(f, st, *x),
            _ => {},
        }
    }
}

proof fn lemma_while_keeps(fuel: nat, st: MachineView, c: SpecExpr, b: SpecExpr)
    ensures
        while_spec(fuel, st, c, b).1 is Ok ==> outer_kept(
            st.mem,
            while_spec(fuel, st, c, b).0.mem,
        ),
    decreases fuel, 0nat,
{
    if fuel > 0 {
        let f = (fuel - 1) as nat;
        lemma_eval_keeps(f, st, c);
        let (s1, cv) = eval(f, st, c);
        if cv == Ok::<SpecIntRep, RuntimeError>(SpecIntRep::Bool(true)) {
            lemma_eval_keeps(f, s1, b);
            let (s2, bv) = eval(f, s1, b);
            if bv is Ok {
                lemma_while_keeps(f, s2, c, b);
                if while_spec(f, s2, c, b).1 is Ok {
                    lemma_outer_kept_trans(st.mem, s1.mem, s2.mem);
                    lemma_outer_kept_trans(st.mem, s2.mem, while_spec(f, s2, c, b).0.mem);
                }
            }
        }
    }
}

proof fn lemma_operands_keeps(fuel: nat, st: MachineView, l: SpecExpr, r: SpecExpr)
    ensures
        operands_spec(fuel, st, l, r).1 is Ok ==> outer_kept(
            st.mem,
            operands_spec(fuel, st, l, r).0.mem,
        ),
    decreases fuel, 1nat,
{
    lemma_eval_keeps(fuel, st, l);
    let (s1, lv) = eval(fuel, st, l);
    if lv is Ok {
        lemma_eval_keeps(fuel, s1, r);
        let (s2, rv) = eval(fuel, s1, r);
        if rv is Ok {
            lemma_outer_kept_trans(st.mem, s1.mem, s2.mem);
        }
    }
}

proof fn lemma_print_keeps(fuel: nat, st: MachineView, x: SpecExpr)
    ensures
        print_spec(fuel, st, x).1 is Ok ==> outer_kept(st.mem, print_spec(fuel, st, x).0.mem),
    decreases fuel, 1nat,
{
    lemma_eval_keeps(fuel, st, x);
}

proof fn lemma_return_keeps(fuel: nat, st: MachineView, x: SpecExpr)
    ensures
        return_spec(fuel, st, x).1 is Ok ==> outer_kept(st.mem, return_spec(fuel, st, x).0.mem),
    decreases fuel, 1nat,
{
    lemma_eval_keeps(fuel, st, x);
}

proof fn lemma_assign_keeps(fuel: nat, st: MachineView, n: SpecExpr, val: SpecExpr)
    ensures
        assign_spec(fuel, st, n, val).1 is Ok ==> outer_kept(
            st.mem,
            assign_spec(fuel, st, n, val).0.mem,
        ),
    decreases fuel, 1nat,
{
    if n is Var {
        lemma_eval_keeps(fuel, st, val);
        let (s1, v) = eval(fuel, st, val);
        if v is Ok && assign_spec(fuel, st, n, val).1 is Ok {
            lemma_outer_kept_trans(st.mem, s1.mem, assign_spec(fuel, st, n, val).0.mem);
        }
    }
}

proof fn lemma_assign_existing_keeps(fuel: nat, st: MachineView, n: SpecExpr, val: SpecExpr)
    ensures
        assign_existing_spec(fuel, st, n, val).1 is Ok ==> outer_kept(
            st.mem,
            assign_existing_spec(fuel, st, n, val).0.mem,
        ),
    decreases fuel, 1nat,
{
    if n is Var {
        lemma_eval_keeps(fuel, st, val);
        let (s1, v) = eval(fuel, st, val);
        if v is Ok && assign_existing_spec(fuel, st, n, val).1 is Ok {
            lemma_outer_kept_trans(
                st.mem,
                s1.mem,
                assign_existing_spec(fuel, st, n, val).0.mem,
            );
        }
    }
}

proof fn lemma_if_keeps(fuel: nat, st: MachineView, cv: SpecIntRep, b: SpecExpr)
    ensures
        if_spec(fuel, st, cv, b).1 is Ok ==> outer_kept(st.mem, if_spec(fuel, st, cv, b).0.mem),
    decreases fuel, 1nat,
{
    lemma_eval_keeps(fuel, st, b);
}

proof fn lemma_if_else_keeps(
    fuel: nat,
    st: MachineView,
    cv: SpecIntRep,
    b1: SpecExpr,
    b2: SpecExpr,
)
    ensures
        if_else_spec(fuel, st, cv, b1, b2).1 is Ok ==> outer_kept(
            st.mem,
            if_else_spec(fuel, st, cv, b1, b2).0.mem,
        ),
    decreases fuel, 1nat,
{
    lemma_eval_keeps(fuel, st, b1);
    lemma_eval_keeps(fuel, st, b2);
}

proof fn lemma_if_node_keeps(fuel: nat, st: MachineView, c: SpecExpr, b: SpecExpr)
    ensures
        if_node_spec(fuel, st, c, b).1 is Ok ==> outer_kept(
            st.mem,
            if_node_spec(fuel, st, c, b).0.mem,
        ),
    decreases fuel, 2nat,
{
    lemma_eval_keeps(fuel, st, c);
    let (s1, cv) = eval(fuel, st, c);
    if cv is Ok {
        lemma_if_keeps(fuel, s1, cv.unwrap(), b);
        if if_node_spec(fuel, st, c, b).1 is Ok {
            lemma_outer_kept_trans(st.mem, s1.mem, if_node_spec(fuel, st, c, b).0.mem);
        }
    }
}

proof fn lemma_if_else_node_keeps(
    fuel: nat,
    st: MachineView,
    c: SpecExpr,
    b1: SpecExpr,
    b2: SpecExpr,
)
    ensures
        if_else_node_spec(fuel, st, c, b1, b2).1 is Ok ==> outer_kept(
            st.mem,
            if_else_node_spec(fuel, st, c, b1, b2).0.mem,
        ),
    decreases fuel, 2nat,
{
    lemma_eval_keeps(fuel, st, c);
    let (s1, cv) = eval(fuel, st, c);
    if cv is Ok {
        lemma_if_else_keeps(fuel, s1, cv.unwrap(), b1, b2);
        if if_else_node_spec(fuel, st, c, b1, b2).1 is Ok {
            lemma_outer_kept_trans(st.mem, s1.mem, if_else_node_spec(fuel, st, c, b1, b2).0.mem);
        }
    }
}

proof fn lemma_args_keeps(fuel: nat, st: MachineView, ps: Seq<SpecExpr>)
    ensures
        args_spec(fuel, st, ps).1 is Ok ==> outer_kept(st.mem, args_spec(fuel, st, ps).0.mem),
    decreases fuel, ps.len() + 1,
{
    if ps.len() > 0 {
        lemma_args_keeps(fuel, st, ps.drop_last());
        let (s1, r) = args_spec(fuel, st, ps.drop_last());
        if r is Ok {
            lemma_eval_keeps(fuel, s1, ps.last());
            let (s2, v) = eval(fuel, s1, ps.last());
            if v is Ok {
                lemma_outer_kept_trans(st.mem, s1.mem, s2.mem);
            }
        }
    }
}

proof fn lemma_call_node_keeps(fuel: nat, st: MachineView, n: SpecFnHead, p: SpecFnHead)
    ensures
        call_node_spec(fuel, st, n, p).1 is Ok ==> outer_kept(
            st.mem,
            call_node_spec(fuel, st, n, p).0.mem,
        ),
    decreases fuel, head_len(p) + 2,
{
    if let Ok(name) = spec_function_name(n) {
        if let SpecFnHead::Params(ps) = p {
            lemma_args_keeps(fuel, st, ps);
            let (s1, args) = args_spec(fuel, st, ps);
            if let Ok(a) = args {
                lemma_call_keeps(fuel, s1, name, a);
                if call_spec(fuel, s1, name, a).1 is Ok {
                    lemma_outer_kept_trans(st.mem, s1.mem, call_spec(fuel, s1, name, a).0.mem);
                }
            }
        }
    }
}

proof fn lemma_call_keeps(fuel: nat, st: MachineView, name: Seq<char>, args: Seq<SpecIntRep>)
    ensures
        call_spec(fuel, st, name, args).1 is Ok ==> call_spec(fuel, st, name, args).0.mem.scopes
            == st.mem.scopes,
        call_spec(fuel, st, name, args).1 is Ok ==> outer_kept(
            st.mem,
            call_spec(fuel, st, name, args).0.mem,
        ),
    decreases fuel, 1nat,
{
    let m1 = spec_push_scope(st.mem);
    if let Ok((body, params)) = spec_read_function(m1, name) {
        if params.len() == args.len() {
            lemma_bind_keeps(m1, params, args, params.len());
            let (m2, br) = spec_bind_params(m1, params, args, params.len());
            if br is Ok {
                lemma_eval_keeps(fuel, with_mem(st, m2), body);
                let (s3, r) = eval(fuel, with_mem(st, m2), body);
                if r is Ok {
                    lemma_outer_kept_trans(m1, m2, s3.mem);
                    let (m5, v) = spec_pop_return(spec_pop_scope(s3.mem));
                    assert(m5.scopes =~= st.mem.scopes) by {
                        assert forall|i: int| 0 <= i < st.mem.scopes.len() implies m5.scopes[i]
                            == st.mem.scopes[i] by {
                            assert(s3.mem.scopes[i] == m1.scopes[i]);
                        }
                    }
                }
            }
        }
    }
}

/// Evaluation changes only the innermost scope: when it completes, the
/// memory has as many scopes as before and every scope but the innermost is
/// as it was.
pub proof fn law_eval_changes_only_innermost_scope(fuel: nat, st: MachineView, e: SpecExpr)
    requires
        eval(fuel, st, e).1 is Ok,
    ensures
        outer_kept(st.mem, eval(fuel, st, e).0.mem),
{
    lemma_eval_keeps(fuel, st, e);
}

/// A completed call leaves every scope of its caller as it was: the callee
/// works in a scope of its own, which is closed when the call ends.
pub proof fn law_call_restores_scopes(
    fuel: nat,
    st: MachineView,
    name: Seq<char>,
    args: Seq<SpecIntRep>,
)
    requires
        call_spec(fuel, st, name, args).1 is Ok,
    ensures
        call_spec(fuel, st, name, args).0.mem.scopes == st.mem.scopes,
{
    lemma_call_keeps(fuel, st, name, args);
}

/// The variable that a parameter node declares.
pub open spec fn param_name(p: SpecExpr) -> Option<Seq<char>> {
    match p {
        SpecExpr::ParamNode(b, _) => match *b {
            SpecExpr::Var(n) => Some(n),
            _ => None,
        },
        _ => None,
    }
}

/// Parameters that each declare a variable, no two the same.
pub open spec fn distinct_params(params: Seq<SpecExpr>) -> bool {
    &&& forall|i: int| 0 <= i < params.len() ==> (#[trigger] param_name(params[i])) is Some
    &&& forall|i: int, j: int|
        0 <= i < params.len() && 0 <= j < params.len() && i != j ==> #[trigger] param_name(
            params[i],
        ) != #[trigger] param_name(params[j])
}

proof fn lemma_bind_prefix(m: MemView, params: Seq<SpecExpr>, args: Seq<SpecIntRep>, n: nat)
    requires
        m.scopes.len() > 0,
        params.len() == args.len(),
        n <= params.len(),
        distinct_params(params),
    ensures
        spec_bind_params(m, params, args, n).1 is Ok,
        spec_bind_params(m, params, args, n).0.scopes.len() == m.scopes.len(),
        forall|i: int|
            0 <= i < n ==> {
                let top = spec_bind_params(m, params, args, n).0.scopes.last();
                &&& top.contains_key(#[trigger] param_name(params[i]).unwrap())
                &&& top[param_name(params[i]).unwrap()] == args[i]
            },
    decreases n,
{
    if n > 0 {
        lemma_bind_prefix(m, params, args, (n - 1) as nat);
        let m1 = spec_bind_params(m, params, args, (n - 1) as nat).0;
        let k = n - 1;
        assert(param_name(params[k]) is Some);
        let m2 = spec_bind_params(m, params, args, n).0;
        assert forall|i: int| 0 <= i < n implies {
            let top = m2.scopes.last();
            &&& top.contains_key(#[trigger] param_name(params[i]).unwrap())
            &&& top[param_name(params[i]).unwrap()] == args[i]
        } by {
            if i < k {
                assert(param_name(params[i]) != param_name(params[k]));
                assert(param_name(params[i]) is Some);
            }
        }
    }
}

/// A call stores its arguments as variables: when a scope is open and the
/// parameters each declare a variable, no two the same, binding succeeds and
/// each parameter's variable holds the argument at its place (so reading it
/// gives that argument back when it is a number, boolean, constant, name,
/// type error or undefined value).
pub proof fn law_bind_stores_args(m: MemView, params: Seq<SpecExpr>, args: Seq<SpecIntRep>)
    requires
        m.scopes.len() > 0,
        params.len() == args.len(),
        distinct_params(params),
    ensures
        spec_bind_params(m, params, args, params.len()).1 is Ok,
        spec_bind_params(m, params, args, params.len()).0.scopes.len() == m.scopes.len(),
        forall|i: int|
            0 <= i < params.len() && is_readable(args[i]) ==> spec_read_var(
                spec_bind_params(m, params, args, params.len()).0,
                #[trigger] param_name(params[i]).unwrap(),
            ) == Ok::<SpecIntRep, RuntimeError>(args[i]),
{
    lemma_bind_prefix(m, params, args, params.len());
}

// ---------------------------------------------------------------------------
// The type checker
// ---------------------------------------------------------------------------

proof fn lemma_check_bind_keeps(m: MemView, params: Seq<SpecExpr>, args: Seq<SpecIntRep>, n: nat)
    ensures
        spec_check_bind(m, params, args, n).1 is Ok ==> outer_kept(
            m,
            spec_check_bind(m, params, args, n).0,
        ),
    decreases n,
{
    if n > 0 {
        lemma_check_bind_keeps(m, params, args, (n - 1) as nat);
        let (m1, r) = spec_check_bind(m, params, args, (n - 1) as nat);
        if r is Ok && spec_check_bind(m, params, args, n).1 is Ok {
            lemma_outer_kept_trans(m, m1, spec_check_bind(m, params, args, n).0);
        }
    }
}

proof fn lemma_check_keeps(fuel: nat, m: MemView, e: SpecExpr)
    ensures
        check(fuel, m, e).1 is Ok ==> outer_kept(m, check(fuel, m, e).0),
    decreases fuel, 0nat,
{
    if fuel > 0 {
        let f = (fuel - 1) as nat;
        match e {
            SpecExpr::Const(x) => lemma_check_keeps(f, m, *x),
            SpecExpr::BinNode(l, _, r) => lemma_check_pair_keeps(f, m, *l, *r),
            SpecExpr::NumCompNode(l, _, r) => lemma_check_pair_keeps(f, m, *l, *r),
            SpecExpr::LogNode(l, _, r) => lemma_check_pair_keeps(f, m, *l, *r),
            SpecExpr::AssignNode(_, _, val) => {
                lemma_check_keeps(f, m, *val);
                let (m1, v) = check(f, m, *val);
                if v is Ok && check(fuel, m, e).1 is Ok {
                    lemma_outer_kept_trans(m, m1, check(fuel, m, e).0);
                }
            },
            SpecExpr::SetVarNode(n, val) => lemma_check_set_var_keeps(f, m, *n, *val),
            SpecExpr::FunctionCall(n, p) => lemma_check_call_node_keeps(f, m, n, p),
            SpecExpr::Return(x) => lemma_check_keeps(f, m, *x),
            SpecExpr::WhileNode(c, b) => lemma_check_pair_keeps(f, m, *c, *b),
            SpecExpr::IfNode(c, b) => lemma_check_pair_keeps(f, m, *c, *b),
            SpecExpr::IfElseNode(c, b1, b2) => lemma_check_if_else_keeps(f, m, *c, *b1, *b2),
            SpecExpr::SeqNode(l, r) => lemma_check_pair_keeps(f, m, *l, *r),
            SpecExpr::Print(x) => lemma_check_keeps(f, m, *x),
            _ => {},
        }
    }
}

proof fn lemma_check_pair_keeps(fuel: nat, m: MemView, l: SpecExpr, r: SpecExpr)
    ensures
        check_pair(fuel, m, l, r).1 is Ok ==> outer_kept(m, check_pair(fuel, m, l, r).0),
    decreases fuel, 1nat,
{
    lemma_check_keeps(fuel, m, l);
    let (m1, lv) = check(fuel, m, l);
    if lv is Ok {
        lemma_check_keeps(fuel, m1, r);
        let (m2, rv) = check(fuel, m1, r);
        if rv is Ok {
            lemma_outer_kept_trans(m, m1, m2);
        }
    }
}

proof fn lemma_check_if_else_keeps(fuel: nat, m: MemView, c: SpecExpr, b1: SpecExpr, b2: SpecExpr)
    ensures
        check_if_else(fuel, m, c, b1, b2).1 is Ok ==> outer_kept(
            m,
            check_if_else(fuel, m, c, b1, b2).0,
        ),
    decreases fuel, 2nat,
{
    lemma_check_pair_keeps(fuel, m, c, b1);
    let (m1, p) = check_pair(fuel, m, c, b1);
    if p is Ok {
        lemma_check_keeps(fuel, m1, b2);
        let (m2, v2) = check(fuel, m1, b2);
        if v2 is Ok {
            lemma_outer_kept_trans(m, m1, m2);
        }
    }
}

proof fn lemma_check_set_var_keeps(fuel: nat, m: MemView, n: SpecExpr, val: SpecExpr)
    ensures
        check_set_var(fuel, m, n, val).1 is Ok ==> outer_kept(
            m,
            check_set_var(fuel, m, n, val).0,
        ),
    decreases fuel, 1nat,
{
    if n is Var {
        lemma_check_keeps(fuel, m, val);
        let (m1, v) = check(fuel, m, val);
        if v is Ok && check_set_var(fuel, m, n, val).1 is Ok {
            lemma_outer_kept_trans(m, m1, check_set_var(fuel, m, n, val).0);
        }
    }
}

proof fn lemma_check_args_keeps(fuel: nat, m: MemView, ps: Seq<SpecExpr>)
    ensures
        check_args(fuel, m, ps).1 is Ok ==> outer_kept(m, check_args(fuel, m, ps).0),
    decreases fuel, ps.len() + 1,
{
    if ps.len() > 0 {
        lemma_check_args_keeps(fuel, m, ps.drop_last());
        let (m1, r) = check_args(fuel, m, ps.drop_last());
        if r is Ok {
            lemma_check_keeps(fuel, m1, ps.last());
            let (m2, v) = check(fuel, m1, ps.last());
            if v is Ok {
                lemma_outer_kept_trans(m, m1, m2);
            }
        }
    }
}

proof fn lemma_check_call_node_keeps(fuel: nat, m: MemView, n: SpecFnHead, p: SpecFnHead)
    ensures
        check_call_node(fuel, m, n, p).1 is Ok ==> outer_kept(m, check_call_node(fuel, m, n, p).0),
    decreases fuel, head_len(p) + 2,
{
    if let Ok(name) = spec_function_name(n) {
        if let SpecFnHead::Params(ps) = p {
            lemma_check_args_keeps(fuel, m, ps);
            let (m1, args) = check_args(fuel, m, ps);
            if let Ok(a) = args {
                lemma_check_call_keeps(fuel, m1, name, a);
                if check_call(fuel, m1, name, a).1 is Ok {
                    lemma_outer_kept_trans(m, m1, check_call(fuel, m1, name, a).0);
                }
            }
        }
    }
}

proof fn lemma_check_call_keeps(fuel: nat, m: MemView, name: Seq<char>, args: Seq<SpecIntRep>)
    ensures
        check_call(fuel, m, name, args).1 is Ok ==> check_call(fuel, m, name, args).0.scopes
            == m.scopes,
        check_call(fuel, m, name, args).1 is Ok ==> outer_kept(
            m,
            check_call(fuel, m, name, args).0,
        ),
    decreases fuel, 1nat,
{
    let m1 = spec_push_scope(m);
    if let Ok((body, params)) = spec_read_function(m1, name) {
        if params.len() == args.len() {
            if let Ok(rt) = spec_get_function_type(m1, name) {
                let m2 = spec_push_return(m1, rt);
                lemma_check_bind_keeps(m2, params, args, params.len());
                let (m3, br) = spec_check_bind(m2, params, args, params.len());
                if br is Ok {
                    lemma_check_keeps(fuel, m3, body);
                    let (m4, ft) = check(fuel, m3, body);
                    if ft is Ok {
                        lemma_outer_kept_trans(m2, m3, m4);
                        let (m6, v) = spec_pop_return(spec_pop_scope(m4));
                        assert(m6.scopes =~= m.scopes) by {
                            assert forall|i: int| 0 <= i < m.scopes.len() implies m6.scopes[i]
                                == m.scopes[i] by {
                                assert(m4.scopes[i] == m2.scopes[i]);
                            }
                        }
                    }
                }
            }
        }
    }
}

/// Checking changes only the innermost scope: when a check completes, the
/// memory has as many scopes as before and every scope but the innermost is
/// as it was.
pub proof fn law_check_changes_only_innermost_scope(fuel: nat, m: MemView, e: SpecExpr)
    requires
        check(fuel, m, e).1 is Ok,
    ensures
        outer_kept(m, check(fuel, m, e).0),
{
    lemma_check_keeps(fuel, m, e);
}

/// A completed check of a call leaves every scope of its caller as it was:
/// the callee is checked in a scope of its own, which is closed at the end.
pub proof fn law_check_call_restores_scopes(
    fuel: nat,
    m: MemView,
    name: Seq<char>,
    args: Seq<SpecIntRep>,
)
    requires
        check_call(fuel, m, name, args).1 is Ok,
    ensures
        check_call(fuel, m, name, args).0.scopes == m.scopes,
{
    lemma_check_call_keeps(fuel, m, name, args);
}

} // verus!

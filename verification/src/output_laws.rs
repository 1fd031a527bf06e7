//! The interpreter's output only grows: whatever a tree does, and whether it
//! succeeds or stops with an error, what was printed before stays printed,
//! in the same order, and new values only come after it.
use vstd::prelude::*;
use crate::ast::{SpecExpr, SpecFnHead};
use crate::interpret::{
    MachineView, args_spec, assign_existing_spec, assign_spec, call_node_spec, call_spec, eval,
    head_len, if_else_node_spec, if_else_spec, if_node_spec, if_spec, operands_spec,
    print_spec, return_spec, spec_bind_params, spec_function_name, while_spec, with_mem,
};
use crate::memory::{SpecIntRep, spec_push_scope, spec_read_function};

verus! {

/// `b` starts with all of `a`.
pub open spec fn extends_output(a: Seq<SpecIntRep>, b: Seq<SpecIntRep>) -> bool {
    &&& a.len() <= b.len()
    &&& forall|i: int| 0 <= i < a.len() ==> #[trigger] b[i] == a[i]
}

proof fn lemma_extends_trans(a: Seq<SpecIntRep>, b: Seq<SpecIntRep>, c: Seq<SpecIntRep>)
    requires
        extends_output(a, b),
        extends_output(b, c),
    ensures
        extends_output(a, c),
{
    assert forall|i: int| 0 <= i < a.len() implies #[trigger] c[i] == a[i] by {
        assert(b[i] == a[i]);
    }
}

proof fn lemma_eval_out(fuel: nat, st: MachineView, e: SpecExpr)
    ensures
        extends_output(st.output, eval(fuel, st, e).0.output),
    decreases fuel, 0nat,
{
    if fuel > 0 {
        let f = (fuel - 1) as nat;
        match e {
            SpecExpr::BinNode(l, _, r) => lemma_operands_out(f, st, *l, *r),
            SpecExpr::NumCompNode(l, _, r) => lemma_operands_out(f, st, *l, *r),
            SpecExpr::LogNode(l, _, r) => lemma_operands_out(f, st, *l, *r),
            SpecExpr::SeqNode(l, r) => lemma_operands_out(f, st, *l, *r),
            SpecExpr::Print(x) => lemma_print_out(f, st, *x),
            SpecExpr::AssignNode(n, _, val) => lemma_assign_out(f, st, *n, *val),
            SpecExpr::SetVarNode(n, val) => lemma_assign_existing_out(f, st, *n, *val),
            SpecExpr::IfNode(c, b) => lemma_if_node_out(f, st, *c, *b),
            SpecExpr::IfElseNode(c, b1, b2) => lemma_if_else_node_out(f, st, *c, *b1, *b2),
            SpecExpr::WhileNode(c, b) => lemma_while_out(f, st, *c, *b),
            SpecExpr::FunctionCall(n, p) => lemma_call_node_out(f, st, n, p),
            SpecExpr::Return(x) => lemma_return_out(f, st, *x),
            _ => {},
        }
    }
}

proof fn lemma_while_out(fuel: nat, st: MachineView, c: SpecExpr, b: SpecExpr)
    ensures
        extends_output(st.output, while_spec(fuel, st, c, b).0.output),
    decreases fuel, 0nat,
{
    if fuel > 0 {
        let f = (fuel - 1) as nat;
        lemma_eval_out(f, st, c);
        let (s1, cv) = eval(f, st, c);
        lemma_eval_out(f, s1, b);
        let (s2, bv) = eval(f, s1, b);
        lemma_extends_trans(st.output, s1.output, s2.output);
        lemma_while_out(f, s2, c, b);
        lemma_extends_trans(st.output, s2.output, while_spec(f, s2, c, b).0.output);
    }
}

proof fn lemma_operands_out(fuel: nat, st: MachineView, l: SpecExpr, r: SpecExpr)
    ensures
        extends_output(st.output, operands_spec(fuel, st, l, r).0.output),
    decreases fuel, 1nat,
{
    lemma_eval_out(fuel, st, l);
    let (s1, lv) = eval(fuel, st, l);
    lemma_eval_out(fuel, s1, r);
    lemma_extends_trans(st.output, s1.output, eval(fuel, s1, r).0.output);
}

proof fn lemma_print_out(fuel: nat, st: MachineView, x: SpecExpr)
    ensures
        extends_output(st.output, print_spec(fuel, st, x).0.output),
    decreases fuel, 1nat,
{
    lemma_eval_out(fuel, st, x);
    let (s1, v) = eval(fuel, st, x);
    if v is Ok {
        assert(extends_output(s1.output, s1.output.push(v.unwrap())));
        lemma_extends_trans(st.output, s1.output, s1.output.push(v.unwrap()));
    }
}

proof fn lemma_return_out(fuel: nat, st: MachineView, x: SpecExpr)
    ensures
        extends_output(st.output, return_spec(fuel, st, x).0.output),
    decreases fuel, 1nat,
{
    lemma_eval_out(fuel, st, x);
}

proof fn lemma_assign_out(fuel: nat, st: MachineView, n: SpecExpr, val: SpecExpr)
    ensures
        extends_output(st.output, assign_spec(fuel, st, n, val).0.output),
    decreases fuel, 1nat,
{
    lemma_eval_out(fuel, st, val);
}

proof fn lemma_assign_existing_out(fuel: nat, st: MachineView, n: SpecExpr, val: SpecExpr)
    ensures
        extends_output(st.output, assign_existing_spec(fuel, st, n, val).0.output),
    decreases fuel, 1nat,
{
    lemma_eval_out(fuel, st, val);
}

proof fn lemma_if_out(fuel: nat, st: MachineView, cv: SpecIntRep, b: SpecExpr)
    ensures
        extends_output(st.output, if_spec(fuel, st, cv, b).0.output),
    decreases fuel, 1nat,
{
    lemma_eval_out(fuel, st, b);
}

proof fn lemma_if_else_out(fuel: nat, st: MachineView, cv: SpecIntRep, b1: SpecExpr, b2: SpecExpr)
    ensures
        extends_output(st.output, if_else_spec(fuel, st, cv, b1, b2).0.output),
    decreases fuel, 1nat,
{
    lemma_eval_out(fuel, st, b1);
    lemma_eval_out(fuel, st, b2);
}

proof fn lemma_if_node_out(fuel: nat, st: MachineView, c: SpecExpr, b: SpecExpr)
    ensures
        extends_output(st.output, if_node_spec(fuel, st, c, b).0.output),
    decreases fuel, 2nat,
{
    lemma_eval_out(fuel, st, c);
    let (s1, cv) = eval(fuel, st, c);
    if cv is Ok {
        lemma_if_out(fuel, s1, cv.unwrap(), b);
        lemma_extends_trans(st.output, s1.output, if_node_spec(fuel, st, c, b).0.output);
    }
}

proof fn lemma_if_else_node_out(
    fuel: nat,
    st: MachineView,
    c: SpecExpr,
    b1: SpecExpr,
    b2: SpecExpr,
)
    ensures
        extends_output(st.output, if_else_node_spec(fuel, st, c, b1, b2).0.output),
    decreases fuel, 2nat,
{
    lemma_eval_out(fuel, st, c);
    let (s1, cv) = eval(fuel, st, c);
    if cv is Ok {
        lemma_if_else_out(fuel, s1, cv.unwrap(), b1, b2);
        lemma_extends_trans(st.output, s1.output, if_else_node_spec(fuel, st, c, b1, b2).0.output);
    }
}

proof fn lemma_args_out(fuel: nat, st: MachineView, ps: Seq<SpecExpr>)
    ensures
        extends_output(st.output, args_spec(fuel, st, ps).0.output),
    decreases fuel, ps.len() + 1,
{
    if ps.len() > 0 {
        lemma_args_out(fuel, st, ps.drop_last());
        let (s1, r) = args_spec(fuel, st, ps.drop_last());
        lemma_eval_out(fuel, s1, ps.last());
        lemma_extends_trans(st.output, s1.output, eval(fuel, s1, ps.last()).0.output);
    }
}

proof fn lemma_call_node_out(fuel: nat, st: MachineView, n: SpecFnHead, p: SpecFnHead)
    ensures
        extends_output(st.output, call_node_spec(fuel, st, n, p).0.output),
    decreases fuel, head_len(p) + 2,
{
    if let Ok(name) = spec_function_name(n) {
        if let SpecFnHead::Params(ps) = p {
            lemma_args_out(fuel, st, ps);
            let (s1, args) = args_spec(fuel, st, ps);
            if let Ok(a) = args {
                lemma_call_out(fuel, s1, name, a);
                lemma_extends_trans(st.output, s1.output, call_spec(fuel, s1, name, a).0.output);
            }
        }
    }
}

proof fn lemma_call_out(fuel: nat, st: MachineView, name: Seq<char>, args: Seq<SpecIntRep>)
    ensures
        extends_output(st.output, call_spec(fuel, st, name, args).0.output),
    decreases fuel, 1nat,
{
    let m1 = spec_push_scope(st.mem);
    if let Ok((body, params)) = spec_read_function(m1, name) {
        if params.len() == args.len() {
            let (m2, br) = spec_bind_params(m1, params, args, params.len());
            lemma_eval_out(fuel, with_mem(st, m2), body);
        }
    }
}

/// Evaluation only appends to the output: whatever the tree, and also when
/// it stops with an error, the output afterwards starts with the whole
/// output before.
pub proof fn law_output_only_grows(fuel: nat, st: MachineView, e: SpecExpr)
    ensures
        extends_output(st.output, eval(fuel, st, e).0.output),
{
    lemma_eval_out(fuel, st, e);
}

/// A completed call keeps what was printed before it and adds what its body
/// printed.
pub proof fn law_call_keeps_output(
    fuel: nat,
    st: MachineView,
    name: Seq<char>,
    args: Seq<SpecIntRep>,
)
    ensures
        extends_output(st.output, call_spec(fuel, st, name, args).0.output),
{
    lemma_call_out(fuel, st, name, args);
}

} // verus!

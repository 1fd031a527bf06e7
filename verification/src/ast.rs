//! Abstract syntax of the toy language, and its mathematical model.
use vstd::prelude::*;

verus! {

broadcast use vstd::std_specs::vec::group_vec_axioms;

/// A node of a program's syntax tree.
#[derive(Debug, PartialEq)]
pub enum ExprTree {
    Number(i32),
    Bool(BoolType),
    Var(String),
    /// An immutable value (only the type checker understands it).
    Const(Box<ExprTree>),
    BinNode(Box<ExprTree>, BinOp, Box<ExprTree>),
    NumCompNode(Box<ExprTree>, NumCompOp, Box<ExprTree>),
    LogNode(Box<ExprTree>, LogOp, Box<ExprTree>),
    /// `let name: type = value`
    AssignNode(Box<ExprTree>, Type, Box<ExprTree>),
    /// A formal parameter `name: type` of a function.
    ParamNode(Box<ExprTree>, Type),
    SeqNode(Box<ExprTree>, Box<ExprTree>),
    IfNode(Box<ExprTree>, Box<ExprTree>),
    IfElseNode(Box<ExprTree>, Box<ExprTree>, Box<ExprTree>),
    WhileNode(Box<ExprTree>, Box<ExprTree>),
    /// Function definition: name, parameters, return type, body.
    FnNode(FnHead, FnHead, FnHead, Box<ExprTree>),
    /// `name = value` on an existing variable.
    SetVarNode(Box<ExprTree>, Box<ExprTree>),
    /// Function call: name, arguments.
    FunctionCall(FnHead, FnHead),
    Print(Box<ExprTree>),
    Pass,
    Return(Box<ExprTree>),
}

#[derive(Debug, Clone, Copy, PartialEq, Eq)]
pub enum Type {
    I32,
    Bool,
}

/// The parts of a function definition or call.
#[derive(Debug, PartialEq)]
pub enum FnHead {
    Name(String),
    Params(Vec<Box<ExprTree>>),
    Return(Type),
}

#[derive(Debug, Clone, Copy, PartialEq, Eq)]
pub enum BinOp {
    Add,
    Sub,
    Div,
    Mul,
}

#[derive(Debug, Clone, Copy, PartialEq, Eq)]
pub enum LogOp {
    And,
    Or,
}

#[derive(Debug, Clone, Copy, PartialEq, Eq)]
pub enum NumCompOp {
    Les,
    Gre,
    LeEq,
    GrEq,
    Eq,
    Neq,
}

#[derive(Debug, Clone, Copy, PartialEq, Eq)]
pub enum BoolType {
    True,
    False,
}

/// Mathematical model of `ExprTree`: names are character sequences.
pub enum SpecExpr {
    Number(i32),
    Bool(BoolType),
    Var(Seq<char>),
    Const(Box<SpecExpr>),
    BinNode(Box<SpecExpr>, BinOp, Box<SpecExpr>),
    NumCompNode(Box<SpecExpr>, NumCompOp, Box<SpecExpr>),
    LogNode(Box<SpecExpr>, LogOp, Box<SpecExpr>),
    AssignNode(Box<SpecExpr>, Type, Box<SpecExpr>),
    ParamNode(Box<SpecExpr>, Type),
    SeqNode(Box<SpecExpr>, Box<SpecExpr>),
    IfNode(Box<SpecExpr>, Box<SpecExpr>),
    IfElseNode(Box<SpecExpr>, Box<SpecExpr>, Box<SpecExpr>),
    WhileNode(Box<SpecExpr>, Box<SpecExpr>),
    FnNode(SpecFnHead, SpecFnHead, SpecFnHead, Box<SpecExpr>),
    SetVarNode(Box<SpecExpr>, Box<SpecExpr>),
    FunctionCall(SpecFnHead, SpecFnHead),
    Print(Box<SpecExpr>),
    Pass,
    Return(Box<SpecExpr>),
}

/// Mathematical model of `FnHead`.
pub enum SpecFnHead {
    Name(Seq<char>),
    Params(Seq<SpecExpr>),
    Return(Type),
}

impl ExprTree {
    pub open spec fn to_spec(&self) -> SpecExpr
        decreases self,
    {
        match self {
            ExprTree::Number(n) => SpecExpr::Number(*n),
            ExprTree::Bool(b) => SpecExpr::Bool(*b),
            ExprTree::Var(s) => SpecExpr::Var(s@),
            ExprTree::Const(e) => SpecExpr::Const(Box::new(e.to_spec())),
            ExprTree::BinNode(l, op, r) => SpecExpr::BinNode(
                Box::new(l.to_spec()),
                *op,
                Box::new(r.to_spec()),
            ),
            ExprTree::NumCompNode(l, op, r) => SpecExpr::NumCompNode(
                Box::new(l.to_spec()),
                *op,
                Box::new(r.to_spec()),
            ),
            ExprTree::LogNode(l, op, r) => SpecExpr::LogNode(
                Box::new(l.to_spec()),
                *op,
                Box::new(r.to_spec()),
            ),
            ExprTree::AssignNode(n, t, v) => SpecExpr::AssignNode(
                Box::new(n.to_spec()),
                *t,
                Box::new(v.to_spec()),
            ),
            ExprTree::ParamNode(n, t) => SpecExpr::ParamNode(Box::new(n.to_spec()), *t),
            ExprTree::SeqNode(l, r) => SpecExpr::SeqNode(
                Box::new(l.to_spec()),
                Box::new(r.to_spec()),
            ),
            ExprTree::IfNode(c, b) => SpecExpr::IfNode(
                Box::new(c.to_spec()),
                Box::new(b.to_spec()),
            ),
            ExprTree::IfElseNode(c, b1, b2) => SpecExpr::IfElseNode(
                Box::new(c.to_spec()),
                Box::new(b1.to_spec()),
                Box::new(b2.to_spec()),
            ),
            ExprTree::WhileNode(c, b) => SpecExpr::WhileNode(
                Box::new(c.to_spec()),
                Box::new(b.to_spec()),
            ),
            ExprTree::FnNode(n, p, r, b) => SpecExpr::FnNode(
                n.to_spec(),
                p.to_spec(),
                r.to_spec(),
                Box::new(b.to_spec()),
            ),
            ExprTree::SetVarNode(n, v) => SpecExpr::SetVarNode(
                Box::new(n.to_spec()),
                Box::new(v.to_spec()),
            ),
            ExprTree::FunctionCall(n, p) => SpecExpr::FunctionCall(n.to_spec(), p.to_spec()),
            ExprTree::Print(e) => SpecExpr::Print(Box::new(e.to_spec())),
            ExprTree::Pass => SpecExpr::Pass,
            ExprTree::Return(e) => SpecExpr::Return(Box::new(e.to_spec())),
        }
    }
}

/// The models of a list of boxed trees.
pub open spec fn exprs_view(s: Seq<Box<ExprTree>>) -> Seq<SpecExpr>
    decreases s,
{
    Seq::new(s.len(), |i: int| if 0 <= i < s.len() { s[i].to_spec() } else { SpecExpr::Pass })
}

impl FnHead {
    pub open spec fn to_spec(&self) -> SpecFnHead
        decreases self,
    {
        match self {
            FnHead::Name(s) => SpecFnHead::Name(s@),
            FnHead::Params(v) => SpecFnHead::Params(exprs_view(v@)),
            FnHead::Return(t) => SpecFnHead::Return(*t),
        }
    }
}

impl View for ExprTree {
    type V = SpecExpr;

    open spec fn view(&self) -> SpecExpr {
        self.to_spec()
    }
}

impl View for FnHead {
    type V = SpecFnHead;

    open spec fn view(&self) -> SpecFnHead {
        self.to_spec()
    }
}

/// A copy of a tree with the same model.
pub fn copy_expr(e: &ExprTree) -> (r: ExprTree)
    ensures
        r@ == e@,
    decreases e,
{
    match e {
        ExprTree::Number(n) => ExprTree::Number(*n),
        ExprTree::Bool(b) => ExprTree::Bool(*b),
        ExprTree::Var(s) => ExprTree::Var(s.clone()),
        ExprTree::Const(x) => ExprTree::Const(Box::new(copy_expr(x))),
        ExprTree::BinNode(l, op, r) => ExprTree::BinNode(
            Box::new(copy_expr(l)),
            *op,
            Box::new(copy_expr(r)),
        ),
        ExprTree::NumCompNode(l, op, r) => ExprTree::NumCompNode(
            Box::new(copy_expr(l)),
            *op,
            Box::new(copy_expr(r)),
        ),
        ExprTree::LogNode(l, op, r) => ExprTree::LogNode(
            Box::new(copy_expr(l)),
            *op,
            Box::new(copy_expr(r)),
        ),
        ExprTree::AssignNode(n, t, v) => ExprTree::AssignNode(
            Box::new(copy_expr(n)),
            *t,
            Box::new(copy_expr(v)),
        ),
        ExprTree::ParamNode(n, t) => ExprTree::ParamNode(Box::new(copy_expr(n)), *t),
        ExprTree::SeqNode(l, r) => ExprTree::SeqNode(
            Box::new(copy_expr(l)),
            Box::new(copy_expr(r)),
        ),
        ExprTree::IfNode(c, b) => ExprTree::IfNode(Box::new(copy_expr(c)), Box::new(copy_expr(b))),
        ExprTree::IfElseNode(c, b1, b2) => ExprTree::IfElseNode(
            Box::new(copy_expr(c)),
            Box::new(copy_expr(b1)),
            Box::new(copy_expr(b2)),
        ),
        ExprTree::WhileNode(c, b) => ExprTree::WhileNode(
            Box::new(copy_expr(c)),
            Box::new(copy_expr(b)),
        ),
        ExprTree::FnNode(n, p, r, b) => ExprTree::FnNode(
            copy_head(n),
            copy_head(p),
            copy_head(r),
            Box::new(copy_expr(b)),
        ),
        ExprTree::SetVarNode(n, v) => ExprTree::SetVarNode(
            Box::new(copy_expr(n)),
            Box::new(copy_expr(v)),
        ),
        ExprTree::FunctionCall(n, p) => ExprTree::FunctionCall(copy_head(n), copy_head(p)),
        ExprTree::Print(x) => ExprTree::Print(Box::new(copy_expr(x))),
        ExprTree::Pass => ExprTree::Pass,
        ExprTree::Return(x) => ExprTree::Return(Box::new(copy_expr(x))),
    }
}

/// A copy of a function head with the same model.
pub fn copy_head(h: &FnHead) -> (r: FnHead)
    ensures
        r@ == h@,
    decreases h,
{
    match h {
        FnHead::Name(s) => FnHead::Name(s.clone()),
        FnHead::Params(v) => FnHead::Params(copy_exprs(v)),
        FnHead::Return(t) => FnHead::Return(*t),
    }
}

/// A copy of a list of trees with the same models.
pub fn copy_exprs(v: &Vec<Box<ExprTree>>) -> (r: Vec<Box<ExprTree>>)
    ensures
        exprs_view(r@) == exprs_view(v@),
    decreases v,
{
    let mut out: Vec<Box<ExprTree>> = Vec::new();
    let mut i: usize = 0;
    while i < v.len()
        invariant
            i <= v.len(),
            out.len() == i,
            forall|j: int| 0 <= j < i ==> (#[trigger] out[j]).to_spec() == v[j].to_spec(),
        decreases v.len() - i,
    {
        let c = copy_expr(&v[i]);
        out.push(Box::new(c));
        i = i + 1;
    }
    assert(exprs_view(out@) =~= exprs_view(v@));
    out
}

} // verus!

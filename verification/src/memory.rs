//! Run-time values and the memory of a running program: a function table,
//! a stack of variable scopes and a stack of returned values.
use vstd::prelude::*;
use crate::ast::{ExprTree, SpecExpr, Type, exprs_view, copy_expr, copy_exprs};
use crate::error::RuntimeError;
use crate::assoc::{assoc_map, assoc_insert, find_last, lemma_assoc_absent, lemma_assoc_found};

verus! {

broadcast use vstd::std_specs::vec::group_vec_axioms;

/// A value of the running (or checked) program.
#[derive(Debug, PartialEq)]
pub enum IntRep {
    Number(i32),
    Var(String),
    Const(Box<IntRep>),
    Bool(bool),
    /// Parameters, return type and body of a function.
    Function(Vec<Box<ExprTree>>, Type, ExprTree),
    /// A declared parameter that has no value yet.
    Undefined(Type),
    TypeError(String),
    NewLine,
}

/// Mathematical model of `IntRep`.
pub enum SpecIntRep {
    Number(i32),
    Var(Seq<char>),
    Const(Box<SpecIntRep>),
    Bool(bool),
    Function(Seq<SpecExpr>, Type, SpecExpr),
    Undefined(Type),
    TypeError(Seq<char>),
    NewLine,
}

impl IntRep {
    pub open spec fn to_spec(&self) -> SpecIntRep
        decreases self,
    {
        match self {
            IntRep::Number(n) => SpecIntRep::Number(*n),
            IntRep::Var(s) => SpecIntRep::Var(s@),
            IntRep::Const(v) => SpecIntRep::Const(Box::new(v.to_spec())),
            IntRep::Bool(b) => SpecIntRep::Bool(*b),
            IntRep::Function(p, t, b) => SpecIntRep::Function(exprs_view(p@), *t, b@),
            IntRep::Undefined(t) => SpecIntRep::Undefined(*t),
            IntRep::TypeError(s) => SpecIntRep::TypeError(s@),
            IntRep::NewLine => SpecIntRep::NewLine,
        }
    }
}

impl View for IntRep {
    type V = SpecIntRep;

    open spec fn view(&self) -> SpecIntRep {
        self.to_spec()
    }
}

/// The model of a result that carries a value.
pub open spec fn res_view(r: Result<IntRep, RuntimeError>) -> Result<SpecIntRep, RuntimeError> {
    match r {
        Ok(v) => Ok(v@),
        Err(e) => Err(e),
    }
}

/// A copy of a value with the same model.
pub fn copy_value(v: &IntRep) -> (r: IntRep)
    ensures
        r@ == v@,
    decreases v,
{
    match v {
        IntRep::Number(n) => IntRep::Number(*n),
        IntRep::Var(s) => IntRep::Var(s.clone()),
        IntRep::Const(x) => IntRep::Const(Box::new(copy_value(x))),
        IntRep::Bool(b) => IntRep::Bool(*b),
        IntRep::Function(p, t, b) => IntRep::Function(copy_exprs(p), *t, copy_expr(b)),
        IntRep::Undefined(t) => IntRep::Undefined(*t),
        IntRep::TypeError(s) => IntRep::TypeError(s.clone()),
        IntRep::NewLine => IntRep::NewLine,
    }
}

/// Mathematical model of the memory.
pub struct MemView {
    /// Function name to function value.
    pub functions: Map<Seq<char>, SpecIntRep>,
    /// The scopes, innermost last; each maps a variable name to its value.
    pub scopes: Seq<Map<Seq<char>, SpecIntRep>>,
    /// The stack of returned values, top last.
    pub returns: Seq<SpecIntRep>,
}

/// The memory of a running program.
pub struct Memory {
    functions: Vec<(String, IntRep)>,
    scopes: Vec<Vec<(String, IntRep)>>,
    returns: Vec<IntRep>,
}

spec fn scope_view(s: Vec<(String, IntRep)>) -> Map<Seq<char>, SpecIntRep> {
    assoc_map(s@)
}

spec fn value_view(v: IntRep) -> SpecIntRep {
    v@
}

impl View for Memory {
    type V = MemView;

    closed spec fn view(&self) -> MemView {
        MemView {
            functions: assoc_map(self.functions@),
            scopes: self.scopes@.map_values(|s: Vec<(String, IntRep)>| scope_view(s)),
            returns: self.returns@.map_values(|v: IntRep| value_view(v)),
        }
    }
}

/// Functions: insert a function value under a name.
pub open spec fn spec_insert_function(m: MemView, name: Seq<char>, f: SpecIntRep) -> MemView {
    MemView { functions: m.functions.insert(name, f), ..m }
}

/// Functions: the body and the parameters of the named function.
pub open spec fn spec_read_function(m: MemView, name: Seq<char>) -> Result<
    (SpecExpr, Seq<SpecExpr>),
    RuntimeError,
> {
    if !m.functions.contains_key(name) {
        Err(RuntimeError::FunctionNotFound)
    } else {
        match m.functions[name] {
            SpecIntRep::Function(p, _, b) => Ok((b, p)),
            _ => Err(RuntimeError::NotAFunction),
        }
    }
}

/// The placeholder value that stands for a type when checking types.
pub open spec fn type_value(t: Type) -> SpecIntRep {
    match t {
        Type::I32 => SpecIntRep::Number(0),
        Type::Bool => SpecIntRep::Bool(false),
    }
}

/// Functions: the placeholder value of the named function's return type.
pub open spec fn spec_get_function_type(m: MemView, name: Seq<char>) -> Result<
    SpecIntRep,
    RuntimeError,
> {
    if !m.functions.contains_key(name) {
        Err(RuntimeError::FunctionNotFound)
    } else {
        match m.functions[name] {
            SpecIntRep::Function(_, t, _) => Ok(type_value(t)),
            _ => Err(RuntimeError::NotAFunction),
        }
    }
}

pub open spec fn spec_push_return(m: MemView, v: SpecIntRep) -> MemView {
    MemView { returns: m.returns.push(v), ..m }
}

/// Pops the return stack; an empty stack gives `NewLine`.
pub open spec fn spec_pop_return(m: MemView) -> (MemView, SpecIntRep) {
    if m.returns.len() == 0 {
        (m, SpecIntRep::NewLine)
    } else {
        (MemView { returns: m.returns.drop_last(), ..m }, m.returns.last())
    }
}

pub open spec fn spec_push_scope(m: MemView) -> MemView {
    MemView { scopes: m.scopes.push(Map::empty()), ..m }
}

/// Pops the innermost scope; nothing happens when there is none.
pub open spec fn spec_pop_scope(m: MemView) -> MemView {
    if m.scopes.len() == 0 {
        m
    } else {
        MemView { scopes: m.scopes.drop_last(), ..m }
    }
}

/// A value that a variable can be read as.
pub open spec fn is_readable(v: SpecIntRep) -> bool {
    !(v is Function) && !(v is NewLine)
}

/// Reads a variable of the innermost scope.
pub open spec fn spec_read_var(m: MemView, name: Seq<char>) -> Result<SpecIntRep, RuntimeError> {
    if m.scopes.len() == 0 {
        Err(RuntimeError::NoScope)
    } else if !m.scopes.last().contains_key(name) {
        Err(RuntimeError::VarNotFound)
    } else if !is_readable(m.scopes.last()[name]) {
        Err(RuntimeError::NotAValue)
    } else {
        Ok(m.scopes.last()[name])
    }
}

/// Binds a variable in the innermost scope.
pub open spec fn spec_assign(m: MemView, name: Seq<char>, v: SpecIntRep) -> Result<
    MemView,
    RuntimeError,
> {
    if m.scopes.len() == 0 {
        Err(RuntimeError::NoScope)
    } else {
        Ok(
            MemView {
                scopes: m.scopes.update(
                    m.scopes.len() - 1,
                    m.scopes.last().insert(name, v),
                ),
                ..m
            },
        )
    }
}

/// `assign_var`: the name must be a variable; the result is `NewLine`.
pub open spec fn spec_assign_var(m: MemView, name: SpecIntRep, v: SpecIntRep) -> (
    MemView,
    Result<SpecIntRep, RuntimeError>,
) {
    match name {
        SpecIntRep::Var(n) => match spec_assign(m, n, v) {
            Ok(m2) => (m2, Ok(SpecIntRep::NewLine)),
            Err(e) => (m, Err(e)),
        },
        _ => (m, Err(RuntimeError::AssignToNonVar)),
    }
}

impl Memory {
    /// An empty memory: no functions, no scopes, no returned values.
    pub fn new() -> (r: Memory)
        ensures
            r@.functions == Map::<Seq<char>, SpecIntRep>::empty(),
            r@.scopes == Seq::<Map<Seq<char>, SpecIntRep>>::empty(),
            r@.returns == Seq::<SpecIntRep>::empty(),
    {
        let r = Memory { functions: Vec::new(), scopes: Vec::new(), returns: Vec::new() };
        assert(r@.scopes =~= Seq::<Map<Seq<char>, SpecIntRep>>::empty());
        assert(r@.returns =~= Seq::<SpecIntRep>::empty());
        r
    }
}

/// Stores a function value under a name, replacing any earlier one.
pub fn insert_function(mem: &mut Memory, name: String, function: IntRep)
    ensures
        final(mem)@ == spec_insert_function(old(mem)@, name@, function@),
{
    assoc_insert(&mut mem.functions, name, function);
}

/// The body and the parameters of the named function.
pub fn read_function(mem: &Memory, name: String) -> (r: Result<
    (ExprTree, Vec<Box<ExprTree>>),
    RuntimeError,
>)
    ensures
        match r {
            Ok((b, p)) => spec_read_function(mem@, name@) == Ok::<
                (SpecExpr, Seq<SpecExpr>),
                RuntimeError,
            >((b@, exprs_view(p@))),
            Err(e) => spec_read_function(mem@, name@) == Err::<
                (SpecExpr, Seq<SpecExpr>),
                RuntimeError,
            >(e),
        },
{
    match find_last(&mem.functions, &name) {
        Some(j) => {
            proof {
                lemma_assoc_found(mem.functions@, j as int, name@);
            }
            match &mem.functions[j].1 {
                IntRep::Function(p, _r, b) => Ok((copy_expr(b), copy_exprs(p))),
                _ => Err(RuntimeError::NotAFunction),
            }
        },
        None => {
            proof {
                lemma_assoc_absent(mem.functions@, name@);
            }
            Err(RuntimeError::FunctionNotFound)
        },
    }
}

/// The placeholder value of the named function's return type:
/// `Number(0)` for `I32`, `Bool(false)` for `Bool`.
pub fn get_function_type(mem: &Memory, name: String) -> (r: Result<IntRep, RuntimeError>)
    ensures
        res_view(r) == spec_get_function_type(mem@, name@),
{
    match find_last(&mem.functions, &name) {
        Some(j) => {
            proof {
                lemma_assoc_found(mem.functions@, j as int, name@);
            }
            match &mem.functions[j].1 {
                IntRep::Function(_, t, _) => match t {
                    Type::I32 => Ok(IntRep::Number(0)),
                    Type::Bool => Ok(IntRep::Bool(false)),
                },
                _ => Err(RuntimeError::NotAFunction),
            }
        },
        None => {
            proof {
                lemma_assoc_absent(mem.functions@, name@);
            }
            Err(RuntimeError::FunctionNotFound)
        },
    }
}

/// Pushes a value on the return stack.
pub fn push_on_return_stack(mem: &mut Memory, val: IntRep)
    ensures
        final(mem)@ == spec_push_return(old(mem)@, val@),
{
    mem.returns.push(val);
    assert(mem@.returns =~= old(mem)@.returns.push(val@));
}

/// Pops the return stack; an empty stack gives `NewLine`.
pub fn pop_from_return_stack(mem: &mut Memory) -> (r: IntRep)
    ensures
        (final(mem)@, r@) == spec_pop_return(old(mem)@),
{
    match mem.returns.pop() {
        Some(i) => {
            assert(mem@.returns =~= old(mem)@.returns.drop_last());
            i
        },
        None => IntRep::NewLine,
    }
}

/// Opens a new, empty, innermost scope.
pub fn push_on_mem_stack(mem: &mut Memory)
    ensures
        final(mem)@ == spec_push_scope(old(mem)@),
{
    let empty: Vec<(String, IntRep)> = Vec::new();
    proof {
        assert(assoc_map(empty@) == Map::<Seq<char>, SpecIntRep>::empty());
    }
    mem.scopes.push(empty);
    assert(mem@.scopes =~= old(mem)@.scopes.push(Map::empty()));
}

/// Closes the innermost scope, if there is one.
pub fn pop_from_mem_stack(mem: &mut Memory)
    ensures
        final(mem)@ == spec_pop_scope(old(mem)@),
{
    let _ = mem.scopes.pop();
    assert(mem@.scopes =~= spec_pop_scope(old(mem)@).scopes);
}

/// Reads a variable of the innermost scope.
pub fn read_from_var(mem: &Memory, name: &str) -> (r: Result<IntRep, RuntimeError>)
    ensures
        res_view(r) == spec_read_var(mem@, name@),
{
    let n = mem.scopes.len();
    if n == 0 {
        return Err(RuntimeError::NoScope);
    }
    let key = name.to_string();
    proof {
        vstd::string::to_string_from_display_ensures_for_str(name, key);
    }
    let top = &mem.scopes[n - 1];
    assert(mem@.scopes.last() == assoc_map(top@));
    match find_last(top, &key) {
        Some(j) => {
            proof {
                lemma_assoc_found(top@, j as int, key@);
            }
            match &top[j].1 {
                IntRep::Function(..) => Err(RuntimeError::NotAValue),
                IntRep::NewLine => Err(RuntimeError::NotAValue),
                v => Ok(copy_value(v)),
            }
        },
        None => {
            proof {
                lemma_assoc_absent(top@, key@);
            }
            Err(RuntimeError::VarNotFound)
        },
    }
}

/// Binds a variable in the innermost scope.
pub fn assign_to(mem: &mut Memory, name: String, val: IntRep) -> (r: Result<(), RuntimeError>)
    ensures
        match spec_assign(old(mem)@, name@, val@) {
            Ok(m2) => r is Ok && final(mem)@ == m2,
            Err(e) => r == Err::<(), RuntimeError>(e) && final(mem)@ == old(mem)@,
        },
{
    match mem.scopes.pop() {
        Some(mut top) => {
            assoc_insert(&mut top, name, val);
            mem.scopes.push(top);
            proof {
                assert(mem@.scopes =~= old(mem)@.scopes.update(
                    old(mem)@.scopes.len() - 1,
                    old(mem)@.scopes.last().insert(name@, val@),
                ));
            }
            Ok(())
        },
        None => Err(RuntimeError::NoScope),
    }
}

/// Binds the variable that `name` stands for; the result is `NewLine`.
pub fn assign_var(mem: &mut Memory, name: IntRep, val: IntRep) -> (r: Result<IntRep, RuntimeError>)
    ensures
        (final(mem)@, res_view(r)) == spec_assign_var(old(mem)@, name@, val@),
{
    match name {
        IntRep::Var(n) => match assign_to(mem, n, val) {
            Ok(()) => Ok(IntRep::NewLine),
            Err(e) => Err(e),
        },
        _ => Err(RuntimeError::AssignToNonVar),
    }
}

// ---------------------------------------------------------------------------
// Laws
// ---------------------------------------------------------------------------

/// Reading a variable gives back the value last assigned to it, when a scope
/// is open and the value is a number, boolean, constant, name, type error or
/// undefined parameter.
pub proof fn law_read_after_assign(m: MemView, name: Seq<char>, v: SpecIntRep)
    requires
        m.scopes.len() > 0,
        is_readable(v),
    ensures
        spec_assign_var(m, SpecIntRep::Var(name), v).1 == Ok::<SpecIntRep, RuntimeError>(
            SpecIntRep::NewLine,
        ),
        spec_read_var(spec_assign_var(m, SpecIntRep::Var(name), v).0, name) == Ok::<
            SpecIntRep,
            RuntimeError,
        >(v),
{
}

/// Assigning one variable leaves what every other variable reads as unchanged.
pub proof fn law_assign_frame(m: MemView, name: Seq<char>, other: Seq<char>, v: SpecIntRep)
    requires
        name != other,
    ensures
        spec_read_var(spec_assign_var(m, SpecIntRep::Var(name), v).0, other) == spec_read_var(
            m,
            other,
        ),
{
}

/// Without an open scope, assigning fails with `NoScope` and changes nothing.
pub proof fn law_assign_needs_scope(m: MemView, name: SpecIntRep, v: SpecIntRep)
    requires
        m.scopes.len() == 0,
        name is Var,
    ensures
        spec_assign_var(m, name, v) == (m, Err::<SpecIntRep, RuntimeError>(RuntimeError::NoScope)),
{
}

/// The value pushed last on the return stack is the next one popped, and the
/// pop restores the memory.
pub proof fn law_pop_after_push_return(m: MemView, v: SpecIntRep)
    ensures
        spec_pop_return(spec_push_return(m, v)) == (m, v),
{
    assert(m.returns.push(v).drop_last() =~= m.returns);
}

/// Closing a scope that was just opened restores the memory, and a newly
/// opened scope has no variables.
pub proof fn law_pop_after_push_scope(m: MemView, name: Seq<char>)
    ensures
        spec_pop_scope(spec_push_scope(m)) == m,
        spec_read_var(spec_push_scope(m), name) == Err::<SpecIntRep, RuntimeError>(
            RuntimeError::VarNotFound,
        ),
{
    assert(m.scopes.push(Map::empty()).drop_last() =~= m.scopes);
}

/// A stored function is read back with its body and parameters, and its type
/// reads as the placeholder of its return type.
pub proof fn law_read_after_insert(
    m: MemView,
    name: Seq<char>,
    params: Seq<SpecExpr>,
    t: Type,
    body: SpecExpr,
)
    ensures
        spec_read_function(
            spec_insert_function(m, name, SpecIntRep::Function(params, t, body)),
            name,
        ) == Ok::<(SpecExpr, Seq<SpecExpr>), RuntimeError>((body, params)),
        spec_get_function_type(
            spec_insert_function(m, name, SpecIntRep::Function(params, t, body)),
            name,
        ) == Ok::<SpecIntRep, RuntimeError>(type_value(t)),
{
}

/// The memory after assigning `vals[i]` to the variable `names[i]`, for each
/// `i` in order.
pub open spec fn assign_all(m: MemView, names: Seq<Seq<char>>, vals: Seq<SpecIntRep>) -> MemView
    decreases names.len(),
{
    if names.len() == 0 || vals.len() < names.len() {
        m
    } else {
        spec_assign_var(
            assign_all(m, names.drop_last(), vals),
            SpecIntRep::Var(names.last()),
            vals[names.len() - 1],
        ).0
    }
}

proof fn lemma_assign_all_top_only(
    m: MemView,
    names: Seq<Seq<char>>,
    vals: Seq<SpecIntRep>,
)
    requires
        m.scopes.len() > 0,
    ensures
        assign_all(m, names, vals).scopes.len() == m.scopes.len(),
        assign_all(m, names, vals).scopes.drop_last() == m.scopes.drop_last(),
        assign_all(m, names, vals).functions == m.functions,
        assign_all(m, names, vals).returns == m.returns,
    decreases names.len(),
{
    if names.len() > 0 && vals.len() >= names.len() {
        lemma_assign_all_top_only(m, names.drop_last(), vals);
        let m1 = assign_all(m, names.drop_last(), vals);
        let m2 = assign_all(m, names, vals);
        assert(m2.scopes.drop_last() =~= m1.scopes.drop_last());
    }
}

/// Closing a scope undoes everything done in it: opening a scope, assigning
/// any number of variables in it (`vals[i]` to `names[i]`, in order) and
/// closing it gives back the memory as it was.
pub proof fn law_pop_undoes_scope(m: MemView, names: Seq<Seq<char>>, vals: Seq<SpecIntRep>)
    ensures
        spec_pop_scope(assign_all(spec_push_scope(m), names, vals)) == m,
{
    let m0 = spec_push_scope(m);
    lemma_assign_all_top_only(m0, names, vals);
    assert(m0.scopes.drop_last() =~= m.scopes);
}

} // verus!

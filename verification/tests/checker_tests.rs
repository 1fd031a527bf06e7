use first::ast::{BinOp, BoolType, ExprTree, FnHead, NumCompOp, Type};
use first::error::RuntimeError;
use first::type_checker::{eval_cond_branch, eval_seq_node, run};
use first::memory::{IntRep, Memory};

/// Type checks a program on a fresh memory.
fn check_program(ast: Vec<Box<ExprTree>>, fuel: u64) -> Result<Option<String>, RuntimeError> {
    run(&mut Memory::new(), ast, fuel)
}


fn tb(e: ExprTree) -> Box<ExprTree> {
    Box::new(e)
}

fn tv(name: &str) -> ExprTree {
    ExprTree::Var(name.to_string())
}

fn tseq(a: ExprTree, b: ExprTree) -> ExprTree {
    ExprTree::SeqNode(tb(a), tb(b))
}

fn tlet(name: &str, t: Type, val: ExprTree) -> ExprTree {
    ExprTree::AssignNode(tb(tv(name)), t, tb(val))
}

fn tfunc(name: &str, params: Vec<Box<ExprTree>>, t: Type, body: ExprTree) -> Box<ExprTree> {
    tb(ExprTree::FnNode(
        FnHead::Name(name.to_string()),
        FnHead::Params(params),
        FnHead::Return(t),
        tb(body),
    ))
}

fn tcall(name: &str, args: Vec<Box<ExprTree>>) -> ExprTree {
    ExprTree::FunctionCall(FnHead::Name(name.to_string()), FnHead::Params(args))
}

fn tparam(name: &str, t: Type) -> Box<ExprTree> {
    tb(ExprTree::ParamNode(tb(tv(name)), t))
}

fn well_typed_program() -> Vec<Box<ExprTree>> {
    let foo_body = tseq(
        tlet("b", Type::I32, ExprTree::Number(1)),
        tseq(
            ExprTree::WhileNode(
                tb(ExprTree::NumCompNode(tb(tv("b")), NumCompOp::LeEq, tb(ExprTree::Number(10)))),
                tb(ExprTree::SetVarNode(
                    tb(tv("b")),
                    tb(ExprTree::BinNode(tb(tv("b")), BinOp::Add, tb(ExprTree::Number(1)))),
                )),
            ),
            ExprTree::Return(tb(tv("b"))),
        ),
    );
    let main_body = tseq(tlet("b", Type::I32, tcall("foo", vec![])), ExprTree::Return(tb(tv("b"))));
    vec![
        tfunc("foo", vec![], Type::I32, foo_body),
        tfunc("main", vec![], Type::I32, main_body),
    ]
}

#[test]
fn well_typed_program_passes() {
    assert_eq!(check_program(well_typed_program(), 10_000), Ok(None));
}

#[test]
fn declared_type_mismatch_is_reported() {
    let body = tlet("x", Type::Bool, ExprTree::Number(3));
    let r = check_program(vec![tfunc("main", vec![], Type::I32, body)], 100);
    assert_eq!(r, Ok(Some("ERROR: Can't assign to var".to_string())));
}

#[test]
fn mixed_arithmetic_is_reported() {
    let body = ExprTree::Return(tb(ExprTree::BinNode(
        tb(ExprTree::Number(1)),
        BinOp::Add,
        tb(ExprTree::Bool(BoolType::True)),
    )));
    let r = check_program(vec![tfunc("main", vec![], Type::I32, body)], 100);
    assert_eq!(r, Ok(Some("ERROR: missmatch types in binary operation".to_string())));
}

#[test]
fn numeric_condition_is_reported() {
    let body = ExprTree::IfNode(tb(ExprTree::Number(1)), tb(ExprTree::Pass));
    let r = check_program(vec![tfunc("main", vec![], Type::I32, body)], 100);
    assert_eq!(r, Ok(Some("ERROR: Wrong type in condition".to_string())));
}

#[test]
fn argument_of_wrong_type_is_reported() {
    let f = tfunc("f", vec![tparam("x", Type::Bool)], Type::I32, ExprTree::Pass);
    let main = tfunc("main", vec![], Type::I32, tcall("f", vec![tb(ExprTree::Number(2))]));
    let r = check_program(vec![f, main], 100);
    assert_eq!(r, Ok(Some("ERROR: params and args type does not match".to_string())));
}

#[test]
fn constant_declaration_passes() {
    let body = tseq(
        tlet("c", Type::I32, ExprTree::Const(tb(ExprTree::Number(4)))),
        ExprTree::Return(tb(tv("c"))),
    );
    assert_eq!(check_program(vec![tfunc("main", vec![], Type::I32, body)], 100), Ok(None));
}

#[test]
fn reassigning_other_kind_stops_checking() {
    let body = tseq(
        tlet("x", Type::I32, ExprTree::Number(4)),
        ExprTree::SetVarNode(tb(tv("x")), tb(ExprTree::Bool(BoolType::True))),
    );
    let r = check_program(vec![tfunc("main", vec![], Type::I32, body)], 100);
    assert_eq!(r, Err(RuntimeError::AssignTypeMismatch));
}

#[test]
fn unbounded_recursion_runs_out_of_fuel() {
    let f = tfunc("main", vec![], Type::I32, tcall("main", vec![]));
    assert_eq!(check_program(vec![f], 60), Err(RuntimeError::OutOfFuel));
}

#[test]
fn sequence_reports_first_type_error() {
    let e1 = IntRep::TypeError("first".to_string());
    let e2 = IntRep::TypeError("second".to_string());
    assert_eq!(eval_seq_node(e1, e2), IntRep::TypeError("first".to_string()));
    assert_eq!(
        eval_seq_node(IntRep::NewLine, IntRep::TypeError("second".to_string())),
        IntRep::TypeError("second".to_string())
    );
    assert_eq!(eval_seq_node(IntRep::Number(0), IntRep::NewLine), IntRep::NewLine);
    assert_eq!(eval_cond_branch(IntRep::Bool(true), IntRep::NewLine), IntRep::NewLine);
}

#[test]
fn larger_budget_same_verdict() {
    assert_eq!(check_program(well_typed_program(), 60), Ok(None));
    assert_eq!(check_program(well_typed_program(), u64::MAX), Ok(None));
}

#[test]
fn check_leaves_functions_and_scope_in_memory() {
    let mut mem = Memory::new();
    assert_eq!(run(&mut mem, well_typed_program(), 10_000), Ok(None));
    assert_eq!(first::memory::get_function_type(&mem, "foo".to_string()), Ok(IntRep::Number(0)));
    // The scope the check opened for the program stays open.
    first::memory::assign_var(&mut mem, IntRep::Var("z".to_string()), IntRep::Number(3)).unwrap();
    assert_eq!(first::memory::read_from_var(&mem, "z"), Ok(IntRep::Number(3)));
}

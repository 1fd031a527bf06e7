use first::ast::{BinOp, BoolType, ExprTree, FnHead, LogOp, NumCompOp, Type};
use first::error::RuntimeError;
use first::interpret::{eval_bin_op, eval_comp_op, eval_bool_log_op, match_node, run, Machine};
use first::memory::{IntRep, get_function_type, push_on_mem_stack, read_from_var, read_function};

fn bx(e: ExprTree) -> Box<ExprTree> {
    Box::new(e)
}

fn num(n: i32) -> ExprTree {
    ExprTree::Number(n)
}

fn var(name: &str) -> ExprTree {
    ExprTree::Var(name.to_string())
}

fn seq(a: ExprTree, b: ExprTree) -> ExprTree {
    ExprTree::SeqNode(bx(a), bx(b))
}

fn let_i32(name: &str, val: ExprTree) -> ExprTree {
    ExprTree::AssignNode(bx(var(name)), Type::I32, bx(val))
}

fn set(name: &str, val: ExprTree) -> ExprTree {
    ExprTree::SetVarNode(bx(var(name)), bx(val))
}

fn bin(l: ExprTree, op: BinOp, r: ExprTree) -> ExprTree {
    ExprTree::BinNode(bx(l), op, bx(r))
}

fn cmp(l: ExprTree, op: NumCompOp, r: ExprTree) -> ExprTree {
    ExprTree::NumCompNode(bx(l), op, bx(r))
}

fn ret(e: ExprTree) -> ExprTree {
    ExprTree::Return(bx(e))
}

fn param(name: &str, t: Type) -> Box<ExprTree> {
    bx(ExprTree::ParamNode(bx(var(name)), t))
}

fn func(name: &str, params: Vec<Box<ExprTree>>, t: Type, body: ExprTree) -> Box<ExprTree> {
    bx(ExprTree::FnNode(
        FnHead::Name(name.to_string()),
        FnHead::Params(params),
        FnHead::Return(t),
        bx(body),
    ))
}

fn call(name: &str, args: Vec<Box<ExprTree>>) -> ExprTree {
    ExprTree::FunctionCall(FnHead::Name(name.to_string()), FnHead::Params(args))
}

/// `foo` counts `b` from 1 to 11; `main` returns what `foo` returns.
/// Runs a program on a fresh machine; gives what it printed and its result.
fn run_program(ast: Vec<Box<ExprTree>>, fuel: u64) -> (Vec<IntRep>, Result<IntRep, RuntimeError>) {
    let mut st = Machine::new();
    let r = run(&mut st, ast, fuel);
    (st.output, r)
}

fn counting_program() -> Vec<Box<ExprTree>> {
    let foo_body = seq(
        let_i32("a", num(1)),
        seq(
            let_i32("b", num(1)),
            seq(
                ExprTree::WhileNode(
                    bx(cmp(var("b"), NumCompOp::LeEq, num(10))),
                    bx(set("b", bin(var("b"), BinOp::Add, num(1)))),
                ),
                ret(var("b")),
            ),
        ),
    );
    let main_body = seq(let_i32("b", call("foo", vec![])), ret(var("b")));
    vec![
        func("foo", vec![], Type::I32, foo_body),
        func("main", vec![], Type::I32, main_body),
    ]
}

#[test]
fn counting_program_returns_eleven() {
    let (out, r) = run_program(counting_program(), 10_000);
    assert_eq!(r, Ok(IntRep::Number(11)));
    assert!(out.is_empty());
}

#[test]
fn prints_are_collected_in_order() {
    let body = seq(
        ExprTree::Print(bx(num(1))),
        seq(ExprTree::Print(bx(ExprTree::Bool(BoolType::True))), ret(num(0))),
    );
    let (out, r) = run_program(vec![func("main", vec![], Type::I32, body)], 100);
    assert_eq!(r, Ok(IntRep::Number(0)));
    assert_eq!(out, vec![IntRep::Number(1), IntRep::Bool(true)]);
}

#[test]
fn arguments_are_bound_to_parameters() {
    let add = func(
        "add",
        vec![param("x", Type::I32), param("y", Type::I32)],
        Type::I32,
        ret(bin(var("x"), BinOp::Sub, var("y"))),
    );
    let main = func("main", vec![], Type::I32, ret(call("add", vec![bx(num(10)), bx(num(3))])));
    let (_, r) = run_program(vec![add, main], 100);
    assert_eq!(r, Ok(IntRep::Number(7)));
}

#[test]
fn recursion_computes_factorial() {
    // fact(n) = if n <= 1 { return 1 } else { return n * fact(n - 1) }
    let body = ExprTree::IfElseNode(
        bx(cmp(var("n"), NumCompOp::LeEq, num(1))),
        bx(ret(num(1))),
        bx(ret(bin(
            var("n"),
            BinOp::Mul,
            call("fact", vec![bx(bin(var("n"), BinOp::Sub, num(1)))]),
        ))),
    );
    let fact = func("fact", vec![param("n", Type::I32)], Type::I32, body);
    let main = func("main", vec![], Type::I32, ret(call("fact", vec![bx(num(5))])));
    let (_, r) = run_program(vec![fact, main], 1000);
    assert_eq!(r, Ok(IntRep::Number(120)));
}

#[test]
fn return_does_not_stop_the_body() {
    // Both values are pushed; the call pops the last one.
    let main = func("main", vec![], Type::I32, seq(ret(num(1)), ret(num(2))));
    let (_, r) = run_program(vec![main], 100);
    assert_eq!(r, Ok(IntRep::Number(2)));
}

#[test]
fn function_without_return_gives_newline() {
    let main = func("main", vec![], Type::I32, let_i32("x", num(1)));
    let (_, r) = run_program(vec![main], 100);
    assert_eq!(r, Ok(IntRep::NewLine));
}

#[test]
fn missing_main_fails() {
    let (_, r) = run_program(vec![], 100);
    assert_eq!(r, Err(RuntimeError::FunctionNotFound));
}

#[test]
fn wrong_argument_count_fails() {
    let f = func("f", vec![param("x", Type::I32)], Type::I32, ret(var("x")));
    let main = func("main", vec![], Type::I32, ret(call("f", vec![])));
    let (_, r) = run_program(vec![f, main], 100);
    assert_eq!(r, Err(RuntimeError::WrongArgCount { expected: 1, found: 0 }));
}

#[test]
fn endless_loop_runs_out_of_fuel() {
    let body = ExprTree::WhileNode(bx(ExprTree::Bool(BoolType::True)), bx(let_i32("x", num(1))));
    let (_, r) = run_program(vec![func("main", vec![], Type::I32, body)], 50);
    assert_eq!(r, Err(RuntimeError::OutOfFuel));
}

#[test]
fn numeric_loop_condition_fails() {
    let body = ExprTree::WhileNode(bx(num(1)), bx(ExprTree::Pass));
    let (_, r) = run_program(vec![func("main", vec![], Type::I32, body)], 50);
    assert_eq!(r, Err(RuntimeError::NotBool));
}

#[test]
fn set_with_other_kind_fails() {
    let body = seq(let_i32("x", num(1)), set("x", ExprTree::Bool(BoolType::False)));
    let (_, r) = run_program(vec![func("main", vec![], Type::I32, body)], 50);
    assert_eq!(r, Err(RuntimeError::AssignTypeMismatch));
}

#[test]
fn pass_is_not_evaluated() {
    let (_, r) = run_program(vec![func("main", vec![], Type::I32, ExprTree::Pass)], 50);
    assert_eq!(r, Err(RuntimeError::UnmatchedNode));
}

#[test]
fn top_level_assignment_has_no_scope() {
    let (_, r) = run_program(vec![bx(let_i32("x", num(1)))], 50);
    assert_eq!(r, Err(RuntimeError::NoScope));
}

#[test]
fn if_without_else_skips_on_false() {
    let body = seq(
        let_i32("x", num(1)),
        seq(
            ExprTree::IfNode(bx(cmp(var("x"), NumCompOp::Gre, num(5))), bx(set("x", num(9)))),
            ret(var("x")),
        ),
    );
    let (_, r) = run_program(vec![func("main", vec![], Type::I32, body)], 50);
    assert_eq!(r, Ok(IntRep::Number(1)));
}

#[test]
fn match_node_evaluates_in_current_scope() {
    let mut st = Machine::new();
    push_on_mem_stack(&mut st.mem);
    assert_eq!(match_node(&mut st, &let_i32("v", bin(num(6), BinOp::Div, num(4))), 10), Ok(IntRep::NewLine));
    assert_eq!(read_from_var(&st.mem, "v"), Ok(IntRep::Number(1)));
}

#[test]
fn arithmetic_follows_i32_rules() {
    assert_eq!(eval_bin_op(BinOp::Div, IntRep::Number(-7), IntRep::Number(2)), Ok(IntRep::Number(-3)));
    assert_eq!(eval_bin_op(BinOp::Mul, IntRep::Number(-7), IntRep::Number(3)), Ok(IntRep::Number(-21)));
    assert_eq!(eval_bin_op(BinOp::Div, IntRep::Number(1), IntRep::Number(0)), Err(RuntimeError::DivisionByZero));
    assert_eq!(eval_bin_op(BinOp::Div, IntRep::Number(i32::MIN), IntRep::Number(-1)), Err(RuntimeError::Overflow));
    assert_eq!(eval_bin_op(BinOp::Add, IntRep::Number(i32::MAX), IntRep::Number(1)), Err(RuntimeError::Overflow));
    assert_eq!(eval_bin_op(BinOp::Add, IntRep::Bool(true), IntRep::Number(1)), Err(RuntimeError::NotNumber));
}

#[test]
fn comparisons_and_logic() {
    assert_eq!(eval_comp_op(NumCompOp::Les, IntRep::Number(1), IntRep::Number(2)), Ok(IntRep::Bool(true)));
    assert_eq!(eval_comp_op(NumCompOp::Neq, IntRep::Bool(true), IntRep::Bool(false)), Ok(IntRep::Bool(true)));
    assert_eq!(eval_comp_op(NumCompOp::Les, IntRep::Bool(true), IntRep::Bool(false)), Err(RuntimeError::BoolCompare));
    assert_eq!(eval_comp_op(NumCompOp::Eq, IntRep::Bool(true), IntRep::Number(1)), Err(RuntimeError::CompareMismatch));
    assert_eq!(eval_bool_log_op(LogOp::And, IntRep::Bool(true), IntRep::Bool(false)), Ok(IntRep::Bool(false)));
    assert_eq!(eval_bool_log_op(LogOp::Or, IntRep::Bool(true), IntRep::Bool(false)), Ok(IntRep::Bool(true)));
    assert_eq!(eval_bool_log_op(LogOp::Or, IntRep::Number(0), IntRep::Bool(false)), Err(RuntimeError::BoolOpMismatch));
}

#[test]
fn call_restores_caller_variables() {
    let f = func("f", vec![], Type::I32, seq(let_i32("x", num(5)), ret(var("x"))));
    let main = func(
        "main",
        vec![],
        Type::I32,
        seq(
            let_i32("x", num(1)),
            seq(let_i32("y", call("f", vec![])), ret(bin(var("x"), BinOp::Add, var("y")))),
        ),
    );
    let (_, r) = run_program(vec![f, main], 100);
    assert_eq!(r, Ok(IntRep::Number(6)));
}

#[test]
fn larger_budget_same_run() {
    let (out_small, r_small) = run_program(counting_program(), 60);
    let (out_large, r_large) = run_program(counting_program(), u64::MAX);
    assert_eq!(r_small, Ok(IntRep::Number(11)));
    assert_eq!(r_small, r_large);
    assert_eq!(out_small, out_large);
}

#[test]
fn defined_function_can_be_called_by_name() {
    let mut st = Machine::new();
    let def = func("seven", vec![], Type::Bool, ret(num(7)));
    assert_eq!(match_node(&mut st, &def, 10), Ok(IntRep::NewLine));
    assert_eq!(
        first::memory::get_function_type(&st.mem, "seven".to_string()),
        Ok(IntRep::Bool(false))
    );
    assert_eq!(match_node(&mut st, &call("seven", vec![]), 10), Ok(IntRep::Number(7)));
}

#[test]
fn run_leaves_function_table_in_memory() {
    // Definitions are registered from the last to the first, so the first
    // definition of a name is the one that stays.
    let f1 = func("f", vec![], Type::I32, ret(num(1)));
    let f2 = func("f", vec![], Type::Bool, ret(num(2)));
    let main = func("main", vec![], Type::I32, ret(call("f", vec![])));
    let mut st = Machine::new();
    let r = run(&mut st, vec![f1, f2, main], 100);
    assert_eq!(r, Ok(IntRep::Number(1)));
    assert_eq!(get_function_type(&st.mem, "f".to_string()), Ok(IntRep::Number(0)));
    assert_eq!(get_function_type(&st.mem, "main".to_string()), Ok(IntRep::Number(0)));
    let (body, params) = read_function(&st.mem, "f".to_string()).unwrap();
    assert_eq!(body, ret(num(1)));
    assert!(params.is_empty());
}

#[test]
fn second_run_sees_first_run_functions() {
    let helper = func("helper", vec![], Type::I32, ret(num(9)));
    let main1 = func("main", vec![], Type::I32, ret(num(0)));
    let mut st = Machine::new();
    assert_eq!(run(&mut st, vec![helper, main1], 100), Ok(IntRep::Number(0)));
    // The second program does not define `helper`; the machine still has it.
    let main2 = func("main", vec![], Type::I32, ret(call("helper", vec![])));
    assert_eq!(run(&mut st, vec![main2], 100), Ok(IntRep::Number(9)));
}

#[test]
fn checker_and_interpreter_share_memory() {
    // `f` has no `return`; `main` returns what `f` gives.
    let prog = || {
        vec![
            func("f", vec![], Type::I32, let_i32("x", num(1))),
            func("main", vec![], Type::I32, ret(call("f", vec![]))),
        ]
    };
    // On a fresh machine, `f` gives `NewLine`.
    assert_eq!(run_program(prog(), 100).1, Ok(IntRep::NewLine));
    // After the type check on the same memory, the placeholder of `main`'s
    // return type is left on the return stack, and `f` pops it.
    let mut st = Machine::new();
    assert_eq!(first::type_checker::run(&mut st.mem, prog(), 100), Ok(None));
    assert_eq!(run(&mut st, prog(), 100), Ok(IntRep::Number(0)));
}

use first::ast::{ExprTree, Type};
use first::error::RuntimeError;
use first::memory::{
    assign_var, get_function_type, insert_function, pop_from_mem_stack, pop_from_return_stack,
    push_on_mem_stack, push_on_return_stack, read_from_var, read_function, IntRep, Memory,
};

fn var_named(name: &str) -> IntRep {
    IntRep::Var(name.to_string())
}

#[test]
fn read_after_assign_gives_value() {
    let mut mem = Memory::new();
    push_on_mem_stack(&mut mem);
    assert_eq!(assign_var(&mut mem, var_named("x"), IntRep::Number(7)), Ok(IntRep::NewLine));
    assert_eq!(read_from_var(&mem, "x"), Ok(IntRep::Number(7)));
    assert_eq!(assign_var(&mut mem, var_named("x"), IntRep::Bool(true)), Ok(IntRep::NewLine));
    assert_eq!(read_from_var(&mem, "x"), Ok(IntRep::Bool(true)));
}

#[test]
fn assign_leaves_other_variables() {
    let mut mem = Memory::new();
    push_on_mem_stack(&mut mem);
    assign_var(&mut mem, var_named("x"), IntRep::Number(1)).unwrap();
    assign_var(&mut mem, var_named("y"), IntRep::Number(2)).unwrap();
    assert_eq!(read_from_var(&mem, "x"), Ok(IntRep::Number(1)));
    assert_eq!(read_from_var(&mem, "y"), Ok(IntRep::Number(2)));
}

#[test]
fn read_without_scope_fails() {
    let mem = Memory::new();
    assert_eq!(read_from_var(&mem, "x"), Err(RuntimeError::NoScope));
}

#[test]
fn assign_without_scope_fails() {
    let mut mem = Memory::new();
    assert_eq!(assign_var(&mut mem, var_named("x"), IntRep::Number(1)), Err(RuntimeError::NoScope));
}

#[test]
fn assign_to_non_variable_fails() {
    let mut mem = Memory::new();
    push_on_mem_stack(&mut mem);
    assert_eq!(
        assign_var(&mut mem, IntRep::Number(3), IntRep::Number(1)),
        Err(RuntimeError::AssignToNonVar)
    );
}

#[test]
fn read_missing_variable_fails() {
    let mut mem = Memory::new();
    push_on_mem_stack(&mut mem);
    assert_eq!(read_from_var(&mem, "nope"), Err(RuntimeError::VarNotFound));
}

#[test]
fn read_newline_value_fails() {
    let mut mem = Memory::new();
    push_on_mem_stack(&mut mem);
    assign_var(&mut mem, var_named("n"), IntRep::NewLine).unwrap();
    assert_eq!(read_from_var(&mem, "n"), Err(RuntimeError::NotAValue));
}

#[test]
fn read_copies_nested_values() {
    let mut mem = Memory::new();
    push_on_mem_stack(&mut mem);
    let c = IntRep::Const(Box::new(IntRep::Const(Box::new(IntRep::Number(-4)))));
    assign_var(&mut mem, var_named("c"), c).unwrap();
    assert_eq!(
        read_from_var(&mem, "c"),
        Ok(IntRep::Const(Box::new(IntRep::Const(Box::new(IntRep::Number(-4))))))
    );
    assign_var(&mut mem, var_named("u"), IntRep::Undefined(Type::Bool)).unwrap();
    assert_eq!(read_from_var(&mem, "u"), Ok(IntRep::Undefined(Type::Bool)));
}

#[test]
fn new_scope_hides_outer_variables() {
    let mut mem = Memory::new();
    push_on_mem_stack(&mut mem);
    assign_var(&mut mem, var_named("x"), IntRep::Number(1)).unwrap();
    push_on_mem_stack(&mut mem);
    assert_eq!(read_from_var(&mem, "x"), Err(RuntimeError::VarNotFound));
    assign_var(&mut mem, var_named("x"), IntRep::Number(2)).unwrap();
    pop_from_mem_stack(&mut mem);
    assert_eq!(read_from_var(&mem, "x"), Ok(IntRep::Number(1)));
}

#[test]
fn pop_mem_stack_when_empty_does_nothing() {
    let mut mem = Memory::new();
    pop_from_mem_stack(&mut mem);
    assert_eq!(read_from_var(&mem, "x"), Err(RuntimeError::NoScope));
}

#[test]
fn return_stack_is_last_in_first_out() {
    let mut mem = Memory::new();
    push_on_return_stack(&mut mem, IntRep::Number(1));
    push_on_return_stack(&mut mem, IntRep::Bool(false));
    assert_eq!(pop_from_return_stack(&mut mem), IntRep::Bool(false));
    assert_eq!(pop_from_return_stack(&mut mem), IntRep::Number(1));
    assert_eq!(pop_from_return_stack(&mut mem), IntRep::NewLine);
}

#[test]
fn function_read_back_after_insert() {
    let mut mem = Memory::new();
    let params = vec![Box::new(ExprTree::ParamNode(
        Box::new(ExprTree::Var("p".to_string())),
        Type::I32,
    ))];
    let body = ExprTree::Return(Box::new(ExprTree::Var("p".to_string())));
    insert_function(&mut mem, "f".to_string(), IntRep::Function(params, Type::Bool, body));
    let (b, p) = read_function(&mem, "f".to_string()).unwrap();
    assert_eq!(b, ExprTree::Return(Box::new(ExprTree::Var("p".to_string()))));
    assert_eq!(p.len(), 1);
    assert_eq!(
        *p[0],
        ExprTree::ParamNode(Box::new(ExprTree::Var("p".to_string())), Type::I32)
    );
    assert_eq!(get_function_type(&mem, "f".to_string()), Ok(IntRep::Bool(false)));
}

#[test]
fn function_type_of_i32_is_number_zero() {
    let mut mem = Memory::new();
    insert_function(&mut mem, "g".to_string(), IntRep::Function(Vec::new(), Type::I32, ExprTree::Pass));
    assert_eq!(get_function_type(&mem, "g".to_string()), Ok(IntRep::Number(0)));
}

#[test]
fn insert_function_replaces_earlier() {
    let mut mem = Memory::new();
    insert_function(&mut mem, "g".to_string(), IntRep::Function(Vec::new(), Type::I32, ExprTree::Pass));
    insert_function(&mut mem, "g".to_string(), IntRep::Function(Vec::new(), Type::Bool, ExprTree::Pass));
    assert_eq!(get_function_type(&mem, "g".to_string()), Ok(IntRep::Bool(false)));
}

#[test]
fn missing_function_fails() {
    let mem = Memory::new();
    assert_eq!(read_function(&mem, "nope".to_string()), Err(RuntimeError::FunctionNotFound));
    assert_eq!(get_function_type(&mem, "nope".to_string()), Err(RuntimeError::FunctionNotFound));
}

#[test]
fn non_function_value_is_not_a_function() {
    let mut mem = Memory::new();
    insert_function(&mut mem, "h".to_string(), IntRep::Number(3));
    assert_eq!(read_function(&mem, "h".to_string()), Err(RuntimeError::NotAFunction));
    assert_eq!(get_function_type(&mem, "h".to_string()), Err(RuntimeError::NotAFunction));
}

#[test]
fn pop_undoes_assignments_in_scope() {
    let mut mem = Memory::new();
    push_on_mem_stack(&mut mem);
    assign_var(&mut mem, var_named("x"), IntRep::Number(1)).unwrap();
    push_on_mem_stack(&mut mem);
    assign_var(&mut mem, var_named("x"), IntRep::Number(2)).unwrap();
    assign_var(&mut mem, var_named("y"), IntRep::Bool(true)).unwrap();
    assign_var(&mut mem, var_named("x"), IntRep::Number(3)).unwrap();
    pop_from_mem_stack(&mut mem);
    assert_eq!(read_from_var(&mem, "x"), Ok(IntRep::Number(1)));
    assert_eq!(read_from_var(&mem, "y"), Err(RuntimeError::VarNotFound));
}

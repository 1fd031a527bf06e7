use first::parser::{create_tree, Op, ParseError, Tree};

fn leaf(n: i32) -> Box<Tree> {
    Box::new(Tree::Leaf(n))
}

#[test]
fn single_number() {
    assert_eq!(create_tree("42"), Ok(Tree::Leaf(42)));
}

#[test]
fn leading_whitespace_and_trailing_text() {
    assert_eq!(create_tree(" \t 17xyz"), Ok(Tree::Leaf(17)));
}

#[test]
fn plus_is_above_times() {
    assert_eq!(
        create_tree("1 + 2 * 3"),
        Ok(Tree::Cons(Op::Add, leaf(1), Box::new(Tree::Cons(Op::Mult, leaf(2), leaf(3)))))
    );
}

#[test]
fn minus_is_above_divide() {
    assert_eq!(
        create_tree("8/2-1"),
        Ok(Tree::Cons(Op::Sub, Box::new(Tree::Cons(Op::Div, leaf(8), leaf(2))), leaf(1)))
    );
}

#[test]
fn split_at_first_operator() {
    assert_eq!(
        create_tree("1-2-3"),
        Ok(Tree::Cons(Op::Sub, leaf(1), Box::new(Tree::Cons(Op::Sub, leaf(2), leaf(3)))))
    );
}

#[test]
fn plus_before_minus_even_when_later() {
    assert_eq!(
        create_tree("5-1+2"),
        Ok(Tree::Cons(Op::Add, Box::new(Tree::Cons(Op::Sub, leaf(5), leaf(1))), leaf(2)))
    );
}

#[test]
fn not_a_number() {
    assert_eq!(create_tree("abc"), Err(ParseError::NotANumber));
    assert_eq!(create_tree(""), Err(ParseError::NotANumber));
    assert_eq!(create_tree("1 + "), Err(ParseError::NotANumber));
}

#[test]
fn largest_number_and_beyond() {
    assert_eq!(create_tree("2147483647"), Ok(Tree::Leaf(i32::MAX)));
    assert_eq!(create_tree("2147483648"), Err(ParseError::NumberTooLarge));
    assert_eq!(create_tree("99999999999999999999"), Err(ParseError::NumberTooLarge));
}

#[test]
fn left_error_comes_first() {
    assert_eq!(create_tree("x * 99999999999"), Err(ParseError::NotANumber));
}

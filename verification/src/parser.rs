//! A parser of arithmetic expressions such as `1 + 2 * 3` into a tree.
//!
//! The tree is split at the first `+`; without one, at the first `-`, then
//! `*`, then `/`. So `+` and `-` end up higher in the tree than `*` and `/`,
//! and evaluating the tree from the leaves up does `*` and `/` first. A part
//! without operators is a number: leading spaces and tabs, then at least one
//! decimal digit; what follows the digits is ignored.
use vstd::prelude::*;
use vstd::string::StringSliceAdditionalSpecFns;

verus! {

/// An arithmetic expression tree.
#[derive(Debug, PartialEq, Eq)]
pub enum Tree {
    Cons(Op, Box<Tree>, Box<Tree>),
    Leaf(i32),
}

#[derive(Debug, Clone, Copy, PartialEq, Eq)]
pub enum Op {
    Add,
    Sub,
    Mult,
    Div,
}

/// Why a part of the input is not a number.
#[derive(Debug, Clone, Copy, PartialEq, Eq, Structural)]
pub enum ParseError {
    /// No decimal digit after the leading whitespace.
    NotANumber,
    /// The digits stand for a number larger than `i32::MAX`.
    NumberTooLarge,
}

pub open spec fn is_space(b: u8) -> bool {
    b == 32 || b == 9
}

pub open spec fn is_digit(b: u8) -> bool {
    48 <= b <= 57
}

/// The first index of byte `c` in `s`.
pub open spec fn first_index(s: Seq<u8>, c: u8) -> Option<int>
    decreases s.len(),
{
    if s.len() == 0 {
        None
    } else if s[0] == c {
        Some(0)
    } else {
        match first_index(s.drop_first(), c) {
            Some(i) => Some(i + 1),
            None => None,
        }
    }
}

/// The number of leading spaces and tabs.
pub open spec fn spaces(s: Seq<u8>) -> nat
    decreases s.len(),
{
    if s.len() > 0 && is_space(s[0]) {
        1 + spaces(s.drop_first())
    } else {
        0
    }
}

/// The number of leading decimal digits.
pub open spec fn digits(s: Seq<u8>) -> nat
    decreases s.len(),
{
    if s.len() > 0 && is_digit(s[0]) {
        1 + digits(s.drop_first())
    } else {
        0
    }
}

/// The number that a string of decimal digits stands for.
pub open spec fn decimal(d: Seq<u8>) -> int
    decreases d.len(),
{
    if d.len() == 0 {
        0
    } else {
        decimal(d.drop_last()) * 10 + (d.last() - 48)
    }
}

/// A number: leading whitespace, then at least one digit.
pub open spec fn leaf_spec(s: Seq<u8>) -> Result<Tree, ParseError> {
    let t = s.skip(spaces(s) as int);
    let d = t.take(digits(t) as int);
    if d.len() == 0 {
        Err(ParseError::NotANumber)
    } else if decimal(d) > i32::MAX {
        Err(ParseError::NumberTooLarge)
    } else {
        Ok(Tree::Leaf(decimal(d) as i32))
    }
}

/// A node from two parsed sides; the left side's error comes first.
pub open spec fn node_of(op: Op, l: Result<Tree, ParseError>, r: Result<Tree, ParseError>) -> Result<
    Tree,
    ParseError,
> {
    match l {
        Err(e) => Err(e),
        Ok(lt) => match r {
            Err(e) => Err(e),
            Ok(rt) => Ok(Tree::Cons(op, Box::new(lt), Box::new(rt))),
        },
    }
}

/// The operator that the tree is split at, with its byte.
pub open spec fn split_op(s: Seq<u8>) -> Option<(Op, int)> {
    if first_index(s, 43) is Some {
        Some((Op::Add, first_index(s, 43).unwrap()))
    } else if first_index(s, 45) is Some {
        Some((Op::Sub, first_index(s, 45).unwrap()))
    } else if first_index(s, 42) is Some {
        Some((Op::Mult, first_index(s, 42).unwrap()))
    } else if first_index(s, 47) is Some {
        Some((Op::Div, first_index(s, 47).unwrap()))
    } else {
        None
    }
}

/// The tree of an expression given as bytes.
pub open spec fn tree_spec(s: Seq<u8>) -> Result<Tree, ParseError>
    decreases s.len(),
{
    match split_op(s) {
        Some((op, i)) => {
            proof {
                lemma_split_op(s);
            }
            node_of(op, tree_spec(s.take(i)), tree_spec(s.skip(i + 1)))
        },
        None => leaf_spec(s),
    }
}

pub proof fn lemma_first_index(s: Seq<u8>, c: u8)
    ensures
        match first_index(s, c) {
            Some(i) => 0 <= i < s.len() && s[i] == c && forall|j: int|
                0 <= j < i ==> s[j] != c,
            None => forall|j: int| 0 <= j < s.len() ==> s[j] != c,
        },
    decreases s.len(),
{
    if s.len() > 0 && s[0] != c {
        lemma_first_index(s.drop_first(), c);
        match first_index(s.drop_first(), c) {
            Some(i) => {
                assert forall|j: int| 0 <= j < i + 1 implies s[j] != c by {
                    if j > 0 {
                        assert(s[j] == s.drop_first()[j - 1]);
                    }
                }
            },
            None => {
                assert forall|j: int| 0 <= j < s.len() implies s[j] != c by {
                    if j > 0 {
                        assert(s[j] == s.drop_first()[j - 1]);
                    }
                }
            },
        }
    }
}

/// The operator the tree is split at is a byte of the input.
pub proof fn lemma_split_op(s: Seq<u8>)
    ensures
        split_op(s) matches Some((op, i)) ==> 0 <= i < s.len(),
{
    lemma_first_index(s, 43);
    lemma_first_index(s, 45);
    lemma_first_index(s, 42);
    lemma_first_index(s, 47);
}

/// The first index of `c` in `s[lo..hi]`, as an index of `s`.
fn find_byte(s: &[u8], lo: usize, hi: usize, c: u8) -> (r: Option<usize>)
    requires
        lo <= hi <= s@.len(),
    ensures
        match first_index(s@.subrange(lo as int, hi as int), c) {
            Some(i) => r == Some((lo + i) as usize),
            None => r is None,
        },
{
    let ghost sub = s@.subrange(lo as int, hi as int);
    proof {
        lemma_first_index(sub, c);
    }
    let mut k = lo;
    while k < hi
        invariant
            lo <= k <= hi <= s@.len(),
            sub == s@.subrange(lo as int, hi as int),
            forall|j: int| lo <= j < k ==> s@[j] != c,
        decreases hi - k,
    {
        if s[k] == c {
            proof {
                lemma_first_index(sub, c);
                match first_index(sub, c) {
                    Some(i) => {
                        assert(sub[k - lo] == c);
                        assert(i == k - lo) by {
                            if i < k - lo {
                                assert(s@[lo + i] == sub[i]);
                            }
                        }
                    },
                    None => {
                        assert(sub[k - lo] == c);
                    },
                }
            }
            return Some(k);
        }
        k = k + 1;
    }
    proof {
        match first_index(sub, c) {
            Some(i) => {
                assert(s@[lo + i] == sub[i]);
            },
            None => {},
        }
    }
    None
}

/// Creates a new node: the operator at index `i` of `s[lo..hi]` and the trees
/// of the parts before and after it.
fn create_node(s: &[u8], lo: usize, hi: usize, i: usize) -> (r: Result<Tree, ParseError>)
    requires
        lo <= i < hi <= s@.len(),
    ensures
        ({
            let op = if s@[i as int] == 43 {
                Op::Add
            } else if s@[i as int] == 45 {
                Op::Sub
            } else if s@[i as int] == 42 {
                Op::Mult
            } else {
                Op::Div
            };
            r == node_of(
                op,
                tree_spec(s@.subrange(lo as int, i as int)),
                tree_spec(s@.subrange(i + 1, hi as int)),
            )
        }),
    decreases hi - lo, 0nat,
{
    let b = s[i];
    let operator = if b == 43 {
        Op::Add
    } else if b == 45 {
        Op::Sub
    } else if b == 42 {
        Op::Mult
    } else {
        Op::Div
    };
    let left_tree = match create_tree_range(s, lo, i) {
        Ok(t) => t,
        Err(e) => {
            return Err(e);
        },
    };
    let right_tree = match create_tree_range(s, i + 1, hi) {
        Ok(t) => t,
        Err(e) => {
            return Err(e);
        },
    };
    Ok(Tree::Cons(operator, Box::new(left_tree), Box::new(right_tree)))
}

proof fn lemma_decimal_monotone(d: Seq<u8>, j: int)
    requires
        0 <= j <= d.len(),
        forall|k: int| 0 <= k < d.len() ==> is_digit(#[trigger] d[k]),
    ensures
        decimal(d.take(j)) <= decimal(d),
        0 <= decimal(d.take(j)),
    decreases d.len() - j,
{
    if j < d.len() {
        lemma_decimal_monotone(d, j + 1);
        assert(d.take(j + 1).drop_last() =~= d.take(j));
        assert(d.take(j + 1).last() == d[j]);
    } else {
        assert(d.take(j) =~= d);
    }
    lemma_decimal_nonneg(d.take(j));
}

proof fn lemma_decimal_nonneg(d: Seq<u8>)
    requires
        forall|k: int| 0 <= k < d.len() ==> is_digit(#[trigger] d[k]),
    ensures
        0 <= decimal(d),
    decreases d.len(),
{
    if d.len() > 0 {
        assert forall|k: int| 0 <= k < d.drop_last().len() implies is_digit(
            #[trigger] d.drop_last()[k],
        ) by {
            assert(d.drop_last()[k] == d[k]);
        }
        lemma_decimal_nonneg(d.drop_last());
    }
}

proof fn lemma_spaces_step(s: Seq<u8>, k: int)
    requires
        0 <= k < s.len(),
    ensures
        s.skip(k).drop_first() =~= s.skip(k + 1),
        s.skip(k)[0] == s[k],
{
}

proof fn lemma_digits_prefix(t: Seq<u8>)
    ensures
        digits(t) <= t.len(),
        forall|k: int| 0 <= k < digits(t) ==> is_digit(#[trigger] t[k]),
        digits(t) < t.len() ==> !is_digit(t[digits(t) as int]),
    decreases t.len(),
{
    if t.len() > 0 && is_digit(t[0]) {
        lemma_digits_prefix(t.drop_first());
        assert forall|k: int| 0 <= k < digits(t) implies is_digit(#[trigger] t[k]) by {
            if k > 0 {
                assert(t[k] == t.drop_first()[k - 1]);
            }
        }
        if digits(t) < t.len() {
            assert(t[digits(t) as int] == t.drop_first()[digits(t.drop_first()) as int]);
        }
    }
}

/// Reads a number from `s[lo..hi]`: leading whitespace, then decimal digits.
fn create_leaf(s: &[u8], lo: usize, hi: usize) -> (r: Result<Tree, ParseError>)
    requires
        lo <= hi <= s@.len(),
    ensures
        r == leaf_spec(s@.subrange(lo as int, hi as int)),
{
    let ghost sub = s@.subrange(lo as int, hi as int);
    let mut k = lo;
    assert(sub.skip(0) =~= sub);
    while k < hi && (s[k] == 32 || s[k] == 9)
        invariant
            lo <= k <= hi <= s@.len(),
            sub == s@.subrange(lo as int, hi as int),
            spaces(sub) == (k - lo) + spaces(sub.skip(k - lo)),
        decreases hi - k,
    {
        proof {
            lemma_spaces_step(sub, k - lo);
            assert(sub.skip(k - lo)[0] == s@[k as int]);
        }
        k = k + 1;
    }
    proof {
        if k < hi {
            assert(sub.skip(k - lo)[0] == s@[k as int]);
        }
        assert(spaces(sub) == k - lo);
    }
    let ghost t = sub.skip(k - lo);
    let start = k;
    let mut acc: i32 = 0;
    let mut too_large = false;
    proof {
        lemma_digits_prefix(t);
        assert(t.take(0) =~= Seq::<u8>::empty());
    }
    while k < hi && 48 <= s[k] && s[k] <= 57
        invariant
            lo <= start <= k <= hi <= s@.len(),
            sub == s@.subrange(lo as int, hi as int),
            t == sub.skip(start - lo),
            k - start <= digits(t),
            digits(t) <= t.len(),
            forall|j: int| 0 <= j < digits(t) ==> is_digit(#[trigger] t[j]),
            digits(t) < t.len() ==> !is_digit(t[digits(t) as int]),
            too_large ==> decimal(t.take(k - start)) > i32::MAX,
            !too_large ==> acc == decimal(t.take(k - start)),
        decreases hi - k,
    {
        let ghost j = k - start;
        proof {
            assert(t[j] == s@[k as int]);
            assert(t.take(j + 1).drop_last() =~= t.take(j));
            assert(t.take(j + 1).last() == t[j]);
            if j >= digits(t) {
                assert(j == digits(t));
            }
            lemma_decimal_nonneg(t.take(j));
        }
        let dig = (s[k] - 48) as i32;
        if !too_large {
            match acc.checked_mul(10) {
                Some(m) => match m.checked_add(dig) {
                    Some(v) => {
                        acc = v;
                    },
                    None => {
                        too_large = true;
                    },
                },
                None => {
                    too_large = true;
                },
            }
        } else {
            proof {
                lemma_decimal_nonneg(t.take(j));
            }
        }
        k = k + 1;
    }
    let ghost n = k - start;
    proof {
        if k < hi {
            assert(t[n] == s@[k as int]);
        }
        assert(n == digits(t));
        assert(t.take(digits(t) as int) =~= t.take(n));
        assert(forall|i: int| 0 <= i < n ==> is_digit(#[trigger] t.take(n)[i]));
        assert(spaces(sub) == start - lo);
    }
    if k == start {
        Err(ParseError::NotANumber)
    } else if too_large {
        Err(ParseError::NumberTooLarge)
    } else {
        Ok(Tree::Leaf(acc))
    }
}

/// The tree of the expression in `s[lo..hi]`.
fn create_tree_range(s: &[u8], lo: usize, hi: usize) -> (r: Result<Tree, ParseError>)
    requires
        lo <= hi <= s@.len(),
    ensures
        r == tree_spec(s@.subrange(lo as int, hi as int)),
    decreases hi - lo, 1nat,
{
    let ghost sub = s@.subrange(lo as int, hi as int);
    proof {
        lemma_split_op(sub);
    }
    let found = match find_byte(s, lo, hi, 43) {
        Some(i) => Some(i),
        None => match find_byte(s, lo, hi, 45) {
            Some(i) => Some(i),
            None => match find_byte(s, lo, hi, 42) {
                Some(i) => Some(i),
                None => find_byte(s, lo, hi, 47),
            },
        },
    };
    match found {
        Some(i) => {
            proof {
                lemma_first_index(sub, 43);
                lemma_first_index(sub, 45);
                lemma_first_index(sub, 42);
                lemma_first_index(sub, 47);
                assert(sub.take(i - lo) =~= s@.subrange(lo as int, i as int));
                assert(sub.skip(i - lo + 1) =~= s@.subrange(i + 1, hi as int));
                assert(sub[i - lo] == s@[i as int]);
            }
            create_node(s, lo, hi, i)
        },
        None => create_leaf(s, lo, hi),
    }
}

/// The tree of an arithmetic expression.
pub fn create_tree(input: &str) -> (r: Result<Tree, ParseError>)
    ensures
        r == tree_spec(input.spec_bytes()),
{
    let bytes = input.as_bytes();
    proof {
        assert(bytes@.subrange(0, bytes@.len() as int) =~= bytes@);
    }
    create_tree_range(bytes, 0, bytes.len())
}

/// Whether byte `c` occurs in `s`.
pub open spec fn contains_byte(s: Seq<u8>, c: u8) -> bool {
    exists|j: int| 0 <= j < s.len() && s[j] == c
}

/// `+` and `-` come higher in the tree than `*` and `/`: an expression with a
/// `+` is split at its first `+` (so the left part holds no `+`); without `+`
/// at its first `-`; then at the first `*`; then at the first `/`; and an
/// expression without operators is a number.
pub proof fn law_split_precedence(s: Seq<u8>)
    ensures
        contains_byte(s, 43) ==> exists|i: int|
            0 <= i < s.len() && s[i] == 43 && !contains_byte(s.take(i), 43) && tree_spec(s)
                == node_of(Op::Add, tree_spec(s.take(i)), tree_spec(s.skip(i + 1))),
        !contains_byte(s, 43) && contains_byte(s, 45) ==> exists|i: int|
            0 <= i < s.len() && s[i] == 45 && !contains_byte(s.take(i), 45) && tree_spec(s)
                == node_of(Op::Sub, tree_spec(s.take(i)), tree_spec(s.skip(i + 1))),
        !contains_byte(s, 43) && !contains_byte(s, 45) && contains_byte(s, 42) ==> exists|i: int|
            0 <= i < s.len() && s[i] == 42 && !contains_byte(s.take(i), 42) && tree_spec(s)
                == node_of(Op::Mult, tree_spec(s.take(i)), tree_spec(s.skip(i + 1))),
        !contains_byte(s, 43) && !contains_byte(s, 45) && !contains_byte(s, 42) && contains_byte(
            s,
            47,
        ) ==> exists|i: int|
            0 <= i < s.len() && s[i] == 47 && !contains_byte(s.take(i), 47) && tree_spec(s)
                == node_of(Op::Div, tree_spec(s.take(i)), tree_spec(s.skip(i + 1))),
        !contains_byte(s, 43) && !contains_byte(s, 45) && !contains_byte(s, 42)
            && !contains_byte(s, 47) ==> tree_spec(s) == leaf_spec(s),
{
    lemma_first_index(s, 43);
    lemma_first_index(s, 45);
    lemma_first_index(s, 42);
    lemma_first_index(s, 47);
    lemma_split_op(s);
    if let Some(i) = first_index(s, 43) {
        assert(!contains_byte(s.take(i), 43)) by {
            if contains_byte(s.take(i), 43) {
                let j = choose|j: int| 0 <= j < s.take(i).len() && s.take(i)[j] == 43;
                assert(s[j] == 43);
            }
        }
    } else if let Some(i) = first_index(s, 45) {
        assert(!contains_byte(s.take(i), 45)) by {
            if contains_byte(s.take(i), 45) {
                let j = choose|j: int| 0 <= j < s.take(i).len() && s.take(i)[j] == 45;
                assert(s[j] == 45);
            }
        }
    } else if let Some(i) = first_index(s, 42) {
        assert(!contains_byte(s.take(i), 42)) by {
            if contains_byte(s.take(i), 42) {
                let j = choose|j: int| 0 <= j < s.take(i).len() && s.take(i)[j] == 42;
                assert(s[j] == 42);
            }
        }
    } else if let Some(i) = first_index(s, 47) {
        assert(!contains_byte(s.take(i), 47)) by {
            if contains_byte(s.take(i), 47) {
                let j = choose|j: int| 0 <= j < s.take(i).len() && s.take(i)[j] == 47;
                assert(s[j] == 47);
            }
        }
    }
}

proof fn lemma_spaces_prefix(ws: Seq<u8>, t: Seq<u8>)
    requires
        forall|k: int| 0 <= k < ws.len() ==> is_space(#[trigger] ws[k]),
        t.len() == 0 || !is_space(t[0]),
    ensures
        spaces(ws + t) == ws.len(),
    decreases ws.len(),
{
    if ws.len() > 0 {
        assert((ws + t).drop_first() =~= ws.drop_first() + t);
        assert(is_space(ws[0]));
        assert forall|k: int| 0 <= k < ws.drop_first().len() implies is_space(
            #[trigger] ws.drop_first()[k],
        ) by {
            assert(is_space(ws[k + 1]));
        }
        lemma_spaces_prefix(ws.drop_first(), t);
    } else {
        assert(ws + t =~= t);
    }
}

proof fn lemma_digits_run(ds: Seq<u8>, rest: Seq<u8>)
    requires
        forall|k: int| 0 <= k < ds.len() ==> is_digit(#[trigger] ds[k]),
        rest.len() == 0 || !is_digit(rest[0]),
    ensures
        digits(ds + rest) == ds.len(),
    decreases ds.len(),
{
    if ds.len() > 0 {
        assert((ds + rest).drop_first() =~= ds.drop_first() + rest);
        assert(is_digit(ds[0]));
        assert forall|k: int| 0 <= k < ds.drop_first().len() implies is_digit(
            #[trigger] ds.drop_first()[k],
        ) by {
            assert(is_digit(ds[k + 1]));
        }
        lemma_digits_run(ds.drop_first(), rest);
    } else {
        assert(ds + rest =~= rest);
    }
}

/// A number part is read as its digits stand for: after leading spaces and
/// tabs `ws`, a non-empty run of decimal digits `ds` (followed by anything
/// `rest` that does not go on with a digit) gives the leaf of the number
/// `decimal(ds)` when it is at most `i32::MAX` (zero included), and
/// `NumberTooLarge` when it is larger. Without a digit after the leading
/// whitespace, it is `NotANumber`.
pub proof fn law_leaf_reads_digits(ws: Seq<u8>, ds: Seq<u8>, rest: Seq<u8>)
    requires
        forall|k: int| 0 <= k < ws.len() ==> is_space(#[trigger] ws[k]),
        forall|k: int| 0 <= k < ds.len() ==> is_digit(#[trigger] ds[k]),
        rest.len() == 0 || !is_digit(rest[0]),
    ensures
        0 <= decimal(ds),
        ds.len() > 0 && decimal(ds) <= i32::MAX ==> (leaf_spec(ws + ds + rest) matches Ok(
            Tree::Leaf(v),
        ) && v as int == decimal(ds)),
        ds.len() > 0 && decimal(ds) > i32::MAX ==> leaf_spec(ws + ds + rest) == Err::<
            Tree,
            ParseError,
        >(ParseError::NumberTooLarge),
        ds.len() == 0 && (rest.len() == 0 || !is_space(rest[0])) ==> leaf_spec(ws + ds + rest)
            == Err::<Tree, ParseError>(ParseError::NotANumber),
{
    lemma_decimal_nonneg(ds);
    let s = ws + ds + rest;
    let t = ds + rest;
    assert(s =~= ws + t);
    if ds.len() > 0 {
        assert(t[0] == ds[0]);
        assert(is_digit(ds[0]));
    } else {
        assert(t =~= rest);
    }
    if ds.len() > 0 || rest.len() == 0 || !is_space(rest[0]) {
        lemma_spaces_prefix(ws, t);
        assert(s.skip(ws.len() as int) =~= t);
        lemma_digits_run(ds, rest);
        assert(t.take(ds.len() as int) =~= ds);
    }
}

/// The number that digits stand for is positional: appending digits `es`
/// multiplies the number of `ds` by ten for each of them and adds the number
/// of `es`; a single digit stands for its value.
pub proof fn law_decimal_positional(ds: Seq<u8>, es: Seq<u8>, c: u8)
    ensures
        decimal(ds + es) == decimal(ds) * vstd::arithmetic::power::pow(10, es.len()) + decimal(es),
        is_digit(c) ==> decimal(seq![c]) == c - 48,
    decreases es.len(),
{
    reveal(vstd::arithmetic::power::pow);
    assert(seq![c].drop_last() =~= Seq::<u8>::empty());
    assert(seq![c].last() == c);
    assert(decimal(Seq::<u8>::empty()) == 0);
    if es.len() == 0 {
        assert(decimal(es) == 0);
        assert(ds + es =~= ds);
    } else {
        let e1 = es.drop_last();
        law_decimal_positional(ds, e1, c);
        assert((ds + es).drop_last() =~= ds + e1);
        assert((ds + es).last() == es.last());
        let p = vstd::arithmetic::power::pow(10, e1.len());
        assert(vstd::arithmetic::power::pow(10, es.len()) == 10 * p);
        let a = decimal(ds);
        let b = decimal(e1);
        let d = es.last() - 48;
        assert((a * p + b) * 10 + d == a * (10 * p) + (b * 10 + d)) by (nonlinear_arith);
    }
}

} // verus!

//! Laws of the statements that steer control: what an `if`, an `if`/`else`,
//! a `while`, a sequence and a `print` do in the interpreter, and how the type
//! checker reports a type error found in a condition or a branch.
use vstd::prelude::*;
use crate::ast::SpecExpr;
use crate::error::RuntimeError;
use crate::interpret::{MachineView, eval, if_else_node_spec, if_node_spec};
use crate::memory::{MemView, SpecIntRep};
use crate::type_checker::{check, check_if_else, check_pair};

verus! {

/// An interpreter result: success with `NewLine`, or the error of `r`.
pub open spec fn done_or(r: Result<SpecIntRep, RuntimeError>) -> Result<SpecIntRep, RuntimeError> {
    match r {
        Ok(_) => Ok(SpecIntRep::NewLine),
        Err(e) => Err(e),
    }
}

/// An `if` evaluates its condition, then its branch exactly when the
/// condition is `Bool(true)`: the machine ends as the branch leaves it, with
/// everything the branch printed, stored or pushed. On any other value the
/// machine ends as the condition left it, and the `if` gives `NewLine`.
pub proof fn law_if_runs_branch_on_true(fuel: nat, st: MachineView, c: SpecExpr, b: SpecExpr)
    requires
        fuel > 0,
    ensures
        ({
            let f = (fuel - 1) as nat;
            let (s1, cv) = eval(f, st, c);
            let (s2, bv) = eval(f, s1, b);
            let (s, r) = eval(fuel, st, SpecExpr::IfNode(Box::new(c), Box::new(b)));
            &&& cv is Err ==> s == s1 && r == cv
            &&& cv == Ok::<SpecIntRep, RuntimeError>(SpecIntRep::Bool(true)) ==> s == s2 && r
                == done_or(bv)
            &&& (cv is Ok && cv != Ok::<SpecIntRep, RuntimeError>(SpecIntRep::Bool(true))) ==> s
                == s1 && r == Ok::<SpecIntRep, RuntimeError>(SpecIntRep::NewLine)
        }),
{
    let f = (fuel - 1) as nat;
    assert(eval(fuel, st, SpecExpr::IfNode(Box::new(c), Box::new(b))) == if_node_spec(f, st, c, b));
}

/// An `if`/`else` runs its first branch on `Bool(true)` and its second on
/// `Bool(false)`, ending as that branch leaves the machine; on any other
/// value it runs neither.
pub proof fn law_if_else_runs_one_branch(
    fuel: nat,
    st: MachineView,
    c: SpecExpr,
    b1: SpecExpr,
    b2: SpecExpr,
)
    requires
        fuel > 0,
    ensures
        ({
            let f = (fuel - 1) as nat;
            let (s1, cv) = eval(f, st, c);
            let (s, r) = eval(
                fuel,
                st,
                SpecExpr::IfElseNode(Box::new(c), Box::new(b1), Box::new(b2)),
            );
            &&& cv is Err ==> s == s1 && r == cv
            &&& cv == Ok::<SpecIntRep, RuntimeError>(SpecIntRep::Bool(true)) ==> s == eval(
                f,
                s1,
                b1,
            ).0 && r == done_or(eval(f, s1, b1).1)
            &&& cv == Ok::<SpecIntRep, RuntimeError>(SpecIntRep::Bool(false)) ==> s == eval(
                f,
                s1,
                b2,
            ).0 && r == done_or(eval(f, s1, b2).1)
            &&& (cv matches Ok(v) && !(v is Bool)) ==> s == s1 && r == Ok::<
                SpecIntRep,
                RuntimeError,
            >(SpecIntRep::NewLine)
        }),
{
    let f = (fuel - 1) as nat;
    assert(eval(fuel, st, SpecExpr::IfElseNode(Box::new(c), Box::new(b1), Box::new(b2)))
        == if_else_node_spec(f, st, c, b1, b2));
}

/// A `while` loop with a true condition runs its body once and then is the
/// same loop again from the state the body left (with one unit less budget);
/// with a false condition it stops with `NewLine`; any other value of the
/// condition is `NotBool`.
pub proof fn law_while_unrolls(fuel: nat, st: MachineView, c: SpecExpr, b: SpecExpr)
    requires
        fuel > 1,
    ensures
        ({
            let w = SpecExpr::WhileNode(Box::new(c), Box::new(b));
            let g = (fuel - 2) as nat;
            let (s1, cv) = eval(g, st, c);
            let (s2, bv) = eval(g, s1, b);
            let (s, r) = eval(fuel, st, w);
            &&& cv is Err ==> s == s1 && r == cv
            &&& cv == Ok::<SpecIntRep, RuntimeError>(SpecIntRep::Bool(true)) && bv is Err ==> s
                == s2 && r == bv
            &&& cv == Ok::<SpecIntRep, RuntimeError>(SpecIntRep::Bool(true)) && bv is Ok ==> (s, r)
                == eval((fuel - 1) as nat, s2, w)
            &&& cv == Ok::<SpecIntRep, RuntimeError>(SpecIntRep::Bool(false)) ==> s == s1 && r
                == Ok::<SpecIntRep, RuntimeError>(SpecIntRep::NewLine)
            &&& (cv matches Ok(v) && !(v is Bool)) ==> s == s1 && r == Err::<
                SpecIntRep,
                RuntimeError,
            >(RuntimeError::NotBool)
        }),
{
}

/// A sequence runs its first statement and then its second from the state
/// the first left; it gives `NewLine` when both succeed.
pub proof fn law_seq_runs_both(fuel: nat, st: MachineView, a: SpecExpr, b: SpecExpr)
    requires
        fuel > 0,
    ensures
        ({
            let f = (fuel - 1) as nat;
            let (s1, av) = eval(f, st, a);
            let (s2, bv) = eval(f, s1, b);
            let (s, r) = eval(fuel, st, SpecExpr::SeqNode(Box::new(a), Box::new(b)));
            &&& av is Err ==> s == s1 && r == av
            &&& av is Ok ==> s == s2 && r == done_or(bv)
        }),
{
}

/// `print` appends the value of its expression to the output, after what
/// the expression itself printed, and changes nothing else.
pub proof fn law_print_appends(fuel: nat, st: MachineView, x: SpecExpr)
    requires
        fuel > 0,
    ensures
        ({
            let f = (fuel - 1) as nat;
            let (s1, v) = eval(f, st, x);
            let (s, r) = eval(fuel, st, SpecExpr::Print(Box::new(x)));
            &&& v is Err ==> s == s1 && r == v
            &&& v matches Ok(val) ==> s.output == s1.output.push(val) && s.mem == s1.mem && r
                == Ok::<SpecIntRep, RuntimeError>(SpecIntRep::NewLine)
        }),
{
}

/// The type checker's verdict on an `if` or a `while`: the condition's type
/// error if it has one; the condition error when the condition checks as a
/// number; otherwise the body's type error if it has one; otherwise
/// `NewLine`. So a type error in the body of an `if` or a `while` is the
/// verdict on the whole statement.
pub proof fn law_check_branch_errors(fuel: nat, m: MemView, c: SpecExpr, b: SpecExpr)
    requires
        fuel > 0,
    ensures
        ({
            let f = (fuel - 1) as nat;
            let (m1, cr) = check(f, m, c);
            let (m2, br) = check(f, m1, b);
            let verdict = match (cr, br) {
                (Ok(SpecIntRep::TypeError(e)), Ok(_)) => Ok(SpecIntRep::TypeError(e)),
                (Ok(SpecIntRep::Number(_)), Ok(_)) => Ok(
                    SpecIntRep::TypeError("ERROR: Wrong type in condition"@),
                ),
                (Ok(_), Ok(SpecIntRep::TypeError(e))) => Ok(SpecIntRep::TypeError(e)),
                (Ok(_), Ok(_)) => Ok(SpecIntRep::NewLine),
                (Err(e), _) => Err(e),
                (Ok(_), Err(e)) => Err(e),
            };
            let end = if cr is Err {
                m1
            } else {
                m2
            };
            &&& check(fuel, m, SpecExpr::IfNode(Box::new(c), Box::new(b))) == (end, verdict)
            &&& check(fuel, m, SpecExpr::WhileNode(Box::new(c), Box::new(b))) == (end, verdict)
        }),
{
    let f = (fuel - 1) as nat;
    assert(check(fuel, m, SpecExpr::IfNode(Box::new(c), Box::new(b))).0 == check_pair(f, m, c, b).0);
    assert(check(fuel, m, SpecExpr::WhileNode(Box::new(c), Box::new(b))).0 == check_pair(f, m, c, b).0);
}

/// The type checker's verdict on an `if`/`else`: the condition's type error,
/// the condition error for a number, then the first branch's type error, then
/// the second's; otherwise `NewLine`.
pub proof fn law_check_if_else_errors(
    fuel: nat,
    m: MemView,
    c: SpecExpr,
    b1: SpecExpr,
    b2: SpecExpr,
)
    requires
        fuel > 0,
        check((fuel - 1) as nat, m, c).1 is Ok,
        check((fuel - 1) as nat, check((fuel - 1) as nat, m, c).0, b1).1 is Ok,
        check(
            (fuel - 1) as nat,
            check((fuel - 1) as nat, check((fuel - 1) as nat, m, c).0, b1).0,
            b2,
        ).1 is Ok,
    ensures
        ({
            let f = (fuel - 1) as nat;
            let (m1, cr) = check(f, m, c);
            let (m2, r1) = check(f, m1, b1);
            let (m3, r2) = check(f, m2, b2);
            let verdict = match (cr.unwrap(), r1.unwrap(), r2.unwrap()) {
                (SpecIntRep::TypeError(e), _, _) => SpecIntRep::TypeError(e),
                (SpecIntRep::Number(_), _, _) => SpecIntRep::TypeError(
                    "ERROR: Wrong type in condition"@,
                ),
                (_, SpecIntRep::TypeError(e), _) => SpecIntRep::TypeError(e),
                (_, _, SpecIntRep::TypeError(e)) => SpecIntRep::TypeError(e),
                _ => SpecIntRep::NewLine,
            };
            check(
                fuel,
                m,
                SpecExpr::IfElseNode(Box::new(c), Box::new(b1), Box::new(b2)),
            ) == (m3, Ok::<SpecIntRep, RuntimeError>(verdict))
        }),
{
    let f = (fuel - 1) as nat;
    assert(check(fuel, m, SpecExpr::IfElseNode(Box::new(c), Box::new(b1), Box::new(b2)))
        == check_if_else(f, m, c, b1, b2));
    assert(check_pair(f, m, c, b1).1 is Ok);
}

} // verus!

//! Infix rendering of symbolic expressions.

use vstd::prelude::*;
use vstd::string::StringExecFns;
use crate::symbolic_expression::SymbolicExpression;
use crate::symbolic_variable::{Entry, SymbolicVariable};

verus! {

/// The character of a decimal digit.
pub open spec fn digit_char(d: nat) -> char {
    if d == 0 {
        '0'
    } else if d == 1 {
        '1'
    } else if d == 2 {
        '2'
    } else if d == 3 {
        '3'
    } else if d == 4 {
        '4'
    } else if d == 5 {
        '5'
    } else if d == 6 {
        '6'
    } else if d == 7 {
        '7'
    } else if d == 8 {
        '8'
    } else {
        '9'
    }
}

/// The decimal digits of `n`, most significant first, without leading zeros.
pub open spec fn decimal(n: nat) -> Seq<char>
    decreases n,
{
    if n < 10 {
        seq![digit_char(n)]
    } else {
        decimal(n / 10) + seq![digit_char(n % 10)]
    }
}

/// `name { offset: o }`.
pub open spec fn offset_text(name: Seq<char>, offset: usize) -> Seq<char> {
    name + " { offset: "@ + decimal(offset as nat) + " }"@
}

/// How an entry is written.
pub open spec fn entry_text(e: Entry) -> Seq<char> {
    match e {
        Entry::Preprocessed { offset } => offset_text("Preprocessed"@, offset),
        Entry::Main { offset } => offset_text("Main"@, offset),
        Entry::Permutation { offset } => offset_text("Permutation"@, offset),
        Entry::Public => "Public"@,
        Entry::Challenge => "Challenge"@,
    }
}

/// How a variable is written.
pub open spec fn variable_text(v: SymbolicVariable) -> Seq<char> {
    "SymbolicVariable { entry: "@ + entry_text(v.entry) + ", index: "@ + decimal(v.index as nat)
        + " }"@
}

/// `(x op y)`.
pub open spec fn infix(x: Seq<char>, op: Seq<char>, y: Seq<char>) -> Seq<char> {
    "("@ + x + op + y + ")"@
}

/// The infix form of an expression; constants in decimal.
pub open spec fn expr_text(e: SymbolicExpression) -> Seq<char>
    decreases e,
{
    match e {
        SymbolicExpression::Variable(v) => variable_text(v),
        SymbolicExpression::IsFirstRow => "IsFirstRow"@,
        SymbolicExpression::IsLastRow => "IsLastRow"@,
        SymbolicExpression::IsTransition => "IsTransition"@,
        SymbolicExpression::Constant(c) => decimal(c.v as nat),
        SymbolicExpression::Add { x, y, .. } => infix(expr_text(*x), " + "@, expr_text(*y)),
        SymbolicExpression::Sub { x, y, .. } => infix(expr_text(*x), " - "@, expr_text(*y)),
        SymbolicExpression::Mul { x, y, .. } => infix(expr_text(*x), " * "@, expr_text(*y)),
        SymbolicExpression::Neg { x, .. } => "(-"@ + expr_text(*x) + ")"@,
    }
}

fn digit_str(d: u64) -> (r: &'static str)
    requires
        d < 10,
    ensures
        r@ == seq![digit_char(d as nat)],
{
    proof {
        reveal_strlit("0");
        reveal_strlit("1");
        reveal_strlit("2");
        reveal_strlit("3");
        reveal_strlit("4");
        reveal_strlit("5");
        reveal_strlit("6");
        reveal_strlit("7");
        reveal_strlit("8");
        reveal_strlit("9");
    }
    if d == 0 {
        "0"
    } else if d == 1 {
        "1"
    } else if d == 2 {
        "2"
    } else if d == 3 {
        "3"
    } else if d == 4 {
        "4"
    } else if d == 5 {
        "5"
    } else if d == 6 {
        "6"
    } else if d == 7 {
        "7"
    } else if d == 8 {
        "8"
    } else {
        "9"
    }
}

/// Appends the decimal digits of `n`.
fn push_decimal(out: &mut String, n: u64)
    ensures
        final(out)@ == old(out)@ + decimal(n as nat),
    decreases n,
{
    if n >= 10 {
        push_decimal(out, n / 10);
    }
    out.append(digit_str(n % 10));
    proof {
        if n >= 10 {
            assert(final(out)@ =~= old(out)@ + decimal(n as nat));
        }
    }
}

/// Appends `text`, a literal.
fn push_text(out: &mut String, text: &str)
    ensures
        final(out)@ == old(out)@ + text@,
{
    out.append(text);
}

fn push_offset(out: &mut String, name: &str, offset: usize)
    ensures
        final(out)@ == old(out)@ + offset_text(name@, offset),
{
    proof {
        reveal_strlit(" { offset: ");
        reveal_strlit(" }");
    }
    push_text(out, name);
    push_text(out, " { offset: ");
    push_decimal(out, offset as u64);
    push_text(out, " }");
    assert(final(out)@ =~= old(out)@ + offset_text(name@, offset));
}

fn push_variable(out: &mut String, v: SymbolicVariable)
    ensures
        final(out)@ == old(out)@ + variable_text(v),
{
    proof {
        reveal_strlit("SymbolicVariable { entry: ");
        reveal_strlit(", index: ");
        reveal_strlit(" }");
        reveal_strlit("Preprocessed");
        reveal_strlit("Main");
        reveal_strlit("Permutation");
        reveal_strlit("Public");
        reveal_strlit("Challenge");
    }
    let ghost start = out@;
    push_text(out, "SymbolicVariable { entry: ");
    match v.entry {
        Entry::Preprocessed { offset } => push_offset(out, "Preprocessed", offset),
        Entry::Main { offset } => push_offset(out, "Main", offset),
        Entry::Permutation { offset } => push_offset(out, "Permutation", offset),
        Entry::Public => push_text(out, "Public"),
        Entry::Challenge => push_text(out, "Challenge"),
    }
    push_text(out, ", index: ");
    push_decimal(out, v.index as u64);
    push_text(out, " }");
    assert(out@ =~= start + variable_text(v));
}

/// Appends the infix form of `e`.
fn push_expr(out: &mut String, e: &SymbolicExpression)
    ensures
        final(out)@ == old(out)@ + expr_text(*e),
    decreases e,
{
    proof {
        reveal_strlit("IsFirstRow");
        reveal_strlit("IsLastRow");
        reveal_strlit("IsTransition");
        reveal_strlit("(");
        reveal_strlit(")");
        reveal_strlit(" + ");
        reveal_strlit(" - ");
        reveal_strlit(" * ");
        reveal_strlit("(-");
    }
    let ghost start = out@;
    match e {
        SymbolicExpression::Variable(v) => push_variable(out, *v),
        SymbolicExpression::IsFirstRow => push_text(out, "IsFirstRow"),
        SymbolicExpression::IsLastRow => push_text(out, "IsLastRow"),
        SymbolicExpression::IsTransition => push_text(out, "IsTransition"),
        SymbolicExpression::Constant(c) => push_decimal(out, c.v as u64),
        SymbolicExpression::Add { x, y, .. } => {
            push_text(out, "(");
            push_expr(out, x);
            push_text(out, " + ");
            push_expr(out, y);
            push_text(out, ")");
            assert(out@ =~= start + expr_text(*e));
        },
        SymbolicExpression::Sub { x, y, .. } => {
            push_text(out, "(");
            push_expr(out, x);
            push_text(out, " - ");
            push_expr(out, y);
            push_text(out, ")");
            assert(out@ =~= start + expr_text(*e));
        },
        SymbolicExpression::Mul { x, y, .. } => {
            push_text(out, "(");
            push_expr(out, x);
            push_text(out, " * ");
            push_expr(out, y);
            push_text(out, ")");
            assert(out@ =~= start + expr_text(*e));
        },
        SymbolicExpression::Neg { x, .. } => {
            push_text(out, "(-");
            push_expr(out, x);
            push_text(out, ")");
            assert(out@ =~= start + expr_text(*e));
        },
    }
}

impl SymbolicExpression {
    /// The infix form of the expression, constants in decimal.
    pub fn to_display_string(&self) -> (r: String)
        ensures
            r@ == expr_text(*self),
    {
        let mut out = String::new();
        push_expr(&mut out, self);
        assert(out@ =~= expr_text(*self));
        out
    }
}

} // verus!

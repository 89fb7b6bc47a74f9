//! Per-kind textual rendering of expressions, exactly as the trace prints
//! them: numbers in decimal, operators infix, the no-op as `do-nothing`.

use vstd::prelude::*;
use vstd::string::StringExecFns;
use crate::environment::EntriesModel;
use crate::expression::{ExprModel, Expression};

verus! {

/// The decimal digit character for a value below ten.
pub open spec fn digit_char(d: int) -> char {
    if d == 0 { '0' }
    else if d == 1 { '1' }
    else if d == 2 { '2' }
    else if d == 3 { '3' }
    else if d == 4 { '4' }
    else if d == 5 { '5' }
    else if d == 6 { '6' }
    else if d == 7 { '7' }
    else if d == 8 { '8' }
    else { '9' }
}

/// The decimal digits of a natural number, most significant first.
pub open spec fn dec_digits(n: nat) -> Seq<char>
    decreases n,
{
    if n < 10 {
        seq![digit_char(n as int)]
    } else {
        dec_digits(n / 10) + seq![digit_char((n % 10) as int)]
    }
}

/// The decimal rendering of an integer: a minus sign before the digits of
/// its magnitude when it is negative.
pub open spec fn int_digits(i: int) -> Seq<char> {
    if i >= 0 {
        dec_digits(i as nat)
    } else {
        seq!['-'] + dec_digits((-i) as nat)
    }
}

/// The rendering of an expression: numbers in decimal, `true` / `false`,
/// a string literal as its text, a variable as its name, operators infix
/// with single spaces, an assignment as `name = value`, and the no-op
/// statement as `do-nothing`.
pub open spec fn render(e: ExprModel) -> Seq<char>
    decreases e,
{
    match e {
        ExprModel::Number(i) => int_digits(i),
        ExprModel::Boolean(b) => if b { "true"@ } else { "false"@ },
        ExprModel::StringLiteral(s) => s,
        ExprModel::DoNothing => "do-nothing"@,
        ExprModel::Variable(n) => n,
        ExprModel::Add(l, r) => render(*l) + " + "@ + render(*r),
        ExprModel::Multiply(l, r) => render(*l) + " * "@ + render(*r),
        ExprModel::LessThan(l, r) => render(*l) + " < "@ + render(*r),
        ExprModel::Assign(n, e2) => n + " = "@ + render(*e2),
    }
}

/// One environment entry rendered as `name: value`.
pub open spec fn render_entry(p: (Seq<char>, ExprModel)) -> Seq<char> {
    p.0 + ": "@ + render(p.1)
}

/// The entries from position `i` on, separated by commas.
pub open spec fn render_entries_from(entries: EntriesModel, i: int) -> Seq<char>
    decreases entries.len() - i,
{
    if i < 0 || i >= entries.len() {
        Seq::empty()
    } else if i == entries.len() - 1 {
        render_entry(entries[i])
    } else {
        render_entry(entries[i]) + ", "@ + render_entries_from(entries, i + 1)
    }
}

/// The environment rendered as its entries, in insertion order, between
/// braces.
pub open spec fn render_env(entries: EntriesModel) -> Seq<char> {
    "{"@ + render_entries_from(entries, 0) + "}"@
}

/// The one-character string for a decimal digit.
fn digit_str(d: u32) -> (s: &'static str)
    requires
        d < 10,
    ensures
        s@ == seq![digit_char(d as int)],
{
    proof {
        reveal_strlit("0");
        reveal_strlit("1");
        reveal_strlit("2");
        reveal_strlit("3");
        reveal_strlit("4");
        reveal_strlit("5");
        reveal_strlit("6");
        reveal_strlit("7");
        reveal_strlit("8");
        reveal_strlit("9");
    }
    let s = match d {
        0 => "0",
        1 => "1",
        2 => "2",
        3 => "3",
        4 => "4",
        5 => "5",
        6 => "6",
        7 => "7",
        8 => "8",
        _ => "9",
    };
    proof {
        assert(s@ =~= seq![digit_char(d as int)]);
    }
    s
}

/// The decimal digits of an unsigned machine number.
fn u32_to_decimal(n: u32) -> (s: String)
    ensures
        s@ == dec_digits(n as nat),
    decreases n,
{
    if n < 10 {
        digit_str(n).to_owned()
    } else {
        let mut s = u32_to_decimal(n / 10);
        s.append(digit_str(n % 10));
        s
    }
}

/// The decimal rendering of a signed machine number.
fn i32_to_decimal(n: i32) -> (s: String)
    ensures
        s@ == int_digits(n as int),
{
    if n >= 0 {
        u32_to_decimal(n as u32)
    } else {
        let magnitude: u32 = (-(n as i64)) as u32;
        proof {
            assert(magnitude == -(n as int));
            reveal_strlit("-");
            assert("-"@ =~= seq!['-']);
        }
        let mut s = String::from_str("-");
        s.append(u32_to_decimal(magnitude).as_str());
        s
    }
}

impl Expression {
    /// The rendering of this expression, character for character as the
    /// trace prints it.
    pub fn to_display_string(&self) -> (s: String)
        ensures
            s@ == render(self@),
        decreases self,
    {
        match self {
            Expression::Number(n) => i32_to_decimal(*n),
            Expression::Boolean(b) => {
                if *b {
                    String::from_str("true")
                } else {
                    String::from_str("false")
                }
            }
            Expression::StringLiteral(s) => s.clone(),
            Expression::DoNothing => String::from_str("do-nothing"),
            Expression::Variable(v) => v.name.clone(),
            Expression::Add(a) => {
                let mut s = a.left.to_display_string();
                s.append(" + ");
                s.append(a.right.to_display_string().as_str());
                s
            }
            Expression::Multiply(m) => {
                let mut s = m.left.to_display_string();
                s.append(" * ");
                s.append(m.right.to_display_string().as_str());
                s
            }
            Expression::LessThan(c) => {
                let mut s = c.left.to_display_string();
                s.append(" < ");
                s.append(c.right.to_display_string().as_str());
                s
            }
            Expression::Assign(a) => {
                let mut s = a.name.clone();
                s.append(" = ");
                s.append(a.expression.to_display_string().as_str());
                s
            }
        }
    }
}

} // verus!

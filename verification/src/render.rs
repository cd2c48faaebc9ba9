//! Textual rendering of values, as `print` writes them.

use crate::value::{Callee, SCallee, SValue, Value};
use vstd::prelude::*;
use vstd::string::StringExecFns;

verus! {

/// The decimal digit for `d`.
pub open spec fn digit_char(d: nat) -> char {
    if d == 0 {
        '0'
    } else if d == 1 {
        '1'
    } else if d == 2 {
        '2'
    } else if d == 3 {
        '3'
    } else if d == 4 {
        '4'
    } else if d == 5 {
        '5'
    } else if d == 6 {
        '6'
    } else if d == 7 {
        '7'
    } else if d == 8 {
        '8'
    } else {
        '9'
    }
}

/// The decimal digits of `n`, most significant first.
pub open spec fn dec_nat(n: nat) -> Seq<char>
    decreases n,
{
    if n < 10 {
        seq![digit_char(n)]
    } else {
        dec_nat(n / 10).push(digit_char(n % 10))
    }
}

/// The canonical decimal rendering of an integer: its digits, with a
/// leading '-' when it is negative.
pub open spec fn decimal(i: int) -> Seq<char> {
    if i < 0 {
        seq!['-'] + dec_nat((-i) as nat)
    } else {
        dec_nat(i as nat)
    }
}

fn digit_str(d: u64) -> (r: &'static str)
    requires
        d < 10,
    ensures
        r@ == seq![digit_char(d as nat)],
{
    proof {
        reveal_strlit("0");
        reveal_strlit("1");
        reveal_strlit("2");
        reveal_strlit("3");
        reveal_strlit("4");
        reveal_strlit("5");
        reveal_strlit("6");
        reveal_strlit("7");
        reveal_strlit("8");
        reveal_strlit("9");
    }
    match d {
        0 => "0",
        1 => "1",
        2 => "2",
        3 => "3",
        4 => "4",
        5 => "5",
        6 => "6",
        7 => "7",
        8 => "8",
        _ => "9",
    }
}

/// Append the decimal digits of `m`, most significant first.
fn push_dec(s: &mut String, m: u64)
    ensures
        final(s)@ == old(s)@ + dec_nat(m as nat),
    decreases m,
{
    if m >= 10 {
        push_dec(s, m / 10);
    }
    let ghost before = s@;
    s.append(digit_str(m % 10));
    proof {
        if m < 10 {
            assert(s@ =~= old(s)@ + dec_nat(m as nat));
        } else {
            assert(dec_nat(m as nat) == dec_nat((m as nat) / 10).push(
                digit_char((m as nat) % 10),
            ));
            assert(s@ =~= old(s)@ + dec_nat(m as nat));
        }
    }
}

/// The canonical decimal text of a number.
fn num_text(n: i64) -> (r: String)
    ensures
        r@ == decimal(n as int),
{
    let mut s = String::new();
    if n < 0 {
        proof {
            reveal_strlit("-");
        }
        s.append("-");
    }
    let mag: u64 = if n >= 0 {
        n as u64
    } else if n == i64::MIN {
        9223372036854775808u64
    } else {
        (-n) as u64
    };
    push_dec(&mut s, mag);
    proof {
        if n < 0 {
            assert(s@ =~= seq!['-'] + dec_nat((-(n as int)) as nat));
        } else {
            assert(s@ =~= dec_nat(n as int as nat));
        }
    }
    s
}

/// What `print` shows for each kind of value.
pub open spec fn render_sval(v: SValue) -> Seq<char> {
    match v {
        SValue::Nil => "nil"@,
        SValue::Bool(b) => if b {
            "true"@
        } else {
            "false"@
        },
        SValue::Num(n) => decimal(n as int),
        SValue::Str(s) => s,
        SValue::Callable(SCallee::Native) => "<native fn>"@,
        SValue::Callable(SCallee::User(f)) => "<fn "@ + f.name + ">"@,
    }
}

/// Render a value for output.
pub fn render(v: &Value) -> (r: String)
    ensures
        r@ == render_sval(v.sview()),
{
    match v {
        Value::Nil => "nil".to_owned(),
        Value::Bool(b) => if *b {
            "true".to_owned()
        } else {
            "false".to_owned()
        },
        Value::Num(n) => num_text(*n),
        Value::Str(s) => s.clone(),
        Value::Callable(Callee::Native(_)) => "<native fn>".to_owned(),
        Value::Callable(Callee::User(f)) => {
            let mut text = "<fn ".to_owned();
            text.append(f.name.as_str());
            text.append(">");
            proof {
                assert(text@ =~= "<fn "@ + f.name@ + ">"@);
            }
            text
        },
    }
}

} // verus!

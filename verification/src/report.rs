//! The plain-text startup report: a count line, then one function name
//! per line. Scripting consumers read this output, so it is pinned byte
//! for byte.

use vstd::prelude::*;

use crate::catalog::Catalog;

verus! {

/// The decimal digit character for one value below ten.
pub open spec fn digit_char(d: int) -> char {
    if d == 0 {
        '0'
    } else if d == 1 {
        '1'
    } else if d == 2 {
        '2'
    } else if d == 3 {
        '3'
    } else if d == 4 {
        '4'
    } else if d == 5 {
        '5'
    } else if d == 6 {
        '6'
    } else if d == 7 {
        '7'
    } else if d == 8 {
        '8'
    } else {
        '9'
    }
}

/// The usual decimal writing of a number: no sign, no leading zero
/// except for zero itself.
pub open spec fn decimal_rep(n: int) -> Seq<char>
    decreases n,
{
    if n < 10 {
        seq![digit_char(n)]
    } else {
        decimal_rep(n / 10) + seq![digit_char(n % 10)]
    }
}

/// The count line of the report: `Found [` then the count in decimal
/// then `] functions:`.
pub open spec fn count_line_text(n: int) -> Seq<char> {
    "Found ["@ + decimal_rep(n) + "] functions:"@
}

/// Append one decimal digit to a string.
fn push_digit(s: &mut String, d: usize)
    requires
        d < 10,
    ensures
        final(s)@ == old(s)@ + seq![digit_char(d as int)],
{
    let t: &str = if d == 0 {
        proof {
            reveal_strlit("0");
        }
        "0"
    } else if d == 1 {
        proof {
            reveal_strlit("1");
        }
        "1"
    } else if d == 2 {
        proof {
            reveal_strlit("2");
        }
        "2"
    } else if d == 3 {
        proof {
            reveal_strlit("3");
        }
        "3"
    } else if d == 4 {
        proof {
            reveal_strlit("4");
        }
        "4"
    } else if d == 5 {
        proof {
            reveal_strlit("5");
        }
        "5"
    } else if d == 6 {
        proof {
            reveal_strlit("6");
        }
        "6"
    } else if d == 7 {
        proof {
            reveal_strlit("7");
        }
        "7"
    } else if d == 8 {
        proof {
            reveal_strlit("8");
        }
        "8"
    } else {
        proof {
            reveal_strlit("9");
        }
        "9"
    };
    proof {
        assert(t@ =~= seq![digit_char(d as int)]);
    }
    s.append(t);
}

/// Append the decimal writing of a number to a string.
fn push_decimal(s: &mut String, n: usize)
    ensures
        final(s)@ == old(s)@ + decimal_rep(n as int),
    decreases n,
{
    if n < 10 {
        push_digit(s, n);
    } else {
        push_decimal(s, n / 10);
        push_digit(s, n % 10);
        proof {
            assert(old(s)@ + decimal_rep((n / 10) as int) + seq![
                digit_char((n % 10) as int),
            ] =~= old(s)@ + decimal_rep(n as int));
        }
    }
}

/// The count line for a catalog of `n` functions, byte for byte.
pub fn count_line(n: usize) -> (line: String)
    ensures
        line@ == count_line_text(n as int),
{
    let mut line = String::from_str("Found [");
    push_decimal(&mut line, n);
    line.append("] functions:");
    proof {
        assert(line@ =~= count_line_text(n as int));
    }
    line
}

/// The whole startup report: the count line, then every catalog entry's
/// name, one per line, in catalog order.
pub fn report_lines(catalog: &Catalog) -> (lines: Vec<String>)
    ensures
        lines@.len() == catalog@.len() + 1,
        lines@[0]@ == count_line_text(catalog@.len() as int),
        forall|i: int|
            0 <= i < catalog@.len() ==> #[trigger] lines@[i + 1]@ == catalog@[i],
{
    let n = catalog.len();
    let mut lines: Vec<String> = Vec::new();
    lines.push(count_line(n));
    let mut i: usize = 0;
    while i < n
        invariant
            i <= n,
            n == catalog@.len(),
            lines@.len() == i + 1,
            lines@[0]@ == count_line_text(n as int),
            forall|k: int| 0 <= k < i ==> #[trigger] lines@[k + 1]@ == catalog@[k],
        decreases n - i,
    {
        lines.push(catalog.name_at(i).clone());
        i = i + 1;
    }
    lines
}

} // verus!

//! Response formatting.
//!
//! A response is one status line — literally `HTTP/1.1 {code} OK`,
//! the reason phrase always `OK` whatever the code — followed by a blank
//! line and raw body bytes.  No other header is ever written.  The
//! runtime writes these strings to the transport; building them is pure.

use vstd::prelude::*;
use vstd::string::StrSliceExecFns;
use vstd::string::StringExecFns;

verus! {

/// The character of one decimal digit.
pub open spec fn digit_char(d: nat) -> char {
    if d == 0 {
        '0'
    } else if d == 1 {
        '1'
    } else if d == 2 {
        '2'
    } else if d == 3 {
        '3'
    } else if d == 4 {
        '4'
    } else if d == 5 {
        '5'
    } else if d == 6 {
        '6'
    } else if d == 7 {
        '7'
    } else if d == 8 {
        '8'
    } else {
        '9'
    }
}

/// The decimal digits of `n`, most significant first, no leading zero
/// except for `n == 0` itself.
pub open spec fn decimal_digits(n: nat) -> Seq<char>
    decreases n,
{
    if n < 10 {
        seq![digit_char(n)]
    } else {
        decimal_digits(n / 10).push(digit_char(n % 10))
    }
}

/// The status line written for `code`: `HTTP/1.1 {code} OK` and a blank
/// line.  The reason phrase is `OK` regardless of the code.
pub open spec fn status_line_spec(code: u32) -> Seq<char> {
    "HTTP/1.1 "@ + decimal_digits(code as nat) + " OK\r\n\r\n"@
}

/// One decimal digit as a string slice.
fn digit_str(d: u32) -> (r: &'static str)
    requires
        d < 10,
    ensures
        r@ == seq![digit_char(d as nat)],
{
    proof {
        reveal_strlit("0");
        reveal_strlit("1");
        reveal_strlit("2");
        reveal_strlit("3");
        reveal_strlit("4");
        reveal_strlit("5");
        reveal_strlit("6");
        reveal_strlit("7");
        reveal_strlit("8");
        reveal_strlit("9");
    }
    let r: &'static str = if d == 0 {
        "0"
    } else if d == 1 {
        "1"
    } else if d == 2 {
        "2"
    } else if d == 3 {
        "3"
    } else if d == 4 {
        "4"
    } else if d == 5 {
        "5"
    } else if d == 6 {
        "6"
    } else if d == 7 {
        "7"
    } else if d == 8 {
        "8"
    } else {
        "9"
    };
    proof {
        assert(r@ =~= seq![digit_char(d as nat)]);
    }
    r
}

/// Writes `n` in decimal, most significant digit first.
pub fn decimal_string(n: u32) -> (r: String)
    ensures
        r@ == decimal_digits(n as nat),
    decreases n,
{
    if n < 10 {
        digit_str(n).to_owned()
    } else {
        let mut prefix = decimal_string(n / 10);
        prefix.append(digit_str(n % 10));
        proof {
            assert(prefix@ =~= decimal_digits(n as nat));
        }
        prefix
    }
}

/// Builds the status line for `code`, the blank line included.
pub fn status_line(code: u32) -> (r: String)
    ensures
        r@ == status_line_spec(code),
{
    let mut line = String::from_str("HTTP/1.1 ");
    let digits = decimal_string(code);
    line.append(digits.as_str());
    line.append(" OK\r\n\r\n");
    proof {
        assert(line@ =~= status_line_spec(code));
    }
    line
}

} // verus!

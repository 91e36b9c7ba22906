//! Rendering the final snapshot: fixed-point amounts as four-decimal-place
//! text, and one report row per client. Writing the rows out is the
//! caller's business; everything here is pure text construction.

use vstd::prelude::*;
use vstd::string::StringExecFns;

use crate::types::Client;

verus! {

/// The decimal digit character for `d`.
pub open spec fn digit_char(d: int) -> char {
    if d == 0 {
        '0'
    } else if d == 1 {
        '1'
    } else if d == 2 {
        '2'
    } else if d == 3 {
        '3'
    } else if d == 4 {
        '4'
    } else if d == 5 {
        '5'
    } else if d == 6 {
        '6'
    } else if d == 7 {
        '7'
    } else if d == 8 {
        '8'
    } else {
        '9'
    }
}

/// The usual decimal rendering of `n`: most significant digit first, no
/// leading zeroes (except for `n == 0` itself).
pub open spec fn spec_digits(n: nat) -> Seq<char>
    decreases n,
{
    if n < 10 {
        seq![digit_char(n as int)]
    } else {
        spec_digits(n / 10) + seq![digit_char((n % 10) as int)]
    }
}

/// The four-decimal-place rendering of the fixed-point amount `a` (`a`
/// counts ten-thousandths): optional minus sign, the whole part, a point,
/// and exactly four fraction digits.
pub open spec fn spec_amount(a: int) -> Seq<char> {
    let mag = if a < 0 {
        -a
    } else {
        a
    };
    let frac = mag % 10000;
    (if a < 0 {
        seq!['-']
    } else {
        Seq::<char>::empty()
    }) + spec_digits((mag / 10000) as nat) + seq!['.'] + seq![
        digit_char(frac / 1000),
        digit_char(frac / 100 % 10),
        digit_char(frac / 10 % 10),
        digit_char(frac % 10),
    ]
}

/// The boolean literal used in the report.
pub open spec fn spec_bool(b: bool) -> Seq<char> {
    if b {
        seq!['t', 'r', 'u', 'e']
    } else {
        seq!['f', 'a', 'l', 's', 'e']
    }
}

/// One report row: client id and the three balances, comma-separated,
/// ending with the lock flag.
pub open spec fn spec_client_row(id: u16, c: Client) -> Seq<char> {
    spec_digits(id as nat) + seq![','] + spec_amount(c.available as int) + seq![','] + spec_amount(
        c.held as int,
    ) + seq![','] + spec_amount(c.total as int) + seq![','] + spec_bool(c.locked)
}

/// The fixed header row of the report.
pub open spec fn spec_header() -> Seq<char> {
    "client,available,held,total,locked"@
}

fn digit_str(d: u64) -> (r: &'static str)
    requires
        d < 10,
    ensures
        r@ == seq![digit_char(d as int)],
{
    proof {
        reveal_strlit("0");
        reveal_strlit("1");
        reveal_strlit("2");
        reveal_strlit("3");
        reveal_strlit("4");
        reveal_strlit("5");
        reveal_strlit("6");
        reveal_strlit("7");
        reveal_strlit("8");
        reveal_strlit("9");
    }
    match d {
        0 => "0",
        1 => "1",
        2 => "2",
        3 => "3",
        4 => "4",
        5 => "5",
        6 => "6",
        7 => "7",
        8 => "8",
        _ => "9",
    }
}

/// Render `n` in decimal.
pub fn format_unsigned(n: u64) -> (r: String)
    ensures
        r@ == spec_digits(n as nat),
    decreases n,
{
    if n < 10 {
        digit_str(n).to_owned()
    } else {
        let mut s = format_unsigned(n / 10);
        s.append(digit_str(n % 10));
        s
    }
}

/// Render the fixed-point amount `a` with exactly four decimal places,
/// e.g. `15000` as `1.5000`.
pub fn format_amount(a: i64) -> (r: String)
    ensures
        r@ == spec_amount(a as int),
{
    proof {
        reveal_strlit("-");
        reveal_strlit(".");
    }
    let mag: u64 = if a == i64::MIN {
        9223372036854775808u64
    } else if a < 0 {
        (-a) as u64
    } else {
        a as u64
    };
    let whole = mag / 10000;
    let frac = mag % 10000;
    let mut s = if a < 0 {
        "-".to_owned()
    } else {
        String::new()
    };
    s.append(format_unsigned(whole).as_str());
    s.append(".");
    s.append(digit_str(frac / 1000));
    s.append(digit_str(frac / 100 % 10));
    s.append(digit_str(frac / 10 % 10));
    s.append(digit_str(frac % 10));
    s
}

/// Render one report row for `id`'s account.
pub fn format_client_row(id: u16, c: &Client) -> (r: String)
    ensures
        r@ == spec_client_row(id, *c),
{
    proof {
        reveal_strlit(",");
        reveal_strlit("true");
        reveal_strlit("false");
    }
    let mut s = format_unsigned(id as u64);
    s.append(",");
    s.append(format_amount(c.available).as_str());
    s.append(",");
    s.append(format_amount(c.held).as_str());
    s.append(",");
    s.append(format_amount(c.total).as_str());
    s.append(",");
    if c.locked {
        s.append("true");
    } else {
        s.append("false");
    }
    s
}

/// The header row of the report.
pub fn report_header() -> (r: &'static str)
    ensures
        r@ == spec_header(),
{
    "client,available,held,total,locked"
}

} // verus!

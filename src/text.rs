//! Decimal renderings of integers and of distances, as they appear in
//! request fields and in the text that is signed.
use vstd::prelude::*;
use vstd::string::StringExecFns;

verus! {

/// The ASCII digit for `d` (`0 <= d < 10`).
pub open spec fn digit_char(d: int) -> char {
    seq!['0', '1', '2', '3', '4', '5', '6', '7', '8', '9'][d]
}

/// Decimal digits of `n`, most significant first, without leading zeros.
pub open spec fn decimal_text(n: nat) -> Seq<char>
    decreases n,
{
    if n < 10 {
        seq![digit_char(n as int)]
    } else {
        decimal_text(n / 10).push(digit_char((n % 10) as int))
    }
}

/// Decimal text of a signed integer, with a leading `-` when negative.
pub open spec fn int_text(n: int) -> Seq<char> {
    if n < 0 {
        seq!['-'] + decimal_text((-n) as nat)
    } else {
        decimal_text(n as nat)
    }
}

/// The three thousandths digits of `f` (`0 < f < 1000`) with trailing zeros dropped.
pub open spec fn thousandths_text(f: nat) -> Seq<char> {
    let d1 = digit_char((f / 100) as int);
    let d2 = digit_char(((f / 10) % 10) as int);
    let d3 = digit_char((f % 10) as int);
    if f % 10 != 0 {
        seq![d1, d2, d3]
    } else if (f / 10) % 10 != 0 {
        seq![d1, d2]
    } else {
        seq![d1]
    }
}

/// A distance of `m` metres written in kilometres: the shortest decimal form,
/// with no fractional part when `m` is a whole number of kilometres.
pub open spec fn km_text(m: nat) -> Seq<char> {
    if m % 1000 == 0 {
        decimal_text(m / 1000)
    } else {
        decimal_text(m / 1000) + seq!['.'] + thousandths_text(m % 1000)
    }
}

/// Relies on `i64`'s `Display` (through `to_string`): plain decimal, `-` when negative.
#[verifier::external_body]
pub(crate) fn i64_text(n: i64) -> (r: String)
    ensures
        r@ == int_text(n as int),
{
    n.to_string()
}

/// The one-character text of a decimal digit.
fn digit_str(d: u64) -> (r: &'static str)
    requires
        d < 10,
    ensures
        r@ == seq![digit_char(d as int)],
{
    proof {
        reveal_strlit("0");
        reveal_strlit("1");
        reveal_strlit("2");
        reveal_strlit("3");
        reveal_strlit("4");
        reveal_strlit("5");
        reveal_strlit("6");
        reveal_strlit("7");
        reveal_strlit("8");
        reveal_strlit("9");
    }
    match d {
        0 => "0",
        1 => "1",
        2 => "2",
        3 => "3",
        4 => "4",
        5 => "5",
        6 => "6",
        7 => "7",
        8 => "8",
        _ => "9",
    }
}

/// Writes a distance given in metres as kilometres (`1500` gives `"1.5"`,
/// `2000` gives `"2"`, `987` gives `"0.987"`).
pub fn km_string(m: u64) -> (r: String)
    ensures
        r@ == km_text(m as nat),
{
    let whole = i64_text((m / 1000) as i64);
    let f = m % 1000;
    if f == 0 {
        return whole;
    }
    let mut r = whole.concat(".");
    proof {
        reveal_strlit(".");
    }
    let d1 = f / 100;
    let d2 = (f / 10) % 10;
    let d3 = f % 10;
    r.append(digit_str(d1));
    if d2 != 0 || d3 != 0 {
        r.append(digit_str(d2));
    }
    if d3 != 0 {
        r.append(digit_str(d3));
    }
    proof {
        assert(r@ =~= km_text(m as nat));
    }
    r
}

} // verus!

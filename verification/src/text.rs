//! Decimal and hexadecimal rendering of integers, for messages shown to
//! users.

use vstd::prelude::*;
use vstd::string::StringExecFns;

verus! {

/// The character of a digit value below 16 (lower-case for 10 to 15).
pub open spec fn digit_char(d: int) -> char {
    if d == 0 { '0' }
    else if d == 1 { '1' }
    else if d == 2 { '2' }
    else if d == 3 { '3' }
    else if d == 4 { '4' }
    else if d == 5 { '5' }
    else if d == 6 { '6' }
    else if d == 7 { '7' }
    else if d == 8 { '8' }
    else if d == 9 { '9' }
    else if d == 10 { 'a' }
    else if d == 11 { 'b' }
    else if d == 12 { 'c' }
    else if d == 13 { 'd' }
    else if d == 14 { 'e' }
    else { 'f' }
}

/// The digits of `n` in base `b` (2 to 16), most significant first,
/// without leading zeros (`0` is written as one digit).
pub open spec fn digits(n: nat, b: nat) -> Seq<char>
    recommends
        2 <= b <= 16,
    decreases n,
{
    if n < b || b < 2 {
        seq![digit_char(n as int)]
    } else {
        proof {
            lemma_div_shrinks(n, b);
        }
        digits(n / b, b) + seq![digit_char((n % b) as int)]
    }
}

/// Dividing by a base of at least 2 shrinks a number that is at least the base.
pub proof fn lemma_div_shrinks(n: nat, b: nat)
    requires
        2 <= b <= n,
    ensures
        n / b < n,
{
    assert(n / b < n) by (nonlinear_arith)
        requires
            2 <= b <= n,
    ;
}

/// The one-character string of a digit value below 16.
fn digit_str(d: u64) -> (r: &'static str)
    requires
        d < 16,
    ensures
        r@ == seq![digit_char(d as int)],
{
    proof {
        reveal_strlit("0");
        reveal_strlit("1");
        reveal_strlit("2");
        reveal_strlit("3");
        reveal_strlit("4");
        reveal_strlit("5");
        reveal_strlit("6");
        reveal_strlit("7");
        reveal_strlit("8");
        reveal_strlit("9");
        reveal_strlit("a");
        reveal_strlit("b");
        reveal_strlit("c");
        reveal_strlit("d");
        reveal_strlit("e");
        reveal_strlit("f");
    }
    if d == 0 { "0" }
    else if d == 1 { "1" }
    else if d == 2 { "2" }
    else if d == 3 { "3" }
    else if d == 4 { "4" }
    else if d == 5 { "5" }
    else if d == 6 { "6" }
    else if d == 7 { "7" }
    else if d == 8 { "8" }
    else if d == 9 { "9" }
    else if d == 10 { "a" }
    else if d == 11 { "b" }
    else if d == 12 { "c" }
    else if d == 13 { "d" }
    else if d == 14 { "e" }
    else { "f" }
}

/// Appends the digits of `n` in base `b` to `out`.
pub fn append_digits(out: &mut String, n: u64, b: u64)
    requires
        2 <= b <= 16,
    ensures
        final(out)@ == old(out)@ + digits(n as nat, b as nat),
    decreases n,
{
    if n >= b {
        proof {
            lemma_div_shrinks(n as nat, b as nat);
        }
        append_digits(out, n / b, b);
        out.append(digit_str(n % b));
        proof {
            assert(final(out)@ =~= old(out)@ + digits(n as nat, b as nat));
        }
    } else {
        out.append(digit_str(n));
    }
}

/// `n` written in decimal.
pub fn decimal_string(n: u64) -> (r: String)
    ensures
        r@ == digits(n as nat, 10),
{
    let mut out = String::new();
    append_digits(&mut out, n, 10);
    proof {
        assert(out@ =~= digits(n as nat, 10));
    }
    out
}

/// `n` written in lower-case hexadecimal after `0x` (the form `{:#x}`).
pub fn hex_string(n: u64) -> (r: String)
    ensures
        r@ == "0x"@ + digits(n as nat, 16),
{
    let mut out = String::from_str("0x");
    append_digits(&mut out, n, 16);
    out
}

} // verus!

//! Rendering of unsigned integers as decimal and lower-case hexadecimal
//! text, used for query strings and IP addresses.

use vstd::prelude::*;
use vstd::string::StringExecFns;

verus! {

/// The decimal digit character for a value below ten.
pub open spec fn spec_digit(d: int) -> char {
    if d == 0 { '0' }
    else if d == 1 { '1' }
    else if d == 2 { '2' }
    else if d == 3 { '3' }
    else if d == 4 { '4' }
    else if d == 5 { '5' }
    else if d == 6 { '6' }
    else if d == 7 { '7' }
    else if d == 8 { '8' }
    else { '9' }
}

/// The hexadecimal digit character (lower case) for a value below sixteen.
pub open spec fn spec_hex_digit(d: int) -> char {
    if d < 10 { spec_digit(d) }
    else if d == 10 { 'a' }
    else if d == 11 { 'b' }
    else if d == 12 { 'c' }
    else if d == 13 { 'd' }
    else if d == 14 { 'e' }
    else { 'f' }
}

/// The usual decimal rendering of `n`, without leading zeros.
pub open spec fn spec_decimal(n: nat) -> Seq<char>
    decreases n,
{
    if n < 10 { seq![spec_digit(n as int)] }
    else { spec_decimal(n / 10) + seq![spec_digit((n % 10) as int)] }
}

/// The lower-case hexadecimal rendering of `n`, without leading zeros.
pub open spec fn spec_hex(n: nat) -> Seq<char>
    decreases n,
{
    if n < 16 { seq![spec_hex_digit(n as int)] }
    else { spec_hex(n / 16) + seq![spec_hex_digit((n % 16) as int)] }
}

/// Appends the single digit character for `d`.
fn push_digit(s: &mut String, d: u8)
    requires
        d < 10,
    ensures
        final(s)@ == old(s)@ + seq![spec_digit(d as int)],
{
    match d {
        0 => {
            proof { reveal_strlit("0"); }
            assert("0"@ =~= seq![spec_digit(d as int)]);
            s.append("0");
        }
        1 => {
            proof { reveal_strlit("1"); }
            assert("1"@ =~= seq![spec_digit(d as int)]);
            s.append("1");
        }
        2 => {
            proof { reveal_strlit("2"); }
            assert("2"@ =~= seq![spec_digit(d as int)]);
            s.append("2");
        }
        3 => {
            proof { reveal_strlit("3"); }
            assert("3"@ =~= seq![spec_digit(d as int)]);
            s.append("3");
        }
        4 => {
            proof { reveal_strlit("4"); }
            assert("4"@ =~= seq![spec_digit(d as int)]);
            s.append("4");
        }
        5 => {
            proof { reveal_strlit("5"); }
            assert("5"@ =~= seq![spec_digit(d as int)]);
            s.append("5");
        }
        6 => {
            proof { reveal_strlit("6"); }
            assert("6"@ =~= seq![spec_digit(d as int)]);
            s.append("6");
        }
        7 => {
            proof { reveal_strlit("7"); }
            assert("7"@ =~= seq![spec_digit(d as int)]);
            s.append("7");
        }
        8 => {
            proof { reveal_strlit("8"); }
            assert("8"@ =~= seq![spec_digit(d as int)]);
            s.append("8");
        }
        _ => {
            proof { reveal_strlit("9"); }
            assert("9"@ =~= seq![spec_digit(d as int)]);
            s.append("9");
        }
    }
}

/// Appends the single lower-case hexadecimal digit character for `d`.
fn push_hex_digit(s: &mut String, d: u8)
    requires
        d < 16,
    ensures
        final(s)@ == old(s)@ + seq![spec_hex_digit(d as int)],
{
    if d < 10 {
        push_digit(s, d);
    } else {
        match d {
            10 => {
                proof { reveal_strlit("a"); }
                assert("a"@ =~= seq![spec_hex_digit(d as int)]);
                s.append("a");
            }
            11 => {
                proof { reveal_strlit("b"); }
                assert("b"@ =~= seq![spec_hex_digit(d as int)]);
                s.append("b");
            }
            12 => {
                proof { reveal_strlit("c"); }
                assert("c"@ =~= seq![spec_hex_digit(d as int)]);
                s.append("c");
            }
            13 => {
                proof { reveal_strlit("d"); }
                assert("d"@ =~= seq![spec_hex_digit(d as int)]);
                s.append("d");
            }
            14 => {
                proof { reveal_strlit("e"); }
                assert("e"@ =~= seq![spec_hex_digit(d as int)]);
                s.append("e");
            }
            _ => {
                proof { reveal_strlit("f"); }
                assert("f"@ =~= seq![spec_hex_digit(d as int)]);
                s.append("f");
            }
        }
    }
}

/// Appends the decimal rendering of `n`.
pub fn push_decimal(s: &mut String, n: u64)
    ensures
        final(s)@ == old(s)@ + spec_decimal(n as nat),
    decreases n,
{
    if n < 10 {
        push_digit(s, n as u8);
    } else {
        push_decimal(s, n / 10);
        push_digit(s, (n % 10) as u8);
        assert(old(s)@ + spec_decimal((n / 10) as nat) + seq![spec_digit((n % 10) as int)]
            =~= old(s)@ + spec_decimal(n as nat));
    }
}

/// Appends the lower-case hexadecimal rendering of `n`.
pub fn push_hex(s: &mut String, n: u16)
    ensures
        final(s)@ == old(s)@ + spec_hex(n as nat),
    decreases n,
{
    if n < 16 {
        push_hex_digit(s, n as u8);
    } else {
        push_hex(s, n / 16);
        push_hex_digit(s, (n % 16) as u8);
        assert(old(s)@ + spec_hex((n / 16) as nat) + seq![spec_hex_digit((n % 16) as int)]
            =~= old(s)@ + spec_hex(n as nat));
    }
}

} // verus!

//! Decimal rendering of numbers, used for error messages and slot names.

use vstd::prelude::*;

verus! {

/// The character for a single decimal digit.
pub open spec fn digit_char(d: nat) -> char {
    if d == 0 {
        '0'
    } else if d == 1 {
        '1'
    } else if d == 2 {
        '2'
    } else if d == 3 {
        '3'
    } else if d == 4 {
        '4'
    } else if d == 5 {
        '5'
    } else if d == 6 {
        '6'
    } else if d == 7 {
        '7'
    } else if d == 8 {
        '8'
    } else {
        '9'
    }
}

/// The usual decimal rendering of `n`, without leading zeros.
pub open spec fn spec_decimal(n: nat) -> Seq<char>
    decreases n,
{
    if n < 10 {
        seq![digit_char(n)]
    } else {
        spec_decimal(n / 10) + seq![digit_char(n % 10)]
    }
}

/// A single decimal digit as a string slice.
fn digit_str(d: u64) -> (r: &'static str)
    requires
        d < 10,
    ensures
        r@ == seq![digit_char(d as nat)],
{
    let r = match d {
        0 => "0",
        1 => "1",
        2 => "2",
        3 => "3",
        4 => "4",
        5 => "5",
        6 => "6",
        7 => "7",
        8 => "8",
        _ => "9",
    };
    proof {
        reveal_strlit("0");
        reveal_strlit("1");
        reveal_strlit("2");
        reveal_strlit("3");
        reveal_strlit("4");
        reveal_strlit("5");
        reveal_strlit("6");
        reveal_strlit("7");
        reveal_strlit("8");
        reveal_strlit("9");
        assert(r@ =~= seq![digit_char(d as nat)]);
    }
    r
}

/// Renders `n` in decimal.
pub fn decimal_string(n: u64) -> (r: String)
    ensures
        r@ == spec_decimal(n as nat),
    decreases n,
{
    if n < 10 {
        String::from_str(digit_str(n))
    } else {
        let mut s = decimal_string(n / 10);
        s.append(digit_str(n % 10));
        s
    }
}

/// The decimal rendering of `n` zero-padded on the left to at least two
/// characters, as the favourite slot directories are named.
pub open spec fn spec_two_digit(n: nat) -> Seq<char> {
    if n < 10 {
        seq![digit_char(0)] + spec_decimal(n)
    } else {
        spec_decimal(n)
    }
}

/// Renders `n` in decimal, zero-padded to at least two digits.
pub fn two_digit_string(n: u64) -> (r: String)
    ensures
        r@ == spec_two_digit(n as nat),
{
    if n < 10 {
        let mut s = String::from_str(digit_str(0));
        let rest = decimal_string(n);
        s.append(rest.as_str());
        s
    } else {
        decimal_string(n)
    }
}

/// The debug-style rendering of a byte sequence: `[1, 2, 3]`.
pub open spec fn spec_bytes_debug(s: Seq<u8>) -> Seq<char>
    decreases s.len(),
{
    if s.len() == 0 {
        "[]"@
    } else if s.len() == 1 {
        "["@ + spec_decimal(s[0] as nat) + "]"@
    } else {
        spec_bytes_debug(s.drop_last()).drop_last() + ", "@ + spec_decimal(s.last() as nat)
            + "]"@
    }
}

/// Renders a byte slice the way the debug formatter would: `[1, 2, 3]`.
pub fn bytes_debug(v: &[u8]) -> (r: String)
    ensures
        r@ == spec_bytes_debug(v@),
{
    proof {
        reveal_strlit("[]");
        reveal_strlit("[");
        reveal_strlit("]");
        reveal_strlit(", ");
    }
    if v.len() == 0 {
        return String::from_str("[]");
    }
    let mut s = String::from_str("[");
    let first = decimal_string(v[0] as u64);
    s.append(first.as_str());
    proof {
        assert(v@.subrange(0, 1).len() == 1);
        assert(v@.subrange(0, 1)[0] == v@[0]);
        assert(s@ =~= spec_bytes_debug(v@.subrange(0, 1)).drop_last());
    }
    let mut i: usize = 1;
    while i < v.len()
        invariant
            1 <= i <= v@.len(),
            s@ == spec_bytes_debug(v@.subrange(0, i as int)).drop_last(),
        decreases v@.len() - i,
    {
        proof {
            reveal_strlit(", ");
            reveal_strlit("]");
        }
        s.append(", ");
        let d = decimal_string(v[i] as u64);
        s.append(d.as_str());
        proof {
            assert(v@.subrange(0, i as int + 1).drop_last() =~= v@.subrange(0, i as int));
            assert(v@.subrange(0, i as int + 1).last() == v@[i as int]);
            assert(spec_bytes_debug(v@.subrange(0, i as int + 1)).drop_last() =~= spec_bytes_debug(
                v@.subrange(0, i as int),
            ).drop_last() + ", "@ + spec_decimal(v@[i as int] as nat));
        }
        i += 1;
    }
    s.append("]");
    proof {
        assert(v@.subrange(0, v@.len() as int) =~= v@);
        assert(s@ =~= spec_bytes_debug(v@));
    }
    s
}

} // verus!

//! Verified building of the little text the library needs: decimal
//! renderings of numbers and the path and URL strings built from them.

use vstd::prelude::*;

verus! {

/// The decimal digit character for a value below ten.
pub open spec fn digit_char(d: nat) -> char {
    if d == 0 {
        '0'
    } else if d == 1 {
        '1'
    } else if d == 2 {
        '2'
    } else if d == 3 {
        '3'
    } else if d == 4 {
        '4'
    } else if d == 5 {
        '5'
    } else if d == 6 {
        '6'
    } else if d == 7 {
        '7'
    } else if d == 8 {
        '8'
    } else {
        '9'
    }
}

/// The usual decimal rendering of a number, most significant digit first,
/// without leading zeros (a single zero for zero itself).
pub open spec fn dec_str(n: nat) -> Seq<char>
    decreases n,
{
    if n < 10 {
        seq![digit_char(n)]
    } else {
        dec_str(n / 10).push(digit_char(n % 10))
    }
}

/// Appends one decimal digit character.
fn push_digit(s: &mut String, d: u64)
    requires
        d < 10,
    ensures
        final(s)@ == old(s)@.push(digit_char(d as nat)),
{
    if d == 0 {
        s.append("0");
        proof { reveal_strlit("0"); assert(s@ =~= old(s)@.push(digit_char(d as nat))); }
    } else if d == 1 {
        s.append("1");
        proof { reveal_strlit("1"); assert(s@ =~= old(s)@.push(digit_char(d as nat))); }
    } else if d == 2 {
        s.append("2");
        proof { reveal_strlit("2"); assert(s@ =~= old(s)@.push(digit_char(d as nat))); }
    } else if d == 3 {
        s.append("3");
        proof { reveal_strlit("3"); assert(s@ =~= old(s)@.push(digit_char(d as nat))); }
    } else if d == 4 {
        s.append("4");
        proof { reveal_strlit("4"); assert(s@ =~= old(s)@.push(digit_char(d as nat))); }
    } else if d == 5 {
        s.append("5");
        proof { reveal_strlit("5"); assert(s@ =~= old(s)@.push(digit_char(d as nat))); }
    } else if d == 6 {
        s.append("6");
        proof { reveal_strlit("6"); assert(s@ =~= old(s)@.push(digit_char(d as nat))); }
    } else if d == 7 {
        s.append("7");
        proof { reveal_strlit("7"); assert(s@ =~= old(s)@.push(digit_char(d as nat))); }
    } else if d == 8 {
        s.append("8");
        proof { reveal_strlit("8"); assert(s@ =~= old(s)@.push(digit_char(d as nat))); }
    } else {
        s.append("9");
        proof { reveal_strlit("9"); assert(s@ =~= old(s)@.push(digit_char(d as nat))); }
    }
}

/// Appends the decimal rendering of `n`.
pub fn append_u64(s: &mut String, n: u64)
    ensures
        final(s)@ == old(s)@ + dec_str(n as nat),
    decreases n,
{
    if n < 10 {
        push_digit(s, n);
        proof {
            assert(old(s)@.push(digit_char(n as nat)) =~= old(s)@ + dec_str(n as nat));
        }
    } else {
        append_u64(s, n / 10);
        push_digit(s, n % 10);
        proof {
            assert((old(s)@ + dec_str((n / 10) as nat)).push(digit_char((n % 10) as nat))
                =~= old(s)@ + dec_str(n as nat));
        }
    }
}

/// The decimal rendering of `n` as a string.
pub fn u64_string(n: u64) -> (r: String)
    ensures
        r@ == dec_str(n as nat),
{
    let mut s = String::new();
    append_u64(&mut s, n);
    proof {
        assert(Seq::<char>::empty() + dec_str(n as nat) =~= dec_str(n as nat));
    }
    s
}

} // verus!

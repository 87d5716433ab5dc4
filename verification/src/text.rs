//! Text that the library prints.

use vstd::prelude::*;
use vstd::string::*;

verus! {

/// The decimal digit `d` as a character.
pub open spec fn digit(d: nat) -> char {
    (48 + d) as char
}

/// The decimal notation of `n`, without leading zeros.
pub open spec fn decimal(n: nat) -> Seq<char>
    decreases n,
{
    if n < 10 {
        seq![digit(n)]
    } else {
        decimal(n / 10).push(digit(n % 10))
    }
}

/// The decimal digit `d` as text.
fn digit_text(d: u128) -> (r: &'static str)
    requires
        d < 10,
    ensures
        r@ == seq![digit(d as nat)],
{
    let r: &'static str = match d {
        0 => "0",
        1 => "1",
        2 => "2",
        3 => "3",
        4 => "4",
        5 => "5",
        6 => "6",
        7 => "7",
        8 => "8",
        _ => "9",
    };
    proof {
        reveal_strlit("0");
        reveal_strlit("1");
        reveal_strlit("2");
        reveal_strlit("3");
        reveal_strlit("4");
        reveal_strlit("5");
        reveal_strlit("6");
        reveal_strlit("7");
        reveal_strlit("8");
        reveal_strlit("9");
    }
    assert(r@ =~= seq![digit(d as nat)]);
    r
}

/// Print a number in decimal.
pub(crate) fn decimal_string(n: u128) -> (r: String)
    ensures
        r@ == decimal(n as nat),
{
    let mut rest: u128 = n;
    let mut tail: String = String::new();
    assert(decimal(n as nat) + tail@ =~= decimal(n as nat));
    while rest >= 10
        invariant
            decimal(rest as nat) + tail@ == decimal(n as nat),
        decreases rest,
    {
        let ghost before = tail@;
        let last: &'static str = digit_text(rest % 10);
        tail = last.to_owned().concat(tail.as_str());
        assert(decimal((rest / 10) as nat) + tail@ =~= decimal(rest as nat) + before);
        rest = rest / 10;
    }
    let r: String = digit_text(rest).to_owned().concat(tail.as_str());
    assert(r@ =~= decimal(rest as nat) + tail@);
    r
}

/// A number is written by its digits, the highest first and none to spare.
pub proof fn decimal_by_digits(n: nat, d: nat)
    requires
        d < 10,
    ensures
        decimal(d) == seq![(48 + d) as char],
        n > 0 ==> decimal(n * 10 + d) == decimal(n).push((48 + d) as char),
{
    assert((n * 10 + d) / 10 == n);
    assert((n * 10 + d) % 10 == d);
}

} // verus!

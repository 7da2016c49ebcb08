//! Numbers as text.

use vstd::prelude::*;
use vstd::string::*;

verus! {

/// The decimal digit that stands for a number below ten.
pub open spec fn digit(n: nat) -> char {
    "0123456789"@[n as int]
}

/// A number in decimal, without leading zeros.
pub open spec fn decimal(n: nat) -> Seq<char>
    decreases n,
{
    if n < 10 {
        seq![digit(n)]
    } else {
        decimal(n / 10).push(digit(n % 10))
    }
}

/// Writes a number in decimal.
pub fn decimal_text(n: u64) -> (text: String)
    ensures
        text@ == decimal(n as nat),
    decreases n,
{
    proof {
        reveal_strlit("0123456789");
    }
    let low: usize = (n % 10) as usize;
    let last: &str = "0123456789".substring_char(low, low + 1);
    assert(last@ =~= seq![digit((n % 10) as nat)]);
    if n < 10 {
        last.to_owned()
    } else {
        let text = decimal_text(n / 10).concat(last);
        assert(text@ =~= decimal((n / 10) as nat).push(digit((n % 10) as nat)));
        text
    }
}

} // verus!

//! The ids of records: two parts joined by an underscore. A transaction id is
//! the time of the operation in decimal and the caller's textual identity;
//! the other services put the identity first.

use vstd::prelude::*;
use vstd::string::*;

verus! {

/// The character of a decimal digit.
pub open spec fn digit_char(d: nat) -> char {
    if d == 0 {
        '0'
    } else if d == 1 {
        '1'
    } else if d == 2 {
        '2'
    } else if d == 3 {
        '3'
    } else if d == 4 {
        '4'
    } else if d == 5 {
        '5'
    } else if d == 6 {
        '6'
    } else if d == 7 {
        '7'
    } else if d == 8 {
        '8'
    } else {
        '9'
    }
}

/// A number in decimal, without leading zeros.
pub open spec fn decimal_text(n: nat) -> Seq<char>
    decreases n,
{
    if n < 10 {
        seq![digit_char(n)]
    } else {
        decimal_text(n / 10).push(digit_char(n % 10))
    }
}

/// Two texts joined by an underscore.
pub open spec fn joined_text(left: Seq<char>, right: Seq<char>) -> Seq<char> {
    left + seq!['_'] + right
}

/// The id of the transaction that `caller_text` starts at time `now`.
pub open spec fn transaction_id_text(now: u64, caller_text: Seq<char>) -> Seq<char> {
    joined_text(decimal_text(now as nat), caller_text)
}

/// The id of the record that `caller_text` creates at time `now`.
pub open spec fn record_id_text(caller_text: Seq<char>, now: u64) -> Seq<char> {
    joined_text(caller_text, decimal_text(now as nat))
}

fn digit_str(d: u64) -> (text: &'static str)
    requires
        d < 10,
    ensures
        text@ == seq![digit_char(d as nat)],
{
    proof {
        reveal_strlit("0");
        reveal_strlit("1");
        reveal_strlit("2");
        reveal_strlit("3");
        reveal_strlit("4");
        reveal_strlit("5");
        reveal_strlit("6");
        reveal_strlit("7");
        reveal_strlit("8");
        reveal_strlit("9");
    }
    let text = if d == 0 {
        "0"
    } else if d == 1 {
        "1"
    } else if d == 2 {
        "2"
    } else if d == 3 {
        "3"
    } else if d == 4 {
        "4"
    } else if d == 5 {
        "5"
    } else if d == 6 {
        "6"
    } else if d == 7 {
        "7"
    } else if d == 8 {
        "8"
    } else {
        "9"
    };
    assert(text@ =~= seq![digit_char(d as nat)]);
    text
}

/// Writes a number in decimal.
pub fn decimal_string(n: u64) -> (text: String)
    ensures
        text@ == decimal_text(n as nat),
{
    let mut text = String::from_str(digit_str(n % 10));
    let mut rest: u64 = n / 10;
    while rest > 0
        invariant
            decimal_text(n as nat) == (if rest == 0 {
                Seq::<char>::empty()
            } else {
                decimal_text(rest as nat)
            }) + text@,
        decreases rest,
    {
        let digit = String::from_str(digit_str(rest % 10));
        proof {
            let next = (rest / 10) as nat;
            let d = seq![digit_char((rest % 10) as nat)];
            if rest < 10 {
                assert(decimal_text(rest as nat) + text@ == Seq::<char>::empty() + (d + text@));
            } else {
                assert(decimal_text(rest as nat) == decimal_text(next) + d);
                assert(decimal_text(rest as nat) + text@ == decimal_text(next) + (d + text@));
            }
        }
        text = digit.concat(text.as_str());
        rest = rest / 10;
    }
    text
}

/// Joins two texts by an underscore.
pub fn joined(left: &str, right: &str) -> (text: String)
    ensures
        text@ == joined_text(left@, right@),
{
    proof {
        reveal_strlit("_");
    }
    let text = String::from_str(left).concat("_").concat(right);
    assert("_"@ =~= seq!['_']);
    text
}

/// The id of the transaction that the caller with the textual identity
/// `caller_text` starts at time `now`.
pub fn transaction_id(now: u64, caller_text: &str) -> (id: String)
    ensures
        id@ == transaction_id_text(now, caller_text@),
{
    joined(decimal_string(now).as_str(), caller_text)
}

/// The id of the record that the caller with the textual identity
/// `caller_text` creates at time `now`.
pub fn record_id(caller_text: &str, now: u64) -> (id: String)
    ensures
        id@ == record_id_text(caller_text@, now),
{
    joined(caller_text, decimal_string(now).as_str())
}

} // verus!

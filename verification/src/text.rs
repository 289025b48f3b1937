//! Texts that the library composes.

use vstd::prelude::*;
use vstd::string::StringExecFns;

use crate::link::CloseReason;

verus! {

/// The decimal digit of `n`.
pub open spec fn digit(n: nat) -> char {
    if n == 0 {
        '0'
    } else if n == 1 {
        '1'
    } else if n == 2 {
        '2'
    } else if n == 3 {
        '3'
    } else if n == 4 {
        '4'
    } else if n == 5 {
        '5'
    } else if n == 6 {
        '6'
    } else if n == 7 {
        '7'
    } else if n == 8 {
        '8'
    } else {
        '9'
    }
}

/// `n` in decimal notation.
pub open spec fn decimal(n: nat) -> Seq<char>
    decreases n,
{
    if n < 10 {
        seq![digit(n)]
    } else {
        decimal(n / 10).push(digit(n % 10))
    }
}

fn digit_text(n: usize) -> (r: &'static str)
    requires
        n < 10,
    ensures
        r@ == seq![digit(n as nat)],
{
    proof {
        reveal_strlit("0");
        reveal_strlit("1");
        reveal_strlit("2");
        reveal_strlit("3");
        reveal_strlit("4");
        reveal_strlit("5");
        reveal_strlit("6");
        reveal_strlit("7");
        reveal_strlit("8");
        reveal_strlit("9");
    }
    let r: &'static str = if n == 0 {
        "0"
    } else if n == 1 {
        "1"
    } else if n == 2 {
        "2"
    } else if n == 3 {
        "3"
    } else if n == 4 {
        "4"
    } else if n == 5 {
        "5"
    } else if n == 6 {
        "6"
    } else if n == 7 {
        "7"
    } else if n == 8 {
        "8"
    } else {
        "9"
    };
    assert(r@ =~= seq![digit(n as nat)]);
    r
}

/// `n` in decimal notation.
pub fn decimal_text(n: usize) -> (r: String)
    ensures
        r@ == decimal(n as nat),
    decreases n,
{
    if n < 10 {
        digit_text(n).to_owned()
    } else {
        let mut r = decimal_text(n / 10);
        r.append(digit_text(n % 10));
        assert(r@ =~= decimal(n as nat));
        r
    }
}

/// `head` followed by `tail`.
pub fn worded(head: &str, tail: &str) -> (r: String)
    ensures
        r@ == head@ + tail@,
{
    let mut r = head.to_owned();
    r.append(tail);
    r
}

/// Why a segment's place in a Resource was refused.
pub open spec fn segment_range_failure(index: usize, total: usize, max: usize) -> Seq<char> {
    "segment metadata is out of range ("@ + decimal(index as nat) + "/"@ + decimal(total as nat)
        + ", max "@ + decimal(max as nat) + ")"@
}

pub fn segment_range_text(index: usize, total: usize, max: usize) -> (r: String)
    ensures
        r@ == segment_range_failure(index, total, max),
{
    let mut r = "segment metadata is out of range (".to_owned();
    r.append(decimal_text(index).as_str());
    r.append("/");
    r.append(decimal_text(total).as_str());
    r.append(", max ");
    r.append(decimal_text(max).as_str());
    r.append(")");
    r
}

/// Why the Resources of a closed Link failed.
pub open spec fn close_failure(reason: CloseReason) -> Seq<char> {
    match reason {
        CloseReason::Timeout => "link closed: Timeout"@,
        CloseReason::InitiatorClosed => "link closed: InitiatorClosed"@,
        CloseReason::DestinationClosed => "link closed: DestinationClosed"@,
    }
}

pub fn close_failure_text(reason: CloseReason) -> (r: String)
    ensures
        r@ == close_failure(reason),
{
    match reason {
        CloseReason::Timeout => "link closed: Timeout".to_owned(),
        CloseReason::InitiatorClosed => "link closed: InitiatorClosed".to_owned(),
        CloseReason::DestinationClosed => "link closed: DestinationClosed".to_owned(),
    }
}

} // verus!

//! What texts tell.

use vstd::prelude::*;

use crate::render::{hex_digit, hex_text};
use crate::text::{decimal, segment_range_failure};

verus! {

/// The number that a decimal digit stands for.
pub open spec fn digit_value(c: char) -> int {
    c as int - '0' as int
}

/// The number that decimal digits stand for.
pub open spec fn decimal_value(s: Seq<char>) -> int
    decreases s.len(),
{
    if s.len() == 0 {
        0
    } else {
        10 * decimal_value(s.drop_last()) + digit_value(s.last())
    }
}

/// The decimal notation of a number reads as that number, in digits alone, and begins with
/// a zero only if it is zero itself.
pub proof fn decimal_reads_back(n: nat)
    ensures
        decimal_value(decimal(n)) == n,
        decimal(n).len() > 0,
        forall|i: int| 0 <= i < decimal(n).len() ==> '0' <= #[trigger] decimal(n)[i] <= '9',
        decimal(n)[0] == '0' ==> n == 0,
    decreases n,
{
    reveal_with_fuel(decimal_value, 2);
    if n < 10 {
        assert(decimal(n).drop_last() =~= Seq::empty());
    } else {
        let front = decimal(n / 10);
        decimal_reads_back(n / 10);
        assert(decimal(n).drop_last() =~= front);
        assert(decimal(n)[0] == front[0]);
        assert forall|i: int| 0 <= i < decimal(n).len() implies '0' <= #[trigger] decimal(n)[i]
            <= '9' by {
            if i < front.len() {
                assert(decimal(n)[i] == front[i]);
            }
        }
    }
}

/// Numbers are told apart by their decimal notation.
pub proof fn decimals_are_told_apart(a: nat, b: nat)
    requires
        decimal(a) == decimal(b),
    ensures
        a == b,
{
    decimal_reads_back(a);
    decimal_reads_back(b);
}

/// Identifiers are told apart by their hexadecimal notation, which has two digits for each
/// byte.
pub proof fn hex_is_told_apart(a: Seq<u8>, b: Seq<u8>)
    ensures
        hex_text(a).len() == 2 * a.len(),
        hex_text(a) == hex_text(b) ==> a == b,
{
    if hex_text(a) == hex_text(b) {
        assert(a.len() == b.len());
        assert forall|i: int| 0 <= i < a.len() implies a[i] == b[i] by {
            let x = a[i] as int;
            let y = b[i] as int;
            assert(hex_text(a)[2 * i] == hex_digit(x / 16));
            assert(hex_text(b)[2 * i] == hex_digit(y / 16));
            assert(hex_text(a)[2 * i + 1] == hex_digit(x % 16));
            assert(hex_text(b)[2 * i + 1] == hex_digit(y % 16));
            lemma_hex_digit(x / 16, y / 16);
            lemma_hex_digit(x % 16, y % 16);
        }
        assert(a =~= b);
    }
}

proof fn lemma_hex_digit(x: int, y: int)
    requires
        0 <= x < 16,
        0 <= y < 16,
        hex_digit(x) == hex_digit(y),
    ensures
        x == y,
{
    reveal_strlit("0123456789abcdef");
    lemma_hex_value(x);
    lemma_hex_value(y);
}

proof fn lemma_hex_value(x: int)
    requires
        0 <= x < 16,
    ensures
        hex_digit(x) as int == if x < 10 {
            '0' as int + x
        } else {
            'a' as int + (x - 10)
        },
{
    reveal_strlit("0123456789abcdef");
}

/// The refusal of a segment's place names the place, the number of segments and the largest
/// number that there may be, in this order.
pub proof fn refused_place_is_named(index: usize, total: usize, max: usize)
    ensures
        ({
            let text = segment_range_failure(index, total, max);
            let head = "segment metadata is out of range ("@;
            let a = decimal(index as nat);
            let b = decimal(total as nat);
            let c = decimal(max as nat);
            let i = head.len() as int;
            let j = i + a.len() + 1;
            let k = j + b.len() + 6;
            &&& text.subrange(0, i) == head
            &&& text.subrange(i, i + a.len()) == a
            &&& text[i + a.len()] == '/'
            &&& text.subrange(j, j + b.len()) == b
            &&& text.subrange(j + b.len(), k) == ", max "@
            &&& text.subrange(k, k + c.len()) == c
            &&& text.last() == ')'
        }),
{
    reveal_strlit("segment metadata is out of range (");
    reveal_strlit("/");
    reveal_strlit(", max ");
    reveal_strlit(")");
    let text = segment_range_failure(index, total, max);
    let head = "segment metadata is out of range ("@;
    let a = decimal(index as nat);
    let b = decimal(total as nat);
    let c = decimal(max as nat);
    let i = head.len() as int;
    let j = i + a.len() + 1;
    let k = j + b.len() + 6;
    assert(text.subrange(0, i) =~= head);
    assert(text.subrange(i, i + a.len()) =~= a);
    assert(text.subrange(j, j + b.len()) =~= b);
    assert(text.subrange(j + b.len(), k) =~= ", max "@);
    assert(text.subrange(k, k + c.len()) =~= c);
}

} // verus!

//! Decimal numerals of integers too large for a machine word.
//!
//! A number of 2^63 or more is an integer: its significand times a power
//! of two. Its numeral is computed here on decimal digits, the lowest
//! first, by doubling.

use vstd::prelude::*;
use crate::text::{decimal, digit_char};

verus! {

/// The number that decimal digits stand for, the lowest digit first.
pub open spec fn digits_value(d: Seq<u8>) -> nat
    decreases d.len(),
{
    if d.len() == 0 {
        0
    } else {
        d[0] as nat + 10 * digits_value(d.skip(1))
    }
}

/// Whether the digits are a numeral, the lowest digit first: at least one
/// digit, each below ten, and the highest not zero unless it is the only one.
pub open spec fn is_numeral(d: Seq<u8>) -> bool {
    &&& d.len() >= 1
    &&& forall|i: int| 0 <= i < d.len() ==> d[i] < 10
    &&& d.len() > 1 ==> d.last() != 0
}

/// The digits of a number, the lowest first.
pub open spec fn digits_of(n: nat) -> Seq<u8>
    decreases n,
{
    if n < 10 {
        seq![n as u8]
    } else {
        seq![(n % 10) as u8] + digits_of(n / 10)
    }
}

/// The digits of twice a number and a carry, from the number's digits.
pub open spec fn doubled(d: Seq<u8>, carry: nat) -> Seq<u8>
    decreases d.len(),
{
    if d.len() == 0 {
        if carry == 0 {
            Seq::empty()
        } else {
            seq![carry as u8]
        }
    } else {
        let t = 2 * (d[0] as nat) + carry;
        seq![(t % 10) as u8] + doubled(d.skip(1), t / 10)
    }
}

/// The digits as they are written: the highest first.
pub open spec fn written(d: Seq<u8>) -> Seq<char>
    decreases d.len(),
{
    if d.len() == 0 {
        Seq::empty()
    } else {
        written(d.skip(1)).push(digit_char(d[0] as nat))
    }
}

/// A number doubled a number of times.
pub open spec fn times_two_to(n: nat, k: nat) -> nat
    decreases k,
{
    if k == 0 {
        n
    } else {
        2 * times_two_to(n, (k - 1) as nat)
    }
}

/// A single digit stands for itself.
pub proof fn lemma_single(d: Seq<u8>)
    requires
        d.len() == 1,
    ensures
        digits_value(d) == d[0] as nat,
{
    assert(d.skip(1).len() == 0);
    assert(digits_value(d.skip(1)) == 0);
}

/// The digits of a number are a numeral of that number.
pub proof fn lemma_digits_of(n: nat)
    ensures
        is_numeral(digits_of(n)),
        digits_value(digits_of(n)) == n,
    decreases n,
{
    let all = digits_of(n);
    if n >= 10 {
        lemma_digits_of(n / 10);
        let rest = digits_of(n / 10);
        assert(all.skip(1) =~= rest);
        assert(all[0] == (n % 10) as u8);
        assert(all.last() == rest.last());
        if rest.len() == 1 {
            lemma_single(rest);
        }
        assert forall|i: int| 0 <= i < all.len() implies all[i] < 10 by {
            if i > 0 {
                assert(all[i] == rest[i - 1]);
            }
        }
    } else {
        lemma_single(all);
    }
}

/// Doubling digits doubles their number; a numeral stays a numeral.
pub proof fn lemma_doubled(d: Seq<u8>, carry: nat)
    requires
        forall|i: int| 0 <= i < d.len() ==> d[i] < 10,
        carry <= 1,
    ensures
        digits_value(doubled(d, carry)) == 2 * digits_value(d) + carry,
        forall|i: int| 0 <= i < doubled(d, carry).len() ==> doubled(d, carry)[i] < 10,
        doubled(d, carry).len() >= d.len(),
        d.len() >= 1 && d.last() != 0 ==> doubled(d, carry).last() != 0,
        d.len() == 1 && d[0] == 0 && carry == 0 ==> doubled(d, carry).len() == 1,
    decreases d.len(),
{
    let all = doubled(d, carry);
    if d.len() == 0 {
        if carry != 0 {
            lemma_single(all);
        }
    } else {
        let t = 2 * (d[0] as nat) + carry;
        let rest = doubled(d.skip(1), t / 10);
        assert(d.skip(1).len() == d.len() - 1);
        assert forall|i: int| 0 <= i < d.skip(1).len() implies d.skip(1)[i] < 10 by {
            assert(d.skip(1)[i] == d[i + 1]);
        }
        lemma_doubled(d.skip(1), t / 10);
        assert(all =~= seq![(t % 10) as u8] + rest);
        assert(all.skip(1) =~= rest);
        assert(all[0] == (t % 10) as u8);
        assert(digits_value(all) == all[0] as nat + 10 * digits_value(rest));
        assert forall|i: int| 0 <= i < all.len() implies all[i] < 10 by {
            if i > 0 {
                assert(all[i] == rest[i - 1]);
            }
        }
        if d.last() != 0 {
            if d.len() == 1 {
                assert(d.skip(1).len() == 0);
                if t / 10 == 0 {
                    assert(rest.len() == 0);
                    assert(all.last() == (t % 10) as u8);
                } else {
                    assert(rest =~= seq![(t / 10) as u8]);
                    assert(all.last() == rest.last());
                }
            } else {
                assert(d.skip(1).last() == d.last());
                assert(rest.len() >= 1);
                assert(all.last() == rest.last());
            }
        }
        if d.len() == 1 && d[0] == 0 && carry == 0 {
            assert(d.skip(1).len() == 0);
            assert(rest.len() == 0);
        }
    }
}

/// A numeral is written as the decimal numeral of its number.
pub proof fn lemma_written(d: Seq<u8>)
    requires
        is_numeral(d),
    ensures
        written(d) == decimal(digits_value(d)),
    decreases d.len(),
{
    let rest = d.skip(1);
    if d.len() == 1 {
        lemma_single(d);
        assert(rest.len() == 0);
        assert(written(rest) =~= Seq::<char>::empty());
        assert(written(d) =~= seq![digit_char(d[0] as nat)]);
    } else {
        assert(rest.last() == d.last());
        assert forall|i: int| 0 <= i < rest.len() implies rest[i] < 10 by {
            assert(rest[i] == d[i + 1]);
        }
        lemma_written(rest);
        lemma_numeral_is_positive(rest);
        let v = digits_value(d);
        assert(v == d[0] as nat + 10 * digits_value(rest));
        assert(v >= 10);
        assert(v / 10 == digits_value(rest));
        assert(v % 10 == d[0] as nat);
    }
}

/// A numeral whose highest digit is not zero stands for a positive number.
pub proof fn lemma_numeral_is_positive(d: Seq<u8>)
    requires
        d.len() >= 1,
        d.last() != 0,
    ensures
        digits_value(d) >= 1,
    decreases d.len(),
{
    if d.len() > 1 {
        assert(d.skip(1).last() == d.last());
        lemma_numeral_is_positive(d.skip(1));
    }
}

/// The digits of a number, the lowest first.
pub fn digits(n: u64) -> (r: Vec<u8>)
    ensures
        r@ == digits_of(n as nat),
{
    let mut out: Vec<u8> = Vec::new();
    let mut rest: u64 = n;
    while rest >= 10
        invariant
            out@ + digits_of(rest as nat) == digits_of(n as nat),
        decreases rest,
    {
        let ghost before = out@;
        out.push((rest % 10) as u8);
        assert(out@ + digits_of((rest / 10) as nat) =~= before + digits_of(rest as nat));
        rest = rest / 10;
    }
    let ghost before = out@;
    out.push(rest as u8);
    assert(out@ =~= before + digits_of(rest as nat));
    out
}

/// The digits of twice the number that the digits stand for.
pub fn double(d: &Vec<u8>) -> (r: Vec<u8>)
    requires
        forall|i: int| 0 <= i < d.len() ==> d[i] < 10,
    ensures
        r@ == doubled(d@, 0),
{
    let mut out: Vec<u8> = Vec::new();
    let mut carry: u8 = 0;
    let mut i: usize = 0;
    assert(d@.skip(0) =~= d@);
    assert(out@ + doubled(d@, 0) =~= doubled(d@, 0));
    while i < d.len()
        invariant
            i <= d.len(),
            carry <= 1,
            forall|j: int| 0 <= j < d.len() ==> d[j] < 10,
            out@ + doubled(d@.skip(i as int), carry as nat) == doubled(d@, 0),
        decreases d.len() - i,
    {
        let ghost before = out@;
        let t: u8 = 2 * d[i] + carry;
        out.push(t % 10);
        assert(d@.skip(i as int).skip(1) =~= d@.skip(i + 1));
        assert(out@ + doubled(d@.skip(i + 1), (t / 10) as nat) =~= before + doubled(
            d@.skip(i as int),
            carry as nat,
        ));
        carry = t / 10;
        i += 1;
    }
    assert(d@.skip(d.len() as int).len() == 0);
    if carry != 0 {
        let ghost before = out@;
        out.push(carry);
        assert(out@ =~= before + doubled(d@.skip(d.len() as int), carry as nat));
    } else {
        assert(out@ =~= out@ + doubled(d@.skip(d.len() as int), carry as nat));
    }
    out
}

/// Appends the decimal numeral of `n` doubled `k` times to `out`.
pub fn push_doubled(out: &mut String, n: u64, k: u64)
    ensures
        final(out)@ == old(out)@ + decimal(times_two_to(n as nat, k as nat)),
{
    let mut d = digits(n);
    proof {
        lemma_digits_of(n as nat);
    }
    let mut j: u64 = 0;
    while j < k
        invariant
            j <= k,
            is_numeral(d@),
            digits_value(d@) == times_two_to(n as nat, j as nat),
        decreases k - j,
    {
        proof {
            lemma_doubled(d@, 0);
            if d@.len() == 1 && d@[0] != 0 {
                assert(d@.last() != 0);
            }
        }
        d = double(&d);
        j += 1;
    }
    proof {
        lemma_written(d@);
    }
    let mut i: usize = d.len();
    assert(d@.skip(i as int).len() == 0);
    while i > 0
        invariant
            i <= d.len(),
            forall|j: int| 0 <= j < d.len() ==> d[j] < 10,
            out@ == old(out)@ + written(d@.skip(i as int)),
        decreases i,
    {
        i -= 1;
        let ghost before = out@;
        assert(d@.skip(i as int).skip(1) =~= d@.skip(i + 1));
        out.push(digit(d[i]));
        assert(out@ =~= old(out)@ + written(d@.skip(i as int)));
    }
    assert(d@.skip(0) =~= d@);
}

/// The character of a digit.
fn digit(d: u8) -> (c: char)
    requires
        d < 10,
    ensures
        c == digit_char(d as nat),
{
    if d == 0 {
        '0'
    } else if d == 1 {
        '1'
    } else if d == 2 {
        '2'
    } else if d == 3 {
        '3'
    } else if d == 4 {
        '4'
    } else if d == 5 {
        '5'
    } else if d == 6 {
        '6'
    } else if d == 7 {
        '7'
    } else if d == 8 {
        '8'
    } else {
        '9'
    }
}

} // verus!

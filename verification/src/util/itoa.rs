//! Decimal formatting of unsigned integers into a fixed buffer.
use vstd::prelude::*;

verus! {

/// The decimal digits of `v` as ASCII, least significant first.
pub open spec fn rev_digits(v: nat) -> Seq<u8>
    decreases v,
{
    if v < 10 {
        seq![(48 + v) as u8]
    } else {
        seq![(48 + v % 10) as u8] + rev_digits(v / 10)
    }
}

/// The decimal representation of `v` as ASCII, most significant first.
pub open spec fn decimal(v: nat) -> Seq<u8> {
    rev_digits(v).reverse()
}

/// The number written by a sequence of ASCII digits, most significant first.
pub open spec fn decimal_value(s: Seq<u8>) -> int
    decreases s.len(),
{
    if s.len() == 0 {
        0
    } else {
        decimal_value(s.drop_last()) * 10 + (s.last() - 48)
    }
}

/// Whether every byte of `s` is an ASCII digit.
pub open spec fn all_digits(s: Seq<u8>) -> bool {
    forall|i: int| 0 <= i < s.len() ==> 48 <= #[trigger] s[i] <= 57
}

proof fn lemma_rev_digits_len(v: nat, k: nat)
    requires
        v < pow10(k),
        k >= 1,
    ensures
        rev_digits(v).len() <= k,
        rev_digits(v).len() >= 1,
    decreases v,
{
    if v >= 10 {
        assert(k >= 2) by {
            if k == 1 {
                assert(pow10(1) == 10) by {
                    reveal_with_fuel(pow10, 2);
                }
            }
        }
        assert(v / 10 < pow10((k - 1) as nat)) by {
            assert(pow10(k) == 10 * pow10((k - 1) as nat));
        }
        lemma_rev_digits_len(v / 10, (k - 1) as nat);
    }
}

/// `10^k`.
pub open spec fn pow10(k: nat) -> nat
    decreases k,
{
    if k == 0 {
        1
    } else {
        10 * pow10((k - 1) as nat)
    }
}

proof fn lemma_u32_below_pow10(v: u32)
    ensures
        (v as nat) < pow10(10),
{
    reveal_with_fuel(pow10, 11);
}

/// The decimal representation consists of digits, has no leading zero
/// and reads back as the number itself.
pub proof fn lemma_decimal_value(v: nat)
    ensures
        decimal_value(decimal(v)) == v,
        all_digits(decimal(v)),
        decimal(v).len() >= 1,
        decimal(v).len() > 1 ==> v >= 10,
        v > 0 ==> decimal(v)[0] != 48,
    decreases v,
{
    if v < 10 {
        assert(decimal(v) =~= seq![(48 + v) as u8]);
        assert(decimal(v).drop_last() =~= Seq::<u8>::empty());
        assert(decimal_value(decimal(v)) == decimal_value(Seq::<u8>::empty()) * 10 + (decimal(v).last() - 48));
    } else {
        lemma_decimal_value(v / 10);
        let d = (48 + v % 10) as u8;
        assert(decimal(v) =~= decimal(v / 10).push(d)) by {
            assert(rev_digits(v) =~= seq![d] + rev_digits(v / 10));
        }
        assert(decimal(v).drop_last() =~= decimal(v / 10));
        assert(decimal(v)[0] == decimal(v / 10)[0]);
        assert(decimal(v).last() == d);
        assert(decimal_value(decimal(v)) == decimal_value(decimal(v / 10)) * 10 + (d - 48));
    }
}

/// Writes the decimal representation of `val` into the front of `buf` and
/// returns its length; the rest of `buf` is left as it was.
pub fn utoa10(val: u32, buf: &mut [u8; 10]) -> (n: usize)
    ensures
        n == decimal(val as nat).len(),
        1 <= n <= 10,
        final(buf)@.subrange(0, n as int) == decimal(val as nat),
        forall|k: int| n <= k < 10 ==> final(buf)@[k] == old(buf)@[k],
{
    let ghost digits = rev_digits(val as nat);
    proof {
        lemma_u32_below_pow10(val);
        lemma_rev_digits_len(val as nat, 10);
    }
    let mut v: u32 = val;
    let mut i: usize = 0;
    loop
        invariant_except_break
            forall|k: int| i <= k < 10 ==> buf@[k] == old(buf)@[k],
        invariant
            i + rev_digits(v as nat).len() <= 10,
            rev_digits(v as nat).len() >= 1,
            digits =~= buf@.subrange(0, i as int) + rev_digits(v as nat),
        ensures
            i < 10,
            digits.len() == i + 1,
            digits =~= buf@.subrange(0, i as int + 1),
            forall|k: int| i < k < 10 ==> buf@[k] == old(buf)@[k],
        decreases v,
    {
        let d: u8 = (v % 10) as u8;
        buf[i] = 48u8 + d;
        if v < 10 {
            assert(rev_digits(v as nat) =~= seq![(48 + v) as u8]);
            break;
        }
        assert(rev_digits(v as nat) =~= seq![(48 + v % 10) as u8] + rev_digits((v / 10) as nat));
        proof {
            if v / 10 >= 10 {
                assert(rev_digits((v / 10) as nat).len() >= 1);
            }
        }
        v = v / 10;
        i = i + 1;
    }
    let n: usize = i + 1;
    // reverse buf[0..n] in place
    let ghost fwd = buf@;
    let mut j: usize = 0;
    while j < n / 2
        invariant
            n <= 10,
            j <= n / 2,
            buf@.len() == 10,
            fwd.len() == 10,
            forall|k: int| 0 <= k < j ==> buf@[k] == fwd[n - 1 - k],
            forall|k: int| 0 <= k < j ==> buf@[n - 1 - k] == fwd[k],
            forall|k: int| j <= k < n - j ==> buf@[k] == fwd[k],
            forall|k: int| n <= k < 10 ==> buf@[k] == fwd[k],
        decreases n / 2 - j,
    {
        let a: u8 = buf[j];
        let b: u8 = buf[n - 1 - j];
        buf[j] = b;
        buf[n - 1 - j] = a;
        j = j + 1;
    }
    assert(buf@.subrange(0, n as int) =~= digits.reverse()) by {
        assert forall|k: int| 0 <= k < n implies buf@[k] == digits.reverse()[k] by {
            assert(digits[n - 1 - k] == fwd[n - 1 - k]);
        }
    }
    n
}

} // verus!

//! Whole numbers of any size.

use vstd::prelude::*;

verus! {

/// What a limb counts up to.
pub const LIMB: u64 = 0x1_0000_0000;

/// A whole number, by its limbs, the lowest first.
pub struct Big {
    pub limbs: Vec<u32>,
}

/// A limb, or zero behind the last.
pub open spec fn limb_at(limbs: Seq<u32>, i: int) -> nat {
    if 0 <= i < limbs.len() {
        limbs[i] as nat
    } else {
        0
    }
}

/// The weight of a limb.
pub open spec fn weight(i: nat) -> nat
    decreases i,
{
    if i == 0 {
        1
    } else {
        LIMB as nat * weight((i - 1) as nat)
    }
}

/// What the lowest limbs stand for.
pub open spec fn sum_of(limbs: Seq<u32>, count: nat) -> nat
    decreases count,
{
    if count == 0 {
        0
    } else {
        sum_of(limbs, (count - 1) as nat) + limb_at(limbs, count - 1) * weight((count - 1) as nat)
    }
}

impl View for Big {
    type V = nat;

    open spec fn view(&self) -> nat {
        sum_of(self.limbs@, self.limbs@.len())
    }
}

proof fn lemma_weight_pos(i: nat)
    ensures
        weight(i) >= 1,
    decreases i,
{
    if i > 0 {
        lemma_weight_pos((i - 1) as nat);
    }
}

/// Behind the last limb nothing is added.
proof fn lemma_sum_all(limbs: Seq<u32>, count: nat)
    requires
        count >= limbs.len(),
    ensures
        sum_of(limbs, count) == sum_of(limbs, limbs.len()),
    decreases count,
{
    if count > limbs.len() {
        lemma_sum_all(limbs, (count - 1) as nat);
        assert(0 * weight((count - 1) as nat) == 0);
    }
}

/// The sum of limbs depends on those limbs alone.
proof fn lemma_sum_same(a: Seq<u32>, b: Seq<u32>, count: nat)
    requires
        forall|i: int| 0 <= i < count ==> #[trigger] limb_at(a, i) == limb_at(b, i),
    ensures
        sum_of(a, count) == sum_of(b, count),
    decreases count,
{
    if count > 0 {
        lemma_sum_same(a, b, (count - 1) as nat);
        assert(limb_at(a, count - 1) == limb_at(b, count - 1));
    }
}

/// The sum of limbs stays below the weight of the next.
proof fn lemma_sum_bound(limbs: Seq<u32>, count: nat)
    ensures
        sum_of(limbs, count) < weight(count),
    decreases count,
{
    if count > 0 {
        lemma_sum_bound(limbs, (count - 1) as nat);
        let l = limb_at(limbs, count - 1);
        let w = weight((count - 1) as nat);
        assert(l < 0x1_0000_0000);
        assert(l * w + w <= 0x1_0000_0000 * w) by (nonlinear_arith)
            requires
                l + 1 <= 0x1_0000_0000,
                w >= 0,
        ;
    }
}

impl Big {
    fn limb(&self, i: usize) -> (limb: u32)
        ensures
            limb == limb_at(self.limbs@, i as int),
    {
        if i < self.limbs.len() {
            self.limbs[i]
        } else {
            0
        }
    }

    /// A number of one or two limbs.
    pub fn of(value: u64) -> (big: Big)
        ensures
            big@ == value,
    {
        let mut limbs: Vec<u32> = Vec::new();
        limbs.push((value % LIMB) as u32);
        limbs.push((value / LIMB) as u32);
        proof {
            reveal_with_fuel(sum_of, 3);
            reveal_with_fuel(weight, 2);
            assert(limb_at(limbs@, 0) == value % LIMB);
            assert(limb_at(limbs@, 1) == value / LIMB);
            assert(weight(0) == 1);
            assert(weight(1) == LIMB);
            assert(limb_at(limbs@, 0) * 1 == value % LIMB);
            assert(sum_of(limbs@, 0) == 0);
            assert(sum_of(limbs@, 1) == sum_of(limbs@, 0) + limb_at(limbs@, 0) * weight(0));
            assert((value / LIMB) * LIMB + value % LIMB == value);
            assert(sum_of(limbs@, 2) == value);
        }
        Big { limbs }
    }

    pub fn copy(&self) -> (big: Big)
        ensures
            big@ == self@,
    {
        let mut limbs: Vec<u32> = Vec::new();
        let mut i: usize = 0;
        while i < self.limbs.len()
            invariant
                i <= self.limbs@.len(),
                limbs@ == self.limbs@.take(i as int),
            decreases self.limbs@.len() - i,
        {
            limbs.push(self.limbs[i]);
            i = i + 1;
            assert(limbs@ =~= self.limbs@.take(i as int));
        }
        assert(limbs@ =~= self.limbs@);
        Big { limbs }
    }

    /// Takes the number times a factor, and adds to it.
    pub fn scale(&mut self, factor: u32, plus: u32)
        ensures
            final(self)@ == factor * old(self)@ + plus,
    {
        let ghost before = self.limbs@;
        let n: usize = self.limbs.len();
        let mut carry: u32 = plus;
        let mut i: usize = 0;
        proof {
            assert(weight(0) == 1 && sum_of(before, 0) == 0 && sum_of(self.limbs@, 0) == 0);
            assert(factor * 0 == 0);
            assert(carry * 1 == carry);
        }
        while i < n
            invariant
                i <= n,
                n == before.len(),
                self.limbs@.len() == n,
                forall|k: int| i <= k < n ==> self.limbs@[k] == before[k],
                sum_of(self.limbs@, i as nat) + carry * weight(i as nat) == factor * sum_of(
                    before,
                    i as nat,
                ) + plus,
            decreases n - i,
        {
            let ghost done = self.limbs@;
            let limb: u32 = self.limbs[i];
            assert(limb * factor <= 0xffff_ffff * 0xffff_ffff) by (nonlinear_arith)
                requires
                    0 <= limb <= 0xffff_ffff,
                    0 <= factor <= 0xffff_ffff,
            ;
            let product: u64 = limb as u64 * factor as u64 + carry as u64;
            let low: u32 = (product % LIMB) as u32;
            let high: u32 = (product / LIMB) as u32;
            self.limbs.set(i, low);
            proof {
                lemma_sum_same(self.limbs@, done, i as nat);
                let w = weight(i as nat) as int;
                let s = sum_of(before, i as nat) as int;
                let t = sum_of(done, i as nat) as int;
                assert(limb_at(self.limbs@, i as int) == low);
                assert(limb_at(before, i as int) == limb);
                assert(product == low + 0x1_0000_0000 * high);
                assert(weight((i + 1) as nat) == 0x1_0000_0000 * w);
                assert(t + low * w + high * (0x1_0000_0000 * w) == factor * (s + limb * w) + plus)
                    by (nonlinear_arith)
                    requires
                        t + carry * w == factor * s + plus,
                        limb * factor + carry == low + 0x1_0000_0000 * high,
                ;
            }
            carry = high;
            i = i + 1;
        }
        if carry != 0 {
            let ghost done = self.limbs@;
            self.limbs.push(carry);
            proof {
                lemma_sum_same(self.limbs@, done, n as nat);
                assert(limb_at(self.limbs@, n as int) == carry);
            }
        } else {
            assert(0 * weight(n as nat) == 0);
        }
    }

    /// Whether this number is less than another.
    pub fn is_less(&self, other: &Big) -> (less: bool)
        ensures
            less == (self@ < other@),
    {
        let mut less: bool = false;
        let mut i: usize = 0;
        while i < self.limbs.len() || i < other.limbs.len()
            invariant
                i <= self.limbs@.len() || i <= other.limbs@.len(),
                less == (sum_of(self.limbs@, i as nat) < sum_of(other.limbs@, i as nat)),
            decreases self.limbs@.len() + other.limbs@.len() - i,
        {
            let a: u32 = self.limb(i);
            let b: u32 = other.limb(i);
            proof {
                lemma_sum_bound(self.limbs@, i as nat);
                lemma_sum_bound(other.limbs@, i as nat);
                let w = weight(i as nat) as int;
                let s = sum_of(self.limbs@, i as nat) as int;
                let t = sum_of(other.limbs@, i as nat) as int;
                assert(a < b ==> s + a * w < t + b * w) by (nonlinear_arith)
                    requires
                        0 <= s < w,
                        0 <= t < w,
                ;
                assert(b < a ==> t + b * w < s + a * w) by (nonlinear_arith)
                    requires
                        0 <= s < w,
                        0 <= t < w,
                ;
            }
            if a < b {
                less = true;
            } else if b < a {
                less = false;
            }
            i = i + 1;
        }
        proof {
            lemma_sum_all(self.limbs@, i as nat);
            lemma_sum_all(other.limbs@, i as nat);
        }
        less
    }

    /// The sum of this number and another.
    pub fn plus(&self, other: &Big) -> (sum: Big)
        ensures
            sum@ == self@ + other@,
    {
        let mut limbs: Vec<u32> = Vec::new();
        let mut carry: u32 = 0;
        let mut i: usize = 0;
        assert(0 * weight(0) == 0);
        while i < self.limbs.len() || i < other.limbs.len()
            invariant
                i <= self.limbs@.len() || i <= other.limbs@.len(),
                limbs@.len() == i,
                carry <= 1,
                sum_of(limbs@, i as nat) + carry * weight(i as nat) == sum_of(self.limbs@, i as nat)
                    + sum_of(other.limbs@, i as nat),
            decreases self.limbs@.len() + other.limbs@.len() - i,
        {
            let ghost done = limbs@;
            let a: u32 = self.limb(i);
            let b: u32 = other.limb(i);
            let total: u64 = a as u64 + b as u64 + carry as u64;
            let low: u32 = (total % LIMB) as u32;
            let high: u32 = (total / LIMB) as u32;
            limbs.push(low);
            proof {
                lemma_sum_same(limbs@, done, i as nat);
                let w = weight(i as nat) as int;
                let s = sum_of(self.limbs@, i as nat) as int;
                let o = sum_of(other.limbs@, i as nat) as int;
                let t = sum_of(done, i as nat) as int;
                assert(limb_at(limbs@, i as int) == low);
                assert(weight((i + 1) as nat) == 0x1_0000_0000 * w);
                assert(t + low * w + high * (0x1_0000_0000 * w) == s + a * w + (o + b * w))
                    by (nonlinear_arith)
                    requires
                        t + carry * w == s + o,
                        a + b + carry == low + 0x1_0000_0000 * high,
                ;
            }
            carry = high;
            i = i + 1;
        }
        proof {
            lemma_sum_all(self.limbs@, i as nat);
            lemma_sum_all(other.limbs@, i as nat);
        }
        let ghost done = limbs@;
        limbs.push(carry);
        proof {
            lemma_sum_same(limbs@, done, i as nat);
            assert(limb_at(limbs@, i as int) == carry);
        }
        Big { limbs }
    }

    /// Takes another number off this one.
    pub fn take_off(&mut self, other: &Big)
        requires
            other@ <= old(self)@,
        ensures
            final(self)@ == old(self)@ - other@,
    {
        let ghost before = self.limbs@;
        let mut limbs: Vec<u32> = Vec::new();
        let mut borrow: u32 = 0;
        let mut i: usize = 0;
        assert(0 * weight(0) == 0);
        while i < self.limbs.len() || i < other.limbs.len()
            invariant
                i <= self.limbs@.len() || i <= other.limbs@.len(),
                self.limbs@ == before,
                limbs@.len() == i,
                borrow <= 1,
                sum_of(limbs@, i as nat) + sum_of(other.limbs@, i as nat) == sum_of(
                    before,
                    i as nat,
                ) + borrow * weight(i as nat),
            decreases self.limbs@.len() + other.limbs@.len() - i,
        {
            let ghost done = limbs@;
            let a: u32 = self.limb(i);
            let b: u32 = other.limb(i);
            let total: u64 = LIMB + a as u64 - b as u64 - borrow as u64;
            let low: u32 = (total % LIMB) as u32;
            let next: u32 = if total < LIMB {
                1
            } else {
                0
            };
            limbs.push(low);
            proof {
                lemma_sum_same(limbs@, done, i as nat);
                let w = weight(i as nat) as int;
                let s = sum_of(before, i as nat) as int;
                let o = sum_of(other.limbs@, i as nat) as int;
                let t = sum_of(done, i as nat) as int;
                assert(limb_at(limbs@, i as int) == low);
                assert(weight((i + 1) as nat) == 0x1_0000_0000 * w);
                assert(low + b + borrow == a + 0x1_0000_0000 * next);
                assert(t + low * w + (o + b * w) == s + a * w + next * (0x1_0000_0000 * w))
                    by (nonlinear_arith)
                    requires
                        t + o == s + borrow * w,
                        low + b + borrow == a + 0x1_0000_0000 * next,
                ;
            }
            borrow = next;
            i = i + 1;
        }
        proof {
            lemma_sum_all(before, i as nat);
            lemma_sum_all(other.limbs@, i as nat);
            lemma_sum_bound(limbs@, i as nat);
            let w = weight(i as nat) as int;
            assert(borrow * w >= w || borrow == 0) by (nonlinear_arith)
                requires
                    0 <= borrow,
                    w >= 0,
            ;
            assert(0 * w == 0);
        }
        self.limbs = limbs;
    }
}

} // verus!

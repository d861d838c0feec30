use vstd::prelude::*;
use vstd::arithmetic::power::pow;

verus! {

/// The base of the number system: one more than the largest limb.
pub const LIMB_BASE: u128 = 0x1_0000_0000_0000_0000;

/// `LIMB_BASE` to the power `k`.
pub open spec fn base_pow(k: nat) -> nat
    decreases k,
{
    if k == 0 {
        1
    } else {
        LIMB_BASE as nat * base_pow((k - 1) as nat)
    }
}

/// The limb at position `i`; zero beyond the last limb.
pub open spec fn limb_at(limbs: Seq<u64>, i: int) -> nat {
    if 0 <= i < limbs.len() {
        limbs[i] as nat
    } else {
        0
    }
}

/// The number that the first `k` limbs denote, least significant limb first.
pub open spec fn value_upto(limbs: Seq<u64>, k: nat) -> nat
    decreases k,
{
    if k == 0 {
        0
    } else {
        value_upto(limbs, (k - 1) as nat) + limb_at(limbs, k - 1) * base_pow((k - 1) as nat)
    }
}

proof fn lemma_value_agrees(s: Seq<u64>, t: Seq<u64>, k: nat)
    requires
        forall|j: int| 0 <= j < k ==> limb_at(s, j) == limb_at(t, j),
    ensures
        value_upto(s, k) == value_upto(t, k),
    decreases k,
{
    if k > 0 {
        lemma_value_agrees(s, t, (k - 1) as nat);
    }
}

proof fn lemma_value_below_base_pow(s: Seq<u64>, k: nat)
    ensures
        value_upto(s, k) < base_pow(k),
    decreases k,
{
    if k > 0 {
        lemma_value_below_base_pow(s, (k - 1) as nat);
        let low = value_upto(s, (k - 1) as nat);
        let limb = limb_at(s, k - 1);
        let unit = base_pow((k - 1) as nat);
        assert(low + limb * unit < 0x1_0000_0000_0000_0000 * unit) by (nonlinear_arith)
            requires
                low < unit,
                limb <= 0xFFFF_FFFF_FFFF_FFFF,
        ;
    }
}

proof fn lemma_value_ignores_padding(s: Seq<u64>, k: nat)
    requires
        k >= s.len(),
    ensures
        value_upto(s, k) == value_upto(s, s.len()),
    decreases k,
{
    if k > s.len() {
        lemma_value_ignores_padding(s, (k - 1) as nat);
        assert(limb_at(s, k - 1) * base_pow((k - 1) as nat) == 0) by (nonlinear_arith)
            requires
                limb_at(s, k - 1) == 0,
        ;
    }
}

/// A natural number of any size.
pub struct BigNat {
    limbs: Vec<u64>,
}

impl View for BigNat {
    type V = nat;

    closed spec fn view(&self) -> nat {
        value_upto(self.limbs@, self.limbs@.len())
    }
}

impl BigNat {
    /// The number `value`.
    pub fn from_u64(value: u64) -> (number: BigNat)
        ensures
            number@ == value,
    {
        let mut limbs: Vec<u64> = Vec::new();
        limbs.push(value);
        proof {
            assert(limbs@.len() == 1);
            assert(value_upto(limbs@, 0) == 0);
            assert(base_pow(0) == 1);
            assert(value_upto(limbs@, 1) == value_upto(limbs@, 0) + limb_at(limbs@, 0) * base_pow(
                0,
            ));
        }
        BigNat { limbs }
    }

    /// The product of this number and `factor`.
    pub fn mul_small(&self, factor: u64) -> (product: BigNat)
        ensures
            product@ == self@ * factor,
    {
        let n: usize = self.limbs.len();
        let mut out: Vec<u64> = Vec::new();
        let mut carry: u64 = 0;
        let mut i: usize = 0;
        assert(0 * base_pow(0) == 0);
        assert(0 * factor == 0);
        while i < n
            invariant
                i <= n,
                n == self.limbs.len(),
                out.len() == i,
                value_upto(out@, i as nat) + carry * base_pow(i as nat) == value_upto(
                    self.limbs@,
                    i as nat,
                ) * factor,
            decreases n - i,
        {
            let limb: u64 = self.limbs[i];
            assert(limb * factor + carry <= 0xFFFF_FFFF_FFFF_FFFF_FFFF_FFFF_FFFF_FFFF)
                by (nonlinear_arith)
                requires
                    limb <= 0xFFFF_FFFF_FFFF_FFFF,
                    factor <= 0xFFFF_FFFF_FFFF_FFFF,
                    carry <= 0xFFFF_FFFF_FFFF_FFFF,
            ;
            let wide: u128 = (limb as u128) * (factor as u128) + (carry as u128);
            let low: u64 = (wide % LIMB_BASE) as u64;
            let high: u64 = (wide / LIMB_BASE) as u64;
            let ghost before = out@;
            out.push(low);
            proof {
                lemma_value_agrees(before, out@, i as nat);
                let unit = base_pow(i as nat);
                let done = value_upto(self.limbs@, i as nat);
                let written = value_upto(before, i as nat);
                assert(limb_at(out@, i as int) == low);
                assert(limb_at(self.limbs@, i as int) == limb);
                assert(base_pow((i + 1) as nat) == 0x1_0000_0000_0000_0000 * unit);
                assert(written + low * unit + high * (0x1_0000_0000_0000_0000 * unit) == (done
                    + limb * unit) * factor) by (nonlinear_arith)
                    requires
                        written + carry * unit == done * factor,
                        low + high * 0x1_0000_0000_0000_0000 == limb * factor + carry,
                ;
            }
            carry = high;
            i += 1;
        }
        let ghost before = out@;
        out.push(carry);
        proof {
            lemma_value_agrees(before, out@, n as nat);
            assert(limb_at(out@, n as int) == carry);
        }
        BigNat { limbs: out }
    }

    /// Whether this number is at most `other`.
    pub fn le(&self, other: &BigNat) -> (b: bool)
        ensures
            b == (self@ <= other@),
    {
        let n: usize = if self.limbs.len() > other.limbs.len() {
            self.limbs.len()
        } else {
            other.limbs.len()
        };
        proof {
            lemma_value_ignores_padding(self.limbs@, n as nat);
            lemma_value_ignores_padding(other.limbs@, n as nat);
        }
        let mut i: usize = n;
        while i > 0
            invariant
                i <= n,
                self@ == value_upto(self.limbs@, n as nat),
                other@ == value_upto(other.limbs@, n as nat),
                value_upto(self.limbs@, n as nat) - value_upto(self.limbs@, i as nat)
                    == value_upto(other.limbs@, n as nat) - value_upto(other.limbs@, i as nat),
            decreases i,
        {
            let x: u64 = if i - 1 < self.limbs.len() {
                self.limbs[i - 1]
            } else {
                0
            };
            let y: u64 = if i - 1 < other.limbs.len() {
                other.limbs[i - 1]
            } else {
                0
            };
            proof {
                lemma_value_below_base_pow(self.limbs@, (i - 1) as nat);
                lemma_value_below_base_pow(other.limbs@, (i - 1) as nat);
                assert(x == limb_at(self.limbs@, i - 1));
                assert(y == limb_at(other.limbs@, i - 1));
            }
            let ghost unit = base_pow((i - 1) as nat);
            if x < y {
                assert((x + 1) * unit <= y * unit) by (nonlinear_arith)
                    requires
                        x + 1 <= y,
                ;
                assert((x + 1) * unit == x * unit + unit) by (nonlinear_arith);
                return true;
            }
            if x > y {
                assert((y + 1) * unit <= x * unit) by (nonlinear_arith)
                    requires
                        y + 1 <= x,
                ;
                assert((y + 1) * unit == y * unit + unit) by (nonlinear_arith);
                return false;
            }
            i -= 1;
        }
        true
    }

    /// `base` to the power `exponent`.
    pub fn pow_of(base: u64, exponent: u32) -> (power: BigNat)
        ensures
            power@ == pow(base as int, exponent as nat),
    {
        let mut power = BigNat::from_u64(1);
        let mut k: u32 = 0;
        assert(pow(base as int, 0) == 1) by {
            reveal(pow);
        }
        while k < exponent
            invariant
                k <= exponent,
                power@ == pow(base as int, k as nat),
            decreases exponent - k,
        {
            power = power.mul_small(base);
            assert(pow(base as int, (k + 1) as nat) == base * pow(base as int, k as nat)) by {
                reveal(pow);
            }
            assert(pow(base as int, k as nat) * base == base * pow(base as int, k as nat))
                by (nonlinear_arith);
            k += 1;
        }
        power
    }
}

} // verus!

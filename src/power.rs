//! A 256-bit unsigned stake amount, held as four little-endian 64-bit limbs.
use alloy_primitives::U256;
use vstd::prelude::*;

verus! {

/// The base of one limb, 2^64.
pub open spec fn limb() -> nat {
    0x1_0000_0000_0000_0000
}

/// A 256-bit unsigned integer; `limbs[0]` is the least significant limb.
#[derive(Debug, Clone, Copy)]
pub struct Power {
    pub limbs: [u64; 4],
}

impl Power {
    /// The integer this value stands for.
    pub open spec fn value(self) -> nat {
        self.limbs@[0] as nat + limb() * (self.limbs@[1] as nat + limb() * (self.limbs@[2] as nat
            + limb() * self.limbs@[3] as nat))
    }

    pub fn zero() -> (r: Power)
        ensures
            r.value() == 0,
    {
        Power { limbs: [0, 0, 0, 0] }
    }

    pub fn from_u64(v: u64) -> (r: Power)
        ensures
            r.value() == v,
    {
        Power { limbs: [v, 0, 0, 0] }
    }

    /// The value as a `u64`, when it fits.
    pub fn to_u64(&self) -> (r: Option<u64>)
        ensures
            self.value() < limb() ==> r == Some(self.value() as u64),
            self.value() >= limb() ==> r is None,
    {
        if self.limbs[1] == 0 && self.limbs[2] == 0 && self.limbs[3] == 0 {
            Some(self.limbs[0])
        } else {
            proof {
                let a = self.limbs@[1] as nat;
                let b = self.limbs@[2] as nat;
                let c = self.limbs@[3] as nat;
                let hi = a + limb() * (b + limb() * c);
                assert(hi >= 1);
                assert(limb() * hi >= limb()) by (nonlinear_arith)
                    requires
                        hi >= 1,
                ;
            }
            None
        }
    }
}

/// Relies on `Uint`'s `<` (ruint, behind alloy_primitives::U256): the numeric
/// order of the two values; `from_limbs` reads the limbs least significant first.
#[verifier::external_body]
pub(crate) fn power_lt(a: &Power, b: &Power) -> (r: bool)
    ensures
        r == (a.value() < b.value()),
{
    U256::from_limbs(a.limbs) < U256::from_limbs(b.limbs)
}

/// Relies on `Uint`'s `/` (ruint, behind alloy_primitives::U256): division
/// truncated toward zero, which panics only on a zero divisor.
#[verifier::external_body]
pub(crate) fn power_div(a: &Power, d: u64) -> (r: Power)
    requires
        d > 0,
    ensures
        r.value() == a.value() / (d as nat),
{
    Power { limbs: *(U256::from_limbs(a.limbs) / U256::from(d)).as_limbs() }
}

} // verus!

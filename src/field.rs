//! The BabyBear prime field, `p = 15 * 2^27 + 1`, held as canonical `u32` residues.

use vstd::prelude::*;

verus! {

/// The field characteristic.
pub const P: u32 = 2013265921;

/// A field element, stored as its canonical residue in `[0, P)`.
#[derive(Clone, Copy, Debug, PartialEq, Eq, Structural, Hash)]
pub struct BabyBear {
    pub v: u32,
}

/// Field addition on canonical residues.
pub open spec fn f_add(a: int, b: int) -> int {
    (a + b) % (P as int)
}

/// Field subtraction on canonical residues.
pub open spec fn f_sub(a: int, b: int) -> int {
    (a - b) % (P as int)
}

/// Field multiplication on canonical residues.
pub open spec fn f_mul(a: int, b: int) -> int {
    (a * b) % (P as int)
}

/// Field negation on canonical residues.
pub open spec fn f_neg(a: int) -> int {
    (0 - a) % (P as int)
}

impl BabyBear {
    /// The element is in canonical form.
    pub open spec fn wf(self) -> bool {
        self.v < P
    }

    /// The residue that the element stands for.
    pub open spec fn val(self) -> int {
        self.v as int
    }

    pub fn zero() -> (r: BabyBear)
        ensures
            r.wf(),
            r.val() == 0,
    {
        BabyBear { v: 0 }
    }

    pub fn one() -> (r: BabyBear)
        ensures
            r.wf(),
            r.val() == 1,
    {
        BabyBear { v: 1 }
    }

    /// The element `v mod P`.
    pub fn from_u32(v: u32) -> (r: BabyBear)
        ensures
            r.wf(),
            r.val() == v as int % (P as int),
    {
        BabyBear { v: v % P }
    }

    /// The element `v mod P`, from a 64-bit integer.
    pub fn from_u64(v: u64) -> (r: BabyBear)
        ensures
            r.wf(),
            r.val() == v as int % (P as int),
    {
        BabyBear { v: (v % (P as u64)) as u32 }
    }

    pub fn is_zero(&self) -> (r: bool)
        ensures
            r == (self.val() == 0),
    {
        self.v == 0
    }

    pub fn is_one(&self) -> (r: bool)
        ensures
            r == (self.val() == 1),
    {
        self.v == 1
    }

    pub fn add(self, o: BabyBear) -> (r: BabyBear)
        requires
            self.wf(),
            o.wf(),
        ensures
            r.wf(),
            r.val() == f_add(self.val(), o.val()),
    {
        let s: u64 = self.v as u64 + o.v as u64;
        BabyBear { v: (s % (P as u64)) as u32 }
    }

    pub fn sub(self, o: BabyBear) -> (r: BabyBear)
        requires
            self.wf(),
            o.wf(),
        ensures
            r.wf(),
            r.val() == f_sub(self.val(), o.val()),
    {
        let s: u64 = self.v as u64 + P as u64 - o.v as u64;
        let r = BabyBear { v: (s % (P as u64)) as u32 };
        assert(r.val() == f_sub(self.val(), o.val())) by {
            lemma_shift_mod(self.v as int - o.v as int, P as int);
        }
        r
    }

    pub fn neg(self) -> (r: BabyBear)
        requires
            self.wf(),
        ensures
            r.wf(),
            r.val() == f_neg(self.val()),
    {
        let r = BabyBear::zero().sub(self);
        r
    }

    pub fn mul(self, o: BabyBear) -> (r: BabyBear)
        requires
            self.wf(),
            o.wf(),
        ensures
            r.wf(),
            r.val() == f_mul(self.val(), o.val()),
    {
        let a: u64 = self.v as u64;
        let b: u64 = o.v as u64;
        assert(a * b < 0x1_0000_0000_0000_0000) by (nonlinear_arith)
            requires
                a < 0x1_0000_0000,
                b < 0x1_0000_0000,
        ;
        let s: u64 = a * b;
        BabyBear { v: (s % (P as u64)) as u32 }
    }
}

/// Adding the modulus does not change a residue.
proof fn lemma_shift_mod(x: int, m: int)
    requires
        m > 0,
    ensures
        (x + m) % m == x % m,
{
    vstd::arithmetic::div_mod::lemma_mod_add_multiples_vanish(x, m);
}

} // verus!

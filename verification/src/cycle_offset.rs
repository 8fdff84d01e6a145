//! Offsets measured in clock cycles, precise up to a quarter of a cycle.
use vstd::prelude::*;

verus! {

/// The offset within a single clock cycle. A cycle is divided into four quarters.
#[derive(Debug, Clone, Copy, PartialEq, Eq, PartialOrd, Ord, Structural)]
pub enum InCycleOffset {
    /// 0/4
    Begin,
    /// 1/4
    Quarter,
    /// 2/4
    Half,
    /// 3/4
    ThreeQuarter,
}

/// The cycle offset within multiple clock cycles. This is precise up to a quarter of a cycle.
///
/// The derived ordering compares the cycle index first and the in-cycle offset second, which is
/// the order of [`CycleOffset::quarters`].
#[derive(Debug, Clone, Copy, PartialEq, Eq, PartialOrd, Ord, Structural)]
pub struct CycleOffset {
    index: u32,
    in_offset: InCycleOffset,
}

/// The in-cycle offset that stands for `q` quarters, taken modulo a full cycle.
pub open spec fn offset_of_quarters(q: nat) -> InCycleOffset {
    if q % 4 == 0 {
        InCycleOffset::Begin
    } else if q % 4 == 1 {
        InCycleOffset::Quarter
    } else if q % 4 == 2 {
        InCycleOffset::Half
    } else {
        InCycleOffset::ThreeQuarter
    }
}

/// `round(quarters * width / 4)`, where a half rounds away from zero.
pub open spec fn rounded_quarter_width(quarters: nat, width: nat) -> nat {
    (quarters * width + 2) / 4
}

impl InCycleOffset {
    /// The number of quarters this offset stands for.
    pub open spec fn quarters(self) -> nat {
        match self {
            InCycleOffset::Begin => 0,
            InCycleOffset::Quarter => 1,
            InCycleOffset::Half => 2,
            InCycleOffset::ThreeQuarter => 3,
        }
    }

    /// Get the width, knowing that a cycle is `width` units wide.
    ///
    /// The result is `quarters * width / 4` rounded to the nearest integer, halves rounded up.
    pub fn width_offset(self, width: u32) -> (r: u32)
        ensures
            r == rounded_quarter_width(self.quarters(), width as nat),
            r <= width,
    {
        let w = width as u64;
        let q: u64 = match self {
            InCycleOffset::Begin => 0,
            InCycleOffset::Quarter => 1,
            InCycleOffset::Half => 2,
            InCycleOffset::ThreeQuarter => 3,
        };
        if q == 0 {
            return 0;
        }
        assert(q * w <= 3 * w) by (nonlinear_arith)
            requires
                q <= 3,
        ;
        let r = (q * w + 2) / 4;
        assert(r <= w) by (nonlinear_arith)
            requires
                r == (q * w + 2) / 4,
                q <= 3,
        ;
        r as u32
    }
}

impl CycleOffset {
    /// The total number of quarter cycles of this offset.
    pub closed spec fn quarters(self) -> nat {
        4 * (self.index as nat) + self.in_offset.quarters()
    }

    /// The offset with `q` quarters in total. Only meaningful when the index fits in a `u32`.
    pub closed spec fn from_quarters(q: nat) -> CycleOffset {
        CycleOffset { index: (q / 4) as u32, in_offset: offset_of_quarters(q) }
    }

    /// Does an offset of `q` quarters have a cycle index that fits in a `u32`?
    pub open spec fn quarters_fit(q: nat) -> bool {
        q / 4 <= u32::MAX
    }

    /// The cycle index of the offset.
    pub open spec fn index_of(self) -> nat {
        self.quarters() / 4
    }

    /// The in-cycle offset of the offset.
    pub open spec fn offset_of(self) -> InCycleOffset {
        offset_of_quarters(self.quarters())
    }

    /// The sum of two offsets, in quarters.
    pub open spec fn plus(self, rhs: CycleOffset) -> CycleOffset {
        CycleOffset::from_quarters(self.quarters() + rhs.quarters())
    }

    /// Every offset fits: its index is a `u32`.
    pub proof fn lemma_fits(self)
        ensures
            CycleOffset::quarters_fit(self.quarters()),
            self.index_of() <= u32::MAX,
            self.offset_of().quarters() == self.quarters() % 4,
    {
    }

    /// The quarter count determines the offset.
    pub proof fn lemma_quarters_injective(a: CycleOffset, b: CycleOffset)
        requires
            a.quarters() == b.quarters(),
        ensures
            a == b,
    {
    }

    /// An offset built from `q` quarters has `q` quarters, when the index fits.
    pub proof fn lemma_from_quarters(q: nat)
        requires
            CycleOffset::quarters_fit(q),
        ensures
            CycleOffset::from_quarters(q).quarters() == q,
    {
    }

    /// Create a new [`CycleOffset`] with a cycle `index` and an in-cycle offset `in_offset`.
    pub fn new(index: u32, in_offset: InCycleOffset) -> (r: CycleOffset)
        ensures
            r.quarters() == 4 * (index as nat) + in_offset.quarters(),
            r.index_of() == index,
            r.offset_of() == in_offset,
    {
        CycleOffset { index, in_offset }
    }

    /// Create a new [`CycleOffset`] that is rounded to a cycle `index`.
    pub fn new_rounded(index: u32) -> (r: CycleOffset)
        ensures
            r.quarters() == 4 * (index as nat),
            r.index_of() == index,
            r.offset_of() == InCycleOffset::Begin,
    {
        CycleOffset { index, in_offset: InCycleOffset::Begin }
    }

    /// The offset of `quarters` quarter cycles.
    pub fn from_quarter_count(quarters: u32) -> (r: CycleOffset)
        ensures
            r.quarters() == quarters,
    {
        let in_offset = match quarters % 4 {
            0 => InCycleOffset::Begin,
            1 => InCycleOffset::Quarter,
            2 => InCycleOffset::Half,
            _ => InCycleOffset::ThreeQuarter,
        };
        CycleOffset { index: quarters / 4, in_offset }
    }

    /// The offset at the very start: zero quarters.
    pub fn zero() -> (r: CycleOffset)
        ensures
            r.quarters() == 0,
    {
        CycleOffset { index: 0, in_offset: InCycleOffset::Begin }
    }

    /// The number of cycles that the offset spans, rounded up.
    pub fn cycle_width(self) -> (r: u32)
        requires
            self.index_of() < u32::MAX || self.offset_of() == InCycleOffset::Begin,
        ensures
            r as int == (self.quarters() + 3) / 4,
    {
        self.ceil_num_cycles()
    }

    /// Get the ceiled value of the number of cycles that the [`CycleOffset`] spans.
    pub fn ceil_num_cycles(self) -> (r: u32)
        requires
            self.index_of() < u32::MAX || self.offset_of() == InCycleOffset::Begin,
        ensures
            r as int == (self.quarters() + 3) / 4,
    {
        match self.in_offset {
            InCycleOffset::Begin => self.index,
            _ => self.index + 1,
        }
    }

    /// Get the cycle index of the [`CycleOffset`].
    pub fn cycle_index(self) -> (r: u32)
        ensures
            r == self.index_of(),
    {
        self.index
    }

    /// Get the in-cycle offset of the [`CycleOffset`].
    pub fn in_cycle_offset(self) -> (r: InCycleOffset)
        ensures
            r == self.offset_of(),
    {
        self.in_offset
    }

    /// Get the width, knowing that a cycle is `width` units wide.
    pub fn width_offset(self, width: u32) -> (r: u32)
        requires
            self.index_of() * width + rounded_quarter_width(self.quarters() % 4, width as nat)
                <= u32::MAX,
        ensures
            r == self.index_of() * width + rounded_quarter_width(self.quarters() % 4, width as nat),
    {
        let part = self.in_offset.width_offset(width);
        assert(self.index as nat * width as nat <= u32::MAX) by (nonlinear_arith)
            requires
                self.index as nat * width as nat + part <= u32::MAX,
        ;
        width * self.index + part
    }

    /// Half the [`CycleOffset`], rounded down to a quarter.
    pub fn half(&self) -> (r: CycleOffset)
        ensures
            r.quarters() == self.quarters() / 2,
    {
        let in_offset = if self.index % 2 == 0 {
            match self.in_offset {
                InCycleOffset::Begin | InCycleOffset::Quarter => InCycleOffset::Begin,
                InCycleOffset::Half | InCycleOffset::ThreeQuarter => InCycleOffset::Quarter,
            }
        } else {
            match self.in_offset {
                InCycleOffset::Begin | InCycleOffset::Quarter => InCycleOffset::Half,
                InCycleOffset::Half | InCycleOffset::ThreeQuarter => InCycleOffset::ThreeQuarter,
            }
        };
        CycleOffset::new(self.index / 2, in_offset)
    }

    /// Add two offsets. The quarters of the sum are the sum of the quarters.
    pub fn add(self, rhs: CycleOffset) -> (r: CycleOffset)
        requires
            CycleOffset::quarters_fit(self.quarters() + rhs.quarters()),
        ensures
            r.quarters() == self.quarters() + rhs.quarters(),
            r == self.plus(rhs),
    {
        let (in_offset, carry): (InCycleOffset, u32) = match (self.in_offset, rhs.in_offset) {
            (x, InCycleOffset::Begin) => (x, 0),
            (InCycleOffset::Begin, x) => (x, 0),
            (InCycleOffset::Quarter, InCycleOffset::Quarter) => (InCycleOffset::Half, 0),
            (InCycleOffset::Quarter, InCycleOffset::Half)
            | (InCycleOffset::Half, InCycleOffset::Quarter) => (InCycleOffset::ThreeQuarter, 0),
            (InCycleOffset::Half, InCycleOffset::Half)
            | (InCycleOffset::Quarter, InCycleOffset::ThreeQuarter)
            | (InCycleOffset::ThreeQuarter, InCycleOffset::Quarter) => (InCycleOffset::Begin, 1),
            (InCycleOffset::Half, InCycleOffset::ThreeQuarter)
            | (InCycleOffset::ThreeQuarter, InCycleOffset::Half) => (InCycleOffset::Quarter, 1),
            (InCycleOffset::ThreeQuarter, InCycleOffset::ThreeQuarter) => (InCycleOffset::Half, 1),
        };
        let index = self.index + rhs.index + carry;
        let r = CycleOffset { index, in_offset };
        proof {
            CycleOffset::lemma_from_quarters(self.quarters() + rhs.quarters());
            CycleOffset::lemma_quarters_injective(r, self.plus(rhs));
        }
        r
    }

    /// Add an offset to this offset in place.
    pub fn add_assign(&mut self, rhs: CycleOffset)
        requires
            CycleOffset::quarters_fit(old(self).quarters() + rhs.quarters()),
        ensures
            final(self).quarters() == old(self).quarters() + rhs.quarters(),
    {
        *self = self.add(rhs);
    }

    /// Adding offsets is commutative.
    pub proof fn lemma_add_commutative(a: CycleOffset, b: CycleOffset)
        ensures
            a.plus(b) == b.plus(a),
    {
    }

    /// Adding offsets is associative, when the sums fit.
    pub proof fn lemma_add_associative(a: CycleOffset, b: CycleOffset, c: CycleOffset)
        requires
            CycleOffset::quarters_fit(a.quarters() + b.quarters() + c.quarters()),
        ensures
            a.plus(b).plus(c) == a.plus(b.plus(c)),
    {
        CycleOffset::lemma_from_quarters(a.quarters() + b.quarters());
        CycleOffset::lemma_from_quarters(b.quarters() + c.quarters());
    }

    /// The zero offset is neutral for addition.
    pub proof fn lemma_add_zero(a: CycleOffset)
        ensures
            a.plus(CycleOffset::from_quarters(0)) == a,
    {
        CycleOffset::lemma_quarters_injective(a.plus(CycleOffset::from_quarters(0)), a);
    }

    /// Halving an offset that was doubled by adding it to itself gives back the offset.
    pub proof fn lemma_half_of_double(a: CycleOffset)
        requires
            CycleOffset::quarters_fit(2 * a.quarters()),
        ensures
            a.plus(a).quarters() / 2 == a.quarters(),
    {
        CycleOffset::lemma_from_quarters(a.quarters() + a.quarters());
    }
}

impl Default for CycleOffset {
    fn default() -> (r: CycleOffset)
        ensures
            r.quarters() == 0,
    {
        CycleOffset::zero()
    }
}

impl Default for InCycleOffset {
    fn default() -> (r: InCycleOffset)
        ensures
            r == InCycleOffset::Begin,
    {
        InCycleOffset::Begin
    }
}

} // verus!

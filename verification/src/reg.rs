//! Register figures: the fields of a register laid out in lanes of bits.
use vstd::prelude::*;

use crate::wavejson::{RegFieldString, RegItem, RegItemAttribute, RegJson};

verus! {

/// The text of a field: a string or a binary value.
#[derive(Debug)]
pub enum FieldString {
    Text(String),
    Binary(u64),
}

/// A range of bits of a lane: a field with an optional name, its attributes, its length in bits
/// and its variant (its color).
#[derive(Debug)]
pub struct LaneBitRange {
    name: Option<FieldString>,
    attributes: Vec<FieldString>,
    length: u32,
    variant: u32,
}

/// A lane of a register figure: its bit ranges, the bit it starts at and its width in bits.
#[derive(Debug)]
pub struct Lane {
    bit_ranges: Vec<LaneBitRange>,
    start_bit: u32,
    width: u32,
}

/// A register figure: its lanes, with an optional vertical and horizontal spacing.
#[derive(Debug)]
pub struct RegisterFigure {
    lanes: Vec<Lane>,
    vspace: Option<u32>,
    hspace: Option<u32>,
}

/// A copy of a field text.
fn copy_field(f: &FieldString) -> (r: FieldString)
    ensures
        r == *f,
{
    match f {
        FieldString::Text(s) => FieldString::Text(s.clone()),
        FieldString::Binary(b) => FieldString::Binary(*b),
    }
}

/// A copy of a list of field texts.
fn copy_fields(fs: &Vec<FieldString>) -> (r: Vec<FieldString>)
    ensures
        r@ == fs@,
{
    let mut out: Vec<FieldString> = Vec::new();
    let mut i: usize = 0;
    while i < fs.len()
        invariant
            i <= fs@.len(),
            out@ == fs@.subrange(0, i as int),
        decreases fs@.len() - i,
    {
        out.push(copy_field(&fs[i]));
        i = i + 1;
        assert(out@ =~= fs@.subrange(0, i as int));
    }
    assert(out@ =~= fs@);
    out
}

impl LaneBitRange {
    /// The name of the field.
    pub closed spec fn spec_name(&self) -> Option<FieldString> {
        self.name
    }

    /// The attributes of the field.
    pub closed spec fn spec_attributes(&self) -> Seq<FieldString> {
        self.attributes@
    }

    /// The length of the range in bits.
    pub closed spec fn spec_length(&self) -> u32 {
        self.length
    }

    /// The variant of the field.
    pub closed spec fn spec_variant(&self) -> u32 {
        self.variant
    }

    /// Create a range from all its parts.
    pub fn with(name: Option<FieldString>, attributes: Vec<FieldString>, length: u32, variant: u32) -> (r:
        LaneBitRange)
        ensures
            r.spec_name() == name,
            r.spec_attributes() == attributes@,
            r.spec_length() == length,
            r.spec_variant() == variant,
    {
        LaneBitRange { name, attributes, length, variant }
    }

    /// Create an unnamed range of `length` bits of variant zero.
    pub fn new(length: u32) -> (r: LaneBitRange)
        ensures
            r.spec_name().is_none(),
            r.spec_attributes().len() == 0,
            r.spec_length() == length,
            r.spec_variant() == 0,
    {
        LaneBitRange { name: None, attributes: Vec::new(), length, variant: 0 }
    }

    /// Create a padding range of `length` bits: unnamed, of variant zero.
    pub fn new_padding(length: u32) -> (r: LaneBitRange)
        ensures
            r.spec_name().is_none(),
            r.spec_attributes().len() == 0,
            r.spec_length() == length,
            r.spec_variant() == 0,
    {
        LaneBitRange { name: None, attributes: Vec::new(), length, variant: 0 }
    }

    /// The name of the field.
    pub fn name(&self) -> (r: &Option<FieldString>)
        ensures
            *r == self.spec_name(),
    {
        &self.name
    }

    /// The attributes of the field.
    pub fn attributes(&self) -> (r: &[FieldString])
        ensures
            r@ == self.spec_attributes(),
    {
        self.attributes.as_slice()
    }

    /// The length of the range in bits.
    pub fn length(&self) -> (r: u32)
        ensures
            r == self.spec_length(),
    {
        self.length
    }

    /// The variant of the field.
    pub fn variant(&self) -> (r: u32)
        ensures
            r == self.spec_variant(),
    {
        self.variant
    }
}

impl Lane {
    /// The ranges of the lane.
    pub closed spec fn spec_ranges(&self) -> Seq<LaneBitRange> {
        self.bit_ranges@
    }

    /// The bit the lane starts at.
    pub closed spec fn spec_start_bit(&self) -> u32 {
        self.start_bit
    }

    /// The width of the lane in bits.
    pub closed spec fn spec_width(&self) -> u32 {
        self.width
    }

    /// An empty lane, starting at bit zero.
    pub fn new() -> (r: Lane)
        ensures
            r.spec_ranges().len() == 0,
            r.spec_start_bit() == 0,
            r.spec_width() == 0,
    {
        Lane { bit_ranges: Vec::new(), start_bit: 0, width: 0 }
    }

    /// A lane of `width` bits of padding, starting at bit zero.
    pub fn padded(width: u32) -> (r: Lane)
        ensures
            r.spec_ranges().len() == 0,
            r.spec_start_bit() == 0,
            r.spec_width() == width,
    {
        Lane { bit_ranges: Vec::new(), start_bit: 0, width }
    }

    /// Is the lane zero bits wide?
    pub fn is_empty(&self) -> (r: bool)
        ensures
            r == (self.spec_width() == 0),
    {
        self.width == 0
    }

    /// The lane widened by `padding` bits.
    pub fn pad(self, padding: u32) -> (r: Lane)
        requires
            self.spec_width() + padding <= u32::MAX,
        ensures
            r.spec_ranges() == self.spec_ranges(),
            r.spec_start_bit() == self.spec_start_bit(),
            r.spec_width() == self.spec_width() + padding,
    {
        let mut lane = self;
        lane.width = lane.width + padding;
        lane
    }

    /// The lane starting at `start_bit`.
    pub fn start_bit(self, start_bit: u32) -> (r: Lane)
        ensures
            r.spec_ranges() == self.spec_ranges(),
            r.spec_start_bit() == start_bit,
            r.spec_width() == self.spec_width(),
    {
        let mut lane = self;
        lane.start_bit = start_bit;
        lane
    }

    /// The lane with `bit_range` added at its end.
    pub fn add(self, bit_range: LaneBitRange) -> (r: Lane)
        requires
            self.spec_width() + bit_range.spec_length() <= u32::MAX,
        ensures
            r.spec_ranges() == self.spec_ranges().push(bit_range),
            r.spec_start_bit() == self.spec_start_bit(),
            r.spec_width() == self.spec_width() + bit_range.spec_length(),
    {
        let mut lane = self;
        lane.width = lane.width + bit_range.length;
        lane.bit_ranges.push(bit_range);
        lane
    }

    /// The ranges of the lane.
    pub fn bit_ranges(&self) -> (r: &[LaneBitRange])
        ensures
            r@ == self.spec_ranges(),
    {
        self.bit_ranges.as_slice()
    }

    /// The bit the lane starts at.
    pub fn get_start_bit(&self) -> (r: u32)
        ensures
            r == self.spec_start_bit(),
    {
        self.start_bit
    }

    /// The width of the lane in bits.
    pub fn width(&self) -> (r: u32)
        ensures
            r == self.spec_width(),
    {
        self.width
    }
}

impl Default for Lane {
    fn default() -> (r: Lane)
        ensures
            r.spec_ranges().len() == 0,
            r.spec_start_bit() == 0,
            r.spec_width() == 0,
    {
        Lane::new()
    }
}

impl RegisterFigure {
    /// The lanes of the figure.
    pub closed spec fn spec_lanes(&self) -> Seq<Lane> {
        self.lanes@
    }

    /// The vertical spacing of the figure.
    pub closed spec fn spec_vspace(&self) -> Option<u32> {
        self.vspace
    }

    /// The horizontal spacing of the figure.
    pub closed spec fn spec_hspace(&self) -> Option<u32> {
        self.hspace
    }

    /// Create a figure of `lanes`.
    pub fn with(lanes: Vec<Lane>) -> (r: RegisterFigure)
        ensures
            r.spec_lanes() == lanes@,
            r.spec_vspace().is_none(),
            r.spec_hspace().is_none(),
    {
        RegisterFigure { lanes, vspace: None, hspace: None }
    }

    /// The figure with a vertical spacing of `vspace`.
    pub fn vspace(self, vspace: u32) -> (r: RegisterFigure)
        ensures
            r.spec_lanes() == self.spec_lanes(),
            r.spec_vspace() == Some(vspace),
            r.spec_hspace() == self.spec_hspace(),
    {
        RegisterFigure { lanes: self.lanes, vspace: Some(vspace), hspace: self.hspace }
    }

    /// The figure with a horizontal spacing of `hspace`.
    pub fn hspace(self, hspace: u32) -> (r: RegisterFigure)
        ensures
            r.spec_lanes() == self.spec_lanes(),
            r.spec_vspace() == self.spec_vspace(),
            r.spec_hspace() == Some(hspace),
    {
        RegisterFigure { lanes: self.lanes, vspace: self.vspace, hspace: Some(hspace) }
    }

    /// The lanes of the figure.
    pub fn lanes(&self) -> (r: &[Lane])
        ensures
            r@ == self.spec_lanes(),
    {
        self.lanes.as_slice()
    }

    /// The vertical spacing of the figure.
    pub fn get_vspace(&self) -> (r: Option<u32>)
        ensures
            r == self.spec_vspace(),
    {
        self.vspace
    }

    /// The horizontal spacing of the figure.
    pub fn get_hspace(&self) -> (r: Option<u32>)
        ensures
            r == self.spec_hspace(),
    {
        self.hspace
    }
}

/// The field text of a JSON field text.
pub open spec fn field_of(r: RegFieldString) -> FieldString {
    match r {
        RegFieldString::Text(s) => FieldString::Text(s),
        RegFieldString::Binary(b) => FieldString::Binary(b),
    }
}

/// The attributes of a JSON field: none, one or several.
pub open spec fn attributes_of(a: Option<RegItemAttribute>) -> Seq<FieldString> {
    match a {
        None => seq![],
        Some(RegItemAttribute::One(s)) => seq![field_of(s)],
        Some(RegItemAttribute::Multiple(v)) => v@.map_values(|s: RegFieldString| field_of(s)),
    }
}

/// Is `r` the range of `length` bits of the JSON field `item`: its name, attributes and
/// variant (zero when it has none)?
pub open spec fn range_of_item(r: LaneBitRange, item: RegItem, length: nat) -> bool {
    &&& r.spec_name() == match item.name {
        Some(n) => Some(field_of(n)),
        None => None,
    }
    &&& r.spec_attributes() == attributes_of(item.attr)
    &&& r.spec_length() == length
    &&& r.spec_variant() == match item.variant {
        Some(v) => v,
        None => 0u32,
    }
}

/// The number of bits of the first `k` fields.
pub open spec fn bits_sum(items: Seq<RegItem>, k: int) -> nat
    decreases k,
{
    if k <= 0 {
        0
    } else {
        bits_sum(items, k - 1) + items[k - 1].bits as nat
    }
}

/// The number of lanes of a register figure: as configured, at least one.
pub open spec fn reg_lanes(v: RegJson) -> nat {
    match v.config {
        Some(c) => match c.lanes {
            Some(l) => if l == 0 {
                1
            } else {
                l as nat
            },
            None => 1,
        },
        None => 1,
    }
}

/// The number of bits of a register figure: as configured, or the bits of all fields.
pub open spec fn reg_bits(v: RegJson) -> nat {
    match v.config {
        Some(c) => match c.bits {
            Some(b) => b as nat,
            None => bits_sum(v.reg@, v.reg@.len() as int),
        },
        None => bits_sum(v.reg@, v.reg@.len() as int),
    }
}

/// Are the lanes of a register figure flipped vertically?
pub open spec fn reg_vflip(v: RegJson) -> bool {
    match v.config {
        Some(c) => match c.vflip {
            Some(f) => f,
            None => false,
        },
        None => false,
    }
}

/// The number of bits of each lane when `n` bits are spread over `l` lanes: `n / l` rounded up,
/// and one when there are more lanes than bits.
pub open spec fn bits_per_lane(n: nat, l: nat) -> nat {
    if l > n {
        1
    } else if n % l == 0 {
        n / l
    } else {
        n / l + 1
    }
}

/// The smaller of two numbers.
pub open spec fn min_nat(a: nat, b: nat) -> nat {
    if a <= b {
        a
    } else {
        b
    }
}

/// A lane as its ranges (each a length and the index of its field), its start bit and width.
pub type LaneModel = (Seq<(nat, nat)>, nat, nat);

/// The state of spreading fields over lanes: the full lanes, the current lane, the bits placed
/// in the figure and the bits placed in the current lane.
pub type SplitState = (Seq<LaneModel>, LaneModel, nat, nat);

/// The state after placing `u` more bits of field `k`, with lanes of `bpl` bits and `n` bits in
/// all. Each step places as many bits as fit both the current lane and the figure; the current
/// lane is closed when the field did not fit in it, or when it was full before the step, unless
/// the figure is full.
pub open spec fn fill_item(st: SplitState, u: nat, k: nat, bpl: nat, n: nat) -> SplitState
    decreases 2 * u + if st.3 == bpl {
        1nat
    } else {
        0nat
    },
{
    let lanes = st.0;
    let cur = st.1;
    let fa = st.2;
    let la = st.3;
    if u == 0 || fa >= n || la > bpl || bpl == 0 {
        st
    } else {
        let b = min_nat(min_nat(u, (bpl - la) as nat), (n - fa) as nat);
        let split = b != u;
        let full = la == bpl;
        let cur2 = (cur.0.push((b, k)), cur.1, cur.2 + b);
        let fa2 = fa + b;
        let la2 = la + b;
        if fa2 == n {
            (lanes, cur2, fa2, la2)
        } else if split || full {
            fill_item(
                (lanes.push(cur2), (seq![], (lanes.len() + 1) * bpl, 0), fa2, 0),
                (u - b) as nat,
                k,
                bpl,
                n,
            )
        } else {
            fill_item((lanes, cur2, fa2, la2), (u - b) as nat, k, bpl, n)
        }
    }
}

/// The state after placing the fields `items`; once the figure is full, fields are left out.
pub open spec fn fill_items(st: SplitState, items: Seq<RegItem>, bpl: nat, n: nat) -> SplitState
    decreases items.len(),
{
    if items.len() == 0 {
        st
    } else {
        let st2 = fill_items(st, items.drop_last(), bpl, n);
        if st2.2 == n {
            st2
        } else {
            fill_item(st2, items.last().bits as nat, (items.len() - 1) as nat, bpl, n)
        }
    }
}

/// `lanes` followed by padding lanes of `bpl` bits until there are `l` lanes.
pub open spec fn pad_lanes(lanes: Seq<LaneModel>, l: nat, bpl: nat) -> Seq<LaneModel>
    decreases l - lanes.len(),
{
    if lanes.len() >= l {
        lanes
    } else {
        pad_lanes(lanes.push((seq![], lanes.len() * bpl, bpl)), l, bpl)
    }
}

/// The lanes of a register figure of `n` bits over `l` lanes, once all fields were placed:
/// the current lane padded to a full lane when it holds bits, then padding lanes.
pub open spec fn finish_lanes(st: SplitState, l: nat, bpl: nat) -> Seq<LaneModel> {
    if st.0.len() == l {
        st.0
    } else {
        let lanes = if st.3 != 0 {
            st.0.push((st.1.0, st.1.1, (st.1.2 + (bpl - st.3)) as nat))
        } else {
            st.0
        };
        pad_lanes(lanes, l, bpl)
    }
}

/// The lanes of a register figure before any flip.
pub open spec fn reg_lane_models(v: RegJson) -> Seq<LaneModel> {
    let n = reg_bits(v);
    let l = reg_lanes(v);
    let items = v.reg@;
    if l == 1 {
        seq![
            (
                Seq::new(
                    items.len(),
                    |k: int|
                        (
                            (min_nat(bits_sum(items, k + 1), n) - min_nat(bits_sum(items, k), n)) as nat,
                            k as nat,
                        ),
                ),
                0,
                n,
            ),
        ]
    } else {
        let bpl = bits_per_lane(n, l);
        finish_lanes(fill_items((seq![], (seq![], 0, 0), 0, 0), items, bpl, n), l, bpl)
    }
}

/// Are `ranges` the ranges `ms` (each a length and a field index) of the fields `items`?
pub open spec fn ranges_match(
    ranges: Seq<LaneBitRange>,
    ms: Seq<(nat, nat)>,
    items: Seq<RegItem>,
) -> bool {
    &&& ranges.len() == ms.len()
    &&& forall|j: int|
        0 <= j < ms.len() ==> (#[trigger] ms[j]).1 < items.len() && range_of_item(
            ranges[j],
            items[ms[j].1 as int],
            ms[j].0,
        )
}

/// Is `lane` the lane `m` of the fields `items`?
pub open spec fn lane_matches(lane: Lane, m: LaneModel, items: Seq<RegItem>) -> bool {
    &&& ranges_match(lane.spec_ranges(), m.0, items)
    &&& lane.spec_start_bit() == m.1
    &&& lane.spec_width() == m.2
}

/// Are `lanes` the lanes `models` of the fields `items`?
pub open spec fn lanes_match(lanes: Seq<Lane>, models: Seq<LaneModel>, items: Seq<RegItem>) -> bool {
    &&& lanes.len() == models.len()
    &&& forall|j: int| 0 <= j < lanes.len() ==> #[trigger] lane_matches(lanes[j], models[j], items)
}

/// Can a register figure be made of `v` without overflow: does its bit count fit a `u32`, and
/// the start bit of its last lane?
pub open spec fn reg_fits(v: RegJson) -> bool {
    let n = reg_bits(v);
    let l = reg_lanes(v);
    &&& n <= u32::MAX
    &&& l > 1 ==> (l - 1) * bits_per_lane(n, l) <= u32::MAX
}

/// The field text of a JSON field text.
fn field_from(r: &RegFieldString) -> (f: FieldString)
    ensures
        f == field_of(*r),
{
    match r {
        RegFieldString::Text(s) => FieldString::Text(s.clone()),
        RegFieldString::Binary(b) => FieldString::Binary(*b),
    }
}

/// The range of `num_bits` bits of the JSON field `item`.
fn create_lane_bitrange(num_bits: u32, item: &RegItem) -> (r: LaneBitRange)
    ensures
        range_of_item(r, *item, num_bits as nat),
{
    let attributes = match &item.attr {
        None => Vec::new(),
        Some(RegItemAttribute::One(s)) => {
            let mut v = Vec::new();
            v.push(field_from(s));
            assert(v@ =~= seq![field_of(*s)]);
            v
        },
        Some(RegItemAttribute::Multiple(strs)) => {
            let mut v: Vec<FieldString> = Vec::new();
            let mut i: usize = 0;
            while i < strs.len()
                invariant
                    i <= strs@.len(),
                    v@ == strs@.subrange(0, i as int).map_values(|s: RegFieldString| field_of(s)),
                decreases strs@.len() - i,
            {
                v.push(field_from(&strs[i]));
                i = i + 1;
                assert(v@ =~= strs@.subrange(0, i as int).map_values(
                    |s: RegFieldString| field_of(s),
                ));
            }
            assert(strs@.subrange(0, strs@.len() as int) =~= strs@);
            v
        },
    };
    assert(attributes@ =~= attributes_of(item.attr));
    let name = match &item.name {
        Some(n) => Some(field_from(n)),
        None => None,
    };
    let variant = match item.variant {
        Some(v) => v,
        None => 0,
    };
    LaneBitRange::with(name, attributes, num_bits, variant)
}

/// Every bit of `n` bits has a lane: `l` lanes of `bits_per_lane(n, l)` bits hold `n` bits.
proof fn lemma_bits_per_lane(n: nat, l: nat)
    requires
        l >= 1,
    ensures
        bits_per_lane(n, l) >= 1 || n == 0,
        n <= l * bits_per_lane(n, l),
        bits_per_lane(n, l) <= n || l > n,
{
    if l > n {
    } else if n % l == 0 {
        assert(n == l * (n / l)) by (nonlinear_arith)
            requires
                l >= 1,
                n % l == 0,
        ;
        assert(n / l <= n) by (nonlinear_arith)
            requires
                l >= 1,
        ;
        assert(n / l >= 1) by (nonlinear_arith)
            requires
                l >= 1,
                l <= n,
        ;
    } else {
        assert(n <= l * (n / l + 1)) by (nonlinear_arith)
            requires
                l >= 1,
        ;
        assert(n / l + 1 <= n) by (nonlinear_arith)
            requires
                l >= 1,
                l <= n,
                n % l != 0,
        ;
    }
}

impl RegisterFigure {
    /// The lanes of a register figure of a JSON document, laid out with `n` bits in one lane.
    fn single_lane(items: &Vec<RegItem>, n: u32) -> (r: Lane)
        ensures
            lane_matches(
                r,
                (
                    Seq::new(
                        items@.len(),
                        |k: int|
                            (
                                (min_nat(bits_sum(items@, k + 1), n as nat) - min_nat(
                                    bits_sum(items@, k),
                                    n as nat,
                                )) as nat,
                                k as nat,
                            ),
                    ),
                    0,
                    n as nat,
                ),
                items@,
            ),
    {
        let mut lane = Lane::new();
        let mut allocated: u64 = 0;
        let mut i: usize = 0;
        while i < items.len()
            invariant
                i <= items@.len(),
                allocated == min_nat(bits_sum(items@, i as int), n as nat),
                lane.spec_ranges().len() == i,
                lane.spec_start_bit() == 0,
                lane.spec_width() == allocated,
                forall|j: int|
                    0 <= j < i ==> #[trigger] range_of_item(
                        lane.spec_ranges()[j],
                        items@[j],
                        (min_nat(bits_sum(items@, j + 1), n as nat) - min_nat(
                            bits_sum(items@, j),
                            n as nat,
                        )) as nat,
                    ),
            decreases items@.len() - i,
        {
            let item = &items[i];
            let bits: u64 = if allocated + (item.bits as u64) > n as u64 {
                n as u64 - allocated
            } else {
                item.bits as u64
            };
            let ghost old_ranges = lane.spec_ranges();
            allocated = allocated + bits;
            lane = lane.add(create_lane_bitrange(bits as u32, item));
            assert forall|j: int| 0 <= j < i + 1 implies #[trigger] range_of_item(
                lane.spec_ranges()[j],
                items@[j],
                (min_nat(bits_sum(items@, j + 1), n as nat) - min_nat(bits_sum(items@, j), n as nat))
                    as nat,
            ) by {
                if j < i {
                    assert(lane.spec_ranges()[j] == old_ranges[j]);
                }
            }
            i = i + 1;
        }
        let ghost ranges = lane.spec_ranges();
        if allocated != n as u64 {
            lane = lane.pad(n - allocated as u32);
        }
        let ghost m = Seq::new(
            items@.len(),
            |k: int|
                (
                    (min_nat(bits_sum(items@, k + 1), n as nat) - min_nat(bits_sum(items@, k), n as nat))
                        as nat,
                    k as nat,
                ),
        );
        assert forall|j: int| 0 <= j < m.len() implies m[j].1 < items@.len() && #[trigger] range_of_item(
            lane.spec_ranges()[j],
            items@[m[j].1 as int],
            m[j].0,
        ) by {
            assert(range_of_item(ranges[j], items@[j], m[j].0));
        }
        lane
    }
}

/// Do the full lanes `lanes` and the current lane `lane` stand for the state `g`, whose full
/// lanes all hold `bpl` bits?
pub open spec fn split_matches(
    lanes: Seq<Lane>,
    lane: Lane,
    g: SplitState,
    items: Seq<RegItem>,
    bpl: nat,
) -> bool {
    &&& lanes_match(lanes, g.0, items)
    &&& lane_matches(lane, g.1, items)
    &&& forall|j: int| 0 <= j < g.0.len() ==> (#[trigger] g.0[j]).2 == bpl && g.0[j].1 == j * bpl
    &&& g.1.1 == g.0.len() * bpl
    &&& g.1.2 == g.3
    &&& g.0.len() * bpl + g.3 == g.2
}

impl RegisterFigure {
    /// The lanes of a register figure of a JSON document, laid out with `n` bits over `l > 1`
    /// lanes of `bpl` bits.
    fn multi_lane(items: &Vec<RegItem>, n: u32, l: u32, bpl: u32) -> (r: Vec<Lane>)
        requires
            l > 1,
            bpl == bits_per_lane(n as nat, l as nat),
            (l - 1) * bpl <= u32::MAX,
        ensures
            lanes_match(
                r@,
                finish_lanes(
                    fill_items((seq![], (seq![], 0, 0), 0, 0), items@, bpl as nat, n as nat),
                    l as nat,
                    bpl as nat,
                ),
                items@,
            ),
            r@.len() == l,
            forall|j: int|
                0 <= j < r@.len() ==> (#[trigger] r@[j]).spec_width() == bpl && r@[j].spec_start_bit()
                    == j * bpl,
    {
        proof {
            lemma_bits_per_lane(n as nat, l as nat);
        }
        let ghost nn = n as nat;
        let ghost bb = bpl as nat;
        let ghost init: SplitState = (seq![], (seq![], 0nat, 0nat), 0nat, 0nat);
        let mut lanes: Vec<Lane> = Vec::new();
        let mut lane = Lane::new();
        let mut fa: u32 = 0;
        let mut la: u32 = 0;
        let ghost mut g: SplitState = init;
        let mut i: usize = 0;
        while i < items.len()
            invariant
                i <= items@.len(),
                l > 1,
                bpl >= 1,
                n <= l * bpl,
                (l - 1) * bpl <= u32::MAX,
                nn == n,
                bb == bpl,
                g == fill_items(
                    (seq![], (seq![], 0nat, 0nat), 0nat, 0nat),
                    items@.subrange(0, i as int),
                    bb,
                    nn,
                ),
                split_matches(lanes@, lane, g, items@, bb),
                fa == g.2,
                la == g.3,
                la <= bpl,
                fa <= n,
                lanes@.len() < l,
                la == 0 && lanes@.len() > 0 ==> fa < n,
            decreases items@.len() - i,
        {
            let ghost pre = items@.subrange(0, i as int);
            let ghost next = items@.subrange(0, i + 1);
            assert(next.drop_last() =~= pre);
            assert(next.last() == items@[i as int]);
            if fa != n {
                let item = &items[i];
                let mut u = item.bits;
                let ghost target = fill_item(g, u as nat, i as nat, bb, nn);
                let mut done = false;
                while u != 0 && !done
                    invariant
                        l > 1,
                        bpl >= 1,
                        n <= l * bpl,
                        (l - 1) * bpl <= u32::MAX,
                        nn == n,
                        bb == bpl,
                        i < items@.len(),
                        *item == items@[i as int],
                        done ==> g == target,
                        !done ==> fill_item(g, u as nat, i as nat, bb, nn) == target,
                        !done ==> fa < n,
                        split_matches(lanes@, lane, g, items@, bb),
                        fa == g.2,
                        la == g.3,
                        la <= bpl,
                        fa <= n,
                        lanes@.len() < l,
                        la == 0 && lanes@.len() > 0 ==> fa < n,
                    decreases 2 * u + if la == bpl {
                        1int
                    } else {
                        0int
                    },
                {
                    let b1 = if u < bpl - la {
                        u
                    } else {
                        bpl - la
                    };
                    let b = if b1 < n - fa {
                        b1
                    } else {
                        n - fa
                    };
                    let split = b != u;
                    let full = la == bpl;
                    let ghost old_g = g;
                    let ghost old_lane = lane;
                    let ghost old_ranges = lane.spec_ranges();
                    let range = create_lane_bitrange(b, item);
                    assert(range_of_item(range, items@[i as int], b as nat));
                    assert(lane_matches(old_lane, old_g.1, items@));
                    lane = lane.add(range);
                    u = u - b;
                    la = la + b;
                    fa = fa + b;
                    let ghost cur2: LaneModel = (old_g.1.0.push((b as nat, i as nat)), old_g.1.1, (old_g.1.2 + b) as nat);
                    proof {
                        g = (old_g.0, cur2, fa as nat, la as nat);
                        lemma_add_range(old_lane, lane, old_g.1, items@, range, b as nat, i as nat);
                    }
                    if fa == n {
                        done = true;
                    } else if split || full {
                        proof {
                            assert(la == bpl);
                        }
                        let ghost old_lanes = lanes@;
                        lanes.push(lane);
                        proof {
                            assert((old_lanes.len() + 1) * bpl == old_lanes.len() * bpl + bpl)
                                by (nonlinear_arith);
                            assert(lanes@.len() <= l - 1) by (nonlinear_arith)
                                requires
                                    lanes@.len() * bpl <= fa,
                                    fa < n,
                                    n <= l * bpl,
                                    bpl >= 1,
                            ;
                            assert(lanes@.len() * bpl <= (l - 1) * bpl) by (nonlinear_arith)
                                requires
                                    lanes@.len() <= l - 1,
                                    bpl >= 1,
                            ;
                        }
                        lane = Lane::new().start_bit((lanes.len() as u32) * bpl);
                        la = 0;
                        proof {
                            g = (old_g.0.push(cur2), (seq![], (old_g.0.len() + 1) * bb, 0), fa as nat, 0);
                            assert forall|j: int| 0 <= j < lanes@.len() implies #[trigger] lane_matches(
                                lanes@[j],
                                g.0[j],
                                items@,
                            ) by {
                                if j < old_lanes.len() {
                                    assert(lanes@[j] == old_lanes[j]);
                                }
                            }
                        }
                    }
                }
            }
            i = i + 1;
        }
        assert(items@.subrange(0, items@.len() as int) =~= items@);
        let ghost fin = g;
        let ghost mut final_models: Seq<LaneModel> = fin.0;
        if lanes.len() as u32 != l {
            let ghost before = lanes@;
            if la != 0 {
                let ghost old_lane = lane;
                assert(lane_matches(old_lane, fin.1, items@));
                lane = lane.pad(bpl - la);
                assert(lane.spec_ranges() == old_lane.spec_ranges());
                lanes.push(lane);
                proof {
                    lemma_pad_lane(old_lane, lane, fin.1, items@, (bb - fin.3) as nat);
                    let ms = fin.0.push((fin.1.0, fin.1.1, (fin.1.2 + (bb - fin.3)) as nat));
                    assert forall|j: int| 0 <= j < lanes@.len() implies #[trigger] lane_matches(
                        lanes@[j],
                        ms[j],
                        items@,
                    ) by {
                        if j < before.len() {
                            assert(lanes@[j] == before[j]);
                            assert(ms[j] == fin.0[j]);
                        } else {
                            assert(lanes@[j] == lane);
                        }
                    }
                }
            }
            let ghost padded_from = lanes@;
            let ghost models = if fin.3 != 0 {
                fin.0.push((fin.1.0, fin.1.1, (fin.1.2 + (bb - fin.3)) as nat))
            } else {
                fin.0
            };
            assert(lanes_match(lanes@, models, items@));
            proof {
                if lanes@.len() > l {
                    assert(false) by (nonlinear_arith)
                        requires
                            lanes@.len() > l,
                            before.len() * bpl + la == fa,
                            fa <= n,
                            n <= l * bpl,
                            bpl >= 1,
                            lanes@.len() == before.len() + if la != 0 {
                                1int
                            } else {
                                0int
                            },
                            la == 0 && before.len() > 0 ==> fa < n,
                    ;
                }
            }
            let ghost mut models_cur = models;
            while (lanes.len() as u32) < l
                invariant
                    lanes@.len() <= l,
                    (l - 1) * bpl <= u32::MAX,
                    bb == bpl,
                    pad_lanes(models_cur, l as nat, bb) == pad_lanes(models, l as nat, bb),
                    lanes_match(lanes@, models_cur, items@),
                    forall|j: int|
                        0 <= j < models_cur.len() ==> (#[trigger] models_cur[j]).2 == bb
                            && models_cur[j].1 == j * bb,
                decreases l - lanes@.len(),
            {
                let ghost old_lanes = lanes@;
                proof {
                    assert(lanes@.len() * bpl <= (l - 1) * bpl) by (nonlinear_arith)
                        requires
                            lanes@.len() <= l - 1,
                    ;
                }
                let start = (lanes.len() as u32) * bpl;
                lanes.push(Lane::padded(bpl).start_bit(start));
                proof {
                    let m = (Seq::<(nat, nat)>::empty(), old_lanes.len() * bb, bb);
                    assert(pad_lanes(models_cur, l as nat, bb) == pad_lanes(
                        models_cur.push(m),
                        l as nat,
                        bb,
                    ));
                    models_cur = models_cur.push(m);
                    assert forall|j: int| 0 <= j < lanes@.len() implies #[trigger] lane_matches(
                        lanes@[j],
                        models_cur[j],
                        items@,
                    ) by {
                        if j < old_lanes.len() {
                            assert(lanes@[j] == old_lanes[j]);
                        }
                    }
                }
            }
            assert(pad_lanes(models_cur, l as nat, bb) == models_cur);
            proof {
                final_models = models_cur;
            }
        }
        proof {
            assert forall|j: int| 0 <= j < lanes@.len() implies (#[trigger] lanes@[j]).spec_width()
                == bpl && lanes@[j].spec_start_bit() == j * bpl by {
                assert(lane_matches(lanes@[j], final_models[j], items@));
            }
        }
        lanes
    }
}

/// A lane with one more range stands for its model with one more range.
proof fn lemma_add_range(
    old_lane: Lane,
    lane: Lane,
    m: LaneModel,
    items: Seq<RegItem>,
    range: LaneBitRange,
    b: nat,
    k: nat,
)
    requires
        lane_matches(old_lane, m, items),
        lane.spec_ranges() == old_lane.spec_ranges().push(range),
        lane.spec_start_bit() == old_lane.spec_start_bit(),
        lane.spec_width() == old_lane.spec_width() + b,
        k < items.len(),
        range_of_item(range, items[k as int], b),
    ensures
        lane_matches(lane, (m.0.push((b, k)), m.1, m.2 + b), items),
{
    let m2 = m.0.push((b, k));
    assert forall|j: int| 0 <= j < m2.len() implies (#[trigger] m2[j]).1 < items.len()
        && range_of_item(lane.spec_ranges()[j], items[m2[j].1 as int], m2[j].0) by {
        if j < m.0.len() {
            assert(m.0[j].1 < items.len());
            assert(lane.spec_ranges()[j] == old_lane.spec_ranges()[j]);
            assert(m2[j] == m.0[j]);
        } else {
            assert(m2[j] == (b, k));
            assert(lane.spec_ranges()[j] == range);
        }
    }
    assert(ranges_match(lane.spec_ranges(), m2, items));
}

/// A padded lane stands for its model padded the same.
proof fn lemma_pad_lane(old_lane: Lane, lane: Lane, m: LaneModel, items: Seq<RegItem>, p: nat)
    requires
        lane_matches(old_lane, m, items),
        lane.spec_ranges() == old_lane.spec_ranges(),
        lane.spec_start_bit() == old_lane.spec_start_bit(),
        lane.spec_width() == old_lane.spec_width() + p,
    ensures
        lane_matches(lane, (m.0, m.1, m.2 + p), items),
{
}

/// The lanes in reverse order.
fn reverse_lanes(lanes: Vec<Lane>) -> (r: Vec<Lane>)
    ensures
        r@ == lanes@.reverse(),
{
    let ghost orig = lanes@;
    let mut rest = lanes;
    let mut out: Vec<Lane> = Vec::new();
    while rest.len() > 0
        invariant
            rest@.len() <= orig.len(),
            rest@ == orig.subrange(0, rest@.len() as int),
            out@ == orig.subrange(rest@.len() as int, orig.len() as int).reverse(),
        decreases rest@.len(),
    {
        let ghost k = rest@.len() as int;
        let ghost before = rest@;
        let popped = rest.pop();
        let x = popped.unwrap();
        assert(x == before.last());
        out.push(x);
        assert(rest@ =~= orig.subrange(0, k - 1));
        assert(out@ =~= orig.subrange(k - 1, orig.len() as int).reverse());
    }
    assert(orig.subrange(0, orig.len() as int) =~= orig);
    out
}

/// The number of bits of all `items`.
fn items_bits(items: &Vec<RegItem>) -> (r: u128)
    ensures
        r == bits_sum(items@, items@.len() as int),
{
    let mut sum: u128 = 0;
    let mut i: usize = 0;
    while i < items.len()
        invariant
            i <= items@.len(),
            sum == bits_sum(items@, i as int),
            sum <= i * 0xffff_ffff,
        decreases items@.len() - i,
    {
        assert(i * 0xffff_ffff + 0xffff_ffff <= 0xffff_ffff_ffff_ffff * 0xffff_ffff) by (
        nonlinear_arith)
            requires
                i < 0xffff_ffff_ffff_ffff,
        ;
        sum = sum + items[i].bits as u128;
        i = i + 1;
    }
    sum
}

impl RegisterFigure {
    /// The register figure of a JSON document.
    ///
    /// The fields are laid out in order over the configured number of lanes (at least one),
    /// holding the configured number of bits (by default, the bits of all fields). With one lane,
    /// each field takes as many of its bits as still fit, and the lane is padded to the full bit
    /// count. With more lanes, each lane holds `bits_per_lane` bits, fields being split over
    /// lanes (see [`fill_items`] and [`finish_lanes`]). The lanes are then reversed when the
    /// configuration flips them vertically.
    pub fn from_json(value: RegJson) -> (r: RegisterFigure)
        requires
            reg_fits(value),
        ensures
            lanes_match(
                if reg_vflip(value) {
                    r.spec_lanes().reverse()
                } else {
                    r.spec_lanes()
                },
                reg_lane_models(value),
                value.reg@,
            ),
            r.spec_vspace() == match value.config {
                Some(c) => c.vspace,
                None => None,
            },
            r.spec_hspace() == match value.config {
                Some(c) => c.hspace,
                None => None,
            },
            r.spec_lanes().len() == reg_lanes(value),
            forall|j: int|
                0 <= j < r.spec_lanes().len() ==> (#[trigger] r.spec_lanes()[j]).spec_width() == if reg_lanes(
                    value,
                ) == 1 {
                    reg_bits(value)
                } else {
                    bits_per_lane(reg_bits(value), reg_lanes(value))
                },
    {
        let l: u32 = match &value.config {
            Some(c) => match c.lanes {
                Some(l) => if l == 0 {
                    1
                } else {
                    l
                },
                None => 1,
            },
            None => 1,
        };
        let configured_bits = match &value.config {
            Some(c) => c.bits,
            None => None,
        };
        let n: u32 = match configured_bits {
            Some(b) => b,
            None => items_bits(&value.reg) as u32,
        };
        assert(n == reg_bits(value));
        assert(l == reg_lanes(value));
        proof {
            lemma_bits_per_lane(n as nat, l as nat);
        }
        let lanes = if l == 1 {
            let lane = RegisterFigure::single_lane(&value.reg, n);
            let mut v = Vec::new();
            v.push(lane);
            proof {
                assert(lanes_match(v@, reg_lane_models(value), value.reg@)) by {
                    assert(v@[0] == lane);
                }
                assert(v@[0] == lane);
            }
            v
        } else {
            let bpl = if l > n {
                1
            } else if n % l == 0 {
                n / l
            } else {
                n / l + 1
            };
            RegisterFigure::multi_lane(&value.reg, n, l, bpl)
        };
        let vflip = match &value.config {
            Some(c) => match c.vflip {
                Some(f) => f,
                None => false,
            },
            None => false,
        };
        let ghost unflipped = lanes@;
        let lanes = if vflip {
            let r = reverse_lanes(lanes);
            assert(r@.reverse() =~= unflipped);
            assert forall|j: int| 0 <= j < r@.len() implies #[trigger] r@[j] == unflipped[
                unflipped.len() - 1 - j] by {}
            r
        } else {
            lanes
        };
        let (vspace, hspace) = match &value.config {
            Some(c) => (c.vspace, c.hspace),
            None => (None, None),
        };
        RegisterFigure { lanes, vspace, hspace }
    }

    /// The register figure of a JSON document (see [`RegisterFigure::from_json`]), or `None`
    /// when its bit count or the start bit of its last lane would not fit a `u32`.
    pub fn try_from_json(value: RegJson) -> (r: Option<RegisterFigure>)
        ensures
            r is Some <==> reg_fits(value),
            r matches Some(f) ==> {
                &&& lanes_match(
                    if reg_vflip(value) {
                        f.spec_lanes().reverse()
                    } else {
                        f.spec_lanes()
                    },
                    reg_lane_models(value),
                    value.reg@,
                )
                &&& f.spec_vspace() == match value.config {
                    Some(c) => c.vspace,
                    None => None,
                }
                &&& f.spec_hspace() == match value.config {
                    Some(c) => c.hspace,
                    None => None,
                }
                &&& f.spec_lanes().len() == reg_lanes(value)
                &&& forall|j: int|
                    0 <= j < f.spec_lanes().len() ==> (#[trigger] f.spec_lanes()[j]).spec_width()
                        == if reg_lanes(value) == 1 {
                        reg_bits(value)
                    } else {
                        bits_per_lane(reg_bits(value), reg_lanes(value))
                    }
            },
    {
        let l: u128 = match &value.config {
            Some(c) => match c.lanes {
                Some(l) => if l == 0 {
                    1
                } else {
                    l as u128
                },
                None => 1,
            },
            None => 1,
        };
        let configured_bits = match &value.config {
            Some(c) => c.bits,
            None => None,
        };
        let n: u128 = match configured_bits {
            Some(b) => b as u128,
            None => items_bits(&value.reg),
        };
        if n > 0xffff_ffff {
            return None;
        }
        if l > 1 {
            let bpl: u128 = if l > n {
                1
            } else if n % l == 0 {
                n / l
            } else {
                n / l + 1
            };
            assert(bpl <= 0xffff_ffff) by (nonlinear_arith)
                requires
                    l > n ==> bpl == 1,
                    l <= n && n % l == 0 ==> bpl == n / l,
                    l <= n && n % l != 0 ==> bpl == n / l + 1,
                    l > 1,
                    n <= 0xffff_ffff,
            ;
            assert((l - 1) * bpl <= 0xffff_ffff * 0xffff_ffff) by (nonlinear_arith)
                requires
                    l - 1 <= 0xffff_ffff,
                    bpl <= 0xffff_ffff,
            ;
            if (l - 1) * bpl > 0xffff_ffff {
                return None;
            }
        }
        Some(RegisterFigure::from_json(value))
    }
}


/// The lanes of a spreading state start one lane width after another.
pub open spec fn lanes_start_in_order(st: SplitState, bpl: nat) -> bool {
    &&& forall|j: int| 0 <= j < st.0.len() ==> (#[trigger] st.0[j]).1 == j * bpl
    &&& st.1.1 == st.0.len() * bpl
}

/// Placing more bits of a field keeps the lanes starting one lane width after another.
proof fn lemma_fill_item_starts(st: SplitState, u: nat, k: nat, bpl: nat, n: nat)
    requires
        lanes_start_in_order(st, bpl),
    ensures
        lanes_start_in_order(fill_item(st, u, k, bpl, n), bpl),
    decreases 2 * u + if st.3 == bpl {
        1nat
    } else {
        0nat
    },
{
    let lanes = st.0;
    let cur = st.1;
    let fa = st.2;
    let la = st.3;
    if u == 0 || fa >= n || la > bpl || bpl == 0 {
    } else {
        let b = min_nat(min_nat(u, (bpl - la) as nat), (n - fa) as nat);
        let split = b != u;
        let full = la == bpl;
        let cur2 = (cur.0.push((b, k)), cur.1, cur.2 + b);
        let fa2 = fa + b;
        let la2 = la + b;
        if fa2 == n {
        } else if split || full {
            let st2: SplitState = (lanes.push(cur2), (seq![], (lanes.len() + 1) * bpl, 0), fa2, 0);
            assert forall|j: int| 0 <= j < st2.0.len() implies (#[trigger] st2.0[j]).1 == j * bpl by {
                if j < lanes.len() {
                    assert(st2.0[j] == lanes[j]);
                }
            }
            lemma_fill_item_starts(st2, (u - b) as nat, k, bpl, n);
        } else {
            lemma_fill_item_starts((lanes, cur2, fa2, la2), (u - b) as nat, k, bpl, n);
        }
    }
}

/// Placing fields keeps the lanes starting one lane width after another.
proof fn lemma_fill_items_starts(st: SplitState, items: Seq<RegItem>, bpl: nat, n: nat)
    requires
        lanes_start_in_order(st, bpl),
    ensures
        lanes_start_in_order(fill_items(st, items, bpl, n), bpl),
    decreases items.len(),
{
    if items.len() > 0 {
        lemma_fill_items_starts(st, items.drop_last(), bpl, n);
        let st2 = fill_items(st, items.drop_last(), bpl, n);
        if st2.2 != n {
            lemma_fill_item_starts(st2, items.last().bits as nat, (items.len() - 1) as nat, bpl, n);
        }
    }
}

/// Padding lanes that start one lane width after another keeps them so.
proof fn lemma_pad_lanes_starts(lanes: Seq<LaneModel>, l: nat, bpl: nat)
    requires
        forall|j: int| 0 <= j < lanes.len() ==> (#[trigger] lanes[j]).1 == j * bpl,
    ensures
        forall|j: int|
            0 <= j < pad_lanes(lanes, l, bpl).len() ==> (#[trigger] pad_lanes(lanes, l, bpl)[j]).1
                == j * bpl,
    decreases l - lanes.len(),
{
    if lanes.len() < l {
        let next = lanes.push((seq![], lanes.len() * bpl, bpl));
        assert forall|j: int| 0 <= j < next.len() implies (#[trigger] next[j]).1 == j * bpl by {
            if j < lanes.len() {
                assert(next[j] == lanes[j]);
            }
        }
        lemma_pad_lanes_starts(next, l, bpl);
        assert(pad_lanes(lanes, l, bpl) == pad_lanes(next, l, bpl));
    }
}

/// The lanes of a register figure of `n` bits over `l` lanes are `ceil(n / l)` bits wide (one
/// bit when there are more lanes than bits, all `n` bits for a single lane), and lane `j`, before
/// any flip, starts at bit `j` times that width.
pub proof fn lemma_lane_closed_form(v: RegJson)
    ensures
        reg_lanes(v) > reg_bits(v) ==> bits_per_lane(reg_bits(v), reg_lanes(v)) == 1,
        reg_lanes(v) <= reg_bits(v) ==> bits_per_lane(reg_bits(v), reg_lanes(v)) == (reg_bits(v)
            + reg_lanes(v) - 1) / (reg_lanes(v) as int),
        forall|j: int|
            0 <= j < reg_lane_models(v).len() ==> (#[trigger] reg_lane_models(v)[j]).1 == j * (
            if reg_lanes(v) == 1 {
                reg_bits(v)
            } else {
                bits_per_lane(reg_bits(v), reg_lanes(v))
            }),
{
    let n = reg_bits(v);
    let l = reg_lanes(v);
    assert(l >= 1);
    if l <= n {
        if n % l == 0 {
            assert((n + l - 1) / (l as int) == n / l) by (nonlinear_arith)
                requires
                    l >= 1,
                    n % l == 0,
            ;
        } else {
            assert((n + l - 1) / (l as int) == n / l + 1) by (nonlinear_arith)
                requires
                    l >= 1,
                    n % l != 0,
            ;
        }
    }
    if l != 1 {
        let bpl = bits_per_lane(n, l);
        let st0: SplitState = (seq![], (seq![], 0, 0), 0, 0);
        lemma_fill_items_starts(st0, v.reg@, bpl, n);
        let st = fill_items(st0, v.reg@, bpl, n);
        assert(reg_lane_models(v) == finish_lanes(st, l, bpl));
        if st.0.len() != l {
            let lanes = if st.3 != 0 {
                st.0.push((st.1.0, st.1.1, (st.1.2 + (bpl - st.3)) as nat))
            } else {
                st.0
            };
            assert forall|j: int| 0 <= j < lanes.len() implies (#[trigger] lanes[j]).1 == j * bpl by {
                if j < st.0.len() {
                    assert(lanes[j] == st.0[j]);
                }
            }
            lemma_pad_lanes_starts(lanes, l, bpl);
            assert(finish_lanes(st, l, bpl) == pad_lanes(lanes, l, bpl));
        }
        assert forall|j: int| 0 <= j < reg_lane_models(v).len() implies (#[trigger] reg_lane_models(
            v,
        )[j]).1 == j * bpl by {}
    } else {
        assert(reg_lane_models(v).len() == 1);
        assert(reg_lane_models(v)[0].1 == 0);
        assert forall|j: int| 0 <= j < reg_lane_models(v).len() implies (#[trigger] reg_lane_models(
            v,
        )[j]).1 == j * n by {
            assert(j == 0);
            assert(0 * n == 0) by (nonlinear_arith);
        }
    }
}

} // verus!

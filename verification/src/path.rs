//! Shaping a signal: turning a sequence of cycle states into path segments.
use vstd::prelude::*;

use crate::cycle_offset::{rounded_quarter_width, CycleOffset, InCycleOffset};
use crate::markers::ClockEdge;

verus! {

/// An arrow marker on a clock edge, at an `x` position of the signal path.
#[derive(Debug, Clone, Copy)]
pub struct ClockEdgeMarker {
    pub x: u32,
    pub edge: ClockEdge,
}

/// The state of a signal during one cycle.
#[derive(Debug, Clone, Copy, PartialEq, Eq, Structural)]
pub enum PathState {
    Top,
    Bottom,
    Middle,
    Box2,
    Box3,
    Box4,
    Box5,
    Box6,
    Box7,
    Box8,
    Box9,
    Data,
    X,
    PosedgeClockUnmarked,
    PosedgeClockMarked,
    NegedgeClockUnmarked,
    NegedgeClockMarked,
    Continue,
    Gap,
    Up,
    Down,
}

/// A command of an SVG path, relative to the current pen position.
#[derive(Debug, Clone, Copy, PartialEq, Eq, Structural)]
pub enum PathCommand {
    LineVertical(i32),
    LineVerticalNoStroke(i32),
    LineHorizontal(i32),
    DashedLineHorizontal(i32),
    Line(i32, i32),
    Curve(i32, i32, i32, i32, i32, i32),
}

/// The background fill of a path segment.
#[derive(Debug, Clone, Copy, PartialEq, Eq, Structural)]
pub enum PathSegmentBackground {
    B2,
    B3,
    B4,
    B5,
    B6,
    B7,
    B8,
    B9,
    Undefined,
}

impl PathState {
    /// A state that is drawn as a box: the data states and the undefined state.
    pub open spec fn is_box(self) -> bool {
        match self {
            PathState::Box2 | PathState::Box3 | PathState::Box4 | PathState::Box5
            | PathState::Box6 | PathState::Box7 | PathState::Box8 | PathState::Box9
            | PathState::Data | PathState::X => true,
            _ => false,
        }
    }

    /// A clock state, which lasts a whole period.
    pub open spec fn is_clock(self) -> bool {
        match self {
            PathState::PosedgeClockUnmarked | PathState::PosedgeClockMarked
            | PathState::NegedgeClockUnmarked | PathState::NegedgeClockMarked => true,
            _ => false,
        }
    }

    /// A state that continues the previous state.
    pub open spec fn is_continuation(self) -> bool {
        self == PathState::Continue || self == PathState::Gap
    }

    /// The background of a segment drawn for this state.
    pub open spec fn spec_background(self) -> Option<PathSegmentBackground> {
        match self {
            PathState::X => Some(PathSegmentBackground::Undefined),
            PathState::Box2 | PathState::Data => Some(PathSegmentBackground::B2),
            PathState::Box3 => Some(PathSegmentBackground::B3),
            PathState::Box4 => Some(PathSegmentBackground::B4),
            PathState::Box5 => Some(PathSegmentBackground::B5),
            PathState::Box6 => Some(PathSegmentBackground::B6),
            PathState::Box7 => Some(PathSegmentBackground::B7),
            PathState::Box8 => Some(PathSegmentBackground::B8),
            PathState::Box9 => Some(PathSegmentBackground::B9),
            _ => None,
        }
    }

    /// The background of a segment drawn for this state.
    pub fn background(self) -> (r: Option<PathSegmentBackground>)
        ensures
            r == self.spec_background(),
    {
        match self {
            PathState::Top | PathState::Bottom | PathState::Middle
            | PathState::NegedgeClockMarked | PathState::NegedgeClockUnmarked
            | PathState::PosedgeClockMarked | PathState::PosedgeClockUnmarked | PathState::Up
            | PathState::Down => None,
            PathState::X => Some(PathSegmentBackground::Undefined),
            PathState::Box2 | PathState::Data => Some(PathSegmentBackground::B2),
            PathState::Box3 => Some(PathSegmentBackground::B3),
            PathState::Box4 => Some(PathSegmentBackground::B4),
            PathState::Box5 => Some(PathSegmentBackground::B5),
            PathState::Box6 => Some(PathSegmentBackground::B6),
            PathState::Box7 => Some(PathSegmentBackground::B7),
            PathState::Box8 => Some(PathSegmentBackground::B8),
            PathState::Box9 => Some(PathSegmentBackground::B9),
            PathState::Continue | PathState::Gap => None,
        }
    }
}

impl PathSegmentBackground {
    /// Does a segment with this background hold a data text?
    pub open spec fn spec_is_data_box(self) -> bool {
        self != PathSegmentBackground::Undefined
    }

    /// Does a segment with this background hold a data text?
    pub fn is_data_box(self) -> (r: bool)
        ensures
            r == self.spec_is_data_box(),
    {
        match self {
            PathSegmentBackground::Undefined => false,
            _ => true,
        }
    }
}

impl PathCommand {
    /// Is this a move that draws no stroke?
    pub open spec fn spec_has_no_stroke(self) -> bool {
        self matches PathCommand::LineVerticalNoStroke(_)
    }

    /// The horizontal displacement of the command.
    pub open spec fn dx(self) -> int {
        match self {
            PathCommand::LineVertical(_) | PathCommand::LineVerticalNoStroke(_) => 0,
            PathCommand::LineHorizontal(dx) | PathCommand::DashedLineHorizontal(dx) => dx as int,
            PathCommand::Line(dx, _) => dx as int,
            PathCommand::Curve(_, _, _, _, dx, _) => dx as int,
        }
    }

    /// The vertical displacement of the command.
    pub open spec fn dy(self) -> int {
        match self {
            PathCommand::LineVertical(dy) | PathCommand::LineVerticalNoStroke(dy) => dy as int,
            PathCommand::LineHorizontal(_) | PathCommand::DashedLineHorizontal(_) => 0,
            PathCommand::Line(_, dy) => dy as int,
            PathCommand::Curve(_, _, _, _, _, dy) => dy as int,
        }
    }

    /// Is this a move that draws no stroke?
    pub fn has_no_stroke(&self) -> (r: bool)
        ensures
            r == self.spec_has_no_stroke(),
    {
        match self {
            PathCommand::LineHorizontal(..) | PathCommand::Line(..) | PathCommand::Curve(..)
            | PathCommand::LineVertical(..) => false,
            PathCommand::DashedLineHorizontal(..) => false,
            PathCommand::LineVerticalNoStroke(..) => true,
        }
    }
}

/// The sign of an integer: -1, 0 or 1.
pub open spec fn signum(v: int) -> int {
    if v < 0 {
        -1
    } else if v == 0 {
        0
    } else {
        1
    }
}

fn i32_signum(v: i32) -> (r: i32)
    ensures
        r == signum(v as int),
{
    if v < 0 {
        -1
    } else if v == 0 {
        0
    } else {
        1
    }
}

/// The actions after adding a horizontal line of `dx` to `actions`: merged into a last
/// horizontal line of the same direction, or appended.
pub open spec fn push_horizontal(actions: Seq<PathCommand>, dx: i32, dashed: bool) -> Seq<
    PathCommand,
> {
    let cmd = if dashed {
        PathCommand::DashedLineHorizontal(dx)
    } else {
        PathCommand::LineHorizontal(dx)
    };
    if actions.len() > 0 {
        match (actions.last(), dashed) {
            (PathCommand::LineHorizontal(last), false) if signum(last as int) == signum(
                dx as int,
            ) => actions.update(
                actions.len() - 1,
                PathCommand::LineHorizontal((last + dx) as i32),
            ),
            (PathCommand::DashedLineHorizontal(last), true) if signum(last as int) == signum(
                dx as int,
            ) => actions.update(
                actions.len() - 1,
                PathCommand::DashedLineHorizontal((last + dx) as i32),
            ),
            _ => actions.push(cmd),
        }
    } else {
        actions.push(cmd)
    }
}

/// A path that is being drawn: a pen position, the position where it started and its commands.
#[derive(Debug, Clone)]
pub struct PathData {
    current_x: i32,
    current_y: i32,
    start_x: i32,
    start_y: i32,
    is_fully_stroked: bool,
    actions: Vec<PathCommand>,
}

/// A path as plain values: the pen position, the start position, whether every command is
/// stroked, and the commands.
pub type PathModel = (int, int, int, int, bool, Seq<PathCommand>);

/// A horizontal line over `dx`, dashed or not (see [`push_horizontal`]).
pub open spec fn pm_hor(m: PathModel, dx: i32, dashed: bool) -> PathModel {
    (m.0 + dx, m.1, m.2, m.3, m.4, push_horizontal(m.5, dx, dashed))
}

/// A straight line over `(dx, dy)`.
pub open spec fn pm_line(m: PathModel, dx: i32, dy: i32) -> PathModel {
    (m.0 + dx, m.1 + dy, m.2, m.3, m.4, m.5.push(PathCommand::Line(dx, dy)))
}

/// A curve to `(dx, dy)` with the control points `(a, b)` and `(c, d)`.
pub open spec fn pm_curve(m: PathModel, a: i32, b: i32, c: i32, d: i32, dx: i32, dy: i32) -> PathModel {
    (m.0 + dx, m.1 + dy, m.2, m.3, m.4, m.5.push(PathCommand::Curve(a, b, c, d, dx, dy)))
}

/// A vertical line over `dy`, stroked or not.
pub open spec fn pm_vert(m: PathModel, dy: i32, stroked: bool) -> PathModel {
    (
        m.0,
        m.1 + dy,
        m.2,
        m.3,
        m.4 && stroked,
        m.5.push(
            if stroked {
                PathCommand::LineVertical(dy)
            } else {
                PathCommand::LineVerticalNoStroke(dy)
            },
        ),
    )
}

/// The path moved by `(x, y)`, what was drawn dropped.
pub open spec fn pm_move(m: PathModel, x: i32, y: i32) -> PathModel {
    (m.0 + x, m.1 + y, m.2 + x, m.3 + y, m.4, Seq::empty())
}

/// A fresh path at `(x, y)`.
pub open spec fn pm_fresh(x: int, y: int) -> PathModel {
    (x, y, x, y, true, Seq::empty())
}

impl PathData {
    /// The path as plain values.
    pub closed spec fn model(self) -> PathModel {
        (
            self.current_x as int,
            self.current_y as int,
            self.start_x as int,
            self.start_y as int,
            self.is_fully_stroked,
            self.actions@,
        )
    }

    /// All positions that the path holds lie in `[-b, b]`, as does the position where its last
    /// horizontal run began.
    pub closed spec fn within(self, b: int) -> bool {
        &&& -b <= self.current_x <= b
        &&& -b <= self.current_y <= b
        &&& -b <= self.start_x <= b
        &&& -b <= self.start_y <= b
        &&& self.actions.len() > 0 ==> match self.actions@.last() {
            PathCommand::LineHorizontal(v) | PathCommand::DashedLineHorizontal(v) => -b
                <= self.current_x - v <= b,
            _ => true,
        }
    }

    fn new(x: i32, y: i32) -> (r: PathData)
        ensures
            r.current_x == x,
            r.current_y == y,
            r.start_x == x,
            r.start_y == y,
            r.is_fully_stroked,
            r.actions@.len() == 0,
            r.model() == pm_fresh(x as int, y as int),
    {
        PathData {
            current_x: x,
            current_y: y,
            start_x: x,
            start_y: y,
            is_fully_stroked: true,
            actions: Vec::new(),
        }
    }

    fn push_horizontal(&mut self, dx: i32, dashed: bool, Ghost(b): Ghost<int>)
        requires
            old(self).within(b),
            2 * b <= i32::MAX,
            -b <= old(self).current_x + dx <= b,
        ensures
            final(self).within(b),
            final(self).current_x == old(self).current_x + dx,
            final(self).current_y == old(self).current_y,
            final(self).start_x == old(self).start_x,
            final(self).start_y == old(self).start_y,
            final(self).is_fully_stroked == old(self).is_fully_stroked,
            final(self).actions@ == push_horizontal(old(self).actions@, dx, dashed),
    {
        self.current_x = self.current_x + dx;
        let n = self.actions.len();
        if n > 0 {
            let last = self.actions[n - 1];
            match last {
                PathCommand::LineHorizontal(v) => {
                    if !dashed && i32_signum(v) == i32_signum(dx) {
                        self.actions.set(n - 1, PathCommand::LineHorizontal(v + dx));
                        return ;
                    }
                },
                PathCommand::DashedLineHorizontal(v) => {
                    if dashed && i32_signum(v) == i32_signum(dx) {
                        self.actions.set(n - 1, PathCommand::DashedLineHorizontal(v + dx));
                        return ;
                    }
                },
                _ => {},
            }
        }
        if dashed {
            self.actions.push(PathCommand::DashedLineHorizontal(dx));
        } else {
            self.actions.push(PathCommand::LineHorizontal(dx));
        }
    }

    fn horizontal_line(&mut self, dx: i32, Ghost(b): Ghost<int>)
        requires
            old(self).within(b),
            2 * b <= i32::MAX,
            -b <= old(self).current_x + dx <= b,
        ensures
            final(self).within(b),
            final(self).current_x == old(self).current_x + dx,
            final(self).current_y == old(self).current_y,
            final(self).start_x == old(self).start_x,
            final(self).start_y == old(self).start_y,
            final(self).is_fully_stroked == old(self).is_fully_stroked,
            final(self).actions@ == push_horizontal(old(self).actions@, dx, false),
            final(self).model() == pm_hor(old(self).model(), dx, false),
    {
        self.push_horizontal(dx, false, Ghost(b));
    }

    fn dashed_horizontal_line(&mut self, dx: i32, Ghost(b): Ghost<int>)
        requires
            old(self).within(b),
            2 * b <= i32::MAX,
            -b <= old(self).current_x + dx <= b,
        ensures
            final(self).within(b),
            final(self).current_x == old(self).current_x + dx,
            final(self).current_y == old(self).current_y,
            final(self).start_x == old(self).start_x,
            final(self).start_y == old(self).start_y,
            final(self).is_fully_stroked == old(self).is_fully_stroked,
            final(self).actions@ == push_horizontal(old(self).actions@, dx, true),
            final(self).model() == pm_hor(old(self).model(), dx, true),
    {
        self.push_horizontal(dx, true, Ghost(b));
    }

    fn line(&mut self, dx: i32, dy: i32, Ghost(b): Ghost<int>)
        requires
            old(self).within(b),
            2 * b <= i32::MAX,
            -b <= old(self).current_x + dx <= b,
            -b <= old(self).current_y + dy <= b,
        ensures
            final(self).within(b),
            final(self).current_x == old(self).current_x + dx,
            final(self).current_y == old(self).current_y + dy,
            final(self).start_x == old(self).start_x,
            final(self).start_y == old(self).start_y,
            final(self).is_fully_stroked == old(self).is_fully_stroked,
            final(self).actions@ == old(self).actions@.push(PathCommand::Line(dx, dy)),
            final(self).model() == pm_line(old(self).model(), dx, dy),
    {
        self.current_x = self.current_x + dx;
        self.current_y = self.current_y + dy;
        self.actions.push(PathCommand::Line(dx, dy));
    }

    fn curve(
        &mut self,
        cdx1: i32,
        cdy1: i32,
        cdx2: i32,
        cdy2: i32,
        dx: i32,
        dy: i32,
        Ghost(b): Ghost<int>,
    )
        requires
            old(self).within(b),
            2 * b <= i32::MAX,
            -b <= old(self).current_x + dx <= b,
            -b <= old(self).current_y + dy <= b,
        ensures
            final(self).within(b),
            final(self).current_x == old(self).current_x + dx,
            final(self).current_y == old(self).current_y + dy,
            final(self).start_x == old(self).start_x,
            final(self).start_y == old(self).start_y,
            final(self).is_fully_stroked == old(self).is_fully_stroked,
            final(self).actions@ == old(self).actions@.push(
                PathCommand::Curve(cdx1, cdy1, cdx2, cdy2, dx, dy),
            ),
            final(self).model() == pm_curve(old(self).model(), cdx1, cdy1, cdx2, cdy2, dx, dy),
    {
        self.current_x = self.current_x + dx;
        self.current_y = self.current_y + dy;
        self.actions.push(PathCommand::Curve(cdx1, cdy1, cdx2, cdy2, dx, dy));
    }

    fn vertical_line_no_stroke(&mut self, dy: i32, Ghost(b): Ghost<int>)
        requires
            old(self).within(b),
            2 * b <= i32::MAX,
            -b <= old(self).current_y + dy <= b,
        ensures
            final(self).within(b),
            final(self).current_x == old(self).current_x,
            final(self).current_y == old(self).current_y + dy,
            final(self).start_x == old(self).start_x,
            final(self).start_y == old(self).start_y,
            !final(self).is_fully_stroked,
            final(self).actions@ == old(self).actions@.push(PathCommand::LineVerticalNoStroke(dy)),
            final(self).model() == pm_vert(old(self).model(), dy, false),
    {
        self.current_y = self.current_y + dy;
        self.is_fully_stroked = false;
        self.actions.push(PathCommand::LineVerticalNoStroke(dy));
    }

    fn vertical_line(&mut self, dy: i32, Ghost(b): Ghost<int>)
        requires
            old(self).within(b),
            2 * b <= i32::MAX,
            -b <= old(self).current_y + dy <= b,
        ensures
            final(self).within(b),
            final(self).current_x == old(self).current_x,
            final(self).current_y == old(self).current_y + dy,
            final(self).start_x == old(self).start_x,
            final(self).start_y == old(self).start_y,
            final(self).is_fully_stroked == old(self).is_fully_stroked,
            final(self).actions@ == old(self).actions@.push(PathCommand::LineVertical(dy)),
            final(self).model() == pm_vert(old(self).model(), dy, true),
    {
        self.current_y = self.current_y + dy;
        self.actions.push(PathCommand::LineVertical(dy));
    }

    /// Take the drawn path out and start a fresh path at `(x, y)`.
    fn take_and_restart_at(&mut self, x: i32, y: i32, Ghost(b): Ghost<int>) -> (taken: PathData)
        requires
            old(self).within(b),
            2 * b <= i32::MAX,
            -b <= x <= b,
            -b <= y <= b,
        ensures
            taken == *old(self),
            final(self).within(b),
            final(self).current_x == x,
            final(self).current_y == y,
            final(self).start_x == x,
            final(self).start_y == y,
            final(self).is_fully_stroked,
            final(self).actions@.len() == 0,
            final(self).model() == pm_fresh(x as int, y as int),
    {
        let mut actions = Vec::new();
        std::mem::swap(&mut actions, &mut self.actions);
        let taken = PathData {
            current_x: self.current_x,
            current_y: self.current_y,
            start_x: self.start_x,
            start_y: self.start_y,
            is_fully_stroked: self.is_fully_stroked,
            actions,
        };
        self.current_x = x;
        self.current_y = y;
        self.start_x = x;
        self.start_y = y;
        self.is_fully_stroked = true;
        taken
    }

    /// Move both the start and the pen of a path by `(x, y)`, dropping what was drawn.
    fn restart_move_to(&mut self, x: i32, y: i32, Ghost(b): Ghost<int>)
        requires
            old(self).within(b),
            2 * b <= i32::MAX,
            -b <= old(self).current_x + x <= b,
            -b <= old(self).current_y + y <= b,
            -b <= old(self).start_x + x <= b,
            -b <= old(self).start_y + y <= b,
        ensures
            final(self).within(b),
            final(self).current_x == old(self).current_x + x,
            final(self).current_y == old(self).current_y + y,
            final(self).start_x == old(self).start_x + x,
            final(self).start_y == old(self).start_y + y,
            final(self).is_fully_stroked == old(self).is_fully_stroked,
            final(self).actions@.len() == 0,
            final(self).model() == pm_move(old(self).model(), x, y),
    {
        self.current_x = self.current_x + x;
        self.current_y = self.current_y + y;
        self.start_x = self.start_x + x;
        self.start_y = self.start_y + y;
        if self.actions.len() != 0 {
            self.actions.clear();
        }
    }
}

} // verus!

verus! {

/// The state in force at position `i` of `states`: a continuation state carries on the last state
/// before it, and a continuation at the very start stands for the undefined state.
pub open spec fn effective_state(states: Seq<PathState>, i: int) -> PathState
    decreases i + 1,
{
    if i < 0 {
        PathState::X
    } else if states[i].is_continuation() {
        effective_state(states, i - 1)
    } else {
        states[i]
    }
}

/// The number of cycles that a (non-continuation) state lasts.
pub open spec fn state_cycles(s: PathState, period: nat) -> nat {
    if s.is_clock() {
        period
    } else {
        1
    }
}

/// The number of cycles that the first `n` states last.
pub open spec fn total_cycles(states: Seq<PathState>, period: nat, n: int) -> nat
    decreases n,
{
    if n <= 0 {
        0
    } else {
        total_cycles(states, period, n - 1) + state_cycles(effective_state(states, n - 1), period)
    }
}

/// The horizontal space that a (non-continuation) state takes, with cycles `width` units wide.
pub open spec fn state_width(s: PathState, width: int, period: int) -> int {
    if s.is_clock() {
        2 * ((width * period) / 2)
    } else {
        width
    }
}

/// The horizontal space that the first `n` states take.
pub open spec fn total_width(states: Seq<PathState>, width: int, period: int, n: int) -> int
    decreases n,
{
    if n <= 0 {
        0
    } else {
        total_width(states, width, period, n - 1) + state_width(
            effective_state(states, n - 1),
            width,
            period,
        )
    }
}

/// Where a clock period spans a whole, even width, the states take their cycle count times the
/// cycle width.
pub proof fn lemma_total_width_of_cycles(states: Seq<PathState>, width: int, period: int, n: int)
    requires
        width >= 0,
        period >= 1,
        (width * period) % 2 == 0,
    ensures
        total_width(states, width, period, n) == width * total_cycles(states, period as nat, n),
    decreases n,
{
    if n > 0 {
        lemma_total_width_of_cycles(states, width, period, n - 1);
        let st = effective_state(states, n - 1);
        let a = total_cycles(states, period as nat, n - 1) as int;
        let b = state_cycles(st, period as nat) as int;
        if st.is_clock() {
            assert(2 * ((width * period) / 2) == width * period) by (nonlinear_arith)
                requires
                    (width * period) % 2 == 0,
            ;
            assert(b == period);
        } else {
            assert(b == 1);
        }
        assert(state_width(st, width, period) == width * b);
        assert(total_cycles(states, period as nat, n) == a + b);
        assert(width * (a + b) == width * a + width * b) by (nonlinear_arith);
    } else {
        assert(width * 0 == 0);
    }
}

/// The part of the transition to the next state that a state leaves to be drawn after it.
pub open spec fn pending_width(s: PathState, t: int) -> int {
    if s.is_clock() {
        0
    } else {
        t
    }
}

/// The lowest height at which a state is drawn.
pub open spec fn level_low(s: PathState, h: int) -> int {
    match s {
        PathState::Bottom | PathState::Down | PathState::PosedgeClockMarked
        | PathState::PosedgeClockUnmarked => h,
        PathState::Middle => h / 2,
        _ => 0,
    }
}

/// The highest height at which a state is drawn.
pub open spec fn level_high(s: PathState, h: int) -> int {
    match s {
        PathState::Bottom | PathState::Down | PathState::PosedgeClockMarked
        | PathState::PosedgeClockUnmarked => h,
        PathState::Middle => h - h / 2,
        _ => 0,
    }
}

/// The state in force is never a continuation.
pub proof fn lemma_effective_state_not_continuation(states: Seq<PathState>, i: int)
    ensures
        !effective_state(states, i).is_continuation(),
    decreases i + 1,
{
    if i >= 0 && states[i].is_continuation() {
        lemma_effective_state_not_continuation(states, i - 1);
    }
}

/// The width taken by a prefix of the states grows with the prefix.
pub proof fn lemma_total_width_monotone(
    states: Seq<PathState>,
    width: int,
    period: int,
    i: int,
    j: int,
)
    requires
        0 <= width,
        0 <= period,
        i <= j,
    ensures
        total_width(states, width, period, i) <= total_width(states, width, period, j),
        0 <= total_width(states, width, period, i),
    decreases j,
{
    if j > 0 {
        assert(0 <= (width * period) / 2) by (nonlinear_arith)
            requires
                0 <= width,
                0 <= period,
        ;
        if i < j {
            lemma_total_width_monotone(states, width, period, i, j - 1);
        } else {
            lemma_total_width_monotone(states, width, period, j - 1, j - 1);
        }
    }
}

/// The cycles taken by a prefix of the states grow with the prefix.
pub proof fn lemma_total_cycles_monotone(states: Seq<PathState>, period: nat, i: int, j: int)
    requires
        i <= j,
    ensures
        total_cycles(states, period, i) <= total_cycles(states, period, j),
    decreases j,
{
    if j > 0 && i < j {
        lemma_total_cycles_monotone(states, period, i, j - 1);
    }
}

} // verus!

verus! {

/// The dimensions used to shape a signal path.
#[derive(Debug, Clone)]
pub struct WaveOptions {
    pub font_family: String,
    pub font_size: u32,
    pub wave_height: u16,
    pub cycle_width: u16,
    pub transition_offset: u16,
    pub backgrounds: [String; 8],
}

/// Are `o` the default shaping options?
pub open spec fn is_default_wave_options(o: WaveOptions) -> bool {
    &&& o.font_size == 14
    &&& o.wave_height == 24
    &&& o.cycle_width == 48
    &&& o.transition_offset == 4
    &&& o.font_family@ == "Helvetica"@
    &&& o.backgrounds[0]@ == "#FFFFFF"@
    &&& o.backgrounds[1]@ == "#F7F7A1"@
    &&& o.backgrounds[2]@ == "#F9D49F"@
    &&& o.backgrounds[3]@ == "#ADDEFF"@
    &&& o.backgrounds[4]@ == "#ACD5B6"@
    &&& o.backgrounds[5]@ == "#A4ABE1"@
    &&& o.backgrounds[6]@ == "#E8A8F0"@
    &&& o.backgrounds[7]@ == "#FBDADA"@
}

impl Default for WaveOptions {
    fn default() -> (r: WaveOptions)
        ensures
            is_default_wave_options(r),
    {
        WaveOptions {
            font_family: String::from_str("Helvetica"),
            font_size: 14,
            wave_height: 24,
            cycle_width: 48,
            transition_offset: 4,
            backgrounds: [
                String::from_str("#FFFFFF"),
                String::from_str("#F7F7A1"),
                String::from_str("#F9D49F"),
                String::from_str("#ADDEFF"),
                String::from_str("#ACD5B6"),
                String::from_str("#A4ABE1"),
                String::from_str("#E8A8F0"),
                String::from_str("#FBDADA"),
            ],
        }
    }
}

/// A piece of a shaped signal: a path with an optional background and data text.
#[derive(Debug, Clone)]
pub struct WavePathSegment {
    x: i32,
    y: i32,
    width: i32,
    is_fully_stroked: bool,
    background: Option<PathSegmentBackground>,
    actions: Vec<PathCommand>,
    text: Option<String>,
    gaps: Vec<CycleOffset>,
    clock_edge_markers: Vec<ClockEdgeMarker>,
}

/// The text that a segment holds: the data box segments take the data fields in order, the other
/// segments hold none. `rank` counts the data box segments before this one.
pub open spec fn expected_text(
    content: Seq<String>,
    rank: nat,
    background: Option<PathSegmentBackground>,
) -> Option<Seq<char>> {
    match background {
        Some(bg) => if bg.spec_is_data_box() && rank < content.len() {
            Some(content[rank as int]@)
        } else {
            None
        },
        None => None,
    }
}

/// The number of data box segments after one more segment with `background`.
pub open spec fn next_rank(rank: nat, background: Option<PathSegmentBackground>) -> nat {
    match background {
        Some(bg) => if bg.spec_is_data_box() {
            rank + 1
        } else {
            rank
        },
        None => rank,
    }
}

impl WavePathSegment {
    /// The `x` position where the segment starts.
    pub closed spec fn spec_x(&self) -> int {
        self.x as int
    }

    /// The `y` position where the segment starts.
    pub closed spec fn spec_y(&self) -> int {
        self.y as int
    }

    /// The horizontal space that the segment spans.
    pub closed spec fn spec_width(&self) -> int {
        self.width as int
    }

    /// The background of the segment.
    pub closed spec fn spec_background(&self) -> Option<PathSegmentBackground> {
        self.background
    }

    /// The data text of the segment.
    pub closed spec fn spec_text(&self) -> Option<Seq<char>> {
        match &self.text {
            Some(s) => Some(s@),
            None => None,
        }
    }

    /// The path commands of the segment.
    pub closed spec fn spec_actions(&self) -> Seq<PathCommand> {
        self.actions@
    }

    /// The clock edge markers on the segment.
    pub closed spec fn spec_clock_edge_markers(&self) -> Seq<ClockEdgeMarker> {
        self.clock_edge_markers@
    }

    /// The gaps on the segment.
    pub closed spec fn spec_gaps(&self) -> Seq<CycleOffset> {
        self.gaps@
    }

    /// Whether every command of the segment is stroked.
    pub closed spec fn spec_is_fully_stroked(&self) -> bool {
        self.is_fully_stroked
    }

    /// The background of the segment.
    pub fn background(&self) -> (r: Option<&PathSegmentBackground>)
        ensures
            match r {
                Some(b) => self.spec_background() == Some(*b),
                None => self.spec_background().is_none(),
            },
    {
        match &self.background {
            Some(b) => Some(b),
            None => None,
        }
    }

    /// Whether every command of the segment is stroked.
    pub fn is_fully_stroked(&self) -> (r: bool)
        ensures
            r == self.spec_is_fully_stroked(),
    {
        self.is_fully_stroked
    }

    /// The path commands of the segment.
    pub fn actions(&self) -> (r: &[PathCommand])
        ensures
            r@ == self.spec_actions(),
    {
        self.actions.as_slice()
    }

    /// The clock edge markers on the segment.
    pub fn clock_edge_markers(&self) -> (r: &[ClockEdgeMarker])
        ensures
            r@ == self.spec_clock_edge_markers(),
    {
        self.clock_edge_markers.as_slice()
    }

    /// The gaps on the segment.
    pub fn gaps(&self) -> (r: &[CycleOffset])
        ensures
            r@ == self.spec_gaps(),
    {
        self.gaps.as_slice()
    }

    /// The data text of the segment.
    pub fn marker_text(&self) -> (r: Option<&str>)
        ensures
            match r {
                Some(s) => self.spec_text() == Some(s@),
                None => self.spec_text().is_none(),
            },
    {
        match &self.text {
            Some(s) => Some(s.as_str()),
            None => None,
        }
    }

    /// The `x` position where the segment starts.
    pub fn x(&self) -> (r: i32)
        ensures
            r == self.spec_x(),
    {
        self.x
    }

    /// The `y` position where the segment starts.
    pub fn y(&self) -> (r: i32)
        ensures
            r == self.spec_y(),
    {
        self.y
    }

    /// The horizontal space that the segment spans.
    pub fn width(&self) -> (r: i32)
        ensures
            r == self.spec_width(),
    {
        self.width
    }
}

/// A shaped signal: its segments and the cycle offset where it ends.
#[derive(Debug, Clone)]
pub struct AssembledWavePath {
    end_offset: CycleOffset,
    segments: Vec<WavePathSegment>,
}

impl AssembledWavePath {
    /// The cycle offset where the signal ends.
    pub closed spec fn spec_end_offset(&self) -> CycleOffset {
        self.end_offset
    }

    /// The segments of the signal.
    pub closed spec fn spec_segments(&self) -> Seq<WavePathSegment> {
        self.segments@
    }

    /// Is the shaped signal without segments?
    pub fn is_empty(&self) -> (r: bool)
        ensures
            r == (self.spec_segments().len() == 0),
    {
        self.segments.len() == 0
    }

    /// The number of cycles that the signal spans, rounded up.
    pub fn num_cycles(&self) -> (r: u32)
        requires
            self.spec_end_offset().index_of() < u32::MAX
                || self.spec_end_offset().offset_of() == crate::cycle_offset::InCycleOffset::Begin,
        ensures
            r == (self.spec_end_offset().quarters() + 3) / 4,
    {
        self.end_offset.cycle_width()
    }

    /// The cycle offset where the signal ends.
    pub fn end_offset(&self) -> (r: CycleOffset)
        ensures
            r == self.spec_end_offset(),
    {
        self.end_offset
    }

    /// The segments of the signal.
    pub fn segments(&self) -> (r: &[WavePathSegment])
        ensures
            r@ == self.spec_segments(),
    {
        self.segments.as_slice()
    }
}

impl WavePathSegment {
    /// The segment as plain values, but for its data text: its position, width, whether it is
    /// fully stroked, its background, its commands, its clock edge markers and its gaps.
    pub closed spec fn shape(&self) -> SegmentShape {
        (
            self.x as int,
            self.y as int,
            self.width as int,
            self.is_fully_stroked,
            self.background,
            self.actions@,
            self.clock_edge_markers@,
            self.gaps@,
        )
    }
}

/// A segment as plain values (see [`WavePathSegment::shape`]).
pub type SegmentShape = (
    int,
    int,
    int,
    bool,
    Option<PathSegmentBackground>,
    Seq<PathCommand>,
    Seq<ClockEdgeMarker>,
    Seq<CycleOffset>,
);

/// What shaping has drawn but not yet handed out: the forward path, the backward path of a data
/// box, and the clock edge markers and gaps of the current segment.
pub type ShapeState = (PathModel, PathModel, Seq<ClockEdgeMarker>, Seq<CycleOffset>);

/// `m` with the forward path `f`.
pub open spec fn with_fwd(m: ShapeState, f: PathModel) -> ShapeState {
    (f, m.1, m.2, m.3)
}

/// `m` with the forward path `f` and the backward path `b`.
pub open spec fn with_paths(m: ShapeState, f: PathModel, b: PathModel) -> ShapeState {
    (f, b, m.2, m.3)
}

/// Close the current segment, which has no background.
pub open spec fn close_plain(m: ShapeState) -> (ShapeState, SegmentShape) {
    let f = m.0;
    (
        (pm_fresh(f.0, f.1), m.1, Seq::empty(), Seq::empty()),
        (f.2, f.3, f.0 - f.2, true, None, f.5, m.2, m.3),
    )
}

/// Close the current segment with background `bg`, its outline closed by the backward path.
pub open spec fn close_box(m: ShapeState, bg: Option<PathSegmentBackground>) -> (ShapeState, SegmentShape) {
    let f = m.0;
    let b = m.1;
    (
        (pm_fresh(f.0, f.1), pm_fresh(0, 0), Seq::empty(), Seq::empty()),
        (f.2, f.3, f.0 - f.2, f.4 && b.4, bg, f.5 + b.5.reverse(), m.2, m.3),
    )
}

/// Is `s` a positive clock state?
pub open spec fn is_posedge(s: PathState) -> bool {
    s == PathState::PosedgeClockMarked || s == PathState::PosedgeClockUnmarked
}

/// Is `s` a negative clock state?
pub open spec fn is_negedge(s: PathState) -> bool {
    s == PathState::NegedgeClockMarked || s == PathState::NegedgeClockUnmarked
}

/// The start of the first state `s`, with transitions `t` wide and signals `h` high.
pub open spec fn begin_shape(m: ShapeState, s: PathState, t: i32, h: i32) -> ShapeState {
    let f = m.0;
    if s == PathState::Top {
        with_fwd(m, pm_hor(f, t, false))
    } else if s == PathState::Middle {
        with_fwd(m, pm_hor(pm_move(f, 0, (h / 2) as i32), t, false))
    } else if s == PathState::Bottom {
        with_fwd(m, pm_hor(pm_move(f, 0, h), t, false))
    } else if is_posedge(s) {
        with_fwd(m, pm_move(f, 0, h))
    } else if is_negedge(s) {
        m
    } else if s == PathState::Up {
        with_fwd(m, pm_hor(f, t, true))
    } else if s == PathState::Down {
        with_fwd(m, pm_hor(pm_move(f, 0, h), t, true))
    } else {
        with_paths(m, pm_hor(f, t, false), pm_hor(pm_vert(m.1, (-h) as i32, false), (-t) as i32, false))
    }
}

/// The body of the state `s` (a continuation standing for `prev`), at cycle offset `co`, with
/// transitions `t` wide, signals `h` high, cycles `w` wide and clocks of period `p`.
pub open spec fn body_shape(
    m: ShapeState,
    s: PathState,
    prev: PathState,
    co: CycleOffset,
    t: i32,
    h: i32,
    w: i32,
    p: i32,
) -> ShapeState {
    let m1 = if s == PathState::Gap {
        (m.0, m.1, m.2, m.3.push(co))
    } else {
        m
    };
    let e = if s.is_continuation() {
        prev
    } else {
        s
    };
    let f = m1.0;
    let half = (w * p / 2) as i32;
    let run = (w - t * 2) as i32;
    if e == PathState::Top || e == PathState::Bottom || e == PathState::Middle {
        with_fwd(m1, pm_hor(f, run, false))
    } else if is_posedge(e) {
        let mk = if e == PathState::PosedgeClockMarked {
            m1.2.push(ClockEdgeMarker { x: f.0 as u32, edge: ClockEdge::Positive })
        } else {
            m1.2
        };
        (pm_hor(pm_vert(pm_hor(pm_vert(f, (-h) as i32, true), half, false), h, true), half, false), m1.1, mk, m1.3)
    } else if is_negedge(e) {
        let mk = if e == PathState::NegedgeClockMarked {
            m1.2.push(ClockEdgeMarker { x: f.0 as u32, edge: ClockEdge::Negative })
        } else {
            m1.2
        };
        (pm_hor(pm_vert(pm_hor(pm_vert(f, h, true), half, false), (-h) as i32, true), half, false), m1.1, mk, m1.3)
    } else if e == PathState::Up || e == PathState::Down {
        with_fwd(m1, pm_hor(f, run, true))
    } else if e.is_continuation() {
        m1
    } else {
        with_paths(m1, pm_hor(f, run, false), pm_hor(m1.1, (t * 2 - w) as i32, false))
    }
}

/// A step that draws on the paths and may close a segment.
pub type ShapeStep = (ShapeState, Option<SegmentShape>);

/// Close the current segment without background, then draw `f` and `b` from the fresh paths.
pub open spec fn close_plain_then(
    m: ShapeState,
    f: spec_fn(PathModel) -> PathModel,
    b: spec_fn(PathModel) -> PathModel,
) -> ShapeStep {
    let (m2, seg) = close_plain(m);
    (with_paths(m2, f(m2.0), b(m2.1)), Some(seg))
}

/// Close the current segment with background `bg`, then draw `f` and `b` from the fresh paths.
pub open spec fn close_box_then(
    m: ShapeState,
    bg: Option<PathSegmentBackground>,
    f: spec_fn(PathModel) -> PathModel,
    b: spec_fn(PathModel) -> PathModel,
) -> ShapeStep {
    let (m2, seg) = close_box(m, bg);
    (with_paths(m2, f(m2.0), b(m2.1)), Some(seg))
}

/// Draw `f` on the forward path.
pub open spec fn fwd_step(m: ShapeState, f: PathModel) -> ShapeStep {
    (with_fwd(m, f), None)
}

/// The transition from the level state `s` to `n`.
pub open spec fn level_transition(m: ShapeState, s: PathState, n: PathState, t: i32, h: i32) -> ShapeStep {
    let f = m.0;
    let t2 = (t * 2) as i32;
    let hh = (h / 2) as i32;
    let nhh = (-(h / 2)) as i32;
    let nh = (-h) as i32;
    let nt = (-t) as i32;
    if s == n || n.is_continuation() {
        fwd_step(m, pm_hor(f, t2, false))
    } else if s == PathState::Top && n == PathState::Bottom {
        fwd_step(m, pm_line(f, t2, h))
    } else if (s == PathState::Top || s == PathState::Middle) && (n == PathState::Middle || n
        == PathState::Bottom) {
        fwd_step(m, pm_curve(f, 0, hh, t, hh, t2, hh))
    } else if s == PathState::Bottom && n == PathState::Top {
        fwd_step(m, pm_line(f, t2, nh))
    } else if (s == PathState::Middle || s == PathState::Bottom) && (n == PathState::Top || n
        == PathState::Middle) {
        fwd_step(m, pm_curve(f, 0, nhh, t, nhh, t2, nhh))
    } else if n.is_box() {
        let m1 = with_fwd(m, pm_hor(f, t, false));
        if s == PathState::Bottom {
            close_plain_then(m1, |x: PathModel| pm_line(x, t, nh), |x: PathModel| pm_hor(x, nt, false))
        } else if s == PathState::Middle {
            close_plain_then(m1, |x: PathModel| pm_line(x, t, nhh), |x: PathModel| pm_line(x, nt, nhh))
        } else {
            close_plain_then(m1, |x: PathModel| pm_hor(x, t, false), |x: PathModel| pm_line(x, nt, nh))
        }
    } else if is_posedge(n) {
        if s == PathState::Bottom {
            fwd_step(m, pm_hor(f, t, false))
        } else if s == PathState::Middle {
            fwd_step(m, pm_line(f, t, hh))
        } else {
            fwd_step(m, pm_line(f, t, h))
        }
    } else if is_negedge(n) {
        if s == PathState::Bottom {
            fwd_step(m, pm_line(f, t, nh))
        } else if s == PathState::Middle {
            fwd_step(m, pm_line(f, t, nhh))
        } else {
            fwd_step(m, pm_hor(f, t, false))
        }
    } else if (s == PathState::Top && n == PathState::Up) || (s == PathState::Bottom && n
        == PathState::Down) {
        fwd_step(m, pm_hor(pm_hor(f, t, false), t, true))
    } else if s == PathState::Top && n == PathState::Down {
        fwd_step(m, pm_curve(f, t, 0, t, h, t2, h))
    } else if s == PathState::Bottom && n == PathState::Up {
        fwd_step(m, pm_curve(f, t, 0, t, nh, t2, nh))
    } else if s == PathState::Middle && n == PathState::Up {
        fwd_step(m, pm_curve(f, t, 0, t, nhh, t2, nhh))
    } else if s == PathState::Middle && n == PathState::Down {
        fwd_step(m, pm_curve(f, t, 0, t, hh, t2, hh))
    } else {
        (m, None)
    }
}

/// The transition from the data box or undefined state `s` to `n`.
pub open spec fn box_transition(m: ShapeState, s: PathState, n: PathState, t: i32, h: i32) -> ShapeStep {
    let f = m.0;
    let b = m.1;
    let bg = s.spec_background();
    let t2 = (t * 2) as i32;
    let hh = (h / 2) as i32;
    let nhh = (-(h / 2)) as i32;
    let nt = (-t) as i32;
    if n.is_box() {
        close_box_then(
            with_paths(m, pm_line(f, t, hh), pm_line(b, nt, hh)),
            bg,
            |x: PathModel| pm_line(x, t, nhh),
            |x: PathModel| pm_line(x, nt, nhh),
        )
    } else if n == PathState::Top {
        close_box_then(
            with_paths(m, pm_hor(f, t, false), pm_line(b, nt, h)),
            bg,
            |x: PathModel| pm_hor(x, t, false),
            |x: PathModel| x,
        )
    } else if n == PathState::Middle {
        close_box_then(
            with_paths(
                m,
                pm_curve(f, 0, hh, t, hh, t2, hh),
                pm_curve(b, (-t * 2 + t) as i32, 0, (-t * 2) as i32, 0, (-t * 2) as i32, hh),
            ),
            bg,
            |x: PathModel| x,
            |x: PathModel| x,
        )
    } else if n == PathState::Bottom {
        close_box_then(
            with_paths(m, pm_line(f, t, h), pm_hor(b, nt, false)),
            bg,
            |x: PathModel| pm_hor(x, t, false),
            |x: PathModel| x,
        )
    } else if is_posedge(n) {
        close_box_then(
            with_paths(m, pm_line(f, t, h), pm_hor(b, nt, false)),
            bg,
            |x: PathModel| x,
            |x: PathModel| x,
        )
    } else if is_negedge(n) {
        close_box_then(
            with_paths(m, pm_hor(f, t, false), pm_line(b, nt, h)),
            bg,
            |x: PathModel| x,
            |x: PathModel| x,
        )
    } else if n.is_continuation() {
        (with_paths(m, pm_hor(f, (2 * t) as i32, false), pm_hor(b, (-(2 * t)) as i32, false)), None)
    } else if n == PathState::Up {
        close_box_then(
            with_paths(m, pm_hor(f, t, false), pm_line(b, nt, h)),
            bg,
            |x: PathModel| pm_hor(x, t, true),
            |x: PathModel| x,
        )
    } else {
        close_box_then(
            with_paths(m, pm_line(f, t, h), pm_hor(b, nt, false)),
            bg,
            |x: PathModel| pm_hor(x, t, true),
            |x: PathModel| x,
        )
    }
}

/// The transition from the clock state `s` to `n`.
pub open spec fn clock_transition(m: ShapeState, s: PathState, n: PathState, t: i32, h: i32) -> ShapeStep {
    let f = m.0;
    let hh = (h / 2) as i32;
    let nhh = (-(h / 2)) as i32;
    let nh = (-h) as i32;
    let nt = (-t) as i32;
    let pos = is_posedge(s);
    if (pos && (is_posedge(n) || n.is_continuation())) || (!pos && (is_negedge(n)
        || n.is_continuation())) {
        (m, None)
    } else if pos && is_negedge(n) {
        fwd_step(m, pm_vert(f, nh, true))
    } else if !pos && is_posedge(n) {
        fwd_step(m, pm_vert(f, h, true))
    } else if n.is_box() {
        if pos {
            close_plain_then(m, |x: PathModel| pm_line(x, t, nh), |x: PathModel| pm_hor(x, nt, false))
        } else {
            close_plain_then(m, |x: PathModel| pm_hor(x, t, false), |x: PathModel| pm_line(x, nt, nh))
        }
    } else if n == PathState::Bottom {
        if pos {
            fwd_step(m, pm_hor(f, t, false))
        } else {
            fwd_step(m, pm_line(f, t, h))
        }
    } else if n == PathState::Middle {
        if pos {
            fwd_step(m, pm_line(f, t, nhh))
        } else {
            fwd_step(m, pm_line(f, t, hh))
        }
    } else if n == PathState::Top {
        if pos {
            fwd_step(m, pm_line(f, t, nh))
        } else {
            fwd_step(m, pm_hor(f, t, false))
        }
    } else if pos && n == PathState::Up {
        fwd_step(m, pm_hor(pm_vert(f, nh, false), t, true))
    } else if !pos && n == PathState::Down {
        fwd_step(m, pm_hor(pm_vert(f, h, false), t, true))
    } else {
        fwd_step(m, pm_hor(f, t, true))
    }
}

/// The transition from the dashed state `s` to `n`.
pub open spec fn dashed_transition(m: ShapeState, s: PathState, n: PathState, t: i32, h: i32) -> ShapeStep {
    let f = m.0;
    let t2 = (t * 2) as i32;
    let hh = (h / 2) as i32;
    let nhh = (-(h / 2)) as i32;
    let nh = (-h) as i32;
    let nt = (-t) as i32;
    let up = s == PathState::Up;
    if s == n || n.is_continuation() {
        fwd_step(m, pm_hor(f, t2, true))
    } else if (up && n == PathState::Top) || (!up && n == PathState::Bottom) {
        fwd_step(m, pm_hor(pm_hor(f, t, true), t, false))
    } else if up && (n == PathState::Bottom || n == PathState::Down) {
        fwd_step(m, pm_curve(f, t, 0, t, h, t2, h))
    } else if !up && (n == PathState::Top || n == PathState::Up) {
        fwd_step(m, pm_curve(f, t, 0, t, nh, t2, nh))
    } else if n == PathState::Middle {
        if up {
            fwd_step(m, pm_curve(f, t, 0, t, hh, t2, hh))
        } else {
            fwd_step(m, pm_curve(f, t, 0, t, nhh, t2, nhh))
        }
    } else if up && is_posedge(n) {
        fwd_step(m, pm_vert(pm_hor(f, t, true), h, false))
    } else if !up && is_negedge(n) {
        fwd_step(m, pm_vert(pm_hor(f, t, true), nh, false))
    } else if is_posedge(n) || is_negedge(n) {
        fwd_step(m, pm_hor(f, t, true))
    } else if up {
        close_plain_then(
            with_fwd(m, pm_hor(f, t, true)),
            |x: PathModel| pm_hor(x, t, false),
            |x: PathModel| pm_line(x, nt, nh),
        )
    } else {
        close_plain_then(
            with_fwd(m, pm_hor(f, t, true)),
            |x: PathModel| pm_line(x, t, nh),
            |x: PathModel| pm_hor(x, nt, false),
        )
    }
}

/// The cycles of a clock: a positive clock rises by the full signal height at the start of its
/// cycles, where its edge marker stands, is high for half the period, falls and is low for the
/// other half; a negative clock falls at the start, where its marker stands, and rises halfway.
/// A continuation of a clock draws the same. Nothing else is drawn, and the pen ends at the
/// height it started at, a full period further.
pub proof fn lemma_clock_body(
    m: ShapeState,
    s: PathState,
    prev: PathState,
    co: CycleOffset,
    t: i32,
    h: i32,
    w: i32,
    p: i32,
)
    requires
        (if s.is_continuation() {
            prev
        } else {
            s
        }).is_clock(),
    ensures
        ({
            let e = if s.is_continuation() {
                prev
            } else {
                s
            };
            let r = body_shape(m, s, prev, co, t, h, w, p);
            let half = (w * p / 2) as i32;
            let up = (-h) as i32;
            let positive = e == PathState::PosedgeClockMarked || e
                == PathState::PosedgeClockUnmarked;
            let marked = e == PathState::PosedgeClockMarked || e
                == PathState::NegedgeClockMarked;
            &&& r.0.5 == m.0.5 + if positive {
                seq![
                    PathCommand::LineVertical(up),
                    PathCommand::LineHorizontal(half),
                    PathCommand::LineVertical(h),
                    PathCommand::LineHorizontal(half),
                ]
            } else {
                seq![
                    PathCommand::LineVertical(h),
                    PathCommand::LineHorizontal(half),
                    PathCommand::LineVertical(up),
                    PathCommand::LineHorizontal(half),
                ]
            }
            &&& r.0.0 == m.0.0 + 2 * half
            &&& r.0.1 == m.0.1 + up + h
            &&& r.1 == m.1
            &&& r.2 == if marked {
                m.2.push(
                    ClockEdgeMarker {
                        x: m.0.0 as u32,
                        edge: if positive {
                            ClockEdge::Positive
                        } else {
                            ClockEdge::Negative
                        },
                    },
                )
            } else {
                m.2
            }
        }),
{
    let half = (w * p / 2) as i32;
    let up = (-h) as i32;
    let f = m.0;
    let a = pm_vert(f, up, true);
    let b = pm_vert(f, h, true);
    assert(pm_hor(a, half, false).5 == a.5.push(PathCommand::LineHorizontal(half)));
    assert(pm_hor(b, half, false).5 == b.5.push(PathCommand::LineHorizontal(half)));
    let a2 = pm_vert(pm_hor(a, half, false), h, true);
    let b2 = pm_vert(pm_hor(b, half, false), up, true);
    assert(pm_hor(a2, half, false).5 == a2.5.push(PathCommand::LineHorizontal(half)));
    assert(pm_hor(b2, half, false).5 == b2.5.push(PathCommand::LineHorizontal(half)));
    assert(f.5 + seq![
        PathCommand::LineVertical(up),
        PathCommand::LineHorizontal(half),
        PathCommand::LineVertical(h),
        PathCommand::LineHorizontal(half),
    ] =~= f.5.push(PathCommand::LineVertical(up)).push(PathCommand::LineHorizontal(half)).push(
        PathCommand::LineVertical(h),
    ).push(PathCommand::LineHorizontal(half)));
    assert(f.5 + seq![
        PathCommand::LineVertical(h),
        PathCommand::LineHorizontal(half),
        PathCommand::LineVertical(up),
        PathCommand::LineHorizontal(half),
    ] =~= f.5.push(PathCommand::LineVertical(h)).push(PathCommand::LineHorizontal(half)).push(
        PathCommand::LineVertical(up),
    ).push(PathCommand::LineHorizontal(half)));
}

/// The transition from the state `s` in force to the state `n`.
pub open spec fn transition_shape(m: ShapeState, s: PathState, n: PathState, t: i32, h: i32) -> ShapeStep {
    if s == PathState::Top || s == PathState::Bottom || s == PathState::Middle {
        level_transition(m, s, n, t, h)
    } else if s == PathState::Up || s == PathState::Down {
        dashed_transition(m, s, n, t, h)
    } else if s.is_clock() {
        clock_transition(m, s, n, t, h)
    } else {
        box_transition(m, s, n, t, h)
    }
}

/// A wave whose first state is drawn as a line starts at the height of that state, after the
/// half transition that the state leaves before it unless it is a clock; nothing is recorded.
pub proof fn lemma_line_begins_at_its_level(m: ShapeState, s: PathState, t: i32, h: i32)
    requires
        !s.is_box(),
        !s.is_continuation(),
        0 <= t,
        0 <= h,
        h % 2 == 0,
    ensures
        ({
            let r = begin_shape(m, s, t, h);
            &&& r.0.0 == m.0.0 + pending_width(s, t as int)
            &&& r.0.1 == m.0.1 + level_low(s, h as int)
            &&& r.1 == m.1
            &&& r.2 == m.2
            &&& r.3 == m.3
        }),
{
}

/// The body of a level or dashed level (or a continuation of one) is one horizontal line, dashed
/// for a dashed level, at its height, for the cycle less the two half transitions around it; it
/// records nothing but a gap.
pub proof fn lemma_level_body(
    m: ShapeState,
    s: PathState,
    prev: PathState,
    co: CycleOffset,
    t: i32,
    h: i32,
    w: i32,
    p: i32,
)
    requires
        ({
            let e = if s.is_continuation() {
                prev
            } else {
                s
            };
            !e.is_box() && !e.is_clock() && !e.is_continuation()
        }),
        0 <= t,
        t * 2 <= w,
    ensures
        ({
            let e = if s.is_continuation() {
                prev
            } else {
                s
            };
            let r = body_shape(m, s, prev, co, t, h, w, p);
            &&& r.0.0 == m.0.0 + w - 2 * t
            &&& r.0.1 == m.0.1
            &&& r.0.5 == push_horizontal(
                m.0.5,
                (w - 2 * t) as i32,
                e == PathState::Up || e == PathState::Down,
            )
            &&& r.1 == m.1
            &&& r.2 == m.2
            &&& r.3 == if s == PathState::Gap {
                m.3.push(co)
            } else {
                m.3
            }
        }),
{
}

/// Between two states drawn as lines (levels, dashed levels and clocks), the transition carries
/// the line from the height at which the first state is drawn to the height at which the next
/// one starts: it closes no segment, leaves the backward path, the clock edge markers and the
/// gaps as they were, and is as wide as the two states leave for it: a transition width on
/// each side that is not a clock. (Heights are whole only for an even signal height.)
pub proof fn lemma_line_transition_reaches_next_level(
    m: ShapeState,
    s: PathState,
    n: PathState,
    t: i32,
    h: i32,
)
    requires
        !s.is_box(),
        !s.is_continuation(),
        !n.is_box(),
        !n.is_continuation(),
        0 <= t,
        t * 2 <= i32::MAX,
        0 <= h,
        h % 2 == 0,
    ensures
        ({
            let r = transition_shape(m, s, n, t, h);
            &&& r.1 is None
            &&& r.0.0.0 == m.0.0 + pending_width(s, t as int) + pending_width(n, t as int)
            &&& r.0.0.1 == m.0.1 + level_low(n, h as int) - level_low(s, h as int)
            &&& r.0.1 == m.1
            &&& r.0.2 == m.2
            &&& r.0.3 == m.3
        }),
{
}

/// The end of the last state `s`, which closes the last segment.
pub open spec fn end_shape(m: ShapeState, s: PathState, t: i32, h: i32) -> (ShapeState, SegmentShape) {
    let f = m.0;
    if s == PathState::Top || s == PathState::Bottom || s == PathState::Middle {
        close_plain(with_fwd(m, pm_hor(f, t, false)))
    } else if s.is_clock() || s.is_continuation() {
        close_plain(m)
    } else if s == PathState::Up || s == PathState::Down {
        close_plain(with_fwd(m, pm_hor(f, t, true)))
    } else {
        close_box(
            with_paths(m, pm_vert(pm_hor(f, t, false), h, false), pm_hor(m.1, (-t) as i32, false)),
            s.spec_background(),
        )
    }
}

/// The shape of an optional segment.
pub open spec fn opt_shape(r: Option<WavePathSegment>) -> Option<SegmentShape> {
    match r {
        Some(seg) => Some(seg.shape()),
        None => None,
    }
}

/// The cycle offset `co` moved on by the cycles of the state `s`, clocks lasting `p` cycles.
pub open spec fn next_offset(co: CycleOffset, s: PathState, p: i32) -> CycleOffset {
    CycleOffset::from_quarters(co.quarters() + 4 * state_cycles(s, p as nat))
}

/// The segments that shaping hands out from position `pos` of `states` on, the state `prev` being
/// in force (none once the last segment was handed out), `m` drawn so far, at cycle offset `co`,
/// with transitions `t` wide, signals `h` high, cycles `w` wide and clocks of period `p`: each
/// state is entered by a transition from the state in force and then drawn, a transition
/// handing out the segment it closes; after the last state the last segment is closed.
pub open spec fn run_shape(
    states: Seq<PathState>,
    m: ShapeState,
    pos: int,
    prev: Option<PathState>,
    co: CycleOffset,
    t: i32,
    h: i32,
    w: i32,
    p: i32,
) -> Seq<SegmentShape>
    decreases (if pos <= states.len() {
        states.len() - pos
    } else {
        0
    }),
{
    match prev {
        None => Seq::empty(),
        Some(pv) => if 0 <= pos < states.len() {
            let st = states[pos];
            let step = transition_shape(m, pv, st, t, h);
            let m2 = body_shape(step.0, st, pv, co, t, h, w, p);
            let np = if st.is_continuation() {
                pv
            } else {
                st
            };
            let rest = run_shape(states, m2, pos + 1, Some(np), next_offset(co, np, p), t, h, w, p);
            match step.1 {
                Some(seg) => seq![seg] + rest,
                None => rest,
            }
        } else {
            seq![end_shape(m, pv, t, h).1]
        },
    }
}

/// The segments of the signal `states` with period `period` and phase `phase`, shaped with
/// `options`: the first state is started from the phase (a continuation there standing for the
/// undefined state) and drawn, and the others follow (see [`run_shape`]).
pub open spec fn shape_signal(
    states: Seq<PathState>,
    period: u16,
    phase: CycleOffset,
    options: WaveOptions,
) -> Seq<SegmentShape> {
    shape_signal_dims(
        states,
        period,
        phase,
        options.cycle_width,
        options.wave_height,
        options.transition_offset,
    )
}

/// The segments of the signal `states` with period `period` and phase `phase`, with cycles
/// `cycle_width` wide, signals `wave_height` high and transitions `transition_offset` wide (see
/// [`shape_signal`]).
pub open spec fn shape_signal_dims(
    states: Seq<PathState>,
    period: u16,
    phase: CycleOffset,
    cycle_width: u16,
    wave_height: u16,
    transition_offset: u16,
) -> Seq<SegmentShape> {
    let t = transition_offset as i32;
    let h = wave_height as i32;
    let w = cycle_width as i32;
    let p = period as i32;
    if states.len() == 0 {
        Seq::empty()
    } else {
        let s0 = states[0];
        let first = if s0.is_continuation() {
            PathState::X
        } else {
            s0
        };
        let m0 = (pm_fresh(phase_x(phase, cycle_width), 0), pm_fresh(0, 0), Seq::empty(), Seq::empty());
        let m1 = body_shape(begin_shape(m0, s0, t, h), s0, first, phase, t, h, w, p);
        run_shape(states, m1, 1, Some(first), next_offset(phase, first, p), t, h, w, p)
    }
}

/// A segment together with the cycle offset at which it was completed.
#[derive(Debug)]
pub struct SignalSegmentItem {
    pub end_cycle: CycleOffset,
    pub segment: WavePathSegment,
}

} // verus!

verus! {

/// Does a signal with `states`, `period` and `phase` fit in the `i32` coordinates of its path when
/// shaped with cycles `w` wide, transitions `t` wide and a height of `h`? The figure width, with
/// margins, has to fit in half the `i32` range, and the cycle count in a `u32`.
pub open spec fn path_fits_dims(
    states: Seq<PathState>,
    period: u16,
    phase: CycleOffset,
    w: u16,
    t: u16,
    h: u16,
) -> bool {
    let n = states.len() as int;
    &&& period >= 1
    &&& 2 * (phase_x(phase, w) + total_width(states, w as int, period as int, n) + 8 * t + 3 * h
        + n + 2) <= i32::MAX
    &&& CycleOffset::quarters_fit(phase.quarters() + 4 * total_cycles(states, period as nat, n))
}

/// Does a signal fit in the `i32` coordinates of its path when shaped with `options`?
pub open spec fn path_fits(
    states: Seq<PathState>,
    period: u16,
    phase: CycleOffset,
    options: WaveOptions,
) -> bool {
    path_fits_dims(
        states,
        period,
        phase,
        options.cycle_width,
        options.transition_offset,
        options.wave_height,
    )
}

/// The `x` position where a signal with `phase` starts, with cycles `width` units wide.
pub open spec fn phase_x(phase: CycleOffset, width: u16) -> int {
    phase.index_of() * width + rounded_quarter_width(phase.quarters() % 4, width as nat)
}

/// An iterator over the segments of a signal, shaping the signal as it goes.
pub struct SignalSegmentIter<'a> {
    states: &'a [PathState],
    pos: usize,
    cycle_offset: CycleOffset,
    period: u16,
    prev: Option<PathState>,
    forward: PathData,
    backward: PathData,
    box_index: usize,
    box_content: &'a [String],
    clock_edge_markers: Vec<ClockEdgeMarker>,
    gaps: Vec<CycleOffset>,
    options: &'a WaveOptions,
    phase: Ghost<CycleOffset>,
    x0: Ghost<int>,
    bound: Ghost<int>,
}

impl<'a> SignalSegmentIter<'a> {
    /// What shaping has drawn but not yet handed out.
    pub closed spec fn shape_state(&self) -> ShapeState {
        (self.forward.model(), self.backward.model(), self.clock_edge_markers@, self.gaps@)
    }

    /// The shaping parameters: transition width, signal height, cycle width and period.
    pub closed spec fn params(&self) -> (i32, i32, i32, i32) {
        (
            self.options.transition_offset as i32,
            self.options.wave_height as i32,
            self.options.cycle_width as i32,
            self.period as i32,
        )
    }

    closed spec fn t(&self) -> int {
        self.options.transition_offset as int
    }

    closed spec fn h(&self) -> int {
        self.options.wave_height as int
    }

    closed spec fn w(&self) -> int {
        self.options.cycle_width as int
    }

    closed spec fn p(&self) -> int {
        self.period as int
    }

    closed spec fn n(&self) -> int {
        self.states@.len() as int
    }

    closed spec fn width_done(&self, k: int) -> int {
        total_width(self.states@, self.w(), self.p(), k)
    }

    closed spec fn cycles_done(&self, k: int) -> nat {
        total_cycles(self.states@, self.p() as nat, k)
    }

    /// The facts that hold throughout the iteration.
    closed spec fn fixed_ok(&self) -> bool {
        &&& self.p() >= 1
        &&& self.x0@ >= 0
        &&& self.bound@ == self.x0@ + self.width_done(self.n()) + 8 * self.t() + 3 * self.h()
            + self.n() + 2
        &&& 2 * self.bound@ <= i32::MAX
        &&& CycleOffset::quarters_fit(self.phase@.quarters() + 4 * self.cycles_done(self.n()))
        &&& self.pos <= self.n()
        &&& self.box_index <= self.pos + 1
        &&& self.backward.start_x == 0
        &&& self.backward.start_y == 0
        &&& self.forward.within(self.bound@)
        &&& self.backward.within(self.bound@)
        &&& self.x0@ - 3 * self.t() <= self.forward.start_x <= self.x0@ + self.width_done(
            self.n(),
        ) + 3 * self.t()
    }

    /// The pen is drawing state `s`, at `x`, having drifted at most `d` from the level of `s`.
    closed spec fn pen_ok(&self, s: PathState, x: int, d: int) -> bool {
        &&& self.forward.current_x == x
        &&& level_low(s, self.h()) - d <= self.forward.current_y <= level_high(s, self.h()) + d
        &&& if s.is_box() {
            &&& self.backward.current_x == self.forward.start_x - self.forward.current_x
            &&& -self.h() <= self.backward.current_y <= 0
        } else {
            &&& self.backward.current_x == 0
            &&& self.backward.current_y == 0
            &&& self.backward.actions@.len() == 0
        }
    }

    /// What an operation leaves untouched.
    closed spec fn same_frame(&self, other: &Self) -> bool {
        &&& self.states == other.states
        &&& self.pos == other.pos
        &&& self.cycle_offset == other.cycle_offset
        &&& self.period == other.period
        &&& self.prev == other.prev
        &&& self.box_content == other.box_content
        &&& self.options == other.options
        &&& self.phase == other.phase
        &&& self.x0 == other.x0
        &&& self.bound == other.bound
    }

    /// The invariant of the iterator.
    pub closed spec fn inv(&self) -> bool {
        &&& self.fixed_ok()
        &&& match self.prev {
            None => {
                &&& self.pos == self.n()
                &&& self.forward.start_x == self.x0@ + self.width_done(self.n())
                &&& self.cycle_offset.quarters() == self.phase@.quarters() + 4 * self.cycles_done(
                    self.n(),
                )
            },
            Some(s) => {
                &&& self.pos >= 1
                &&& self.box_index <= self.pos
                &&& s == effective_state(self.states@, self.pos - 1)
                &&& self.cycle_offset.quarters() == self.phase@.quarters() + 4 * self.cycles_done(
                    self.pos as int,
                )
                &&& self.pen_ok(
                    s,
                    self.x0@ + self.width_done(self.pos as int) - pending_width(s, self.t()),
                    self.pos as int,
                )
            },
        }
    }

    /// The segments still to be handed out (see [`run_shape`]).
    pub closed spec fn remaining_shapes(&self) -> Seq<SegmentShape> {
        run_shape(
            self.states@,
            self.shape_state(),
            self.pos as int,
            self.prev,
            self.cycle_offset,
            self.params().0,
            self.params().1,
            self.params().2,
            self.params().3,
        )
    }

    /// The `x` position where the next segment starts.
    pub closed spec fn path_start(&self) -> int {
        self.forward.start_x as int
    }

    /// The `x` position where the signal ends.
    pub closed spec fn path_end(&self) -> int {
        self.x0@ + self.width_done(self.n())
    }

    /// Has the iterator yielded its last segment?
    pub closed spec fn is_done(&self) -> bool {
        self.prev is None
    }

    /// The number of data box segments yielded so far.
    pub closed spec fn box_count(&self) -> nat {
        self.box_index as nat
    }

    /// The data fields that the data box segments take in order.
    pub closed spec fn content(&self) -> Seq<String> {
        self.box_content@
    }

    /// The cycle offset where the signal ends, in quarters.
    pub closed spec fn end_quarters(&self) -> nat {
        self.phase@.quarters() + 4 * self.cycles_done(self.n())
    }

    /// A measure of the work left.
    pub closed spec fn remaining(&self) -> nat {
        (self.n() - self.pos) as nat + if self.prev is Some {
            1nat
        } else {
            0nat
        }
    }

    proof fn lemma_widths(&self, k: int)
        requires
            self.fixed_ok(),
            0 <= k < self.n(),
        ensures
            self.width_done(k + 1) == self.width_done(k) + state_width(
                effective_state(self.states@, k),
                self.w(),
                self.p(),
            ),
            0 <= self.width_done(k) <= self.width_done(k + 1) <= self.width_done(self.n()),
            self.cycles_done(k + 1) == self.cycles_done(k) + state_cycles(
                effective_state(self.states@, k),
                self.p() as nat,
            ),
            self.cycles_done(k + 1) <= self.cycles_done(self.n()),
            !effective_state(self.states@, k).is_continuation(),
            effective_state(self.states@, k).is_clock() ==> self.w() * self.p() <= i32::MAX,
            0 <= (self.w() * self.p()) / 2,
    {
        lemma_total_width_monotone(self.states@, self.w(), self.p(), k, k + 1);
        lemma_total_width_monotone(self.states@, self.w(), self.p(), k + 1, self.n());
        lemma_total_cycles_monotone(self.states@, self.p() as nat, k + 1, self.n());
        lemma_effective_state_not_continuation(self.states@, k);
        assert(0 <= (self.w() * self.p()) / 2) by (nonlinear_arith)
            requires
                0 <= self.w(),
                0 <= self.p(),
        ;
    }

    fn posedge_marker(&mut self)
        ensures
            final(self).clock_edge_markers@ == old(self).clock_edge_markers@.push(
                ClockEdgeMarker { x: old(self).forward.current_x as u32, edge: ClockEdge::Positive },
            ),
            final(self).gaps@ == old(self).gaps@,
            final(self).same_frame(old(self)),
            final(self).forward == old(self).forward,
            final(self).backward == old(self).backward,
            final(self).box_index == old(self).box_index,
    {
        self.clock_edge_markers.push(
            ClockEdgeMarker { x: self.forward.current_x as u32, edge: ClockEdge::Positive },
        );
    }

    fn negedge_marker(&mut self)
        ensures
            final(self).clock_edge_markers@ == old(self).clock_edge_markers@.push(
                ClockEdgeMarker { x: old(self).forward.current_x as u32, edge: ClockEdge::Negative },
            ),
            final(self).gaps@ == old(self).gaps@,
            final(self).same_frame(old(self)),
            final(self).forward == old(self).forward,
            final(self).backward == old(self).backward,
            final(self).box_index == old(self).box_index,
    {
        self.clock_edge_markers.push(
            ClockEdgeMarker { x: self.forward.current_x as u32, edge: ClockEdge::Negative },
        );
    }

    fn gap(&mut self)
        ensures
            final(self).gaps@ == old(self).gaps@.push(old(self).cycle_offset),
            final(self).clock_edge_markers@ == old(self).clock_edge_markers@,
            final(self).same_frame(old(self)),
            final(self).forward == old(self).forward,
            final(self).backward == old(self).backward,
            final(self).box_index == old(self).box_index,
    {
        self.gaps.push(self.cycle_offset);
    }

    /// The length of a (non-continuation) state.
    fn cycle_length(&self, state: PathState) -> (r: CycleOffset)
        requires
            !state.is_continuation(),
        ensures
            r.quarters() == 4 * state_cycles(state, self.p() as nat),
    {
        let cycles: u32 = match state {
            PathState::PosedgeClockUnmarked | PathState::PosedgeClockMarked
            | PathState::NegedgeClockUnmarked | PathState::NegedgeClockMarked => self.period as u32,
            _ => 1,
        };
        CycleOffset::new_rounded(cycles)
    }

    /// Close the current segment, which has no background.
    fn commit_without_back_line(&mut self) -> (seg: WavePathSegment)
        requires
            old(self).fixed_ok(),
            old(self).x0@ - 3 * old(self).t() <= old(self).forward.current_x <= old(self).x0@
                + old(self).width_done(old(self).n()) + 3 * old(self).t(),
        ensures
            (final(self).shape_state(), seg.shape()) == close_plain(old(self).shape_state()),
            final(self).fixed_ok(),
            final(self).same_frame(old(self)),
            final(self).box_index == old(self).box_index,
            final(self).backward == old(self).backward,
            seg.spec_x() == old(self).forward.start_x,
            seg.spec_x() + seg.spec_width() == final(self).forward.start_x,
            seg.spec_background().is_none(),
            seg.spec_text().is_none(),
            final(self).forward.current_x == old(self).forward.current_x,
            final(self).forward.current_y == old(self).forward.current_y,
            final(self).forward.start_x == old(self).forward.current_x,
            final(self).forward.actions@.len() == 0,
    {
        let segment_start_x = self.forward.start_x;
        let segment_start_y = self.forward.start_y;
        let segment_width = self.forward.current_x - self.forward.start_x;
        let start_x = self.forward.current_x;
        let start_y = self.forward.current_y;
        let mut clock_edge_markers = Vec::new();
        std::mem::swap(&mut clock_edge_markers, &mut self.clock_edge_markers);
        let mut gaps = Vec::new();
        std::mem::swap(&mut gaps, &mut self.gaps);
        let taken = self.forward.take_and_restart_at(start_x, start_y, Ghost(self.bound@));
        WavePathSegment {
            x: segment_start_x,
            y: segment_start_y,
            width: segment_width,
            text: None,
            clock_edge_markers,
            gaps,
            background: None,
            is_fully_stroked: true,
            actions: taken.actions,
        }
    }

    /// Close the current segment, closing its outline with the backward path.
    fn commit_with_back_line(&mut self, background: Option<PathSegmentBackground>) -> (seg:
        WavePathSegment)
        requires
            old(self).fixed_ok(),
            old(self).box_index <= old(self).pos,
            old(self).x0@ - 3 * old(self).t() <= old(self).forward.current_x <= old(self).x0@
                + old(self).width_done(old(self).n()) + 3 * old(self).t(),
        ensures
            (final(self).shape_state(), seg.shape()) == close_box(old(self).shape_state(), background),
            final(self).fixed_ok(),
            final(self).same_frame(old(self)),
            seg.spec_x() == old(self).forward.start_x,
            seg.spec_x() + seg.spec_width() == final(self).forward.start_x,
            seg.spec_background() == background,
            seg.spec_text() == expected_text(old(self).content(), old(self).box_count(), background),
            seg.spec_actions() == old(self).forward.actions@ + old(self).backward.actions@.reverse(),
            final(self).box_count() == next_rank(old(self).box_count(), background),
            final(self).forward.current_x == old(self).forward.current_x,
            final(self).forward.current_y == old(self).forward.current_y,
            final(self).forward.start_x == old(self).forward.current_x,
            final(self).forward.actions@.len() == 0,
            final(self).backward.current_x == 0,
            final(self).backward.current_y == 0,
            final(self).backward.actions@.len() == 0,
    {
        let segment_start_x = self.forward.start_x;
        let segment_start_y = self.forward.start_y;
        let segment_width = self.forward.current_x - self.forward.start_x;
        let start_x = self.forward.current_x;
        let start_y = self.forward.current_y;
        let is_fully_stroked = self.forward.is_fully_stroked && self.backward.is_fully_stroked;
        let back = self.backward.take_and_restart_at(0, 0, Ghost(self.bound@));
        let is_data = match background {
            Some(bg) => bg.is_data_box(),
            None => false,
        };
        let text = if is_data {
            let s = if self.box_index < self.box_content.len() {
                Some(self.box_content[self.box_index].clone())
            } else {
                None
            };
            self.box_index = self.box_index + 1;
            s
        } else {
            None
        };
        let mut clock_edge_markers = Vec::new();
        std::mem::swap(&mut clock_edge_markers, &mut self.clock_edge_markers);
        let mut gaps = Vec::new();
        std::mem::swap(&mut gaps, &mut self.gaps);
        let taken = self.forward.take_and_restart_at(start_x, start_y, Ghost(self.bound@));
        let mut actions = taken.actions;
        let ghost fwd_actions = actions@;
        let mut i = back.actions.len();
        while i > 0
            invariant
                i <= back.actions@.len(),
                actions@ == fwd_actions + back.actions@.subrange(i as int, back.actions@.len() as int).reverse(),
            decreases i,
        {
            i = i - 1;
            actions.push(back.actions[i]);
            assert(back.actions@.subrange(i as int, back.actions@.len() as int).reverse()
                =~= back.actions@.subrange(i + 1, back.actions@.len() as int).reverse().push(back.actions@[i as int]));
        }
        assert(back.actions@.subrange(0, back.actions@.len() as int) =~= back.actions@);
        WavePathSegment {
            x: segment_start_x,
            y: segment_start_y,
            width: segment_width,
            text,
            clock_edge_markers,
            gaps,
            background,
            is_fully_stroked,
            actions,
        }
    }

    /// Start drawing the first state of the signal.
    fn begin(&mut self, state: PathState)
        requires
            old(self).fixed_ok(),
            old(self).n() >= 1,
            old(self).states@[0] == state,
            old(self).prev == Some(effective_state(old(self).states@, 0)),
            old(self).forward.current_x == old(self).x0@,
            old(self).forward.start_x == old(self).x0@,
            old(self).forward.current_y == 0,
            old(self).forward.start_y == 0,
            old(self).forward.actions@.len() == 0,
            old(self).backward.current_x == 0,
            old(self).backward.current_y == 0,
            old(self).backward.actions@.len() == 0,
        ensures
            final(self).fixed_ok(),
            final(self).same_frame(old(self)),
            final(self).box_index == old(self).box_index,
            final(self).forward.start_x == old(self).x0@,
            final(self).shape_state() == begin_shape(
                old(self).shape_state(),
                state,
                old(self).params().0,
                old(self).params().1,
            ),
            final(self).pen_ok(
                effective_state(old(self).states@, 0),
                old(self).x0@ + pending_width(effective_state(old(self).states@, 0), old(self).t()),
                1,
            ),
    {
        let t = self.options.transition_offset as i32;
        let h = self.options.wave_height as i32;
        let ghost b = self.bound@;
        proof {
            self.lemma_widths(0);
        }
        match state {
            PathState::Top => self.forward.horizontal_line(t, Ghost(b)),
            PathState::Middle => {
                self.forward.restart_move_to(0, h / 2, Ghost(b));
                self.forward.horizontal_line(t, Ghost(b));
            },
            PathState::Bottom => {
                self.forward.restart_move_to(0, h, Ghost(b));
                self.forward.horizontal_line(t, Ghost(b));
            },
            PathState::PosedgeClockMarked | PathState::PosedgeClockUnmarked => {
                self.forward.restart_move_to(0, h, Ghost(b))
            },
            PathState::NegedgeClockMarked | PathState::NegedgeClockUnmarked => {},
            PathState::Box2 | PathState::Box3 | PathState::Box4 | PathState::Box5
            | PathState::Box6 | PathState::Box7 | PathState::Box8 | PathState::Box9
            | PathState::Data | PathState::X | PathState::Continue | PathState::Gap => {
                self.forward.horizontal_line(t, Ghost(b));
                self.backward.vertical_line_no_stroke(-h, Ghost(b));
                self.backward.horizontal_line(-t, Ghost(b));
            },
            PathState::Up => {
                self.forward.dashed_horizontal_line(t, Ghost(b));
            },
            PathState::Down => {
                self.forward.restart_move_to(0, h, Ghost(b));
                self.forward.dashed_horizontal_line(t, Ghost(b));
            },
        }
    }

    /// Draw the body of the state at position `k`.
    fn wave_path(&mut self, state: PathState, Ghost(k): Ghost<int>)
        requires
            old(self).fixed_ok(),
            0 <= k < old(self).n(),
            old(self).states@[k] == state,
            old(self).prev is Some,
            (if state.is_continuation() {
                old(self).prev->0
            } else {
                state
            }) == effective_state(old(self).states@, k),
            old(self).pen_ok(
                effective_state(old(self).states@, k),
                old(self).x0@ + old(self).width_done(k) + pending_width(
                    effective_state(old(self).states@, k),
                    old(self).t(),
                ),
                k + 1,
            ),
        ensures
            final(self).fixed_ok(),
            final(self).same_frame(old(self)),
            final(self).box_index == old(self).box_index,
            final(self).forward.start_x == old(self).forward.start_x,
            final(self).shape_state() == body_shape(
                old(self).shape_state(),
                state,
                old(self).prev->0,
                old(self).cycle_offset,
                old(self).params().0,
                old(self).params().1,
                old(self).params().2,
                old(self).params().3,
            ),
            final(self).pen_ok(
                effective_state(old(self).states@, k),
                old(self).x0@ + old(self).width_done(k + 1) - pending_width(
                    effective_state(old(self).states@, k),
                    old(self).t(),
                ),
                k + 1,
            ),
    {
        let t = self.options.transition_offset as i32;
        let h = self.options.wave_height as i32;
        let w = self.options.cycle_width as i32;
        let p = self.period as i32;
        let ghost b = self.bound@;
        proof {
            self.lemma_widths(k);
        }
        if state == PathState::Gap {
            self.gap();
        }
        let state = match state {
            PathState::Continue | PathState::Gap => match self.prev {
                Some(prev) => prev,
                None => PathState::X,
            },
            _ => state,
        };
        match state {
            PathState::Top | PathState::Bottom | PathState::Middle => {
                self.forward.horizontal_line(w - t * 2, Ghost(b))
            },
            PathState::PosedgeClockMarked | PathState::PosedgeClockUnmarked => {
                if state == PathState::PosedgeClockMarked {
                    self.posedge_marker();
                }
                self.forward.vertical_line(-h, Ghost(b));
                self.forward.horizontal_line(w * p / 2, Ghost(b));
                self.forward.vertical_line(h, Ghost(b));
                self.forward.horizontal_line(w * p / 2, Ghost(b));
            },
            PathState::NegedgeClockMarked | PathState::NegedgeClockUnmarked => {
                if state == PathState::NegedgeClockMarked {
                    self.negedge_marker();
                }
                self.forward.vertical_line(h, Ghost(b));
                self.forward.horizontal_line(w * p / 2, Ghost(b));
                self.forward.vertical_line(-h, Ghost(b));
                self.forward.horizontal_line(w * p / 2, Ghost(b));
            },
            PathState::Box2 | PathState::Box3 | PathState::Box4 | PathState::Box5
            | PathState::Box6 | PathState::Box7 | PathState::Box8 | PathState::Box9
            | PathState::Data | PathState::X => {
                self.forward.horizontal_line(w - t * 2, Ghost(b));
                self.backward.horizontal_line(t * 2 - w, Ghost(b));
            },
            PathState::Continue | PathState::Gap => {
                proof {
                    lemma_effective_state_not_continuation(self.states@, k);
                }
            },
            PathState::Up | PathState::Down => {
                self.forward.dashed_horizontal_line(w - t * 2, Ghost(b))
            },
        }
    }

    closed spec fn transition_pre(&self, state: PathState, next: PathState) -> bool {
        &&& self.fixed_ok()
        &&& 1 <= self.pos < self.n()
        &&& self.prev == Some(state)
        &&& self.states@[self.pos as int] == next
        &&& state == effective_state(self.states@, self.pos - 1)
        &&& self.box_index <= self.pos
        &&& self.pen_ok(
            state,
            self.x0@ + self.width_done(self.pos as int) - pending_width(state, self.t()),
            self.pos as int,
        )
    }

    closed spec fn transition_post(&self, old: &Self, r: Option<WavePathSegment>) -> bool {
        let ne = effective_state(old.states@, old.pos as int);
        &&& self.fixed_ok()
        &&& self.same_frame(old)
        &&& self.pen_ok(
            ne,
            old.x0@ + old.width_done(old.pos as int) + pending_width(ne, old.t()),
            old.pos + 1,
        )
        &&& match r {
            None => {
                &&& self.forward.start_x == old.forward.start_x
                &&& self.box_index == old.box_index
            },
            Some(seg) => {
                &&& seg.spec_x() == old.forward.start_x
                &&& seg.spec_x() + seg.spec_width() == self.forward.start_x
                &&& seg.spec_text() == expected_text(
                    old.content(),
                    old.box_count(),
                    seg.spec_background(),
                )
                &&& self.box_count() == next_rank(old.box_count(), seg.spec_background())
            },
        }
    }

    /// Draw the transition from `state`, which is in force, to the state `next`.
    #[verifier::rlimit(90)]
    fn transition_from_level(&mut self, state: PathState, next: PathState) -> (r: Option<
        WavePathSegment,
    >)
        requires
            old(self).transition_pre(state, next),
            state == PathState::Top || state == PathState::Bottom || state == PathState::Middle,
        ensures
            (final(self).shape_state(), opt_shape(r)) == level_transition(
                old(self).shape_state(),
                state,
                next,
                old(self).params().0,
                old(self).params().1,
            ),
            final(self).transition_post(old(self), r),
    {
        let t = self.options.transition_offset as i32;
        let h = self.options.wave_height as i32;
        let ghost b = self.bound@;
        proof {
            self.lemma_widths(self.pos as int);
            self.lemma_widths((self.pos - 1) as int);
        }
        match (state, next) {
            (PathState::Top, PathState::Top) | (PathState::Bottom, PathState::Bottom) | (PathState::Middle, PathState::Middle) | (PathState::Top | PathState::Bottom | PathState::Middle, PathState::Gap | PathState::Continue) => {
                self.forward.horizontal_line(t * 2, Ghost(b));
                None
            },
            (PathState::Top, PathState::Bottom) => {
                self.forward.line(t * 2, h, Ghost(b));
                None
            },
            (PathState::Top, PathState::Middle) => {
                self.forward.curve(0, h / 2, t, h / 2, t * 2, h / 2, Ghost(b));
                None
            },
            (PathState::Middle, PathState::Top) => {
                self.forward.curve(0, -(h / 2), t, -(h / 2), t * 2, -(h / 2), Ghost(b));
                None
            },
            (PathState::Middle, PathState::Bottom) => {
                self.forward.curve(0, h / 2, t, h / 2, t * 2, h / 2, Ghost(b));
                None
            },
            (PathState::Bottom, PathState::Top) => {
                self.forward.line(t * 2, -h, Ghost(b));
                None
            },
            (PathState::Bottom, PathState::Middle) => {
                self.forward.curve(0, -(h / 2), t, -(h / 2), t * 2, -(h / 2), Ghost(b));
                None
            },
            (PathState::Bottom, PathState::Box2 | PathState::Box3 | PathState::Box4 | PathState::Box5 | PathState::Box6 | PathState::Box7 | PathState::Box8 | PathState::Box9 | PathState::Data | PathState::X) => {
                self.forward.horizontal_line(t, Ghost(b));
                let seg = self.commit_without_back_line();
                self.forward.line(t, -h, Ghost(b));
                self.backward.horizontal_line(-t, Ghost(b));
                Some(seg)
            },
            (PathState::Middle, PathState::Box2 | PathState::Box3 | PathState::Box4 | PathState::Box5 | PathState::Box6 | PathState::Box7 | PathState::Box8 | PathState::Box9 | PathState::Data | PathState::X) => {
                self.forward.horizontal_line(t, Ghost(b));
                let seg = self.commit_without_back_line();
                self.forward.line(t, -(h / 2), Ghost(b));
                self.backward.line(-t, -(h / 2), Ghost(b));
                Some(seg)
            },
            (PathState::Top, PathState::Box2 | PathState::Box3 | PathState::Box4 | PathState::Box5 | PathState::Box6 | PathState::Box7 | PathState::Box8 | PathState::Box9 | PathState::Data | PathState::X) => {
                self.forward.horizontal_line(t, Ghost(b));
                let seg = self.commit_without_back_line();
                self.forward.horizontal_line(t, Ghost(b));
                self.backward.line(-t, -h, Ghost(b));
                Some(seg)
            },
            (PathState::Bottom, PathState::PosedgeClockMarked | PathState::PosedgeClockUnmarked) => {
                self.forward.horizontal_line(t, Ghost(b));
                None
            },
            (PathState::Bottom, PathState::NegedgeClockMarked | PathState::NegedgeClockUnmarked) => {
                self.forward.line(t, -h, Ghost(b));
                None
            },
            (PathState::Middle, PathState::PosedgeClockMarked | PathState::PosedgeClockUnmarked) => {
                self.forward.line(t, h / 2, Ghost(b));
                None
            },
            (PathState::Middle, PathState::NegedgeClockMarked | PathState::NegedgeClockUnmarked) => {
                self.forward.line(t, -(h / 2), Ghost(b));
                None
            },
            (PathState::Top, PathState::PosedgeClockMarked | PathState::PosedgeClockUnmarked) => {
                self.forward.line(t, h, Ghost(b));
                None
            },
            (PathState::Top, PathState::NegedgeClockMarked | PathState::NegedgeClockUnmarked) => {
                self.forward.horizontal_line(t, Ghost(b));
                None
            },
            (PathState::Top, PathState::Up) | (PathState::Bottom, PathState::Down) => {
                self.forward.horizontal_line(t, Ghost(b));
                self.forward.dashed_horizontal_line(t, Ghost(b));
                None
            },
            (PathState::Top, PathState::Down) => {
                self.forward.curve(t, 0, t, h, t * 2, h, Ghost(b));
                None
            },
            (PathState::Bottom, PathState::Up) => {
                self.forward.curve(t, 0, t, -h, t * 2, -h, Ghost(b));
                None
            },
            (PathState::Middle, PathState::Up) => {
                self.forward.curve(t, 0, t, -(h / 2), t * 2, -(h / 2), Ghost(b));
                None
            },
            (PathState::Middle, PathState::Down) => {
                self.forward.curve(t, 0, t, h / 2, t * 2, h / 2, Ghost(b));
                None
            },
            _ => {
                proof {
                    assert(false);
                }
                None
            },
        }
    }

    /// Draw the transition from `state`, which is in force, to the state `next`.
    #[verifier::rlimit(60)]
    fn transition_from_box(&mut self, state: PathState, next: PathState) -> (r: Option<
        WavePathSegment,
    >)
        requires
            old(self).transition_pre(state, next),
            state.is_box(),
        ensures
            (final(self).shape_state(), opt_shape(r)) == box_transition(
                old(self).shape_state(),
                state,
                next,
                old(self).params().0,
                old(self).params().1,
            ),
            final(self).transition_post(old(self), r),
    {
        let t = self.options.transition_offset as i32;
        let h = self.options.wave_height as i32;
        let ghost b = self.bound@;
        proof {
            self.lemma_widths(self.pos as int);
            self.lemma_widths((self.pos - 1) as int);
        }
        match (state, next) {
            (PathState::Box2 | PathState::Box3 | PathState::Box4 | PathState::Box5 | PathState::Box6 | PathState::Box7 | PathState::Box8 | PathState::Box9 | PathState::Data | PathState::X, PathState::Box2 | PathState::Box3 | PathState::Box4 | PathState::Box5 | PathState::Box6 | PathState::Box7 | PathState::Box8 | PathState::Box9 | PathState::Data | PathState::X) => {
                self.forward.line(t, h / 2, Ghost(b));
                self.backward.line(-t, h / 2, Ghost(b));
                let seg = self.commit_with_back_line(state.background());
                self.forward.line(t, -(h / 2), Ghost(b));
                self.backward.line(-t, -(h / 2), Ghost(b));
                Some(seg)
            },
            (PathState::Box2 | PathState::Box3 | PathState::Box4 | PathState::Box5 | PathState::Box6 | PathState::Box7 | PathState::Box8 | PathState::Box9 | PathState::Data | PathState::X, PathState::Top) => {
                self.forward.horizontal_line(t, Ghost(b));
                self.backward.line(-t, h, Ghost(b));
                let seg = self.commit_with_back_line(state.background());
                self.forward.horizontal_line(t, Ghost(b));
                Some(seg)
            },
            (PathState::Box2 | PathState::Box3 | PathState::Box4 | PathState::Box5 | PathState::Box6 | PathState::Box7 | PathState::Box8 | PathState::Box9 | PathState::Data | PathState::X, PathState::Middle) => {
                self.forward.curve(0, h / 2, t, h / 2, t * 2, h / 2, Ghost(b));
                self.backward.curve(-t * 2 + t, 0, -t * 2, 0, -t * 2, h / 2, Ghost(b));
                Some(self.commit_with_back_line(state.background()))
            },
            (PathState::Box2 | PathState::Box3 | PathState::Box4 | PathState::Box5 | PathState::Box6 | PathState::Box7 | PathState::Box8 | PathState::Box9 | PathState::Data | PathState::X, PathState::Bottom) => {
                self.forward.line(t, h, Ghost(b));
                self.backward.horizontal_line(-t, Ghost(b));
                let seg = self.commit_with_back_line(state.background());
                self.forward.horizontal_line(t, Ghost(b));
                Some(seg)
            },
            (PathState::Box2 | PathState::Box3 | PathState::Box4 | PathState::Box5 | PathState::Box6 | PathState::Box7 | PathState::Box8 | PathState::Box9 | PathState::Data | PathState::X, PathState::PosedgeClockMarked | PathState::PosedgeClockUnmarked) => {
                self.forward.line(t, h, Ghost(b));
                self.backward.horizontal_line(-t, Ghost(b));
                Some(self.commit_with_back_line(state.background()))
            },
            (PathState::Box2 | PathState::Box3 | PathState::Box4 | PathState::Box5 | PathState::Box6 | PathState::Box7 | PathState::Box8 | PathState::Box9 | PathState::Data | PathState::X, PathState::NegedgeClockMarked | PathState::NegedgeClockUnmarked) => {
                self.forward.horizontal_line(t, Ghost(b));
                self.backward.line(-t, h, Ghost(b));
                Some(self.commit_with_back_line(state.background()))
            },
            (PathState::Box2 | PathState::Box3 | PathState::Box4 | PathState::Box5 | PathState::Box6 | PathState::Box7 | PathState::Box8 | PathState::Box9 | PathState::Data | PathState::X, PathState::Gap | PathState::Continue) => {
                self.forward.horizontal_line(2 * t, Ghost(b));
                self.backward.horizontal_line(-(2 * t), Ghost(b));
                None
            },
            (PathState::Box2 | PathState::Box3 | PathState::Box4 | PathState::Box5 | PathState::Box6 | PathState::Box7 | PathState::Box8 | PathState::Box9 | PathState::Data | PathState::X, PathState::Up) => {
                self.forward.horizontal_line(t, Ghost(b));
                self.backward.line(-t, h, Ghost(b));
                let seg = self.commit_with_back_line(state.background());
                self.forward.dashed_horizontal_line(t, Ghost(b));
                Some(seg)
            },
            (PathState::Box2 | PathState::Box3 | PathState::Box4 | PathState::Box5 | PathState::Box6 | PathState::Box7 | PathState::Box8 | PathState::Box9 | PathState::Data | PathState::X, PathState::Down) => {
                self.forward.line(t, h, Ghost(b));
                self.backward.horizontal_line(-t, Ghost(b));
                let seg = self.commit_with_back_line(state.background());
                self.forward.dashed_horizontal_line(t, Ghost(b));
                Some(seg)
            },
            _ => {
                proof {
                    assert(false);
                }
                None
            },
        }
    }

    /// Draw the transition from `state`, which is in force, to the state `next`.
    fn transition_from_clock(&mut self, state: PathState, next: PathState) -> (r: Option<
        WavePathSegment,
    >)
        requires
            old(self).transition_pre(state, next),
            state.is_clock(),
        ensures
            (final(self).shape_state(), opt_shape(r)) == clock_transition(
                old(self).shape_state(),
                state,
                next,
                old(self).params().0,
                old(self).params().1,
            ),
            final(self).transition_post(old(self), r),
    {
        let t = self.options.transition_offset as i32;
        let h = self.options.wave_height as i32;
        let ghost b = self.bound@;
        proof {
            self.lemma_widths(self.pos as int);
            self.lemma_widths((self.pos - 1) as int);
        }
        match (state, next) {
            (PathState::PosedgeClockMarked | PathState::PosedgeClockUnmarked, PathState::PosedgeClockMarked | PathState::PosedgeClockUnmarked | PathState::Gap | PathState::Continue) => {
                None
            },
            (PathState::NegedgeClockMarked | PathState::NegedgeClockUnmarked, PathState::NegedgeClockMarked | PathState::NegedgeClockUnmarked | PathState::Gap | PathState::Continue) => {
                None
            },
            (PathState::PosedgeClockMarked | PathState::PosedgeClockUnmarked, PathState::NegedgeClockMarked | PathState::NegedgeClockUnmarked) => {
                self.forward.vertical_line(-h, Ghost(b));
                None
            },
            (PathState::NegedgeClockMarked | PathState::NegedgeClockUnmarked, PathState::PosedgeClockMarked | PathState::PosedgeClockUnmarked) => {
                self.forward.vertical_line(h, Ghost(b));
                None
            },
            (PathState::PosedgeClockMarked | PathState::PosedgeClockUnmarked, PathState::Box2 | PathState::Box3 | PathState::Box4 | PathState::Box5 | PathState::Box6 | PathState::Box7 | PathState::Box8 | PathState::Box9 | PathState::Data | PathState::X) => {
                let seg = self.commit_without_back_line();
                self.forward.line(t, -h, Ghost(b));
                self.backward.horizontal_line(-t, Ghost(b));
                Some(seg)
            },
            (PathState::NegedgeClockMarked | PathState::NegedgeClockUnmarked, PathState::Box2 | PathState::Box3 | PathState::Box4 | PathState::Box5 | PathState::Box6 | PathState::Box7 | PathState::Box8 | PathState::Box9 | PathState::Data | PathState::X) => {
                let seg = self.commit_without_back_line();
                self.forward.horizontal_line(t, Ghost(b));
                self.backward.line(-t, -h, Ghost(b));
                Some(seg)
            },
            (PathState::PosedgeClockMarked | PathState::PosedgeClockUnmarked, PathState::Bottom) => {
                self.forward.horizontal_line(t, Ghost(b));
                None
            },
            (PathState::NegedgeClockMarked | PathState::NegedgeClockUnmarked, PathState::Bottom) => {
                self.forward.line(t, h, Ghost(b));
                None
            },
            (PathState::PosedgeClockMarked | PathState::PosedgeClockUnmarked, PathState::Middle) => {
                self.forward.line(t, -(h / 2), Ghost(b));
                None
            },
            (PathState::NegedgeClockMarked | PathState::NegedgeClockUnmarked, PathState::Middle) => {
                self.forward.line(t, h / 2, Ghost(b));
                None
            },
            (PathState::PosedgeClockMarked | PathState::PosedgeClockUnmarked, PathState::Top) => {
                self.forward.line(t, -h, Ghost(b));
                None
            },
            (PathState::NegedgeClockMarked | PathState::NegedgeClockUnmarked, PathState::Top) => {
                self.forward.horizontal_line(t, Ghost(b));
                None
            },
            (PathState::PosedgeClockMarked | PathState::PosedgeClockUnmarked, PathState::Up) => {
                self.forward.vertical_line_no_stroke(-h, Ghost(b));
                self.forward.dashed_horizontal_line(t, Ghost(b));
                None
            },
            (PathState::NegedgeClockMarked | PathState::NegedgeClockUnmarked, PathState::Down) => {
                self.forward.vertical_line_no_stroke(h, Ghost(b));
                self.forward.dashed_horizontal_line(t, Ghost(b));
                None
            },
            (PathState::NegedgeClockMarked | PathState::NegedgeClockUnmarked, PathState::Up) | (PathState::PosedgeClockMarked | PathState::PosedgeClockUnmarked, PathState::Down) => {
                self.forward.dashed_horizontal_line(t, Ghost(b));
                None
            },
            _ => {
                proof {
                    assert(false);
                }
                None
            },
        }
    }

    /// Draw the transition from `state`, which is in force, to the state `next`.
    fn transition_from_dashed(&mut self, state: PathState, next: PathState) -> (r: Option<
        WavePathSegment,
    >)
        requires
            old(self).transition_pre(state, next),
            state == PathState::Up || state == PathState::Down,
        ensures
            (final(self).shape_state(), opt_shape(r)) == dashed_transition(
                old(self).shape_state(),
                state,
                next,
                old(self).params().0,
                old(self).params().1,
            ),
            final(self).transition_post(old(self), r),
    {
        let t = self.options.transition_offset as i32;
        let h = self.options.wave_height as i32;
        let ghost b = self.bound@;
        proof {
            self.lemma_widths(self.pos as int);
            self.lemma_widths((self.pos - 1) as int);
        }
        match (state, next) {
            (PathState::Up, PathState::Up | PathState::Gap | PathState::Continue) | (PathState::Down, PathState::Down | PathState::Gap | PathState::Continue) => {
                self.forward.dashed_horizontal_line(t * 2, Ghost(b));
                None
            },
            (PathState::Up, PathState::Top) | (PathState::Down, PathState::Bottom) => {
                self.forward.dashed_horizontal_line(t, Ghost(b));
                self.forward.horizontal_line(t, Ghost(b));
                None
            },
            (PathState::Up, PathState::Bottom | PathState::Down) => {
                self.forward.curve(t, 0, t, h, t * 2, h, Ghost(b));
                None
            },
            (PathState::Down, PathState::Top | PathState::Up) => {
                self.forward.curve(t, 0, t, -h, t * 2, -h, Ghost(b));
                None
            },
            (PathState::Up, PathState::Middle) => {
                self.forward.curve(t, 0, t, h / 2, t * 2, h / 2, Ghost(b));
                None
            },
            (PathState::Down, PathState::Middle) => {
                self.forward.curve(t, 0, t, -(h / 2), t * 2, -(h / 2), Ghost(b));
                None
            },
            (PathState::Up, PathState::PosedgeClockMarked | PathState::PosedgeClockUnmarked) => {
                self.forward.dashed_horizontal_line(t, Ghost(b));
                self.forward.vertical_line_no_stroke(h, Ghost(b));
                None
            },
            (PathState::Down, PathState::NegedgeClockMarked | PathState::NegedgeClockUnmarked) => {
                self.forward.dashed_horizontal_line(t, Ghost(b));
                self.forward.vertical_line_no_stroke(-h, Ghost(b));
                None
            },
            (PathState::Up, PathState::NegedgeClockMarked | PathState::NegedgeClockUnmarked) | (PathState::Down, PathState::PosedgeClockMarked | PathState::PosedgeClockUnmarked) => {
                self.forward.dashed_horizontal_line(t, Ghost(b));
                None
            },
            (PathState::Up, PathState::Box2 | PathState::Box3 | PathState::Box4 | PathState::Box5 | PathState::Box6 | PathState::Box7 | PathState::Box8 | PathState::Box9 | PathState::Data | PathState::X) => {
                self.forward.dashed_horizontal_line(t, Ghost(b));
                let seg = self.commit_without_back_line();
                self.forward.horizontal_line(t, Ghost(b));
                self.backward.line(-t, -h, Ghost(b));
                Some(seg)
            },
            (PathState::Down, PathState::Box2 | PathState::Box3 | PathState::Box4 | PathState::Box5 | PathState::Box6 | PathState::Box7 | PathState::Box8 | PathState::Box9 | PathState::Data | PathState::X) => {
                self.forward.dashed_horizontal_line(t, Ghost(b));
                let seg = self.commit_without_back_line();
                self.forward.line(t, -h, Ghost(b));
                self.backward.horizontal_line(-t, Ghost(b));
                Some(seg)
            },
            _ => {
                proof {
                    assert(false);
                }
                None
            },
        }
    }

    /// Draw the transition from `state`, which is in force, to the state `next`. Returns the
    /// segment that the transition completes, if any.
    fn transition(&mut self, state: PathState, next: PathState) -> (r: Option<WavePathSegment>)
        requires
            old(self).transition_pre(state, next),
        ensures
            (final(self).shape_state(), opt_shape(r)) == transition_shape(
                old(self).shape_state(),
                state,
                next,
                old(self).params().0,
                old(self).params().1,
            ),
            final(self).transition_post(old(self), r),
    {
        proof {
            lemma_effective_state_not_continuation(self.states@, self.pos - 1);
        }
        match state {
            PathState::Top | PathState::Bottom | PathState::Middle => self.transition_from_level(
                state,
                next,
            ),
            PathState::Up | PathState::Down => self.transition_from_dashed(state, next),
            PathState::PosedgeClockMarked | PathState::PosedgeClockUnmarked
            | PathState::NegedgeClockMarked | PathState::NegedgeClockUnmarked => {
                self.transition_from_clock(state, next)
            },
            _ => self.transition_from_box(state, next),
        }
    }

    /// Finish drawing the last state, which is in force, and close the last segment.
    fn end(&mut self, state: PathState) -> (seg: WavePathSegment)
        requires
            old(self).fixed_ok(),
            1 <= old(self).pos == old(self).n(),
            old(self).prev == Some(state),
            state == effective_state(old(self).states@, old(self).pos - 1),
            old(self).box_index <= old(self).pos,
            old(self).pen_ok(
                state,
                old(self).x0@ + old(self).width_done(old(self).n()) - pending_width(state, old(self).t()),
                old(self).n(),
            ),
        ensures
            (final(self).shape_state(), seg.shape()) == end_shape(
                old(self).shape_state(),
                state,
                old(self).params().0,
                old(self).params().1,
            ),
            final(self).fixed_ok(),
            final(self).same_frame(old(self)),
            seg.spec_x() == old(self).forward.start_x,
            seg.spec_x() + seg.spec_width() == final(self).forward.start_x,
            final(self).forward.start_x == old(self).x0@ + old(self).width_done(old(self).n()),
            seg.spec_text() == expected_text(old(self).content(), old(self).box_count(), seg.spec_background()),
            final(self).box_count() == next_rank(old(self).box_count(), seg.spec_background()),
    {
        let t = self.options.transition_offset as i32;
        let h = self.options.wave_height as i32;
        let ghost b = self.bound@;
        proof {
            self.lemma_widths((self.pos - 1) as int);
            lemma_effective_state_not_continuation(self.states@, self.pos - 1);
        }
        match state {
            PathState::Top | PathState::Bottom | PathState::Middle => {
                self.forward.horizontal_line(t, Ghost(b));
                self.commit_without_back_line()
            },
            PathState::PosedgeClockMarked | PathState::PosedgeClockUnmarked
            | PathState::NegedgeClockMarked | PathState::NegedgeClockUnmarked => {
                self.commit_without_back_line()
            },
            PathState::Box2 | PathState::Box3 | PathState::Box4 | PathState::Box5 | PathState::Box6 | PathState::Box7 | PathState::Box8 | PathState::Box9 | PathState::Data | PathState::X => {
                self.forward.horizontal_line(t, Ghost(b));
                self.forward.vertical_line_no_stroke(h, Ghost(b));
                self.backward.horizontal_line(-t, Ghost(b));
                self.commit_with_back_line(state.background())
            },
            PathState::Continue | PathState::Gap => {
                proof {
                    assert(false);
                }
                self.commit_without_back_line()
            },
            PathState::Up | PathState::Down => {
                self.forward.dashed_horizontal_line(t, Ghost(b));
                self.commit_without_back_line()
            },
        }
    }

    /// Shape the signal up to its next segment and return that segment.
    #[verifier::rlimit(60)]
    pub fn next(&mut self) -> (r: Option<SignalSegmentItem>)
        requires
            old(self).inv(),
        ensures
            final(self).inv(),
            final(self).content() == old(self).content(),
            final(self).end_quarters() == old(self).end_quarters(),
            final(self).path_end() == old(self).path_end(),
            r.is_none() <==> old(self).is_done(),
            match r {
                Some(item) => old(self).remaining_shapes() == seq![item.segment.shape()]
                    + final(self).remaining_shapes(),
                None => {
                    &&& old(self).remaining_shapes() == Seq::<SegmentShape>::empty()
                    &&& final(self).remaining_shapes() == Seq::<SegmentShape>::empty()
                },
            },
            match r {
                Some(item) => {
                    &&& final(self).remaining() < old(self).remaining()
                    &&& item.segment.spec_x() == old(self).path_start()
                    &&& item.segment.spec_x() + item.segment.spec_width() == final(self).path_start()
                    &&& item.segment.spec_text() == expected_text(
                        old(self).content(),
                        old(self).box_count(),
                        item.segment.spec_background(),
                    )
                    &&& final(self).box_count() == next_rank(
                        old(self).box_count(),
                        item.segment.spec_background(),
                    )
                    &&& final(self).is_done() ==> {
                        &&& item.end_cycle.quarters() == old(self).end_quarters()
                        &&& final(self).path_start() == old(self).path_end()
                    }
                },
                None => {
                    &&& final(self).is_done()
                    &&& final(self).box_count() == old(self).box_count()
                    &&& final(self).path_start() == old(self).path_start()
                },
            },
    {
        let mut prev = match self.prev {
            Some(p) => p,
            None => return None,
        };
        loop
            invariant
                self.inv(),
                self.prev == Some(prev),
                old(self).prev is Some,
                self.forward.start_x == old(self).forward.start_x,
                self.box_index == old(self).box_index,
                self.content() == old(self).content(),
                self.end_quarters() == old(self).end_quarters(),
                self.path_end() == old(self).path_end(),
                self.remaining() <= old(self).remaining(),
                self.params() == old(self).params(),
                self.states@ == old(self).states@,
                self.remaining_shapes() == old(self).remaining_shapes(),
            decreases self.n() - self.pos,
        {
            if self.pos < self.states.len() {
                let state = self.states[self.pos];
                let ghost k = self.pos as int;
                proof {
                    self.lemma_widths(k);
                }
                let ghost before = self.remaining_shapes();
                let ghost co = self.cycle_offset;
                let wave_segment = self.transition(prev, state);
                self.wave_path(state, Ghost(k));
                let new_prev = match state {
                    PathState::Continue | PathState::Gap => prev,
                    _ => state,
                };
                let len = self.cycle_length(new_prev);
                self.prev = Some(new_prev);
                self.pos = self.pos + 1;
                let ghost next_co = next_offset(co, new_prev, self.params().3);
                match wave_segment {
                    Some(segment) => {
                        let item = SignalSegmentItem { end_cycle: self.cycle_offset, segment };
                        self.cycle_offset.add_assign(len);
                        proof {
                            CycleOffset::lemma_from_quarters(self.cycle_offset.quarters());
                            CycleOffset::lemma_quarters_injective(self.cycle_offset, next_co);
                            assert(before == seq![item.segment.shape()] + self.remaining_shapes());
                        }
                        return Some(item);
                    },
                    None => {
                        self.cycle_offset.add_assign(len);
                        proof {
                            CycleOffset::lemma_from_quarters(self.cycle_offset.quarters());
                            CycleOffset::lemma_quarters_injective(self.cycle_offset, next_co);
                        }
                        prev = new_prev;
                    },
                }
            } else {
                let ghost before = self.remaining_shapes();
                let segment = self.end(prev);
                self.prev = None;
                assert(before =~= seq![segment.shape()] + self.remaining_shapes());
                return Some(SignalSegmentItem { end_cycle: self.cycle_offset, segment });
            }
        }
    }
}

} // verus!

verus! {

/// The rank of segment `k` among the data box segments of `segs`.
pub open spec fn data_rank(segs: Seq<WavePathSegment>, k: int) -> nat
    decreases k,
{
    if k <= 0 {
        0
    } else {
        next_rank(data_rank(segs, k - 1), segs[k - 1].spec_background())
    }
}

/// The segments follow each other without gaps or overlaps, from `start` to `end`.
pub open spec fn segments_contiguous(segs: Seq<WavePathSegment>, start: int, end: int) -> bool {
    &&& segs.len() > 0 ==> segs[0].spec_x() == start
    &&& forall|k: int|
        1 <= k < segs.len() ==> #[trigger] segs[k].spec_x() == segs[k - 1].spec_x() + segs[k
            - 1].spec_width()
    &&& segs.len() > 0 ==> segs.last().spec_x() + segs.last().spec_width() == end
}

/// The data box segments hold the data fields in order; the other segments hold no text.
pub open spec fn texts_follow(segs: Seq<WavePathSegment>, content: Seq<String>) -> bool {
    forall|k: int|
        0 <= k < segs.len() ==> #[trigger] segs[k].spec_text() == expected_text(
            content,
            data_rank(segs, k),
            segs[k].spec_background(),
        )
}

/// A signal to be shaped: its states, period, phase and the data fields for its data boxes.
pub struct WavePath<'a> {
    states: Vec<PathState>,
    period: u16,
    phase: CycleOffset,
    data: &'a [String],
}

impl<'a> WavePath<'a> {
    /// The states of the signal.
    pub closed spec fn spec_states(&self) -> Seq<PathState> {
        self.states@
    }

    /// The period of the clock states of the signal.
    pub closed spec fn spec_period(&self) -> u16 {
        self.period
    }

    /// The phase of the signal.
    pub closed spec fn spec_phase(&self) -> CycleOffset {
        self.phase
    }

    /// The data fields of the signal.
    pub closed spec fn spec_data(&self) -> Seq<String> {
        self.data@
    }

    /// Does the signal fit in the coordinates of its path with `options`?
    pub open spec fn fits(&self, options: WaveOptions) -> bool {
        path_fits(self.spec_states(), self.spec_period(), self.spec_phase(), options)
    }

    /// Create a new signal to be shaped. The period is at least one cycle.
    pub fn new(states: Vec<PathState>, period: u16, phase: CycleOffset, data: &'a [String]) -> (r:
        WavePath<'a>)
        requires
            period >= 1,
        ensures
            r.spec_states() == states@,
            r.spec_period() == period,
            r.spec_phase() == phase,
            r.spec_data() == data@,
    {
        WavePath { states, period, data, phase }
    }

    /// Does the signal have no states?
    pub fn is_empty(&self) -> (r: bool)
        ensures
            r == (self.spec_states().len() == 0),
    {
        self.states.len() == 0
    }

    /// The number of states of the signal.
    pub fn len(&self) -> (r: usize)
        ensures
            r == self.spec_states().len(),
    {
        self.states.len()
    }

    /// An iterator over the segments of the signal, shaped with `options`.
    pub fn iter(&'a self, options: &'a WaveOptions) -> (r: SignalSegmentIter<'a>)
        requires
            self.fits(*options),
        ensures
            r.inv(),
            r.content() == self.spec_data(),
            r.box_count() == 0,
            r.path_start() == phase_x(self.spec_phase(), options.cycle_width),
            r.path_end() == phase_x(self.spec_phase(), options.cycle_width) + total_width(
                self.spec_states(),
                options.cycle_width as int,
                self.spec_period() as int,
                self.spec_states().len() as int,
            ),
            r.end_quarters() == self.spec_phase().quarters() + 4 * total_cycles(
                self.spec_states(),
                self.spec_period() as nat,
                self.spec_states().len() as int,
            ),
            r.is_done() <==> self.spec_states().len() == 0,
            r.remaining_shapes() == shape_signal(
                self.spec_states(),
                self.spec_period(),
                self.spec_phase(),
                *options,
            ),
    {
        proof {
            lemma_total_width_monotone(
                self.states@,
                options.cycle_width as int,
                self.period as int,
                0,
                self.states@.len() as int,
            );
        }
        let x0 = self.phase.width_offset(options.cycle_width as u32) as i32;
        let ghost n = self.states@.len() as int;
        let ghost w = options.cycle_width as int;
        let ghost t = options.transition_offset as int;
        let ghost h = options.wave_height as int;
        let ghost bound = x0 + total_width(self.states@, w, self.period as int, n) + 8 * t + 3 * h
            + n + 2;
        proof {
            lemma_total_width_monotone(self.states@, w, self.period as int, 0, n);
        }
        let mut iter = SignalSegmentIter {
            states: self.states.as_slice(),
            pos: 0,
            cycle_offset: self.phase,
            period: self.period,
            prev: None,
            forward: PathData::new(x0, 0),
            backward: PathData::new(0, 0),
            box_index: 0,
            box_content: self.data,
            clock_edge_markers: Vec::new(),
            gaps: Vec::new(),
            options,
            phase: Ghost(self.phase),
            x0: Ghost(x0 as int),
            bound: Ghost(bound),
        };
        if self.states.len() == 0 {
            return iter;
        }
        let first_state = self.states[0];
        let first = match first_state {
            PathState::Continue | PathState::Gap => PathState::X,
            _ => first_state,
        };
        iter.prev = Some(first);
        iter.begin(first_state);
        iter.wave_path(first_state, Ghost(0));
        proof {
            iter.lemma_widths(0);
        }
        let len = iter.cycle_length(first);
        iter.pos = 1;
        iter.cycle_offset.add_assign(len);
        proof {
            let np = next_offset(self.phase, first, self.period as i32);
            CycleOffset::lemma_from_quarters(iter.cycle_offset.quarters());
            CycleOffset::lemma_quarters_injective(iter.cycle_offset, np);
        }
        iter
    }

    /// Shape the signal with `options`.
    ///
    /// The segments follow each other from the `x` position of the phase to the end of the
    /// signal, which lies a state width further for each state; the data box segments take the
    /// data fields in order; and the path ends at the phase plus the cycles of all states.
    pub fn assemble_with_options(&self, options: &WaveOptions) -> (r: AssembledWavePath)
        requires
            self.fits(*options),
        ensures
            (r.spec_segments().len() == 0) == (self.spec_states().len() == 0),
            r.spec_end_offset().quarters() == if self.spec_states().len() == 0 {
                0
            } else {
                self.spec_phase().quarters() + 4 * total_cycles(
                    self.spec_states(),
                    self.spec_period() as nat,
                    self.spec_states().len() as int,
                )
            },
            segments_contiguous(
                r.spec_segments(),
                phase_x(self.spec_phase(), options.cycle_width),
                phase_x(self.spec_phase(), options.cycle_width) + total_width(
                    self.spec_states(),
                    options.cycle_width as int,
                    self.spec_period() as int,
                    self.spec_states().len() as int,
                ),
            ),
            texts_follow(r.spec_segments(), self.spec_data()),
            r.spec_segments().map_values(|seg: WavePathSegment| seg.shape()) == shape_signal(
                self.spec_states(),
                self.spec_period(),
                self.spec_phase(),
                *options,
            ),
    {
        let mut iter = self.iter(options);
        let mut end_offset = CycleOffset::zero();
        let mut segments: Vec<WavePathSegment> = Vec::new();
        let ghost start = iter.path_start();
        loop
            invariant
                iter.inv(),
                iter.content() == self.spec_data(),
                iter.path_end() == phase_x(self.spec_phase(), options.cycle_width) + total_width(
                    self.spec_states(),
                    options.cycle_width as int,
                    self.spec_period() as int,
                    self.spec_states().len() as int,
                ),
                iter.end_quarters() == self.spec_phase().quarters() + 4 * total_cycles(
                    self.spec_states(),
                    self.spec_period() as nat,
                    self.spec_states().len() as int,
                ),
                start == phase_x(self.spec_phase(), options.cycle_width),
                segments@.len() == 0 ==> iter.path_start() == start && end_offset.quarters() == 0,
                segments@.len() > 0 ==> segments@[0].spec_x() == start,
                segments@.len() > 0 ==> segments@.last().spec_x() + segments@.last().spec_width()
                    == iter.path_start(),
                forall|k: int|
                    1 <= k < segments@.len() ==> #[trigger] segments@[k].spec_x() == segments@[k
                        - 1].spec_x() + segments@[k - 1].spec_width(),
                texts_follow(segments@, self.spec_data()),
                iter.box_count() == data_rank(segments@, segments@.len() as int),
                self.spec_states().len() == 0 ==> segments@.len() == 0,
                self.spec_states().len() > 0 && iter.is_done() ==> segments@.len() > 0
                    && end_offset.quarters() == iter.end_quarters(),
                self.spec_states().len() == 0 ==> iter.is_done(),
                segments@.map_values(|seg: WavePathSegment| seg.shape()) + iter.remaining_shapes()
                    == shape_signal(
                    self.spec_states(),
                    self.spec_period(),
                    self.spec_phase(),
                    *options,
                ),
            ensures
                iter.is_done(),
                segments@.map_values(|seg: WavePathSegment| seg.shape()) == shape_signal(
                    self.spec_states(),
                    self.spec_period(),
                    self.spec_phase(),
                    *options,
                ),
            decreases iter.remaining(),
        {
            match iter.next() {
                Some(item) => {
                    end_offset = item.end_cycle;
                    let ghost old_segs = segments@;
                    segments.push(item.segment);
                    assert(segments@.map_values(|seg: WavePathSegment| seg.shape()) =~= old_segs.map_values(
                        |seg: WavePathSegment| seg.shape(),
                    ).push(item.segment.shape()));
                    assert(data_rank(segments@, old_segs.len() as int) == data_rank(
                        old_segs,
                        old_segs.len() as int,
                    )) by {
                        lemma_data_rank_prefix(segments@, old_segs, old_segs.len() as int);
                    }
                    assert forall|k: int| 0 <= k < segments@.len() implies #[trigger] segments@[k].spec_text()
                        == expected_text(
                        self.spec_data(),
                        data_rank(segments@, k),
                        segments@[k].spec_background(),
                    ) by {
                        if k < old_segs.len() {
                            lemma_data_rank_prefix(segments@, old_segs, k);
                        }
                    }
                },
                None => {
                    assert(segments@.map_values(|seg: WavePathSegment| seg.shape()) + iter.remaining_shapes()
                        =~= segments@.map_values(|seg: WavePathSegment| seg.shape()));
                    break ;
                },
            }
        }
        AssembledWavePath { end_offset, segments }
    }

    /// Shape the signal with the default options.
    pub fn assemble(&self) -> (r: AssembledWavePath)
        requires
            path_fits_dims(self.spec_states(), self.spec_period(), self.spec_phase(), 48, 4, 24),
        ensures
            (r.spec_segments().len() == 0) == (self.spec_states().len() == 0),
            texts_follow(r.spec_segments(), self.spec_data()),
            r.spec_segments().map_values(|seg: WavePathSegment| seg.shape()) == shape_signal_dims(
                self.spec_states(),
                self.spec_period(),
                self.spec_phase(),
                48,
                24,
                4,
            ),
    {
        let options = WaveOptions::default();
        self.assemble_with_options(&options)
    }
}

/// The ranks of the first segments only depend on those segments.
pub proof fn lemma_data_rank_prefix(a: Seq<WavePathSegment>, b: Seq<WavePathSegment>, k: int)
    requires
        0 <= k <= b.len() <= a.len(),
        forall|j: int| 0 <= j < b.len() ==> a[j] == b[j],
    ensures
        data_rank(a, k) == data_rank(b, k),
    decreases k,
{
    if k > 0 {
        lemma_data_rank_prefix(a, b, k - 1);
    }
}

} // verus!

verus! {

/// Is `s` one of the continuation states?
fn is_continuation_state(s: PathState) -> (r: bool)
    ensures
        r == s.is_continuation(),
{
    match s {
        PathState::Continue | PathState::Gap => true,
        _ => false,
    }
}

/// Is `s` one of the clock states?
fn is_clock_state(s: PathState) -> (r: bool)
    ensures
        r == s.is_clock(),
{
    match s {
        PathState::PosedgeClockUnmarked | PathState::PosedgeClockMarked
        | PathState::NegedgeClockUnmarked | PathState::NegedgeClockMarked => true,
        _ => false,
    }
}

/// Does a signal with `states`, `period` and `phase` fit in the coordinates of its path when
/// shaped with `options`? See [`path_fits`].
pub fn check_path_fits(states: &[PathState], period: u16, phase: CycleOffset, options: &WaveOptions) -> (r:
    bool)
    ensures
        r == path_fits(states@, period, phase, *options),
{
    if period == 0 {
        return false;
    }
    let n = states.len();
    let limit: u64 = 0x7fff_ffff;
    if n as u64 > limit {
        proof {
            lemma_total_width_monotone(
                states@,
                options.cycle_width as int,
                period as int,
                0,
                n as int,
            );
        }
        return false;
    }
    let w = options.cycle_width as u64;
    let p = period as u64;
    assert(w * p <= 0xffff * 0xffff) by (nonlinear_arith)
        requires
            w <= 0xffff,
            p <= 0xffff,
    ;
    let clock_width = 2 * ((w * p) / 2);
    assert(clock_width <= w * p);
    let mut width: u64 = 0;
    let mut cycles: u64 = 0;
    let mut eff = PathState::X;
    let mut i: usize = 0;
    while i < n
        invariant
            n == states@.len(),
            i <= n,
            w == options.cycle_width,
            p == period,
            period >= 1,
            clock_width == 2 * ((w * p) / 2),
            clock_width <= 0xffff * 0xffff,
            eff == effective_state(states@, i - 1),
            width == total_width(states@, w as int, p as int, i as int),
            limit == 0x7fff_ffff,
            width <= limit,
            cycles == total_cycles(states@, p as nat, i as int),
            cycles <= u32::MAX,
        decreases n - i,
    {
        let s = states[i];
        if !is_continuation_state(s) {
            eff = s;
        }
        let (dw, dc): (u64, u64) = if is_clock_state(eff) {
            (clock_width, p)
        } else {
            (w, 1)
        };
        let ghost j = i as int;
        assert(eff == effective_state(states@, j));
        assert(dw <= 0xffff * 0xffff);
        width = width + dw;
        cycles = cycles + dc;
        i = i + 1;
        assert(width == total_width(states@, w as int, p as int, i as int));
        assert(cycles == total_cycles(states@, p as nat, i as int));
        if width > limit || cycles > u32::MAX as u64 {
            proof {
                lemma_total_width_monotone(states@, w as int, p as int, i as int, n as int);
                lemma_total_cycles_monotone(states@, p as nat, i as int, n as int);
            }
            return false;
        }
    }
    proof {
        phase.lemma_fits();
    }
    assert(phase.index_of() * w <= 0xffff_ffff * 0xffff) by (nonlinear_arith)
        requires
            phase.index_of() <= 0xffff_ffff,
            w <= 0xffff,
    ;
    let px = (phase.cycle_index() as u64) * w + (phase.in_cycle_offset().width_offset(
        w as u32,
    ) as u64);
    let t = options.transition_offset as u64;
    let h = options.wave_height as u64;
    let total = px + width + 8 * t + 3 * h + n as u64 + 2;
    let quarters = 4 * (phase.cycle_index() as u64) + (match phase.in_cycle_offset() {
        InCycleOffset::Begin => 0u64,
        InCycleOffset::Quarter => 1u64,
        InCycleOffset::Half => 2u64,
        InCycleOffset::ThreeQuarter => 3u64,
    }) + 4 * cycles;
    2 * total <= limit && quarters / 4 <= u32::MAX as u64
}

} // verus!

//! Figures: signals, possibly nested in labelled groups, with a title, a footer and cycle
//! markers, and their assembly into shaped lines ready to be drawn.
use vstd::prelude::*;
use vstd::string::StrSliceExecFns;

use crate::cycle_offset::CycleOffset;
use crate::edges::{EdgeDefinition, EdgeVariant};
use crate::markers::ClockEdge;
use crate::text::{push_char, push_str};
use crate::wavejson::{Config, Foot, Head};
use crate::path::{
    check_path_fits, path_fits_dims, phase_x, segments_contiguous, shape_signal_dims, texts_follow,
    total_cycles, total_width, AssembledWavePath, PathState, WaveOptions, WavePath,
    WavePathSegment,
};

verus! {

/// The states of a signal, one for each cycle.
#[derive(Debug, Clone)]
pub struct Cycles(Vec<PathState>);

impl View for Cycles {
    type V = Seq<PathState>;

    closed spec fn view(&self) -> Seq<PathState> {
        self.0@
    }
}

/// The state that a character of a wave string stands for. Unknown characters stand for the
/// undefined state.
pub open spec fn state_of_char(c: char) -> PathState {
    match c {
        '1' => PathState::Top,
        '0' => PathState::Bottom,
        'z' => PathState::Middle,
        'x' => PathState::X,
        'p' => PathState::PosedgeClockUnmarked,
        'P' => PathState::PosedgeClockMarked,
        'n' => PathState::NegedgeClockUnmarked,
        'N' => PathState::NegedgeClockMarked,
        '2' => PathState::Box2,
        '3' => PathState::Box3,
        '4' => PathState::Box4,
        '5' => PathState::Box5,
        '6' => PathState::Box6,
        '7' => PathState::Box7,
        '8' => PathState::Box8,
        '9' => PathState::Box9,
        '.' => PathState::Continue,
        '|' => PathState::Gap,
        _ => PathState::X,
    }
}

/// The state that a character of a wave string stands for.
fn char_state(c: char) -> (r: PathState)
    ensures
        r == state_of_char(c),
{
    match c {
        '1' => PathState::Top,
        '0' => PathState::Bottom,
        'z' => PathState::Middle,
        'x' => PathState::X,
        'p' => PathState::PosedgeClockUnmarked,
        'P' => PathState::PosedgeClockMarked,
        'n' => PathState::NegedgeClockUnmarked,
        'N' => PathState::NegedgeClockMarked,
        '2' => PathState::Box2,
        '3' => PathState::Box3,
        '4' => PathState::Box4,
        '5' => PathState::Box5,
        '6' => PathState::Box6,
        '7' => PathState::Box7,
        '8' => PathState::Box8,
        '9' => PathState::Box9,
        '.' => PathState::Continue,
        '|' => PathState::Gap,
        _ => PathState::X,
    }
}

impl Cycles {
    /// Create the cycles from a list of states.
    pub fn new(cycles: Vec<PathState>) -> (r: Cycles)
        ensures
            r@ == cycles@,
    {
        Cycles(cycles)
    }

    /// The cycles of a wave string: one state for each character.
    pub fn parse(s: &str) -> (r: Cycles)
        ensures
            r@ == s@.map_values(|c: char| state_of_char(c)),
    {
        let n = s.unicode_len();
        let mut cycles: Vec<PathState> = Vec::new();
        let mut i: usize = 0;
        while i < n
            invariant
                n == s@.len(),
                i <= n,
                cycles@ == s@.subrange(0, i as int).map_values(|c: char| state_of_char(c)),
            decreases n - i,
        {
            cycles.push(char_state(s.get_char(i)));
            i = i + 1;
            assert(cycles@ =~= s@.subrange(0, i as int).map_values(|c: char| state_of_char(c)));
        }
        assert(s@.subrange(0, n as int) =~= s@);
        Cycles(cycles)
    }

    /// The states.
    pub fn states(&self) -> (r: &[PathState])
        ensures
            r@ == self@,
    {
        self.0.as_slice()
    }
}

impl std::str::FromStr for Cycles {
    type Err = usize;

    fn from_str(s: &str) -> (r: Result<Cycles, usize>)
        ensures
            r matches Ok(c) && c@ == s@.map_values(|ch: char| state_of_char(ch)),
    {
        Ok(Cycles::parse(s))
    }
}

/// A named signal with its cycles, the data of its data boxes, the period of its clock states
/// and its phase.
#[derive(Debug, Clone)]
pub struct Wave {
    name: String,
    cycles: Cycles,
    data: Vec<String>,
    node: String,
    period: u16,
    phase: CycleOffset,
}

/// Whether there is an arrow at the end of an edge.
#[derive(Clone, Copy, Debug, PartialEq, Eq, Structural)]
pub enum EdgeMarker {
    /// A plain end.
    NoArrow,
    /// An arrow head.
    Arrow,
}

/// The clock edge of a cycle and whether it is marked with arrows.
#[derive(Clone, Copy, Debug, PartialEq, Eq, Structural)]
pub struct CycleClock {
    edge: ClockEdge,
    has_arrows: bool,
}

/// A line of a figure: a signal or a group of lines.
#[derive(Debug)]
pub enum WaveLine {
    Group(WaveLineGroup),
    Wave(Wave),
}

/// A group of lines with an optional label.
#[derive(Debug)]
pub struct WaveLineGroup(Option<String>, Vec<WaveLine>);

/// The enumeration of cycles above or below the signals: `start`, then one number every
/// `every` cycles.
#[derive(Debug, Clone, Copy, PartialEq, Eq, Structural)]
pub struct CycleMarker {
    start: u32,
    every: u32,
}

/// A timing diagram: its lines with an optional title, footer and cycle markers, a horizontal
/// scale, and the edges to draw between the nodes of its signals.
#[derive(Debug)]
pub struct Figure {
    title: Option<String>,
    footer: Option<String>,
    top_cycle_marker: Option<CycleMarker>,
    bottom_cycle_marker: Option<CycleMarker>,
    hscale: u16,
    lines: Vec<WaveLine>,
    edges: Vec<EdgeDefinition>,
}

impl Wave {
    /// The name of the signal.
    pub closed spec fn spec_name(&self) -> Seq<char> {
        self.name@
    }

    /// The states of the signal.
    pub closed spec fn spec_cycles(&self) -> Seq<PathState> {
        self.cycles@
    }

    /// The data of the data boxes of the signal.
    pub closed spec fn spec_data(&self) -> Seq<String> {
        self.data@
    }

    /// The edge nodes of the signal: one character for each cycle, `.` for none.
    pub closed spec fn spec_node(&self) -> Seq<char> {
        self.node@
    }

    /// The period of the clock states of the signal.
    pub closed spec fn spec_period(&self) -> u16 {
        self.period
    }

    /// The phase of the signal.
    pub closed spec fn spec_phase(&self) -> CycleOffset {
        self.phase
    }

    /// Create a new signal. A period of zero is taken as one; the phase is in quarter cycles.
    pub fn new(name: String, cycles: Cycles, data: Vec<String>, period: u16, phase: u16) -> (r:
        Wave)
        ensures
            r.spec_name() == name@,
            r.spec_cycles() == cycles@,
            r.spec_data() == data@,
            r.spec_period() == if period == 0 {
                1
            } else {
                period
            },
            r.spec_phase().quarters() == phase,
            r.spec_node() == Seq::<char>::empty(),
    {
        let period = if period == 0 {
            1
        } else {
            period
        };
        let phase = CycleOffset::from_quarter_count(phase as u32);
        Wave { name, cycles, data, node: String::new(), period, phase }
    }

    /// The signal with the edge nodes `node`.
    pub fn with_node(self, node: String) -> (r: Wave)
        ensures
            r.spec_name() == self.spec_name(),
            r.spec_cycles() == self.spec_cycles(),
            r.spec_data() == self.spec_data(),
            r.spec_period() == self.spec_period(),
            r.spec_phase() == self.spec_phase(),
            r.spec_node() == node@,
    {
        Wave { node, ..self }
    }

    /// Does `r` differ from `self` at most in its cycles?
    pub open spec fn same_but_cycles(self, r: Wave) -> bool {
        &&& r.spec_name() == self.spec_name()
        &&& r.spec_data() == self.spec_data()
        &&& r.spec_node() == self.spec_node()
        &&& r.spec_period() == self.spec_period()
        &&& r.spec_phase() == self.spec_phase()
    }

    /// Is `w` unnamed, without data or nodes, of period one and phase zero?
    pub open spec fn is_blank_but_cycles(w: Wave) -> bool {
        &&& w.spec_name() == Seq::<char>::empty()
        &&& w.spec_data() == Seq::<String>::empty()
        &&& w.spec_node() == Seq::<char>::empty()
        &&& w.spec_period() == 1
        &&& w.spec_phase().quarters() == 0
    }

    /// Is `w` the unnamed signal without cycles, data or nodes, of period one and phase zero?
    pub open spec fn is_blank(w: Wave) -> bool {
        &&& Wave::is_blank_but_cycles(w)
        &&& w.spec_cycles() == Seq::<PathState>::empty()
    }

    /// The signal whose cycles are formed from the characters of `states`, one state for each
    /// character, with nothing else set.
    pub fn with_cycle_str(states: &str) -> (r: Wave)
        ensures
            r.spec_cycles() == states@.map_values(|c: char| state_of_char(c)),
            Wave::is_blank_but_cycles(r),
    {
        let w = Wave::default();
        Wave { cycles: Cycles::parse(states), ..w }
    }

    /// The signal with `cycles` added after its cycles.
    pub fn add_cycles(self, cycles: Vec<PathState>) -> (r: Wave)
        ensures
            r.spec_cycles() == self.spec_cycles() + cycles@,
            self.same_but_cycles(r),
    {
        let mut w = self;
        let mut more = cycles;
        w.cycles.0.append(&mut more);
        w
    }

    /// The signal with `cycle` added after its cycles.
    pub fn add_cycle(self, cycle: PathState) -> (r: Wave)
        ensures
            r.spec_cycles() == self.spec_cycles().push(cycle),
            self.same_but_cycles(r),
    {
        let mut w = self;
        w.cycles.0.push(cycle);
        w
    }

    /// The signal with `n` copies of `cycle` added after its cycles.
    pub fn add_n_cycles(self, n: usize, cycle: PathState) -> (r: Wave)
        ensures
            r.spec_cycles() == self.spec_cycles() + Seq::new(n as nat, |i: int| cycle),
            self.same_but_cycles(r),
    {
        let mut w = self;
        let ghost start = w.cycles@;
        let mut i: usize = 0;
        while i < n
            invariant
                i <= n,
                w.cycles@ == start + Seq::new(i as nat, |k: int| cycle),
                self.same_but_cycles(w),
            decreases n - i,
        {
            w.cycles.0.push(cycle);
            i = i + 1;
            assert(w.cycles@ =~= start + Seq::new(i as nat, |k: int| cycle));
        }
        w
    }

    /// The signal with the edge nodes `nodes` added after its nodes.
    pub fn add_nodes(self, nodes: &str) -> (r: Wave)
        ensures
            r.spec_node() == self.spec_node() + nodes@,
            r.spec_name() == self.spec_name(),
            r.spec_cycles() == self.spec_cycles(),
            r.spec_data() == self.spec_data(),
            r.spec_period() == self.spec_period(),
            r.spec_phase() == self.spec_phase(),
    {
        let mut w = self;
        push_str(&mut w.node, nodes);
        w
    }

    /// The signal with the edge node `node` added after its nodes, `.` standing for none.
    pub fn add_node(self, node: Option<char>) -> (r: Wave)
        ensures
            r.spec_node() == self.spec_node().push(
                match node {
                    Some(c) => c,
                    None => '.',
                },
            ),
            r.spec_name() == self.spec_name(),
            r.spec_cycles() == self.spec_cycles(),
            r.spec_data() == self.spec_data(),
            r.spec_period() == self.spec_period(),
            r.spec_phase() == self.spec_phase(),
    {
        let mut w = self;
        let c = match node {
            Some(c) => c,
            None => '.',
        };
        push_char(&mut w.node, c);
        w
    }

    /// The signal with the data `fields` added after its data.
    pub fn add_data_fields(self, fields: Vec<String>) -> (r: Wave)
        ensures
            r.spec_data() == self.spec_data() + fields@,
            r.spec_name() == self.spec_name(),
            r.spec_cycles() == self.spec_cycles(),
            r.spec_node() == self.spec_node(),
            r.spec_period() == self.spec_period(),
            r.spec_phase() == self.spec_phase(),
    {
        let mut w = self;
        let mut more = fields;
        w.data.append(&mut more);
        w
    }

    /// The signal with the data field `data` added after its data.
    pub fn add_data_field(self, data: String) -> (r: Wave)
        ensures
            r.spec_data() == self.spec_data().push(data),
            r.spec_name() == self.spec_name(),
            r.spec_cycles() == self.spec_cycles(),
            r.spec_node() == self.spec_node(),
            r.spec_period() == self.spec_period(),
            r.spec_phase() == self.spec_phase(),
    {
        let mut w = self;
        w.data.push(data);
        w
    }

    /// The signal holding `state` `repeats` times, with nothing else set.
    pub fn repeated(state: PathState, repeats: usize) -> (r: Wave)
        ensures
            r.spec_cycles() == Seq::new(repeats as nat, |i: int| state),
            Wave::is_blank_but_cycles(r),
    {
        let w = Wave::default();
        let r = w.add_n_cycles(repeats, state);
        assert(r.spec_cycles() =~= Seq::new(repeats as nat, |i: int| state));
        r
    }

    /// The signal with the period `period`, zero being taken as one.
    pub fn period(self, period: u16) -> (r: Wave)
        ensures
            r.spec_period() == if period == 0 {
                1
            } else {
                period
            },
            r.spec_name() == self.spec_name(),
            r.spec_cycles() == self.spec_cycles(),
            r.spec_data() == self.spec_data(),
            r.spec_node() == self.spec_node(),
            r.spec_phase() == self.spec_phase(),
    {
        let period = if period == 0 {
            1
        } else {
            period
        };
        Wave { period, ..self }
    }

    /// The signal with the phase `phase`.
    pub fn phase(self, phase: CycleOffset) -> (r: Wave)
        ensures
            r.spec_phase() == phase,
            r.spec_name() == self.spec_name(),
            r.spec_cycles() == self.spec_cycles(),
            r.spec_data() == self.spec_data(),
            r.spec_node() == self.spec_node(),
            r.spec_period() == self.spec_period(),
    {
        Wave { phase, ..self }
    }

    /// The signal with the name `name`.
    pub fn name(self, name: String) -> (r: Wave)
        ensures
            r.spec_name() == name@,
            r.spec_cycles() == self.spec_cycles(),
            r.spec_data() == self.spec_data(),
            r.spec_node() == self.spec_node(),
            r.spec_period() == self.spec_period(),
            r.spec_phase() == self.spec_phase(),
    {
        Wave { name, ..self }
    }

    /// The name of the signal.
    pub fn get_name(&self) -> (r: &str)
        ensures
            r@ == self.spec_name(),
    {
        self.name.as_str()
    }

    /// The edge nodes of the signal.
    pub fn get_nodes(&self) -> (r: &str)
        ensures
            r@ == self.spec_node(),
    {
        self.node.as_str()
    }

    /// The data of the data boxes of the signal.
    pub fn get_data_fields(&self) -> (r: &[String])
        ensures
            r@ == self.spec_data(),
    {
        self.data.as_slice()
    }

    /// The phase of the signal.
    pub fn get_phase(&self) -> (r: CycleOffset)
        ensures
            r == self.spec_phase(),
    {
        self.phase
    }

    /// The period of the clock states of the signal.
    pub fn get_period(&self) -> (r: u16)
        ensures
            r == self.spec_period(),
    {
        self.period
    }

    /// The states of the signal.
    pub fn cycles(&self) -> (r: &[PathState])
        ensures
            r@ == self.spec_cycles(),
    {
        self.cycles.0.as_slice()
    }
}

impl Default for Figure {
    fn default() -> (r: Figure)
        ensures
            r.spec_title().is_none(),
            r.spec_footer().is_none(),
            r.spec_top_cycle_marker().is_none(),
            r.spec_bottom_cycle_marker().is_none(),
            r.spec_hscale() == 1,
            r.spec_lines() == Seq::<WaveLine>::empty(),
            r.spec_edges() == Seq::<EdgeDefinition>::empty(),
    {
        Figure::from_lines(Vec::new())
    }
}

impl Default for Wave {
    fn default() -> (r: Wave)
        ensures
            Wave::is_blank(r),
    {
        Wave {
            name: String::new(),
            cycles: Cycles(Vec::new()),
            data: Vec::new(),
            node: String::new(),
            period: 1,
            phase: CycleOffset::zero(),
        }
    }
}

impl WaveLineGroup {
    /// The label of the group.
    pub closed spec fn spec_label(&self) -> Option<String> {
        self.0
    }

    /// The lines of the group.
    pub closed spec fn spec_lines(&self) -> Seq<WaveLine> {
        self.1@
    }

    /// Create a group of `lines` with an optional `label`.
    pub fn new(label: Option<String>, lines: Vec<WaveLine>) -> (r: WaveLineGroup)
        ensures
            r.spec_label() == label,
            r.spec_lines() == lines@,
    {
        WaveLineGroup(label, lines)
    }
}

/// The step of a cycle enumeration asked to number every `every` cycles: zero counts as one.
pub open spec fn step_of(every: u32) -> u32 {
    if every == 0 {
        1
    } else {
        every
    }
}

impl CycleMarker {
    /// The first number of the enumeration.
    pub closed spec fn spec_start(self) -> u32 {
        self.start
    }

    /// The step of the enumeration.
    pub closed spec fn spec_every(self) -> u32 {
        self.every
    }

    /// Create an enumeration starting at `start` with one number every `every` cycles; a step
    /// of zero numbers every cycle, as a step of one does.
    pub fn new(start: u32, every: u32) -> (r: CycleMarker)
        ensures
            r.spec_start() == start,
            r.spec_every() == step_of(every),
    {
        let every = if every == 0 {
            1
        } else {
            every
        };
        CycleMarker { start, every }
    }

    /// The first number of the enumeration.
    pub fn start(self) -> (r: u32)
        ensures
            r == self.spec_start(),
    {
        self.start
    }

    /// The step of the enumeration.
    pub fn every(self) -> (r: u32)
        ensures
            r == self.spec_every(),
            r >= 1,
    {
        proof {
            use_type_invariant(&self);
        }
        self.every
    }

    /// An enumeration numbers at least every cycle: its step is never zero.
    #[verifier::type_invariant]
    closed spec fn step_positive(self) -> bool {
        self.every >= 1
    }
}

/// The waves shown for `line` when it stands at group depth `depth`, in order, each with the
/// depth it stands at: every wave, at any depth.
pub closed spec fn line_waves(line: WaveLine, depth: int) -> Seq<(Wave, int)>
    decreases line, 1int,
{
    match line {
        WaveLine::Wave(w) => seq![(w, depth)],
        WaveLine::Group(g) => lines_waves(g.1@, depth + 1),
    }
}

/// The waves shown for `lines` standing at group depth `depth`, in order.
pub closed spec fn lines_waves(lines: Seq<WaveLine>, depth: int) -> Seq<(Wave, int)>
    decreases lines, 0int,
{
    if lines.len() == 0 {
        seq![]
    } else {
        lines_waves(lines.subrange(0, lines.len() - 1), depth) + line_waves(
            lines[lines.len() - 1],
            depth,
        )
    }
}

/// The label of a group, by its view.
pub open spec fn label_view(label: Option<String>) -> Option<Seq<char>> {
    match label {
        Some(l) => Some(l@),
        None => None,
    }
}

/// The group markers for `line` when it stands at group depth `depth` and its first wave is
/// line `base` of the figure, each as its depth, label, first line and one past its last line.
/// A group's marker follows the markers of the groups it holds.
pub closed spec fn line_groups(line: WaveLine, depth: int, base: int) -> Seq<
    (int, Option<Seq<char>>, int, int),
>
    decreases line, 1int,
{
    match line {
        WaveLine::Wave(_) => seq![],
        WaveLine::Group(g) => lines_groups(g.1@, depth + 1, base).push(
            (depth, label_view(g.0), base, base + lines_waves(g.1@, depth + 1).len()),
        ),
    }
}

/// The group markers for `lines` standing at group depth `depth`, from line `base` on.
pub closed spec fn lines_groups(lines: Seq<WaveLine>, depth: int, base: int) -> Seq<
    (int, Option<Seq<char>>, int, int),
>
    decreases lines, 0int,
{
    if lines.len() == 0 {
        seq![]
    } else {
        let prefix = lines.subrange(0, lines.len() - 1);
        lines_groups(prefix, depth, base) + line_groups(
            lines[lines.len() - 1],
            depth,
            base + lines_waves(prefix, depth).len(),
        )
    }
}

/// The larger of two integers.
pub open spec fn max_int(a: int, b: int) -> int {
    if a >= b {
        a
    } else {
        b
    }
}

/// The nesting depth reached by `line` standing at depth `depth`: its own depth for a wave and
/// one more than that for a group, or what the lines of the group reach when that is more.
pub closed spec fn line_depth(line: WaveLine, depth: int) -> int
    decreases line, 1int,
{
    match line {
        WaveLine::Wave(_) => depth,
        WaveLine::Group(g) => max_int(depth + 1, lines_depth(g.1@, depth + 1)),
    }
}

/// The largest nesting depth reached by `lines` standing at depth `depth`, or zero.
pub closed spec fn lines_depth(lines: Seq<WaveLine>, depth: int) -> int
    decreases lines, 0int,
{
    if lines.len() == 0 {
        0
    } else {
        max_int(
            lines_depth(lines.subrange(0, lines.len() - 1), depth),
            line_depth(lines[lines.len() - 1], depth),
        )
    }
}

/// The nesting depth reached by lines is at least that of each of them.
proof fn lemma_lines_depth_ge(lines: Seq<WaveLine>, depth: int, k: int)
    requires
        0 <= k < lines.len(),
    ensures
        line_depth(lines[k], depth) <= lines_depth(lines, depth),
    decreases lines.len(),
{
    let pre = lines.subrange(0, lines.len() - 1);
    if k < lines.len() - 1 {
        lemma_lines_depth_ge(pre, depth, k);
        assert(pre[k] == lines[k]);
    }
}

/// `labels` after a group at `depth` was met, which has a label when `has` holds.
pub open spec fn set_label(labels: Seq<bool>, depth: int, has: bool) -> Seq<bool> {
    if depth < labels.len() {
        labels.update(depth, labels[depth] || has)
    } else {
        labels.push(has)
    }
}

/// For each depth, whether a group at that depth has a label, after `line` at `depth` was met.
pub closed spec fn line_labels(line: WaveLine, depth: int, labels: Seq<bool>) -> Seq<bool>
    decreases line, 1int,
{
    match line {
        WaveLine::Wave(_) => labels,
        WaveLine::Group(g) => lines_labels(g.1@, depth + 1, set_label(labels, depth, g.0 is Some)),
    }
}

/// For each depth, whether a group at that depth has a label, after `lines` were met.
pub closed spec fn lines_labels(lines: Seq<WaveLine>, depth: int, labels: Seq<bool>) -> Seq<
    bool,
>
    decreases lines, 0int,
{
    if lines.len() == 0 {
        labels
    } else {
        line_labels(
            lines[lines.len() - 1],
            depth,
            lines_labels(lines.subrange(0, lines.len() - 1), depth, labels),
        )
    }
}

/// Is a state of `w` drawn undefined: an undefined state, or a continuation at the very start
/// (which is drawn as the undefined state)?
pub open spec fn wave_has_undefined(w: Wave) -> bool {
    let c = w.spec_cycles();
    (c.len() > 0 && c[0].is_continuation()) || c.contains(PathState::X)
}

/// Does `w` have the state `s`?
pub open spec fn wave_has_state(w: Wave, s: PathState) -> bool {
    w.spec_cycles().contains(s)
}

/// Does `w` fit in the coordinates of its path with cycles `cw` wide, transitions `t` wide and a
/// height of `h`?
pub open spec fn wave_fits(w: Wave, cw: u16, t: u16, h: u16) -> bool {
    path_fits_dims(w.spec_cycles(), w.spec_period(), w.spec_phase(), cw, t, h)
}

/// Do the waves `flat`, shown from line `base` on, all fit, with a line count that fits a `u32`?
pub open spec fn waves_fit(flat: Seq<(Wave, int)>, base: int, cw: u16, t: u16, h: u16) -> bool {
    &&& base + flat.len() <= u32::MAX
    &&& forall|k: int| 0 <= k < flat.len() ==> #[trigger] wave_fits(flat[k].0, cw, t, h)
}

/// The quarter cycle where the shaped `w` ends.
pub open spec fn wave_end_quarters(w: Wave) -> nat {
    if w.spec_cycles().len() == 0 {
        0
    } else {
        w.spec_phase().quarters() + 4 * total_cycles(
            w.spec_cycles(),
            w.spec_period() as nat,
            w.spec_cycles().len() as int,
        )
    }
}

/// Is `path` the shape of `w` with cycles `cw` wide, signals `h` high and transitions `t` wide?
pub open spec fn assembled_from(path: AssembledWavePath, w: Wave, cw: u16, h: u16, t: u16) -> bool {
    let states = w.spec_cycles();
    let start = phase_x(w.spec_phase(), cw);
    &&& path.spec_segments().map_values(|seg: WavePathSegment| seg.shape()) == shape_signal_dims(
        states,
        w.spec_period(),
        w.spec_phase(),
        cw,
        h,
        t,
    )
    &&& (path.spec_segments().len() == 0) == (states.len() == 0)
    &&& path.spec_end_offset().quarters() == wave_end_quarters(w)
    &&& segments_contiguous(
        path.spec_segments(),
        start,
        start + total_width(states, cw as int, w.spec_period() as int, states.len() as int),
    )
    &&& texts_follow(path.spec_segments(), w.spec_data())
}

/// The largest number of cycles that the waves of `flat` span, rounded up, or zero.
pub open spec fn max_num_cycles(flat: Seq<(Wave, int)>) -> nat
    decreases flat.len(),
{
    if flat.len() == 0 {
        0
    } else {
        let a = max_num_cycles(flat.drop_last());
        let b = (wave_end_quarters(flat.last().0) + 3) / 4;
        if a >= b {
            a
        } else {
            b
        }
    }
}

/// The cycle count of `flat` is the largest cycle count of its waves, or zero without waves.
proof fn lemma_max_num_cycles(flat: Seq<(Wave, int)>)
    ensures
        forall|k: int|
            0 <= k < flat.len() ==> (wave_end_quarters(#[trigger] flat[k].0) + 3) / 4
                <= max_num_cycles(flat),
        flat.len() == 0 ==> max_num_cycles(flat) == 0,
        flat.len() > 0 ==> exists|k: int|
            0 <= k < flat.len() && (wave_end_quarters(#[trigger] flat[k].0) + 3) / 4
                == max_num_cycles(flat),
    decreases flat.len(),
{
    if flat.len() > 0 {
        let init = flat.drop_last();
        lemma_max_num_cycles(init);
        assert forall|k: int| 0 <= k < flat.len() implies (wave_end_quarters(#[trigger] flat[k].0)
            + 3) / 4 <= max_num_cycles(flat) by {
            if k < init.len() {
                assert(init[k] == flat[k]);
            }
        }
        let last = flat.len() - 1;
        if init.len() > 0 && max_num_cycles(init) >= (wave_end_quarters(flat.last().0) + 3) / 4 {
            let k = choose|k: int|
                0 <= k < init.len() && (wave_end_quarters(#[trigger] init[k].0) + 3) / 4
                    == max_num_cycles(init);
            assert(init[k] == flat[k]);
        } else {
            assert(flat[last] == flat.last());
        }
    }
}

/// A group of lines `start..end` at a nesting depth, with an optional label.
#[derive(Debug, Clone, Copy)]
pub struct WaveGroup<'a> {
    depth: u32,
    label: Option<&'a str>,
    start: u32,
    end: u32,
}

/// A shaped line of an assembled figure: the name of its signal, its group depth and its path.
#[derive(Debug, Clone)]
pub struct AssembledLine<'a> {
    text: &'a str,
    node: &'a str,
    phase: CycleOffset,
    depth: u32,
    path: AssembledWavePath,
}

/// Which kinds of states a figure shows.
#[derive(Debug, Clone, Copy)]
struct Definitions {
    has_undefined: bool,
    has_gaps: bool,
    has_posedge_marker: bool,
    has_negedge_marker: bool,
}

impl<'a> WaveGroup<'a> {
    #[verifier::type_invariant]
    closed spec fn wf(&self) -> bool {
        self.start <= self.end
    }

    /// The nesting depth of the group.
    pub closed spec fn spec_depth(&self) -> u32 {
        self.depth
    }

    /// The label of the group.
    pub closed spec fn spec_label(&self) -> Option<Seq<char>> {
        match self.label {
            Some(l) => Some(l@),
            None => None,
        }
    }

    /// The first line of the group.
    pub closed spec fn spec_start(&self) -> u32 {
        self.start
    }

    /// One past the last line of the group.
    pub closed spec fn spec_end(&self) -> u32 {
        self.end
    }

    /// Does the group stand for the marker `m` (depth, label, first line, end)?
    pub open spec fn matches(&self, m: (int, Option<Seq<char>>, int, int)) -> bool {
        &&& self.spec_depth() == m.0
        &&& self.spec_label() == m.1
        &&& self.spec_start() == m.2
        &&& self.spec_end() == m.3
    }

    /// The number of lines in the group.
    pub fn len(&self) -> (r: u32)
        ensures
            r == self.spec_end() - self.spec_start(),
    {
        proof {
            use_type_invariant(self);
        }
        self.end - self.start
    }

    /// Does the group hold no lines?
    pub fn is_empty(&self) -> (r: bool)
        ensures
            r == (self.spec_start() == self.spec_end()),
    {
        self.start == self.end
    }

    /// The label of the group.
    pub fn label(&self) -> (r: Option<&'a str>)
        ensures
            match r {
                Some(l) => self.spec_label() == Some(l@),
                None => self.spec_label().is_none(),
            },
    {
        self.label
    }

    /// The nesting depth of the group.
    pub fn depth(&self) -> (r: u32)
        ensures
            r == self.spec_depth(),
    {
        self.depth
    }

    /// The first line of the group.
    pub fn start(&self) -> (r: u32)
        ensures
            r == self.spec_start(),
    {
        self.start
    }

    /// One past the last line of the group.
    pub fn end(&self) -> (r: u32)
        ensures
            r == self.spec_end(),
    {
        self.end
    }
}

impl<'a> AssembledLine<'a> {
    /// The name of the signal.
    pub closed spec fn spec_text(&self) -> Seq<char> {
        self.text@
    }

    /// The group depth of the line.
    pub closed spec fn spec_depth(&self) -> u32 {
        self.depth
    }

    /// The edge nodes of the signal.
    pub closed spec fn spec_node(&self) -> Seq<char> {
        self.node@
    }

    /// The phase of the signal.
    pub closed spec fn spec_phase(&self) -> CycleOffset {
        self.phase
    }

    /// The shaped path of the line.
    pub closed spec fn spec_path(&self) -> AssembledWavePath {
        self.path
    }

    /// Is the line the shape of `entry` (a wave with its depth), with cycles `cw` wide?
    pub open spec fn matches(&self, entry: (Wave, int), cw: u16, h: u16, t: u16) -> bool {
        &&& self.spec_text() == entry.0.spec_name()
        &&& self.spec_node() == entry.0.spec_node()
        &&& self.spec_phase() == entry.0.spec_phase()
        &&& self.spec_depth() == entry.1
        &&& assembled_from(self.spec_path(), entry.0, cw, h, t)
    }

    /// The group depth of the line.
    pub fn depth(&self) -> (r: u32)
        ensures
            r == self.spec_depth(),
    {
        self.depth
    }

    /// The name of the signal.
    pub fn text(&self) -> (r: &'a str)
        ensures
            r@ == self.spec_text(),
    {
        self.text
    }

    /// The edge nodes of the signal.
    pub fn node(&self) -> (r: &'a str)
        ensures
            r@ == self.spec_node(),
    {
        self.node
    }

    /// The phase of the signal.
    pub fn phase(&self) -> (r: CycleOffset)
        ensures
            r == self.spec_phase(),
    {
        self.phase
    }

    /// The shaped path of the line.
    pub fn path(&self) -> (r: &AssembledWavePath)
        ensures
            *r == self.spec_path(),
    {
        &self.path
    }

    /// Is the line without a name and without segments?
    pub fn is_empty(&self) -> (r: bool)
        ensures
            r == (self.spec_text().len() == 0 && self.spec_path().spec_segments().len() == 0),
    {
        self.path.is_empty() && self.text.unicode_len() == 0
    }
}

/// Do the lines `new` extend `old` by the shapes of `flat`?
pub open spec fn lines_extend(
    old: Seq<AssembledLine>,
    new: Seq<AssembledLine>,
    flat: Seq<(Wave, int)>,
    cw: u16,
    h: u16,
    t: u16,
) -> bool {
    &&& new.len() == old.len() + flat.len()
    &&& forall|k: int| 0 <= k < old.len() ==> new[k] == old[k]
    &&& forall|k: int| 0 <= k < flat.len() ==> #[trigger] new[old.len() + k].matches(flat[k], cw, h, t)
}

/// Do the groups `new` extend `old` by the markers `markers`?
pub open spec fn groups_extend(
    old: Seq<WaveGroup>,
    new: Seq<WaveGroup>,
    markers: Seq<(int, Option<Seq<char>>, int, int)>,
) -> bool {
    &&& new.len() == old.len() + markers.len()
    &&& forall|k: int| 0 <= k < old.len() ==> new[k] == old[k]
    &&& forall|k: int|
        0 <= k < markers.len() ==> #[trigger] new[old.len() + k].matches(markers[k])
}

/// Does a wave of `flat` have the property `p`?
pub open spec fn any_wave(flat: Seq<(Wave, int)>, p: spec_fn(Wave) -> bool) -> bool {
    exists|k: int| #![trigger flat[k]] 0 <= k < flat.len() && p(flat[k].0)
}

/// The flags of `d` after the waves of `flat` were met.
spec fn flags_after(d: Definitions, flat: Seq<(Wave, int)>) -> Definitions {
    Definitions {
        has_undefined: d.has_undefined || any_wave(flat, |w: Wave| wave_has_undefined(w)),
        has_gaps: d.has_gaps || any_wave(flat, |w: Wave| wave_has_state(w, PathState::Gap)),
        has_posedge_marker: d.has_posedge_marker || any_wave(
            flat,
            |w: Wave| wave_has_state(w, PathState::PosedgeClockMarked),
        ),
        has_negedge_marker: d.has_negedge_marker || any_wave(
            flat,
            |w: Wave| wave_has_state(w, PathState::NegedgeClockMarked),
        ),
    }
}

/// A property holds of a wave of a concatenation when it holds of a wave of either part.
proof fn lemma_any_wave_concat(a: Seq<(Wave, int)>, b: Seq<(Wave, int)>, p: spec_fn(Wave) -> bool)
    ensures
        any_wave(a + b, p) == (any_wave(a, p) || any_wave(b, p)),
{
    let c = a + b;
    if any_wave(a, p) {
        let k = choose|k: int| #![trigger a[k]] 0 <= k < a.len() && p(a[k].0);
        assert(c[k] == a[k]);
    }
    if any_wave(b, p) {
        let k = choose|k: int| #![trigger b[k]] 0 <= k < b.len() && p(b[k].0);
        assert(c[a.len() + k] == b[k]);
    }
    if any_wave(c, p) {
        let k = choose|k: int| #![trigger c[k]] 0 <= k < c.len() && p(c[k].0);
        if k < a.len() {
            assert(c[k] == a[k]);
        } else {
            assert(c[k] == b[k - a.len()]);
        }
    }
}

/// The flags after a concatenation are the flags after its parts in turn.
proof fn lemma_flags_concat(d: Definitions, a: Seq<(Wave, int)>, b: Seq<(Wave, int)>)
    ensures
        flags_after(flags_after(d, a), b) == flags_after(d, a + b),
{
    lemma_any_wave_concat(a, b, |w: Wave| wave_has_undefined(w));
    lemma_any_wave_concat(a, b, |w: Wave| wave_has_state(w, PathState::Gap));
    lemma_any_wave_concat(a, b, |w: Wave| wave_has_state(w, PathState::PosedgeClockMarked));
    lemma_any_wave_concat(a, b, |w: Wave| wave_has_state(w, PathState::NegedgeClockMarked));
}

/// The waves of a concatenation fit when the waves of both parts fit, the second part after the
/// first.
proof fn lemma_waves_fit_concat(
    a: Seq<(Wave, int)>,
    b: Seq<(Wave, int)>,
    base: int,
    cw: u16,
    t: u16,
    h: u16,
)
    ensures
        waves_fit(a + b, base, cw, t, h) == (waves_fit(a, base, cw, t, h) && waves_fit(
            b,
            base + a.len(),
            cw,
            t,
            h,
        )),
{
    let c = a + b;
    if waves_fit(c, base, cw, t, h) {
        assert forall|k: int| 0 <= k < a.len() implies #[trigger] wave_fits(a[k].0, cw, t, h) by {
            assert(c[k] == a[k]);
        }
        assert forall|k: int| 0 <= k < b.len() implies #[trigger] wave_fits(b[k].0, cw, t, h) by {
            assert(c[a.len() + k] == b[k]);
        }
    }
    if waves_fit(a, base, cw, t, h) && waves_fit(b, base + a.len(), cw, t, h) {
        assert forall|k: int| 0 <= k < c.len() implies #[trigger] wave_fits(c[k].0, cw, t, h) by {
            if k < a.len() {
                assert(c[k] == a[k]);
                assert(wave_fits(a[k].0, cw, t, h));
            } else {
                assert(c[k] == b[k - a.len()]);
                assert(wave_fits(b[k - a.len()].0, cw, t, h));
            }
        }
    }
}

/// The waves of `s` are those of its first `i` lines followed by those of the rest.
proof fn lemma_lines_waves_split(s: Seq<WaveLine>, i: int, depth: int)
    requires
        0 <= i <= s.len(),
    ensures
        lines_waves(s, depth) == lines_waves(s.subrange(0, i), depth) + lines_waves(
            s.subrange(i, s.len() as int),
            depth,
        ),
    decreases s.len(),
{
    let tail = s.subrange(i, s.len() as int);
    if i == s.len() {
        assert(s.subrange(0, i) =~= s);
        assert(tail.len() == 0);
        assert(lines_waves(s, depth) + lines_waves(tail, depth) =~= lines_waves(s, depth));
    } else {
        let pre = s.subrange(0, s.len() - 1);
        lemma_lines_waves_split(pre, i, depth);
        assert(pre.subrange(0, i) =~= s.subrange(0, i));
        assert(tail.subrange(0, tail.len() - 1) =~= pre.subrange(i, pre.len() as int));
        assert(tail[tail.len() - 1] == s[s.len() - 1]);
        assert(lines_waves(s.subrange(0, i), depth) + lines_waves(
            pre.subrange(i, pre.len() as int),
            depth,
        ) + line_waves(s[s.len() - 1], depth) =~= lines_waves(s.subrange(0, i), depth) + (
        lines_waves(pre.subrange(i, pre.len() as int), depth) + line_waves(
            s[s.len() - 1],
            depth,
        )));
    }
}

/// Extending lines by two lists of waves in turn extends them by their concatenation.
proof fn lemma_lines_extend_trans(
    l0: Seq<AssembledLine>,
    l1: Seq<AssembledLine>,
    l2: Seq<AssembledLine>,
    a: Seq<(Wave, int)>,
    b: Seq<(Wave, int)>,
    cw: u16,
    h: u16,
    t: u16,
)
    requires
        lines_extend(l0, l1, a, cw, h, t),
        lines_extend(l1, l2, b, cw, h, t),
    ensures
        lines_extend(l0, l2, a + b, cw, h, t),
{
    let c = a + b;
    assert forall|k: int| 0 <= k < c.len() implies #[trigger] l2[l0.len() + k].matches(
        c[k],
        cw,
        h,
        t,
    ) by {
        if k < a.len() {
            assert(c[k] == a[k]);
            assert(l1[l0.len() + k].matches(a[k], cw, h, t));
            assert(l2[l0.len() + k] == l1[l0.len() + k]);
        } else {
            assert(c[k] == b[k - a.len()]);
            assert(l2[l1.len() + (k - a.len())].matches(b[k - a.len()], cw, h, t));
        }
    }
}

/// Extending groups by two lists of markers in turn extends them by their concatenation.
proof fn lemma_groups_extend_trans(
    g0: Seq<WaveGroup>,
    g1: Seq<WaveGroup>,
    g2: Seq<WaveGroup>,
    a: Seq<(int, Option<Seq<char>>, int, int)>,
    b: Seq<(int, Option<Seq<char>>, int, int)>,
)
    requires
        groups_extend(g0, g1, a),
        groups_extend(g1, g2, b),
    ensures
        groups_extend(g0, g2, a + b),
{
    let c = a + b;
    assert forall|k: int| 0 <= k < c.len() implies #[trigger] g2[g0.len() + k].matches(c[k]) by {
        if k < a.len() {
            assert(c[k] == a[k]);
            assert(g1[g0.len() + k].matches(a[k]));
            assert(g2[g0.len() + k] == g1[g0.len() + k]);
        } else {
            assert(c[k] == b[k - a.len()]);
            assert(g2[g1.len() + (k - a.len())].matches(b[k - a.len()]));
        }
    }
}

/// Which of the marked kinds of states `w` shows: undefined states, gaps, marked positive and
/// marked negative clock edges.
fn wave_definitions(w: &Wave) -> (r: (bool, bool, bool, bool))
    ensures
        r.0 == wave_has_undefined(*w),
        r.1 == wave_has_state(*w, PathState::Gap),
        r.2 == wave_has_state(*w, PathState::PosedgeClockMarked),
        r.3 == wave_has_state(*w, PathState::NegedgeClockMarked),
{
    let states = w.cycles.0.as_slice();
    let n = states.len();
    let mut undefined = n > 0 && (states[0] == PathState::Continue || states[0]
        == PathState::Gap);
    let ghost starts_undefined = undefined;
    let mut has_x = false;
    let mut gaps = false;
    let mut posedge = false;
    let mut negedge = false;
    let mut i: usize = 0;
    while i < n
        invariant
            n == states@.len(),
            states@ == w.spec_cycles(),
            i <= n,
            starts_undefined == (n > 0 && states@[0].is_continuation()),
            undefined == (starts_undefined || has_x),
            has_x == exists|j: int| 0 <= j < i && states@[j] == PathState::X,
            gaps == exists|j: int| 0 <= j < i && states@[j] == PathState::Gap,
            posedge == exists|j: int| 0 <= j < i && states@[j] == PathState::PosedgeClockMarked,
            negedge == exists|j: int| 0 <= j < i && states@[j] == PathState::NegedgeClockMarked,
        decreases n - i,
    {
        let s = states[i];
        match s {
            PathState::X => {
                has_x = true;
                undefined = true;
            },
            PathState::Gap => {
                gaps = true;
            },
            PathState::PosedgeClockMarked => {
                posedge = true;
            },
            PathState::NegedgeClockMarked => {
                negedge = true;
            },
            _ => {},
        }
        i = i + 1;
    }
    (undefined, gaps, posedge, negedge)
}

/// A copy of a list of states.
fn copy_states(states: &[PathState]) -> (r: Vec<PathState>)
    ensures
        r@ == states@,
{
    let mut v: Vec<PathState> = Vec::new();
    let mut i: usize = 0;
    while i < states.len()
        invariant
            i <= states@.len(),
            v@ == states@.subrange(0, i as int),
        decreases states@.len() - i,
    {
        v.push(states[i]);
        i = i + 1;
        assert(v@ =~= states@.subrange(0, i as int));
    }
    assert(v@ =~= states@);
    v
}

impl WaveLine {
    /// Shape the waves of the line standing at group depth `depth`: append their lines to
    /// `lines` and the markers of the groups to `groups`, note for each depth whether a group
    /// there has a label, and note the kinds of states shown. Returns the nesting depth reached,
    /// or an error when a wave does not fit or the line count would not fit a `u32`.
    fn render_into<'a>(
        &'a self,
        lines: &mut Vec<AssembledLine<'a>>,
        groups: &mut Vec<WaveGroup<'a>>,
        labels: &mut Vec<bool>,
        defs: &mut Definitions,
        options: &WaveOptions,
        depth: u32,
    ) -> (r: Result<u32, ()>)
        requires
            old(labels)@.len() >= depth,
            old(lines)@.len() <= u32::MAX,
        ensures
            r.is_ok() == (waves_fit(
                line_waves(*self, depth as int),
                old(lines)@.len() as int,
                options.cycle_width,
                options.transition_offset,
                options.wave_height,
            ) && line_depth(*self, depth as int) <= u32::MAX),
            r.is_ok() ==> {
                &&& lines_extend(
                    old(lines)@,
                    final(lines)@,
                    line_waves(*self, depth as int),
                    options.cycle_width,
                    options.wave_height,
                    options.transition_offset,
                )
                &&& groups_extend(
                    old(groups)@,
                    final(groups)@,
                    line_groups(*self, depth as int, old(lines)@.len() as int),
                )
                &&& final(labels)@ == line_labels(*self, depth as int, old(labels)@)
                &&& final(labels)@.len() >= old(labels)@.len()
                &&& final(labels)@.len() <= max_int(
                    old(labels)@.len() as int,
                    line_depth(*self, depth as int),
                )
                &&& *final(defs) == flags_after(*old(defs), line_waves(*self, depth as int))
                &&& r->Ok_0 == line_depth(*self, depth as int)
            },
        decreases self,
    {
        let cw = options.cycle_width;
        let t = options.transition_offset;
        let h = options.wave_height;
        match self {
            WaveLine::Wave(wave) => {
                let flat = Ghost(line_waves(*self, depth as int));
                assert(flat@ =~= seq![(*wave, depth as int)]);
                if lines.len() >= 0xffff_ffff {
                    return Err(());
                }
                if !check_path_fits(wave.cycles.0.as_slice(), wave.period, wave.phase, options) {
                    assert(!wave_fits(flat@[0].0, cw, t, h));
                    return Err(());
                }
                assert(wave_fits(flat@[0].0, cw, t, h));
                let flags = wave_definitions(wave);
                let ghost d0 = *defs;
                defs.has_undefined = defs.has_undefined || flags.0;
                defs.has_gaps = defs.has_gaps || flags.1;
                defs.has_posedge_marker = defs.has_posedge_marker || flags.2;
                defs.has_negedge_marker = defs.has_negedge_marker || flags.3;
                proof {
                    assert(any_wave(flat@, |w: Wave| wave_has_undefined(w)) == flags.0) by {
                        if flags.0 {
                            assert(flat@[0].0 == *wave);
                        }
                    }
                    assert(any_wave(flat@, |w: Wave| wave_has_state(w, PathState::Gap))
                        == flags.1) by {
                        if flags.1 {
                            assert(flat@[0].0 == *wave);
                        }
                    }
                    assert(any_wave(
                        flat@,
                        |w: Wave| wave_has_state(w, PathState::PosedgeClockMarked),
                    ) == flags.2) by {
                        if flags.2 {
                            assert(flat@[0].0 == *wave);
                        }
                    }
                    assert(any_wave(
                        flat@,
                        |w: Wave| wave_has_state(w, PathState::NegedgeClockMarked),
                    ) == flags.3) by {
                        if flags.3 {
                            assert(flat@[0].0 == *wave);
                        }
                    }
                }
                let states = copy_states(wave.cycles.0.as_slice());
                let path = WavePath::new(
                    states,
                    wave.period,
                    wave.phase,
                    wave.data.as_slice(),
                ).assemble_with_options(options);
                let ghost old_lines = lines@;
                lines.push(
                    AssembledLine {
                        text: wave.name.as_str(),
                        node: wave.node.as_str(),
                        phase: wave.phase,
                        depth,
                        path,
                    },
                );
                assert(lines@[old_lines.len() + 0int].matches(flat@[0], cw, h, t));
                Ok(depth)
            },
            WaveLine::Group(group) => {
                if depth == u32::MAX {
                    return Err(());
                }
                let children = &group.1;
                let has_label = group.0.is_some();
                let ghost labels0 = labels@;
                if (depth as usize) < labels.len() {
                    let v = labels[depth as usize] || has_label;
                    labels.set(depth as usize, v);
                } else {
                    labels.push(has_label);
                }
                let ghost labels1 = labels@;
                assert(labels1 == set_label(labels0, depth as int, group.0 is Some));
                let ghost lines0 = lines@;
                let ghost groups0 = groups@;
                let ghost defs0 = *defs;
                let group_start = lines.len();
                let mut max_depth = depth + 1;
                let mut i: usize = 0;
                while i < children.len()
                    invariant
                        depth < u32::MAX,
                        *self == WaveLine::Group(*group),
                        children@ == group.1@,
                        lines0 == old(lines)@,
                        i <= children@.len(),
                        lines0.len() == group_start,
                        group_start <= u32::MAX,
                        labels1.len() >= depth + 1,
                        waves_fit(
                            lines_waves(children@.subrange(0, i as int), depth + 1),
                            group_start as int,
                            cw,
                            t,
                            h,
                        ),
                        lines_extend(
                            lines0,
                            lines@,
                            lines_waves(children@.subrange(0, i as int), depth + 1),
                            cw,
                            h,
                            t,
                        ),
                        groups_extend(
                            groups0,
                            groups@,
                            lines_groups(
                                children@.subrange(0, i as int),
                                depth + 1,
                                group_start as int,
                            ),
                        ),
                        labels@ == lines_labels(
                            children@.subrange(0, i as int),
                            depth + 1,
                            labels1,
                        ),
                        labels@.len() >= labels1.len(),
                        labels1.len() <= max_int(labels0.len() as int, depth + 1),
                        labels@.len() <= max_int(labels1.len() as int, max_depth as int),
                        *defs == flags_after(
                            defs0,
                            lines_waves(children@.subrange(0, i as int), depth + 1),
                        ),
                        max_depth == max_int(
                            depth + 1,
                            lines_depth(children@.subrange(0, i as int), depth + 1),
                        ),
                        cw == options.cycle_width,
                        t == options.transition_offset,
                        h == options.wave_height,
                    decreases children@.len() - i,
                {
                    let ghost pre = children@.subrange(0, i as int);
                    let ghost next = children@.subrange(0, i + 1);
                    assert(next.subrange(0, next.len() - 1) =~= pre);
                    assert(next[next.len() - 1] == children@[i as int]);
                    let ghost lines_i = lines@;
                    let ghost groups_i = groups@;
                    let ghost defs_i = *defs;
                    let ghost child_flat = line_waves(children@[i as int], depth + 1);
                    assert(lines_waves(next, depth + 1) == lines_waves(pre, depth + 1)
                        + child_flat);
                    proof {
                        assert(*self == WaveLine::Group(*group));
                        assert(decreases_to!(*self => (*self)->Group_0));
                        assert(decreases_to!(*group => group.1));
                        assert(decreases_to!(group.1 => group.1@));
                        assert(0 <= i < group.1@.len());
                        assert(decreases_to!(group.1@ => group.1@[i as int]));
                        assert(decreases_to!(*self => children@[i as int]));
                        lemma_waves_fit_concat(
                            lines_waves(pre, depth + 1),
                            child_flat,
                            group_start as int,
                            cw,
                            t,
                            h,
                        );
                    }
                    let res = children[i].render_into(
                        lines,
                        groups,
                        labels,
                        defs,
                        options,
                        depth + 1,
                    );
                    let d = match res {
                        Ok(d) => d,
                        Err(()) => {
                            proof {
                                lemma_lines_waves_split(children@, i + 1, depth + 1);
                                lemma_waves_fit_concat(
                                    lines_waves(next, depth + 1),
                                    lines_waves(
                                        children@.subrange(i + 1, children@.len() as int),
                                        depth + 1,
                                    ),
                                    group_start as int,
                                    cw,
                                    t,
                                    h,
                                );
                                assert(children@.subrange(0, children@.len() as int)
                                    =~= children@);
                                assert(line_waves(*self, depth as int) == lines_waves(
                                    children@,
                                    depth + 1,
                                ));
                                lemma_lines_depth_ge(children@, depth + 1, i as int);
                            }
                            return Err(());
                        },
                    };
                    proof {
                        lemma_lines_extend_trans(
                            lines0,
                            lines_i,
                            lines@,
                            lines_waves(pre, depth + 1),
                            child_flat,
                            cw,
                            h,
                            t,
                        );
                        lemma_groups_extend_trans(
                            groups0,
                            groups_i,
                            groups@,
                            lines_groups(pre, depth + 1, group_start as int),
                            line_groups(
                                children@[i as int],
                                depth + 1,
                                lines_i.len() as int,
                            ),
                        );
                        lemma_flags_concat(defs0, lines_waves(pre, depth + 1), child_flat);
                    }
                    if d > max_depth {
                        max_depth = d;
                    }
                    i = i + 1;
                }
                assert(children@.subrange(0, children@.len() as int) =~= children@);
                let group_end = lines.len();
                let label = match &group.0 {
                    Some(l) => Some(l.as_str()),
                    None => None,
                };
                let ghost groups_before = groups@;
                groups.push(
                    WaveGroup {
                        depth,
                        label,
                        start: group_start as u32,
                        end: group_end as u32,
                    },
                );
                proof {
                    let markers = lines_groups(children@, depth + 1, group_start as int);
                    let m = (
                        depth as int,
                        label_view(group.0),
                        group_start as int,
                        group_start + lines_waves(children@, depth + 1).len(),
                    );
                    assert(line_groups(*self, depth as int, group_start as int) == markers.push(
                        m,
                    ));
                    assert(groups@[groups0.len() + markers.len() as int].matches(m));
                    assert forall|k: int| 0 <= k < markers.push(m).len() implies #[trigger] groups@[groups0.len()
                        + k].matches(markers.push(m)[k]) by {
                        if k < markers.len() {
                            assert(groups_before[groups0.len() + k].matches(markers[k]));
                        }
                    }
                }
                Ok(max_depth)
            },
        }
    }
}

/// A figure whose lines were shaped: everything needed to draw it.
#[derive(Debug)]
pub struct AssembledFigure<'a> {
    num_cycles: u32,
    hscale: u16,
    definitions: Definitions,
    group_label_at_depth: Vec<bool>,
    max_group_depth: u32,
    title: Option<&'a str>,
    footer: Option<&'a str>,
    top_cycle_marker: Option<CycleMarker>,
    bottom_cycle_marker: Option<CycleMarker>,
    options: WaveOptions,
    lines: Vec<AssembledLine<'a>>,
    groups: Vec<WaveGroup<'a>>,
}

/// The view of an optional string.
pub open spec fn opt_str_view(s: Option<&str>) -> Option<Seq<char>> {
    match s {
        Some(v) => Some(v@),
        None => None,
    }
}

/// The number of `true` entries among the first `n` of `flags`.
pub open spec fn count_true(flags: Seq<bool>, n: int) -> nat
    decreases n,
{
    if n <= 0 || flags.len() == 0 {
        0
    } else if n > flags.len() {
        count_true(flags, flags.len() as int)
    } else {
        count_true(flags, n - 1) + if flags[n - 1] {
            1nat
        } else {
            0nat
        }
    }
}

impl Figure {
    /// The title of the figure.
    pub closed spec fn spec_title(&self) -> Option<Seq<char>> {
        label_view(self.title)
    }

    /// The footer of the figure.
    pub closed spec fn spec_footer(&self) -> Option<Seq<char>> {
        label_view(self.footer)
    }

    /// The enumeration of cycles above the signals.
    pub closed spec fn spec_top_cycle_marker(&self) -> Option<CycleMarker> {
        self.top_cycle_marker
    }

    /// The enumeration of cycles below the signals.
    pub closed spec fn spec_bottom_cycle_marker(&self) -> Option<CycleMarker> {
        self.bottom_cycle_marker
    }

    /// The horizontal scale of the figure.
    pub closed spec fn spec_hscale(&self) -> u16 {
        self.hscale
    }

    /// The lines of the figure.
    pub closed spec fn spec_lines(&self) -> Seq<WaveLine> {
        self.lines@
    }

    /// The edges to draw between the nodes of the signals.
    pub closed spec fn spec_edges(&self) -> Seq<EdgeDefinition> {
        self.edges@
    }

    /// The waves that the figure shows, in order, each with its group depth.
    pub open spec fn shown_waves(&self) -> Seq<(Wave, int)> {
        lines_waves(self.spec_lines(), 0)
    }

    /// The width of a cycle of the figure drawn with `options`.
    pub open spec fn scaled_width(&self, options: WaveOptions) -> int {
        options.cycle_width * self.spec_hscale()
    }

    /// Can the figure be assembled with cycles `cw` wide, transitions `t` wide and a height of
    /// `h`: does the scaled cycle width fit a `u16`, does every shown wave fit the coordinates of
    /// its path, and do the line count, the cycle count and the group nesting depth fit a `u32`?
    pub open spec fn assembles_with(&self, cw: u16, t: u16, h: u16) -> bool {
        &&& cw * self.spec_hscale() <= u16::MAX
        &&& waves_fit(self.shown_waves(), 0, (cw * self.spec_hscale()) as u16, t, h)
        &&& max_num_cycles(self.shown_waves()) <= u32::MAX
        &&& lines_depth(self.spec_lines(), 0) <= u32::MAX
    }

    /// Create a figure from all its parts.
    pub fn new(
        title: Option<String>,
        footer: Option<String>,
        top_cycle_marker: Option<CycleMarker>,
        bottom_cycle_marker: Option<CycleMarker>,
        hscale: u16,
        lines: Vec<WaveLine>,
    ) -> (r: Figure)
        ensures
            r.spec_title() == label_view(title),
            r.spec_footer() == label_view(footer),
            r.spec_top_cycle_marker() == top_cycle_marker,
            r.spec_bottom_cycle_marker() == bottom_cycle_marker,
            r.spec_hscale() == hscale,
            r.spec_lines() == lines@,
            r.spec_edges() == Seq::<EdgeDefinition>::empty(),
    {
        Figure {
            title,
            footer,
            top_cycle_marker,
            bottom_cycle_marker,
            hscale,
            lines,
            edges: Vec::new(),
        }
    }

    /// Create a figure of `lines`, without title, footer or cycle markers, at scale one.
    pub fn from_lines(lines: Vec<WaveLine>) -> (r: Figure)
        ensures
            r.spec_title().is_none(),
            r.spec_footer().is_none(),
            r.spec_top_cycle_marker().is_none(),
            r.spec_bottom_cycle_marker().is_none(),
            r.spec_hscale() == 1,
            r.spec_lines() == lines@,
            r.spec_edges() == Seq::<EdgeDefinition>::empty(),
    {
        Figure {
            title: None,
            footer: None,
            top_cycle_marker: None,
            bottom_cycle_marker: None,
            hscale: 1,
            lines,
            edges: Vec::new(),
        }
    }

    /// Does `r` differ from `self` at most in its lines?
    pub open spec fn same_but_lines(self, r: Figure) -> bool {
        &&& r.spec_title() == self.spec_title()
        &&& r.spec_footer() == self.spec_footer()
        &&& r.spec_top_cycle_marker() == self.spec_top_cycle_marker()
        &&& r.spec_bottom_cycle_marker() == self.spec_bottom_cycle_marker()
        &&& r.spec_hscale() == self.spec_hscale()
        &&& r.spec_edges() == self.spec_edges()
    }

    /// The figure with the title `text`.
    pub fn header_text(self, text: String) -> (r: Figure)
        ensures
            r.spec_title() == Some(text@),
            r.spec_footer() == self.spec_footer(),
            r.spec_top_cycle_marker() == self.spec_top_cycle_marker(),
            r.spec_bottom_cycle_marker() == self.spec_bottom_cycle_marker(),
            r.spec_hscale() == self.spec_hscale(),
            r.spec_lines() == self.spec_lines(),
            r.spec_edges() == self.spec_edges(),
    {
        Figure { title: Some(text), ..self }
    }

    /// The figure with the footer `text`.
    pub fn footer_text(self, text: String) -> (r: Figure)
        ensures
            r.spec_footer() == Some(text@),
            r.spec_title() == self.spec_title(),
            r.spec_top_cycle_marker() == self.spec_top_cycle_marker(),
            r.spec_bottom_cycle_marker() == self.spec_bottom_cycle_marker(),
            r.spec_hscale() == self.spec_hscale(),
            r.spec_lines() == self.spec_lines(),
            r.spec_edges() == self.spec_edges(),
    {
        Figure { footer: Some(text), ..self }
    }

    /// The figure with cycles enumerated above the signals from `start` on, one number every
    /// `every` cycles.
    pub fn top_cycle_marker(self, start: u32, every: u32) -> (r: Figure)
        ensures
            r.spec_top_cycle_marker() matches Some(m) && m.spec_start() == start
                && m.spec_every() == step_of(every),
            r.spec_title() == self.spec_title(),
            r.spec_footer() == self.spec_footer(),
            r.spec_bottom_cycle_marker() == self.spec_bottom_cycle_marker(),
            r.spec_hscale() == self.spec_hscale(),
            r.spec_lines() == self.spec_lines(),
            r.spec_edges() == self.spec_edges(),
    {
        Figure { top_cycle_marker: Some(CycleMarker::new(start, every)), ..self }
    }

    /// The figure with cycles enumerated below the signals from `start` on, one number every
    /// `every` cycles.
    pub fn bottom_cycle_marker(self, start: u32, every: u32) -> (r: Figure)
        ensures
            r.spec_bottom_cycle_marker() matches Some(m) && m.spec_start() == start
                && m.spec_every() == step_of(every),
            r.spec_title() == self.spec_title(),
            r.spec_footer() == self.spec_footer(),
            r.spec_top_cycle_marker() == self.spec_top_cycle_marker(),
            r.spec_hscale() == self.spec_hscale(),
            r.spec_lines() == self.spec_lines(),
            r.spec_edges() == self.spec_edges(),
    {
        Figure { bottom_cycle_marker: Some(CycleMarker::new(start, every)), ..self }
    }

    /// The figure with the horizontal scale `hscale`.
    pub fn horizontal_scale(self, hscale: u16) -> (r: Figure)
        ensures
            r.spec_hscale() == hscale,
            r.spec_title() == self.spec_title(),
            r.spec_footer() == self.spec_footer(),
            r.spec_top_cycle_marker() == self.spec_top_cycle_marker(),
            r.spec_bottom_cycle_marker() == self.spec_bottom_cycle_marker(),
            r.spec_lines() == self.spec_lines(),
            r.spec_edges() == self.spec_edges(),
    {
        Figure { hscale, ..self }
    }

    /// Create a figure from all its parts, its edges included.
    pub fn with(
        title: Option<String>,
        footer: Option<String>,
        top_cycle_marker: Option<CycleMarker>,
        bottom_cycle_marker: Option<CycleMarker>,
        hscale: u16,
        edges: Vec<EdgeDefinition>,
        lines: Vec<WaveLine>,
    ) -> (r: Figure)
        ensures
            r.spec_title() == label_view(title),
            r.spec_footer() == label_view(footer),
            r.spec_top_cycle_marker() == top_cycle_marker,
            r.spec_bottom_cycle_marker() == bottom_cycle_marker,
            r.spec_hscale() == hscale,
            r.spec_lines() == lines@,
            r.spec_edges() == edges@,
    {
        Figure { title, footer, top_cycle_marker, bottom_cycle_marker, hscale, lines, edges }
    }

    /// The edges to draw between the nodes of the signals.
    pub fn edges(&self) -> (r: &[EdgeDefinition])
        ensures
            r@ == self.spec_edges(),
    {
        self.edges.as_slice()
    }

    /// Does `r` differ from `self` at most in its edges?
    pub open spec fn same_but_edges(self, r: Figure) -> bool {
        &&& r.spec_title() == self.spec_title()
        &&& r.spec_footer() == self.spec_footer()
        &&& r.spec_top_cycle_marker() == self.spec_top_cycle_marker()
        &&& r.spec_bottom_cycle_marker() == self.spec_bottom_cycle_marker()
        &&& r.spec_hscale() == self.spec_hscale()
        &&& r.spec_lines() == self.spec_lines()
    }

    /// The figure with the edge `edge` added after its edges.
    pub fn add_edge(self, edge: EdgeDefinition) -> (r: Figure)
        ensures
            r.spec_edges() == self.spec_edges().push(edge),
            self.same_but_edges(r),
    {
        let mut f = self;
        f.edges.push(edge);
        f
    }

    /// The figure with the edges `edges` added after its edges.
    pub fn add_edges(self, edges: Vec<EdgeDefinition>) -> (r: Figure)
        ensures
            r.spec_edges() == self.spec_edges() + edges@,
            self.same_but_edges(r),
    {
        let mut f = self;
        let mut more = edges;
        f.edges.append(&mut more);
        f
    }

    /// The figure with an unlabelled edge of `variant` from node `from` to node `to` added
    /// after its edges.
    pub fn add_edge_with(self, variant: EdgeVariant, from: char, to: char) -> (r: Figure)
        ensures
            r.spec_edges() == self.spec_edges().push(
                EdgeDefinition { variant, from, to, label: None },
            ),
            self.same_but_edges(r),
    {
        self.add_edge(EdgeDefinition::new(variant, from, to, None))
    }

    /// The figure with an edge of `variant` from node `from` to node `to`, labelled `label`,
    /// added after its edges.
    pub fn add_labeled_edge_with(self, variant: EdgeVariant, from: char, to: char, label: String) -> (r:
        Figure)
        ensures
            r.spec_edges() == self.spec_edges().push(
                EdgeDefinition { variant, from, to, label: Some(label) },
            ),
            self.same_but_edges(r),
    {
        self.add_edge(EdgeDefinition::new(variant, from, to, Some(label)))
    }

    /// The figure with the signal `wave` added after its lines.
    pub fn add_signal(self, wave: Wave) -> (r: Figure)
        ensures
            r.spec_lines() == self.spec_lines().push(WaveLine::Wave(wave)),
            self.same_but_lines(r),
    {
        let mut f = self;
        f.lines.push(WaveLine::Wave(wave));
        f
    }

    /// The figure with the signals `waves` added after its lines.
    pub fn add_signals(self, waves: Vec<Wave>) -> (r: Figure)
        ensures
            r.spec_lines() == self.spec_lines() + waves@.map_values(|w: Wave| WaveLine::Wave(w)),
            self.same_but_lines(r),
    {
        let mut f = self;
        let ghost start = f.lines@;
        let mut rest = waves;
        let ghost all = waves@;
        let mut i: usize = 0;
        assert(all.len() == rest.len());
        while rest.len() > 0
            invariant
                i + rest@.len() == all.len(),
                rest@ == all.subrange(i as int, all.len() as int),
                all.len() <= usize::MAX,
                f.lines@ == start + all.subrange(0, i as int).map_values(|w: Wave| WaveLine::Wave(w)),
                self.same_but_lines(f),
            decreases rest@.len(),
        {
            let w = rest.remove(0);
            f.lines.push(WaveLine::Wave(w));
            i = i + 1;
            assert(f.lines@ =~= start + all.subrange(0, i as int).map_values(|w: Wave| WaveLine::Wave(w)));
        }
        assert(all.subrange(0, i as int) =~= all);
        f
    }

    /// The figure with the line `line` added after its lines.
    pub fn add_section(self, line: WaveLine) -> (r: Figure)
        ensures
            r.spec_lines() == self.spec_lines().push(line),
            self.same_but_lines(r),
    {
        let mut f = self;
        f.lines.push(line);
        f
    }

    /// The figure with the lines `lines` added after its lines.
    pub fn add_sections(self, lines: Vec<WaveLine>) -> (r: Figure)
        ensures
            r.spec_lines() == self.spec_lines() + lines@,
            self.same_but_lines(r),
    {
        let mut f = self;
        let mut more = lines;
        f.lines.append(&mut more);
        f
    }

    /// The figure with the group `group` added after its lines.
    pub fn add_group(self, group: WaveLineGroup) -> (r: Figure)
        ensures
            r.spec_lines() == self.spec_lines().push(WaveLine::Group(group)),
            self.same_but_lines(r),
    {
        let mut f = self;
        f.lines.push(WaveLine::Group(group));
        f
    }

    /// The figure with the groups `groups` added after its lines.
    pub fn add_groups(self, groups: Vec<WaveLineGroup>) -> (r: Figure)
        ensures
            r.spec_lines() == self.spec_lines() + groups@.map_values(
                |g: WaveLineGroup| WaveLine::Group(g),
            ),
            self.same_but_lines(r),
    {
        let mut f = self;
        let ghost start = f.lines@;
        let mut rest = groups;
        let ghost all = groups@;
        let mut i: usize = 0;
        assert(all.len() == rest.len());
        while rest.len() > 0
            invariant
                i + rest@.len() == all.len(),
                rest@ == all.subrange(i as int, all.len() as int),
                all.len() <= usize::MAX,
                f.lines@ == start + all.subrange(0, i as int).map_values(
                    |g: WaveLineGroup| WaveLine::Group(g),
                ),
                self.same_but_lines(f),
            decreases rest@.len(),
        {
            let g = rest.remove(0);
            f.lines.push(WaveLine::Group(g));
            i = i + 1;
            assert(f.lines@ =~= start + all.subrange(0, i as int).map_values(
                |g: WaveLineGroup| WaveLine::Group(g),
            ));
        }
        assert(all.subrange(0, i as int) =~= all);
        f
    }

    /// Is `f` the figure assembled with cycles `cycle_width` wide (before scaling), signals
    /// `wave_height` high, transitions `transition_offset` wide and names `font_size` big?
    ///
    /// The lines are the shapes of all the waves in order, at any group depth; each group gets a
    /// marker over the lines it holds, after the markers of the groups inside it.
    pub open spec fn assembled_into(
        &self,
        f: AssembledFigure,
        cycle_width: u16,
        wave_height: u16,
        transition_offset: u16,
        font_size: u32,
    ) -> bool {
        let cw = (cycle_width * self.spec_hscale()) as u16;
        &&& f.spec_options().cycle_width == cw
        &&& f.spec_options().transition_offset == transition_offset
        &&& f.spec_options().wave_height == wave_height
        &&& f.spec_options().font_size == font_size
        &&& lines_extend(
            seq![],
            f.spec_lines(),
            self.shown_waves(),
            cw,
            wave_height,
            transition_offset,
        )
        &&& groups_extend(seq![], f.spec_groups(), lines_groups(self.spec_lines(), 0, 0))
        &&& f.spec_labels() == lines_labels(self.spec_lines(), 0, seq![])
        &&& f.spec_max_depth() == lines_depth(self.spec_lines(), 0)
        &&& f.spec_num_cycles() == max_num_cycles(self.shown_waves())
        &&& f.spec_has_undefined() == any_wave(
            self.shown_waves(),
            |w: Wave| wave_has_undefined(w),
        )
        &&& f.spec_has_gaps() == any_wave(
            self.shown_waves(),
            |w: Wave| wave_has_state(w, PathState::Gap),
        )
        &&& f.spec_has_posedge_marker() == any_wave(
            self.shown_waves(),
            |w: Wave| wave_has_state(w, PathState::PosedgeClockMarked),
        )
        &&& f.spec_has_negedge_marker() == any_wave(
            self.shown_waves(),
            |w: Wave| wave_has_state(w, PathState::NegedgeClockMarked),
        )
        &&& f.spec_hscale() == self.spec_hscale()
        &&& f.spec_title() == self.spec_title()
        &&& f.spec_footer() == self.spec_footer()
        &&& f.spec_top_cycle_marker() == self.spec_top_cycle_marker()
        &&& f.spec_bottom_cycle_marker() == self.spec_bottom_cycle_marker()
    }

    /// Shape the lines of the figure with `options`, cycles widened by the horizontal scale (see
    /// [`Figure::assembled_into`]). Fails when the figure cannot be assembled with `options`
    /// (see [`Figure::assembles_with`]).
    pub fn assemble_with_options(&self, options: &WaveOptions) -> (r: Result<AssembledFigure, ()>)
        ensures
            r.is_ok() == self.assembles_with(
                options.cycle_width,
                options.transition_offset,
                options.wave_height,
            ),
            r matches Ok(f) ==> self.assembled_into(
                f,
                options.cycle_width,
                options.wave_height,
                options.transition_offset,
                options.font_size,
            ),
    {
        assert((options.cycle_width as u32) * (self.hscale as u32) <= 0xffff * 0xffff)
            by (nonlinear_arith)
            requires
                options.cycle_width <= 0xffff,
                self.hscale <= 0xffff,
        ;
        let scaled = (options.cycle_width as u32) * (self.hscale as u32);
        if scaled > 0xffff {
            return Err(());
        }
        let cw = scaled as u16;
        let t = options.transition_offset;
        let h = options.wave_height;
        let scaled_options = WaveOptions {
            font_family: options.font_family.clone(),
            font_size: options.font_size,
            wave_height: h,
            cycle_width: cw,
            transition_offset: t,
            backgrounds: options.backgrounds.clone(),
        };
        let mut lines: Vec<AssembledLine> = Vec::new();
        let mut groups: Vec<WaveGroup> = Vec::new();
        let mut labels: Vec<bool> = Vec::new();
        let mut defs = Definitions {
            has_undefined: false,
            has_gaps: false,
            has_posedge_marker: false,
            has_negedge_marker: false,
        };
        let ghost defs0 = defs;
        let ghost all = self.lines@;
        let mut max_group_depth: u32 = 0;
        let mut i: usize = 0;
        while i < self.lines.len()
            invariant
                i <= all.len(),
                all == self.lines@,
                cw == scaled_options.cycle_width,
                t == scaled_options.transition_offset,
                h == scaled_options.wave_height,
                cw == options.cycle_width * self.hscale,
                t == options.transition_offset,
                h == options.wave_height,
                waves_fit(lines_waves(all.subrange(0, i as int), 0), 0, cw, t, h),
                lines_extend(seq![], lines@, lines_waves(all.subrange(0, i as int), 0), cw, h, t),
                groups_extend(seq![], groups@, lines_groups(all.subrange(0, i as int), 0, 0)),
                labels@ == lines_labels(all.subrange(0, i as int), 0, seq![]),
                labels@.len() <= max_group_depth,
                defs == flags_after(defs0, lines_waves(all.subrange(0, i as int), 0)),
                max_group_depth == lines_depth(all.subrange(0, i as int), 0),
            decreases all.len() - i,
        {
            let ghost pre = all.subrange(0, i as int);
            let ghost next = all.subrange(0, i + 1);
            assert(next.subrange(0, next.len() - 1) =~= pre);
            assert(next[next.len() - 1] == all[i as int]);
            let ghost child_flat = line_waves(all[i as int], 0);
            assert(lines_waves(next, 0) == lines_waves(pre, 0) + child_flat);
            let ghost lines_i = lines@;
            let ghost groups_i = groups@;
            proof {
                lemma_waves_fit_concat(lines_waves(pre, 0), child_flat, 0, cw, t, h);
            }
            let res = self.lines[i].render_into(
                &mut lines,
                &mut groups,
                &mut labels,
                &mut defs,
                &scaled_options,
                0,
            );
            let d = match res {
                Ok(d) => d,
                Err(()) => {
                    proof {
                        lemma_lines_waves_split(all, i + 1, 0);
                        lemma_waves_fit_concat(
                            lines_waves(next, 0),
                            lines_waves(all.subrange(i + 1, all.len() as int), 0),
                            0,
                            cw,
                            t,
                            h,
                        );
                        assert(all.subrange(0, all.len() as int) =~= all);
                        lemma_lines_depth_ge(all, 0, i as int);
                    }
                    return Err(());
                },
            };
            proof {
                lemma_lines_extend_trans(
                    seq![],
                    lines_i,
                    lines@,
                    lines_waves(pre, 0),
                    child_flat,
                    cw,
                    h,
                    t,
                );
                lemma_groups_extend_trans(
                    seq![],
                    groups_i,
                    groups@,
                    lines_groups(pre, 0, 0),
                    line_groups(all[i as int], 0, lines_i.len() as int),
                );
                lemma_flags_concat(defs0, lines_waves(pre, 0), child_flat);
            }
            if d > max_group_depth {
                max_group_depth = d;
            }
            i = i + 1;
        }
        assert(all.subrange(0, all.len() as int) =~= all);
        let ghost flat = lines_waves(all, 0);
        let mut num_cycles: u64 = 0;
        let mut k: usize = 0;
        while k < lines.len()
            invariant
                k <= lines@.len(),
                lines_extend(seq![], lines@, flat, cw, h, t),
                waves_fit(flat, 0, cw, t, h),
                num_cycles == max_num_cycles(flat.subrange(0, k as int)),
                num_cycles <= u32::MAX + 1,
            decreases lines@.len() - k,
        {
            assert(lines@[0 + k as int].matches(flat[k as int], cw, h, t));
            let end = lines[k].path.end_offset();
            proof {
                end.lemma_fits();
            }
            let q = 4 * (end.cycle_index() as u64) + match end.in_cycle_offset() {
                crate::cycle_offset::InCycleOffset::Begin => 0u64,
                crate::cycle_offset::InCycleOffset::Quarter => 1u64,
                crate::cycle_offset::InCycleOffset::Half => 2u64,
                crate::cycle_offset::InCycleOffset::ThreeQuarter => 3u64,
            };
            assert(q == end.quarters());
            let c = (q + 3) / 4;
            let ghost next = flat.subrange(0, k + 1);
            assert(next.drop_last() =~= flat.subrange(0, k as int));
            assert(next.last() == flat[k as int]);
            if c > num_cycles {
                num_cycles = c;
            }
            k = k + 1;
        }
        assert(flat.subrange(0, lines@.len() as int) =~= flat);
        if num_cycles > 0xffff_ffff {
            return Err(());
        }
        let title = match &self.title {
            Some(s) => Some(s.as_str()),
            None => None,
        };
        let footer = match &self.footer {
            Some(s) => Some(s.as_str()),
            None => None,
        };
        Ok(
            AssembledFigure {
                num_cycles: num_cycles as u32,
                hscale: self.hscale,
                definitions: defs,
                group_label_at_depth: labels,
                max_group_depth,
                title,
                footer,
                top_cycle_marker: self.top_cycle_marker,
                bottom_cycle_marker: self.bottom_cycle_marker,
                options: scaled_options,
                lines,
                groups,
            },
        )
    }

    /// Shape the lines of the figure with the default options (see
    /// [`Figure::assemble_with_options`]).
    pub fn assemble(&self) -> (r: Result<AssembledFigure, ()>)
        ensures
            r.is_ok() == self.assembles_with(48, 4, 24),
            r matches Ok(f) ==> self.assembled_into(f, 48, 24, 4, 14),
    {
        let options = WaveOptions::default();
        self.assemble_with_options(&options)
    }
}

impl<'a> AssembledFigure<'a> {
    /// The line count fits a `u32`.
    #[verifier::type_invariant]
    closed spec fn wf(&self) -> bool {
        &&& self.lines@.len() <= u32::MAX
        &&& self.group_label_at_depth@.len() <= u32::MAX
    }

    /// The number of nesting depths that have a labelled group.
    pub fn label_count(&self) -> (r: u32)
        ensures
            r == count_true(self.spec_labels(), self.spec_labels().len() as int),
    {
        proof {
            use_type_invariant(self);
        }
        self.amount_labels_before(self.group_label_at_depth.len() as u32)
    }

    /// The number of lines.
    pub fn num_lines(&self) -> (r: u32)
        ensures
            r == self.spec_lines().len(),
    {
        proof {
            use_type_invariant(self);
        }
        self.lines.len() as u32
    }

    /// The number of cycles of the longest line, rounded up.
    pub closed spec fn spec_num_cycles(&self) -> u32 {
        self.num_cycles
    }

    /// The horizontal scale.
    pub closed spec fn spec_hscale(&self) -> u16 {
        self.hscale
    }

    /// Does a line show an undefined state?
    pub closed spec fn spec_has_undefined(&self) -> bool {
        self.definitions.has_undefined
    }

    /// Does a line show a gap?
    pub closed spec fn spec_has_gaps(&self) -> bool {
        self.definitions.has_gaps
    }

    /// Does a line show a marked positive clock edge?
    pub closed spec fn spec_has_posedge_marker(&self) -> bool {
        self.definitions.has_posedge_marker
    }

    /// Does a line show a marked negative clock edge?
    pub closed spec fn spec_has_negedge_marker(&self) -> bool {
        self.definitions.has_negedge_marker
    }

    /// For each group depth, whether a group at that depth has a label.
    pub closed spec fn spec_labels(&self) -> Seq<bool> {
        self.group_label_at_depth@
    }

    /// The largest group nesting depth.
    pub closed spec fn spec_max_depth(&self) -> u32 {
        self.max_group_depth
    }

    /// The title.
    pub closed spec fn spec_title(&self) -> Option<Seq<char>> {
        opt_str_view(self.title)
    }

    /// The footer.
    pub closed spec fn spec_footer(&self) -> Option<Seq<char>> {
        opt_str_view(self.footer)
    }

    /// The enumeration of cycles above the signals.
    pub closed spec fn spec_top_cycle_marker(&self) -> Option<CycleMarker> {
        self.top_cycle_marker
    }

    /// The enumeration of cycles below the signals.
    pub closed spec fn spec_bottom_cycle_marker(&self) -> Option<CycleMarker> {
        self.bottom_cycle_marker
    }

    /// The options the lines were shaped with, the cycle width scaled.
    pub closed spec fn spec_options(&self) -> WaveOptions {
        self.options
    }

    /// The shaped lines.
    pub closed spec fn spec_lines(&self) -> Seq<AssembledLine<'a>> {
        self.lines@
    }

    /// The group markers.
    pub closed spec fn spec_groups(&self) -> Seq<WaveGroup<'a>> {
        self.groups@
    }

    /// Returns the maximum cycle width over all lines.
    pub fn num_cycles(&self) -> (r: u32)
        ensures
            r == self.spec_num_cycles(),
    {
        self.num_cycles
    }

    /// Returns the scaling factor for the horizontal axis.
    pub fn horizontal_scale(&self) -> (r: u16)
        ensures
            r == self.spec_hscale(),
    {
        self.hscale
    }

    /// Does a line show an undefined state?
    pub fn has_undefined(&self) -> (r: bool)
        ensures
            r == self.spec_has_undefined(),
    {
        self.definitions.has_undefined
    }

    /// Does a line show a gap?
    pub fn has_gaps(&self) -> (r: bool)
        ensures
            r == self.spec_has_gaps(),
    {
        self.definitions.has_gaps
    }

    /// Does a line show a marked positive clock edge?
    pub fn has_posedge_marker(&self) -> (r: bool)
        ensures
            r == self.spec_has_posedge_marker(),
    {
        self.definitions.has_posedge_marker
    }

    /// Does a line show a marked negative clock edge?
    pub fn has_negedge_marker(&self) -> (r: bool)
        ensures
            r == self.spec_has_negedge_marker(),
    {
        self.definitions.has_negedge_marker
    }

    /// Is there a label at group nesting level `depth`?
    pub fn has_group_label_at_depth(&self, depth: u32) -> (r: bool)
        ensures
            r == (depth < self.spec_labels().len() && self.spec_labels()[depth as int]),
    {
        if (depth as usize) < self.group_label_at_depth.len() {
            self.group_label_at_depth[depth as usize]
        } else {
            false
        }
    }

    /// The number of group nesting levels below `depth` that have a label.
    pub fn amount_labels_before(&self, depth: u32) -> (r: u32)
        ensures
            r == count_true(self.spec_labels(), depth as int),
    {
        let n = if (depth as usize) < self.group_label_at_depth.len() {
            depth as usize
        } else {
            self.group_label_at_depth.len()
        };
        let mut count: u32 = 0;
        let mut i: usize = 0;
        while i < n
            invariant
                n <= self.group_label_at_depth@.len(),
                n <= depth,
                n == self.group_label_at_depth@.len() || n == depth,
                i <= n,
                count == count_true(self.group_label_at_depth@, i as int),
                count <= i,
            decreases n - i,
        {
            if self.group_label_at_depth[i] {
                count = count + 1;
            }
            i = i + 1;
        }
        count
    }

    /// Returns the maximum depth of the group nesting.
    pub fn group_nesting(&self) -> (r: u32)
        ensures
            r == self.spec_max_depth(),
    {
        self.max_group_depth
    }

    /// Returns the shaped lines.
    pub fn lines(&self) -> (r: &[AssembledLine<'a>])
        ensures
            r@ == self.spec_lines(),
    {
        self.lines.as_slice()
    }

    /// Returns the group markers.
    pub fn group_markers(&self) -> (r: &[WaveGroup<'a>])
        ensures
            r@ == self.spec_groups(),
    {
        self.groups.as_slice()
    }

    /// Returns the title.
    pub fn header_text(&self) -> (r: Option<&'a str>)
        ensures
            opt_str_view(r) == self.spec_title(),
    {
        self.title
    }

    /// Returns the footer.
    pub fn footer_text(&self) -> (r: Option<&'a str>)
        ensures
            opt_str_view(r) == self.spec_footer(),
    {
        self.footer
    }

    /// Returns the enumeration of cycles above the signals.
    pub fn top_cycle_marker(&self) -> (r: Option<CycleMarker>)
        ensures
            r == self.spec_top_cycle_marker(),
    {
        self.top_cycle_marker
    }

    /// Returns the enumeration of cycles below the signals.
    pub fn bottom_cycle_marker(&self) -> (r: Option<CycleMarker>)
        ensures
            r == self.spec_bottom_cycle_marker(),
    {
        self.bottom_cycle_marker
    }

    /// Returns the options the lines were shaped with, the cycle width scaled.
    pub fn wave_options(&self) -> (r: &WaveOptions)
        ensures
            *r == self.spec_options(),
    {
        &self.options
    }
}

/// An entry of a group as written in WaveJson: a label or a line.
#[derive(Debug)]
pub enum GroupItem {
    Label(String),
    Line(WaveLine),
}

/// The first label among `items`, if any.
pub open spec fn first_label(items: Seq<GroupItem>) -> Option<String>
    decreases items.len(),
{
    if items.len() == 0 {
        None
    } else {
        match items[0] {
            GroupItem::Label(s) => Some(s),
            GroupItem::Line(_) => first_label(items.drop_first()),
        }
    }
}

/// The lines among `items`, in order.
pub open spec fn item_lines(items: Seq<GroupItem>) -> Seq<WaveLine>
    decreases items.len(),
{
    if items.len() == 0 {
        seq![]
    } else {
        match items[0] {
            GroupItem::Label(_) => item_lines(items.drop_first()),
            GroupItem::Line(l) => seq![l] + item_lines(items.drop_first()),
        }
    }
}

/// The cycle enumeration of a head or foot: starting at `start` with a step of `every`, one
/// by default; none without a start.
pub closed spec fn spec_cycle_marker(start: Option<u32>, every: Option<u32>) -> Option<CycleMarker> {
    match start {
        Some(s) => Some(
            CycleMarker {
                start: s,
                every: match every {
                    Some(e) => step_of(e),
                    None => 1,
                },
            },
        ),
        None => None,
    }
}

impl CycleMarker {
    /// The cycle enumeration of a head or foot (see [`spec_cycle_marker`]).
    pub fn from_tick(start: Option<u32>, every: Option<u32>) -> (r: Option<CycleMarker>)
        ensures
            r == spec_cycle_marker(start, every),
    {
        match (start, every) {
            (Some(start), Some(every)) => Some(CycleMarker::new(start, every)),
            (Some(start), None) => Some(CycleMarker::new(start, 1)),
            (None, _) => None,
        }
    }
}

impl WaveLineGroup {
    /// The group of the entries `items`: labelled by the first label among them, holding their
    /// lines in order.
    pub fn from_items(items: Vec<GroupItem>) -> (r: WaveLineGroup)
        ensures
            r.spec_label() == first_label(items@),
            r.spec_lines() == item_lines(items@),
    {
        let ghost all = items@;
        let mut rest = items;
        let mut label: Option<String> = None;
        let mut lines: Vec<WaveLine> = Vec::new();
        while rest.len() > 0
            invariant
                rest@.len() <= all.len(),
                rest@ == all.subrange(all.len() - rest@.len(), all.len() as int),
                label is None ==> first_label(all) == first_label(rest@),
                label is Some ==> first_label(all) == label,
                item_lines(all) == lines@ + item_lines(rest@),
            decreases rest@.len(),
        {
            let ghost before = rest@;
            let item = rest.remove(0);
            assert(rest@ =~= before.drop_first());
            assert(rest@ =~= all.subrange(all.len() - rest@.len(), all.len() as int));
            match item {
                GroupItem::Label(s) => {
                    if label.is_none() {
                        label = Some(s);
                    }
                },
                GroupItem::Line(l) => {
                    let ghost old_lines = lines@;
                    lines.push(l);
                    assert(old_lines + (seq![l] + item_lines(rest@)) =~= lines@ + item_lines(
                        rest@,
                    ));
                },
            }
        }
        assert(item_lines(rest@) =~= seq![]);
        assert(lines@ + item_lines(rest@) =~= lines@);
        WaveLineGroup(label, lines)
    }
}

impl Figure {
    /// The figure of a WaveJson document's head, foot and configuration, with `lines`: the title
    /// and top cycle enumeration come from the head, the footer and bottom cycle enumeration from
    /// the foot, and the horizontal scale from the configuration, one by default.
    pub fn from_parts(
        head: Option<Head>,
        foot: Option<Foot>,
        config: Option<Config>,
        lines: Vec<WaveLine>,
    ) -> (r: Figure)
        ensures
            r.spec_title() == match head {
                Some(h) => label_view(h.text),
                None => None,
            },
            r.spec_top_cycle_marker() == match head {
                Some(h) => spec_cycle_marker(h.tick, h.every),
                None => None,
            },
            r.spec_footer() == match foot {
                Some(f) => label_view(f.text),
                None => None,
            },
            r.spec_bottom_cycle_marker() == match foot {
                Some(f) => spec_cycle_marker(f.tock, f.every),
                None => None,
            },
            r.spec_hscale() == match config {
                Some(c) => match c.hscale {
                    Some(s) => s,
                    None => 1,
                },
                None => 1,
            },
            r.spec_lines() == lines@,
            r.spec_edges() == Seq::<EdgeDefinition>::empty(),
    {
        let (title, top_cycle_marker) = match head {
            Some(head) => {
                let marker = CycleMarker::from_tick(head.tick, head.every);
                (head.text, marker)
            },
            None => (None, None),
        };
        let (footer, bottom_cycle_marker) = match foot {
            Some(foot) => {
                let marker = CycleMarker::from_tick(foot.tock, foot.every);
                (foot.text, marker)
            },
            None => (None, None),
        };
        let hscale = match config {
            Some(c) => match c.hscale {
                Some(s) => s,
                None => 1,
            },
            None => 1,
        };
        Figure::new(title, footer, top_cycle_marker, bottom_cycle_marker, hscale, lines)
    }
}

/// Is the group marker `m` over lines within `lo..hi`, at a depth from `depth` and below `top`?
pub open spec fn marker_within(
    m: (int, Option<Seq<char>>, int, int),
    depth: int,
    top: int,
    lo: int,
    hi: int,
) -> bool {
    &&& lo <= m.2 <= m.3 <= hi
    &&& depth <= m.0 < top
}

/// The group markers of a line at depth `depth` lie over the lines of its own waves, at depths
/// from `depth` and below the nesting depth the line reaches, and its waves stand at depths
/// from `depth` up to that nesting depth.
pub proof fn lemma_line_groups_within(line: WaveLine, depth: int, base: int)
    requires
        0 <= depth,
    ensures
        forall|k: int|
            0 <= k < line_groups(line, depth, base).len() ==> marker_within(
                #[trigger] line_groups(line, depth, base)[k],
                depth,
                line_depth(line, depth),
                base,
                base + line_waves(line, depth).len(),
            ),
        forall|k: int|
            0 <= k < line_waves(line, depth).len() ==> depth <= (#[trigger] line_waves(
                line,
                depth,
            )[k]).1 <= line_depth(line, depth),
    decreases line, 1int,
{
    match line {
        WaveLine::Wave(_) => {},
        WaveLine::Group(g) => {
            assert(decreases_to!(line => line->Group_0));
            assert(decreases_to!(g => g.1));
            assert(decreases_to!(g.1 => g.1@));
            lemma_lines_groups_within(g.1@, depth + 1, base);
            let inner = lines_groups(g.1@, depth + 1, base);
            let all = line_groups(line, depth, base);
            assert forall|k: int| 0 <= k < all.len() implies marker_within(
                #[trigger] all[k],
                depth,
                line_depth(line, depth),
                base,
                base + line_waves(line, depth).len(),
            ) by {
                if k < inner.len() {
                    assert(all[k] == inner[k]);
                }
            }
        },
    }
}

/// The group markers of lines at depth `depth` lie over the lines of their waves, at depths from
/// `depth` and below the nesting depth the lines reach, and their waves stand at depths from
/// `depth` up to that nesting depth.
pub proof fn lemma_lines_groups_within(lines: Seq<WaveLine>, depth: int, base: int)
    requires
        0 <= depth,
    ensures
        forall|k: int|
            0 <= k < lines_groups(lines, depth, base).len() ==> marker_within(
                #[trigger] lines_groups(lines, depth, base)[k],
                depth,
                lines_depth(lines, depth),
                base,
                base + lines_waves(lines, depth).len(),
            ),
        forall|k: int|
            0 <= k < lines_waves(lines, depth).len() ==> depth <= (#[trigger] lines_waves(
                lines,
                depth,
            )[k]).1 <= lines_depth(lines, depth),
    decreases lines, 0int,
{
    if lines.len() > 0 {
        let prefix = lines.subrange(0, lines.len() - 1);
        let last = lines[lines.len() - 1];
        lemma_lines_groups_within(prefix, depth, base);
        let mid = base + lines_waves(prefix, depth).len();
        lemma_line_groups_within(last, depth, mid);
        let a = lines_groups(prefix, depth, base);
        let b = line_groups(last, depth, mid);
        let all = lines_groups(lines, depth, base);
        let hi = base + lines_waves(lines, depth).len();
        let top = lines_depth(lines, depth);
        assert forall|k: int| 0 <= k < all.len() implies marker_within(#[trigger] all[k], depth, top, base, hi) by {
            if k < a.len() {
                assert(all[k] == a[k]);
            } else {
                assert(all[k] == b[k - a.len()]);
            }
        }
        let wa = lines_waves(prefix, depth);
        let wb = line_waves(last, depth);
        let ws = lines_waves(lines, depth);
        assert forall|k: int| 0 <= k < ws.len() implies depth <= (#[trigger] ws[k]).1 <= top by {
            if k < wa.len() {
                assert(ws[k] == wa[k]);
            } else {
                assert(ws[k] == wb[k - wa.len()]);
            }
        }
    }
}

/// An assembled figure's group markers lie over its lines, each at a depth below the figure's
/// group nesting depth, and its lines stand at depths up to that nesting depth.
pub proof fn lemma_assembled_groups_within(figure: Figure, options: WaveOptions, f: AssembledFigure)
    requires
        figure.assembled_into(
            f,
            options.cycle_width,
            options.wave_height,
            options.transition_offset,
            options.font_size,
        ),
    ensures
        forall|k: int|
            0 <= k < f.spec_groups().len() ==> (#[trigger] f.spec_groups()[k]).spec_start()
                <= f.spec_groups()[k].spec_end() <= f.spec_lines().len()
                && f.spec_groups()[k].spec_depth() < f.spec_max_depth(),
        forall|k: int|
            0 <= k < f.spec_lines().len() ==> (#[trigger] f.spec_lines()[k]).spec_depth()
                <= f.spec_max_depth(),
{
    lemma_lines_groups_within(figure.spec_lines(), 0, 0);
    let ms = lines_groups(figure.spec_lines(), 0, 0);
    let top = lines_depth(figure.spec_lines(), 0);
    assert forall|k: int| 0 <= k < f.spec_groups().len() implies (#[trigger] f.spec_groups()[k]).spec_start()
        <= f.spec_groups()[k].spec_end() <= f.spec_lines().len() && f.spec_groups()[k].spec_depth()
        < f.spec_max_depth() by {
        assert(f.spec_groups()[0 + k].matches(ms[k]));
        assert(marker_within(ms[k], 0, top, 0, figure.shown_waves().len() as int));
    }
    let ws = figure.shown_waves();
    assert forall|k: int| 0 <= k < f.spec_lines().len() implies (#[trigger] f.spec_lines()[k]).spec_depth()
        <= f.spec_max_depth() by {
        assert(f.spec_lines()[0 + k].matches(
            ws[k],
            figure.scaled_width(options) as u16,
            options.wave_height,
            options.transition_offset,
        ));
        assert(0 <= ws[k].1 <= top);
    }
}


/// An assembled figure spans as many cycles as its longest line, rounded up to whole cycles, and
/// no cycles without lines.
pub proof fn lemma_num_cycles_is_longest_line(figure: Figure, options: WaveOptions, f: AssembledFigure)
    requires
        figure.assembled_into(
            f,
            options.cycle_width,
            options.wave_height,
            options.transition_offset,
            options.font_size,
        ),
    ensures
        forall|k: int|
            0 <= k < f.spec_lines().len() ==> ((#[trigger] f.spec_lines()[k]).spec_path().spec_end_offset().quarters()
                + 3) / 4 <= f.spec_num_cycles(),
        f.spec_lines().len() == 0 ==> f.spec_num_cycles() == 0,
        f.spec_lines().len() > 0 ==> exists|k: int|
            0 <= k < f.spec_lines().len() && ((#[trigger] f.spec_lines()[k]).spec_path().spec_end_offset().quarters()
                + 3) / 4 == f.spec_num_cycles(),
{
    let ws = figure.shown_waves();
    let cw = (options.cycle_width * figure.spec_hscale()) as u16;
    lemma_max_num_cycles(ws);
    assert forall|k: int| 0 <= k < f.spec_lines().len() implies ((#[trigger] f.spec_lines()[k]).spec_path().spec_end_offset().quarters()
        + 3) / 4 <= f.spec_num_cycles() by {
        assert(f.spec_lines()[0 + k].matches(ws[k], cw, options.wave_height, options.transition_offset));
        assert((wave_end_quarters(ws[k].0) + 3) / 4 <= max_num_cycles(ws));
    }
    if f.spec_lines().len() > 0 {
        let k = choose|k: int|
            0 <= k < ws.len() && (wave_end_quarters(#[trigger] ws[k].0) + 3) / 4 == max_num_cycles(
                ws,
            );
        assert(f.spec_lines()[0 + k].matches(ws[k], cw, options.wave_height, options.transition_offset));
        assert((f.spec_lines()[k].spec_path().spec_end_offset().quarters() + 3) / 4 == f.spec_num_cycles());
    }
}

} // verus!

//! Edges or arrows define a set of markers and edge lines that can be put over a diagram to
//! indicate properties.
//!
//! An edge line is between two nodes which are identified by a character. If the character is an
//! uppercase ASCII character then it is not displayed on the diagram, otherwise it is also shown
//! on the diagram.
//!
//! An edge is written as `<start node><edge identifier><end node> [label]`. The label is text that
//! is put on the middle of the edge.
use vstd::prelude::*;
use vstd::string::{StrSliceExecFns, StringExecFns};

use crate::cycle_offset::{CycleOffset, InCycleOffset};
use crate::figure::{AssembledFigure, AssembledLine};
use crate::text::{
    char_is_ascii_uppercase, chars_of, count_leading_whitespace, is_ascii_uppercase, is_whitespace,
    leading_whitespace, min_int, trim_start, utf8_len,
    utf8_len_between,
};

verus! {

/// A variant of an edge.
#[derive(Debug, Clone, Copy, PartialEq, Eq, Structural)]
pub enum EdgeVariant {
    /// A smooth / curved edge variant
    Spline(SplineEdgeVariant),
    /// A sharp edge variant
    Sharp(SharpEdgeVariant),
}

/// A variant of a smooth / curved edge.
#[derive(Debug, Clone, Copy, PartialEq, Eq, Structural)]
pub enum SplineEdgeVariant {
    /// Points to the start and end node horizontally. Edge identifier is `~`.
    BothHorizontal(EdgeArrowType),
    /// Points to the start horizontally. Edge identifier is `-~`.
    StartHorizontal(EdgeArrowType),
    /// Points to the end horizontally. Edge identifier is `~-`.
    EndHorizontal(EdgeArrowType),
}

/// A variant of a sharp edge.
#[derive(Debug, Clone, Copy, PartialEq, Eq, Structural)]
pub enum SharpEdgeVariant {
    /// Always takes the shortest path from the start to the end node. Edge identifier is `-`.
    Straight(EdgeArrowType),
    /// Points to the start and the end node horizontally. Edge identifier is `-|-`.
    BothHorizontal(EdgeArrowType),
    /// Points to the start node horizontally and the end node mostly vertically. Edge identifier
    /// is `-|`.
    StartHorizontal(EdgeArrowType),
    /// Points to the end node horizontally and the start node mostly vertically. Edge identifier
    /// is `|-`.
    EndHorizontal(EdgeArrowType),
    /// Takes the shortest path and has small bars at the start and end. Edge identifier is `+`.
    Cross,
}

/// At which sides of an [`EdgeVariant`] there are arrows.
#[derive(Debug, Clone, Copy, PartialEq, Eq, Structural)]
pub enum EdgeArrowType {
    /// No arrows at either start or end.
    NoArrows,
    /// Arrows at start.
    Start,
    /// Arrow at end.
    End,
    /// Both arrows at start or end.
    Both,
}

/// The definition for an edge.
#[derive(Debug, Clone)]
pub struct EdgeDefinition {
    pub variant: EdgeVariant,
    pub from: char,
    pub to: char,
    pub label: Option<String>,
}

/// The arrow type with arrows at the sides that are set.
pub open spec fn arrow_type_of(has_arrow_left: bool, has_arrow_right: bool) -> EdgeArrowType {
    match (has_arrow_left, has_arrow_right) {
        (false, false) => EdgeArrowType::NoArrows,
        (true, false) => EdgeArrowType::Start,
        (false, true) => EdgeArrowType::End,
        (true, true) => EdgeArrowType::Both,
    }
}

/// Is `s[i]` the character `c`?
pub open spec fn char_at(s: Seq<char>, i: int, c: char) -> bool {
    0 <= i < s.len() && s[i] == c
}

/// The edge identifiers that take an optional arrow at the end, as a pair of the identifier's
/// length and its shape: 0 `-|-`, 1 `-|`, 2 `|-`, 3 `-~`, 4 `~-`, 5 `-`, 6 `~`.
pub open spec fn edge_shape(r: Seq<char>) -> Option<(nat, nat)> {
    if char_at(r, 0, '-') && char_at(r, 1, '|') && char_at(r, 2, '-') {
        Some((3, 0))
    } else if char_at(r, 0, '-') && char_at(r, 1, '|') {
        Some((2, 1))
    } else if char_at(r, 0, '|') && char_at(r, 1, '-') {
        Some((2, 2))
    } else if char_at(r, 0, '-') && char_at(r, 1, '~') {
        Some((2, 3))
    } else if char_at(r, 0, '~') && char_at(r, 1, '-') {
        Some((2, 4))
    } else if char_at(r, 0, '-') {
        Some((1, 5))
    } else if char_at(r, 0, '~') {
        Some((1, 6))
    } else {
        None
    }
}

/// The variant of shape `shape` (see [`edge_shape`]) with arrows `a`.
pub open spec fn variant_of_shape(shape: nat, a: EdgeArrowType) -> EdgeVariant {
    if shape == 0 {
        EdgeVariant::Sharp(SharpEdgeVariant::BothHorizontal(a))
    } else if shape == 1 {
        EdgeVariant::Sharp(SharpEdgeVariant::StartHorizontal(a))
    } else if shape == 2 {
        EdgeVariant::Sharp(SharpEdgeVariant::EndHorizontal(a))
    } else if shape == 3 {
        EdgeVariant::Spline(SplineEdgeVariant::StartHorizontal(a))
    } else if shape == 4 {
        EdgeVariant::Spline(SplineEdgeVariant::EndHorizontal(a))
    } else if shape == 5 {
        EdgeVariant::Sharp(SharpEdgeVariant::Straight(a))
    } else {
        EdgeVariant::Spline(SplineEdgeVariant::BothHorizontal(a))
    }
}

/// The edge variant at the start of `s`, with the number of characters it takes: an optional
/// `<`, an edge identifier and, but for the cross `+` which takes no arrows, an optional `>`.
pub open spec fn spec_consume(s: Seq<char>) -> Option<(nat, EdgeVariant)> {
    let l = char_at(s, 0, '<');
    let i: nat = if l {
        1
    } else {
        0
    };
    let r = s.skip(i as int);
    if char_at(r, 0, '+') {
        if l {
            None
        } else {
            Some((1, EdgeVariant::Sharp(SharpEdgeVariant::Cross)))
        }
    } else {
        match edge_shape(r) {
            None => None,
            Some((k, shape)) => {
                let right = char_at(r, k as int, '>');
                Some(
                    (
                        i + k + if right {
                            1nat
                        } else {
                            0nat
                        },
                        variant_of_shape(shape, arrow_type_of(l, right)),
                    ),
                )
            },
        }
    }
}

/// The label of an edge: what follows the end node without its leading whitespace, or no label
/// when nothing follows.
pub open spec fn label_of(rest: Seq<char>) -> Option<Seq<char>> {
    if rest.len() == 0 {
        None
    } else {
        Some(trim_start(rest))
    }
}

/// What follows the start node of an edge string (`s3`, without its leading whitespace) parses
/// to: the variant, the end node and the label, or the failing byte offset, where `ws` bytes of
/// whitespace were skipped before `s3`.
pub open spec fn spec_parse_edge_rest(s3: Seq<char>, ws: nat) -> Result<
    (EdgeVariant, char, Option<Seq<char>>),
    nat,
> {
    match spec_consume(s3) {
        None => Err(ws),
        Some((k, variant)) => {
            let s4 = s3.skip(k as int);
            let c = leading_whitespace(s4) as int;
            let s5 = s4.skip(c);
            if s5.len() == 0 {
                Err(ws + utf8_len(s4.take(c)))
            } else {
                Ok((variant, s5[0], label_of(s5.skip(1))))
            }
        },
    }
}

/// The definition that an edge string parses to, as its variant, start node, end node and label,
/// or the byte offset at which the parse failed.
///
/// Whitespace may stand before the start node, before the identifier and before the end node.
/// What follows the end node, without its leading whitespace, is the label; there is no label
/// when nothing follows. The error offset counts the whitespace skipped before the failure.
pub open spec fn spec_parse_edge(s: Seq<char>) -> Result<
    (EdgeVariant, char, char, Option<Seq<char>>),
    nat,
> {
    let a = leading_whitespace(s) as int;
    let s1 = s.skip(a);
    if s1.len() == 0 {
        Err(utf8_len(s.take(a)))
    } else {
        let s2 = s1.skip(1);
        let b = leading_whitespace(s2) as int;
        match spec_parse_edge_rest(s2.skip(b), utf8_len(s.take(a)) + utf8_len(s2.take(b))) {
            Err(e) => Err(e),
            Ok((variant, to, label)) => Ok((variant, s1[0], to, label)),
        }
    }
}

impl EdgeArrowType {
    /// Create a new [`EdgeArrowType`].
    fn new(has_arrow_left: bool, has_arrow_right: bool) -> (r: EdgeArrowType)
        ensures
            r == arrow_type_of(has_arrow_left, has_arrow_right),
    {
        match (has_arrow_left, has_arrow_right) {
            (false, false) => EdgeArrowType::NoArrows,
            (true, false) => EdgeArrowType::Start,
            (false, true) => EdgeArrowType::End,
            (true, true) => EdgeArrowType::Both,
        }
    }

    /// Does the variant have an arrow at the start
    pub fn has_start_arrow(self) -> (r: bool)
        ensures
            r == (self == EdgeArrowType::Both || self == EdgeArrowType::Start),
    {
        match self {
            EdgeArrowType::Both | EdgeArrowType::Start => true,
            _ => false,
        }
    }

    /// Does the variant have an arrow at the end
    pub fn has_end_arrow(self) -> (r: bool)
        ensures
            r == (self == EdgeArrowType::Both || self == EdgeArrowType::End),
    {
        match self {
            EdgeArrowType::Both | EdgeArrowType::End => true,
            _ => false,
        }
    }
}

impl SplineEdgeVariant {
    /// The arrow type of the variant.
    pub open spec fn spec_arrow_type(self) -> EdgeArrowType {
        match self {
            SplineEdgeVariant::BothHorizontal(a) | SplineEdgeVariant::StartHorizontal(a)
            | SplineEdgeVariant::EndHorizontal(a) => a,
        }
    }

    /// Fetch the arrow type that the [`SplineEdgeVariant`] has.
    pub fn arrow_type(self) -> (r: EdgeArrowType)
        ensures
            r == self.spec_arrow_type(),
    {
        match self {
            SplineEdgeVariant::BothHorizontal(a) | SplineEdgeVariant::StartHorizontal(a)
            | SplineEdgeVariant::EndHorizontal(a) => a,
        }
    }
}

impl SharpEdgeVariant {
    /// The arrow type of the variant; the cross has none.
    pub open spec fn spec_arrow_type(self) -> EdgeArrowType {
        match self {
            SharpEdgeVariant::Straight(a) | SharpEdgeVariant::BothHorizontal(a)
            | SharpEdgeVariant::StartHorizontal(a) | SharpEdgeVariant::EndHorizontal(a) => a,
            SharpEdgeVariant::Cross => EdgeArrowType::NoArrows,
        }
    }

    /// Fetch the arrow type that the [`SharpEdgeVariant`] has. The [`SharpEdgeVariant::Cross`]
    /// always has [`EdgeArrowType::NoArrows`].
    pub fn arrow_type(self) -> (r: EdgeArrowType)
        ensures
            r == self.spec_arrow_type(),
    {
        match self {
            SharpEdgeVariant::Straight(a) | SharpEdgeVariant::BothHorizontal(a)
            | SharpEdgeVariant::StartHorizontal(a) | SharpEdgeVariant::EndHorizontal(a) => a,
            SharpEdgeVariant::Cross => EdgeArrowType::NoArrows,
        }
    }
}

impl EdgeVariant {
    /// The arrow type of the variant.
    pub open spec fn spec_arrow_type(self) -> EdgeArrowType {
        match self {
            EdgeVariant::Spline(v) => v.spec_arrow_type(),
            EdgeVariant::Sharp(v) => v.spec_arrow_type(),
        }
    }

    /// Fetch the arrow type that the [`EdgeVariant`] has. The [`SharpEdgeVariant::Cross`]
    /// always has [`EdgeArrowType::NoArrows`].
    pub fn arrow_type(self) -> (r: EdgeArrowType)
        ensures
            r == self.spec_arrow_type(),
    {
        match self {
            EdgeVariant::Spline(v) => v.arrow_type(),
            EdgeVariant::Sharp(v) => v.arrow_type(),
        }
    }

    /// The edge variant at position `from` of `s`, with the position after it.
    fn consume_at(s: &Vec<char>, from: usize) -> (r: Option<(usize, EdgeVariant)>)
        requires
            from <= s@.len(),
        ensures
            match spec_consume(s@.skip(from as int)) {
                None => r.is_none(),
                Some((k, v)) => r == Some(((from + k) as usize, v)) && from + k <= s@.len(),
            },
    {
        let n = s.len();
        let ghost t = s@.skip(from as int);
        let l = from < n && s[from] == '<';
        let i = if l {
            from + 1
        } else {
            from
        };
        let ghost r = t.skip(if l {
            1int
        } else {
            0int
        });
        assert(forall|j: int| 0 <= j < r.len() ==> r[j] == s@[i + j]);
        assert(r.len() == n - i);
        let rem = n - i;
        let c0 = if rem > 0 {
            s[i]
        } else {
            ' '
        };
        let c1 = if rem > 1 {
            s[i + 1]
        } else {
            ' '
        };
        let c2 = if rem > 2 {
            s[i + 2]
        } else {
            ' '
        };
        if rem > 0 && c0 == '+' {
            if l {
                return None;
            }
            return Some((i + 1, EdgeVariant::Sharp(SharpEdgeVariant::Cross)));
        }
        let (k, shape): (usize, u8) = if rem > 2 && c0 == '-' && c1 == '|' && c2 == '-' {
            (3, 0)
        } else if rem > 1 && c0 == '-' && c1 == '|' {
            (2, 1)
        } else if rem > 1 && c0 == '|' && c1 == '-' {
            (2, 2)
        } else if rem > 1 && c0 == '-' && c1 == '~' {
            (2, 3)
        } else if rem > 1 && c0 == '~' && c1 == '-' {
            (2, 4)
        } else if rem > 0 && c0 == '-' {
            (1, 5)
        } else if rem > 0 && c0 == '~' {
            (1, 6)
        } else {
            return None;
        };
        let right = k < rem && s[i + k] == '>';
        let a = EdgeArrowType::new(l, right);
        let variant = match shape {
            0 => EdgeVariant::Sharp(SharpEdgeVariant::BothHorizontal(a)),
            1 => EdgeVariant::Sharp(SharpEdgeVariant::StartHorizontal(a)),
            2 => EdgeVariant::Sharp(SharpEdgeVariant::EndHorizontal(a)),
            3 => EdgeVariant::Spline(SplineEdgeVariant::StartHorizontal(a)),
            4 => EdgeVariant::Spline(SplineEdgeVariant::EndHorizontal(a)),
            5 => EdgeVariant::Sharp(SharpEdgeVariant::Straight(a)),
            _ => EdgeVariant::Spline(SplineEdgeVariant::BothHorizontal(a)),
        };
        let end = if right {
            i + k + 1
        } else {
            i + k
        };
        Some((end, variant))
    }

    /// Parse an edge variant from the start of `s`. Returns the rest of `s` and the variant, or
    /// `None` when `s` does not start with an edge identifier.
    pub fn consume(s: &str) -> (r: Option<(&str, EdgeVariant)>)
        ensures
            match spec_consume(s@) {
                None => r.is_none(),
                Some((k, v)) => match r {
                    Some((rest, w)) => rest@ == s@.skip(k as int) && w == v,
                    None => false,
                },
            },
    {
        let chars = chars_of(s);
        assert(chars@.skip(0) =~= s@);
        match EdgeVariant::consume_at(&chars, 0) {
            None => None,
            Some((k, v)) => Some((s.substring_char(k, chars.len()), v)),
        }
    }
}

impl EdgeDefinition {
    /// Create a new [`EdgeDefinition`] from a set of parameters
    pub fn new(variant: EdgeVariant, from: char, to: char, label: Option<String>) -> (r:
        EdgeDefinition)
        ensures
            r.variant == variant,
            r.from == from,
            r.to == to,
            r.label == label,
    {
        EdgeDefinition { variant, from, to, label }
    }

    /// The view of a definition: its variant, start node, end node and label.
    pub open spec fn spec_parts(&self) -> (EdgeVariant, char, char, Option<Seq<char>>) {
        (
            self.variant,
            self.from,
            self.to,
            match &self.label {
                Some(l) => Some(l@),
                None => None,
            },
        )
    }

    /// Parse what follows the start node of an edge string, from position `p3` of `c`, where
    /// `ws` bytes of whitespace were skipped before it.
    fn parse_rest(s: &str, c: &Vec<char>, p3: usize, ws: usize) -> (r: Result<
        (EdgeVariant, char, Option<String>),
        usize,
    >)
        requires
            c@ == s@,
            p3 <= c@.len(),
        ensures
            match spec_parse_edge_rest(c@.skip(p3 as int), ws as nat) {
                Ok((v, to, label)) => match r {
                    Ok((w, t, l)) => w == v && t == to && match l {
                        Some(x) => label == Some(x@),
                        None => label.is_none(),
                    },
                    Err(_) => false,
                },
                Err(e) => r == Err::<(EdgeVariant, char, Option<String>), usize>(
                    min_int(e as int, usize::MAX as int) as usize,
                ),
            },
    {
        let n = c.len();
        let ghost s3 = c@.skip(p3 as int);
        let (p4, variant) = match EdgeVariant::consume_at(c, p3) {
            None => {
                return Err(ws);
            },
            Some(x) => x,
        };
        let ghost k = p4 - p3;
        let ghost s4 = s3.skip(k);
        assert(s4 =~= c@.skip(p4 as int));
        let cc = count_leading_whitespace(c, p4);
        let ws_c = utf8_len_between(c, p4, p4 + cc);
        assert(c@.subrange(p4 as int, (p4 + cc) as int) =~= s4.take(cc as int));
        let p5 = p4 + cc;
        let ghost s5 = s4.skip(cc as int);
        assert(s5 =~= c@.skip(p5 as int));
        if p5 >= n {
            return Err(ws.saturating_add(ws_c));
        }
        let to = c[p5];
        assert(s5[0] == to);
        let p6 = p5 + 1;
        let ghost rest = s5.skip(1);
        assert(rest =~= c@.skip(p6 as int));
        let label = if p6 >= n {
            None
        } else {
            let d = count_leading_whitespace(c, p6);
            assert(rest.skip(d as int) =~= s@.subrange(p6 + d, n as int));
            Some(String::from_str(s.substring_char(p6 + d, n)))
        };
        Ok((variant, to, label))
    }

    /// Parse an edge definition: `<start node><edge identifier><end node> [label]`.
    ///
    /// On failure, returns the byte offset counting the whitespace skipped before the failure
    /// (saturated at `usize::MAX`).
    pub fn parse(s: &str) -> (r: Result<EdgeDefinition, usize>)
        ensures
            match spec_parse_edge(s@) {
                Ok(parts) => r.is_ok() && r->Ok_0.spec_parts() == parts,
                Err(e) => r == Err::<EdgeDefinition, usize>(
                    min_int(e as int, usize::MAX as int) as usize,
                ),
            },
    {
        let c = chars_of(s);
        let n = c.len();
        let ghost sv = s@;
        let a = count_leading_whitespace(&c, 0);
        assert(c@.skip(0) =~= sv);
        let ws_a = utf8_len_between(&c, 0, a);
        assert(c@.subrange(0, a as int) =~= sv.take(a as int));
        if a >= n {
            return Err(ws_a);
        }
        let from = c[a];
        assert(sv.skip(a as int)[0] == from);
        let ghost s2 = sv.skip(a as int).skip(1);
        assert(s2 =~= c@.skip(a + 1));
        let b = count_leading_whitespace(&c, a + 1);
        let ws_b = utf8_len_between(&c, a + 1, a + 1 + b);
        assert(c@.subrange(a + 1, (a + 1 + b) as int) =~= s2.take(b as int));
        let ws = ws_a.saturating_add(ws_b);
        let p3 = a + 1 + b;
        assert(s2.skip(b as int) =~= c@.skip(p3 as int));
        match EdgeDefinition::parse_rest(s, &c, p3, ws) {
            Err(e) => Err(e),
            Ok((variant, to, label)) => Ok(EdgeDefinition { variant, from, to, label }),
        }
    }
}

impl std::str::FromStr for EdgeDefinition {
    type Err = usize;

    fn from_str(s: &str) -> (r: Result<EdgeDefinition, usize>)
        ensures
            match spec_parse_edge(s@) {
                Ok(parts) => r.is_ok() && r->Ok_0.spec_parts() == parts,
                Err(e) => r == Err::<EdgeDefinition, usize>(
                    min_int(e as int, usize::MAX as int) as usize,
                ),
            },
    {
        EdgeDefinition::parse(s)
    }
}

broadcast use vstd::std_specs::hash::group_hash_axioms;

/// A position in the signal schema: a cycle offset `x` and a signal index `y`.
#[derive(Debug, Clone, Copy, PartialEq, Eq, Structural)]
pub struct InSignalPosition {
    x: CycleOffset,
    y: u32,
}

/// The text of a node that stands alone.
#[derive(Debug, Clone, Copy)]
pub struct LineEdgeText {
    at: InSignalPosition,
    text: char,
}

/// An edge from a start node to an end node.
#[derive(Debug, Clone)]
pub struct LineEdge<'a> {
    from: InSignalPosition,
    from_marker: Option<char>,
    to: InSignalPosition,
    to_marker: Option<char>,
    text: Option<&'a str>,
    variant: EdgeVariant,
}

/// A set of edge markers: the edge lines and the text nodes.
#[derive(Debug, Clone)]
pub struct LineEdgeMarkers<'a> {
    lines: Vec<LineEdge<'a>>,
    text_nodes: Vec<LineEdgeText>,
}

/// Collects the nodes of the signals, line by line, to build the edge markers.
#[derive(Debug)]
pub struct LineEdgeMarkersBuilder {
    line_number: u32,
    node_positions: std::collections::HashMap<u32, InSignalPosition>,
    text_nodes: Vec<LineEdgeText>,
}

impl InSignalPosition {
    /// The position at cycle offset `x` on signal `y`.
    pub closed spec fn at(x: CycleOffset, y: u32) -> InSignalPosition {
        InSignalPosition { x, y }
    }

    /// The cycle offset of the position.
    pub closed spec fn spec_x(self) -> CycleOffset {
        self.x
    }

    /// The signal index of the position.
    pub closed spec fn spec_y(self) -> u32 {
        self.y
    }

    /// The `x` value of the position
    pub fn x(&self) -> (r: CycleOffset)
        ensures
            r == self.spec_x(),
    {
        self.x
    }

    /// The `y` value of the position
    pub fn y(&self) -> (r: u32)
        ensures
            r == self.spec_y(),
    {
        self.y
    }
}

impl LineEdgeText {
    /// The view of the text node: its position and its character.
    pub closed spec fn view(self) -> (InSignalPosition, char) {
        (self.at, self.text)
    }

    /// The location of the node
    pub fn at(&self) -> (r: InSignalPosition)
        ensures
            r == self.view().0,
    {
        self.at
    }

    /// The text content of the node
    pub fn text(&self) -> (r: char)
        ensures
            r == self.view().1,
    {
        self.text
    }
}

/// The view of an edge line: its start and end positions and markers, its label and its
/// variant.
pub type LineEdgeView = (
    InSignalPosition,
    Option<char>,
    InSignalPosition,
    Option<char>,
    Option<Seq<char>>,
    EdgeVariant,
);

impl<'a> LineEdge<'a> {
    /// The view of the edge line.
    pub closed spec fn view(self) -> LineEdgeView {
        (
            self.from,
            self.from_marker,
            self.to,
            self.to_marker,
            match self.text {
                Some(t) => Some(t@),
                None => None,
            },
            self.variant,
        )
    }

    /// The starting position
    pub fn from(&self) -> (r: InSignalPosition)
        ensures
            r == self.view().0,
    {
        self.from
    }

    /// The ending position
    pub fn to(&self) -> (r: InSignalPosition)
        ensures
            r == self.view().2,
    {
        self.to
    }

    /// The marker at the start of the edge line
    pub fn from_marker(&self) -> (r: Option<char>)
        ensures
            r == self.view().1,
    {
        self.from_marker
    }

    /// The marker at the end of the edge line
    pub fn to_marker(&self) -> (r: Option<char>)
        ensures
            r == self.view().3,
    {
        self.to_marker
    }

    /// The variant of the edge line
    pub fn variant(&self) -> (r: EdgeVariant)
        ensures
            r == self.view().5,
    {
        self.variant
    }

    /// The label text of the edge line
    pub fn label(&self) -> (r: Option<&'a str>)
        ensures
            match r {
                Some(t) => self.view().4 == Some(t@),
                None => self.view().4.is_none(),
            },
    {
        self.text
    }
}

impl<'a> LineEdgeMarkers<'a> {
    /// The edge lines.
    pub closed spec fn spec_lines(&self) -> Seq<LineEdge<'a>> {
        self.lines@
    }

    /// The lone standing text nodes.
    pub closed spec fn spec_text_nodes(&self) -> Seq<LineEdgeText> {
        self.text_nodes@
    }

    /// The edge lines for a [`LineEdgeMarkers`]
    pub fn lines(&self) -> (r: &[LineEdge<'a>])
        ensures
            r@ == self.spec_lines(),
    {
        self.lines.as_slice()
    }

    /// The lone standing text nodes for a [`LineEdgeMarkers`]
    pub fn text_nodes(&self) -> (r: &[LineEdgeText])
        ensures
            r@ == self.spec_text_nodes(),
    {
        self.text_nodes.as_slice()
    }
}

/// The position of the node at index `i` of the nodes of signal `y` with phase `phase`.
pub closed spec fn node_position(phase: CycleOffset, i: int, y: u32) -> InSignalPosition {
    InSignalPosition::at(CycleOffset::from_quarters((phase.quarters() + 4 * i) as nat), y)
}

/// The node positions after the nodes `s` of signal `y` were added to `m`: each node but `.`
/// takes its position, a later node of the same character replacing an earlier one.
pub closed spec fn nodes_after(
    m: Map<u32, InSignalPosition>,
    s: Seq<char>,
    phase: CycleOffset,
    y: u32,
) -> Map<u32, InSignalPosition>
    decreases s.len(),
{
    if s.len() == 0 {
        m
    } else {
        let m2 = nodes_after(m, s.drop_last(), phase, y);
        if s.last() == '.' {
            m2
        } else {
            m2.insert(s.last() as u32, node_position(phase, s.len() - 1, y))
        }
    }
}

/// The text nodes of the nodes `s` of signal `y`: one for each node but `.`, in order.
pub closed spec fn texts_of(s: Seq<char>, phase: CycleOffset, y: u32) -> Seq<(InSignalPosition, char)>
    decreases s.len(),
{
    if s.len() == 0 {
        seq![]
    } else if s.last() == '.' {
        texts_of(s.drop_last(), phase, y)
    } else {
        texts_of(s.drop_last(), phase, y).push((node_position(phase, s.len() - 1, y), s.last()))
    }
}

impl LineEdgeMarkersBuilder {
    /// The number of signals added.
    pub closed spec fn spec_line_number(&self) -> u32 {
        self.line_number
    }

    /// The position of each node character, by its code.
    pub closed spec fn spec_nodes(&self) -> Map<u32, InSignalPosition> {
        self.node_positions@
    }

    /// The text nodes of the signals added, in order.
    pub closed spec fn spec_texts(&self) -> Seq<(InSignalPosition, char)> {
        self.text_nodes@.map_values(|t: LineEdgeText| t.view())
    }

    /// A builder without signals.
    pub fn new() -> (r: LineEdgeMarkersBuilder)
        ensures
            r.spec_line_number() == 0,
            r.spec_nodes() == Map::<u32, InSignalPosition>::empty(),
            r.spec_texts() == Seq::<(InSignalPosition, char)>::empty(),
    {
        let r = LineEdgeMarkersBuilder {
            line_number: 0,
            node_positions: std::collections::HashMap::new(),
            text_nodes: Vec::new(),
        };
        assert(r.spec_texts() =~= Seq::<(InSignalPosition, char)>::empty());
        r
    }

    /// Add the nodes of the next signal, whose phase is `phase`. Each character of `nodes` but
    /// `.` is a node, at the cycle of its index.
    pub fn add_signal(&mut self, nodes: &str, phase: CycleOffset)
        requires
            old(self).spec_line_number() < u32::MAX,
            phase.quarters() + 4 * nodes@.len() <= 4 * (u32::MAX as int),
        ensures
            final(self).spec_line_number() == old(self).spec_line_number() + 1,
            final(self).spec_nodes() == nodes_after(
                old(self).spec_nodes(),
                nodes@,
                phase,
                old(self).spec_line_number(),
            ),
            final(self).spec_texts() == old(self).spec_texts() + texts_of(
                nodes@,
                phase,
                old(self).spec_line_number(),
            ),
    {
        let line_number = self.line_number;
        let n = nodes.unicode_len();
        let ghost m0 = self.node_positions@;
        let ghost t0 = self.spec_texts();
        let mut i: usize = 0;
        while i < n
            invariant
                n == nodes@.len(),
                i <= n,
                phase.quarters() + 4 * nodes@.len() <= 4 * (u32::MAX as int),
                line_number == old(self).line_number,
                self.line_number == line_number,
                m0 == old(self).spec_nodes(),
                t0 == old(self).spec_texts(),
                self.node_positions@ == nodes_after(m0, nodes@.subrange(0, i as int), phase, line_number),
                self.spec_texts() == t0 + texts_of(nodes@.subrange(0, i as int), phase, line_number),
            decreases n - i,
        {
            let c = nodes.get_char(i);
            let ghost pre = nodes@.subrange(0, i as int);
            let ghost next = nodes@.subrange(0, i + 1);
            assert(next.drop_last() =~= pre);
            assert(next.last() == c);
            if c != '.' {
                proof {
                    phase.lemma_fits();
                }
                let x = phase.add(CycleOffset::new_rounded(i as u32));
                let at = InSignalPosition { x, y: line_number };
                proof {
                    CycleOffset::lemma_quarters_injective(
                        x,
                        CycleOffset::from_quarters((phase.quarters() + 4 * i) as nat),
                    );
                }
                assert(at == node_position(phase, i as int, line_number));
                self.node_positions.insert(c as u32, at);
                let ghost texts_before = self.text_nodes@;
                self.text_nodes.push(LineEdgeText { at, text: c });
                assert(self.text_nodes@.map_values(|t: LineEdgeText| t.view())
                    =~= texts_before.map_values(|t: LineEdgeText| t.view()).push((at, c)));
                assert(texts_of(next, phase, line_number) == texts_of(pre, phase, line_number).push(
                    (at, c),
                ));
                assert(self.spec_texts() =~= t0 + texts_of(next, phase, line_number));
            } else {
                assert(self.spec_texts() =~= t0 + texts_of(next, phase, line_number));
            }
            i = i + 1;
        }
        assert(nodes@.subrange(0, n as int) =~= nodes@);
        self.line_number = line_number + 1;
    }
}

/// Is the edge drawn: are its nodes distinct and both known?
pub open spec fn edge_drawn(e: EdgeDefinition, m: Map<u32, InSignalPosition>) -> bool {
    e.from != e.to && m.contains_key(e.from as u32) && m.contains_key(e.to as u32)
}

/// The marker shown at a node: its character, unless it is an uppercase ASCII letter.
pub open spec fn marker_of(c: char) -> Option<char> {
    if is_ascii_uppercase(c) {
        None
    } else {
        Some(c)
    }
}

/// The edge line of a drawn edge.
pub open spec fn edge_line(e: EdgeDefinition, m: Map<u32, InSignalPosition>) -> LineEdgeView {
    (
        m[e.from as u32],
        marker_of(e.from),
        m[e.to as u32],
        marker_of(e.to),
        e.spec_parts().3,
        e.variant,
    )
}

/// The edge lines of `edges`: one for each drawn edge, in order.
pub open spec fn edge_lines(edges: Seq<EdgeDefinition>, m: Map<u32, InSignalPosition>) -> Seq<
    LineEdgeView,
>
    decreases edges.len(),
{
    if edges.len() == 0 {
        seq![]
    } else if edge_drawn(edges.last(), m) {
        edge_lines(edges.drop_last(), m).push(edge_line(edges.last(), m))
    } else {
        edge_lines(edges.drop_last(), m)
    }
}

/// The codes of the nodes that a drawn edge of `edges` starts or ends at.
pub open spec fn used_nodes(edges: Seq<EdgeDefinition>, m: Map<u32, InSignalPosition>) -> Set<
    u32,
>
    decreases edges.len(),
{
    if edges.len() == 0 {
        Set::empty()
    } else if edge_drawn(edges.last(), m) {
        used_nodes(edges.drop_last(), m).insert(edges.last().from as u32).insert(
            edges.last().to as u32,
        )
    } else {
        used_nodes(edges.drop_last(), m)
    }
}

/// Does a text node stay: is its node at no drawn edge, and not an uppercase ASCII letter?
pub open spec fn text_stays(t: (InSignalPosition, char), used: Set<u32>) -> bool {
    !used.contains(t.1 as u32) && !is_ascii_uppercase(t.1)
}

/// The text nodes of `texts` that stay, in order.
pub open spec fn staying_texts(texts: Seq<(InSignalPosition, char)>, used: Set<u32>) -> Seq<
    (InSignalPosition, char),
>
    decreases texts.len(),
{
    if texts.len() == 0 {
        seq![]
    } else if text_stays(texts.last(), used) {
        staying_texts(texts.drop_last(), used).push(texts.last())
    } else {
        staying_texts(texts.drop_last(), used)
    }
}

impl LineEdgeMarkersBuilder {
    /// Build the edge markers of `edges`: an edge line for each edge between two distinct known
    /// nodes, and a text node for each node that no such edge touches and that is not an
    /// uppercase ASCII letter.
    pub fn build<'a>(self, edges: &'a [EdgeDefinition]) -> (r: LineEdgeMarkers<'a>)
        ensures
            r.spec_lines().map_values(|l: LineEdge<'a>| l.view()) == edge_lines(
                edges@,
                self.spec_nodes(),
            ),
            r.spec_text_nodes().map_values(|t: LineEdgeText| t.view()) == staying_texts(
                self.spec_texts(),
                used_nodes(edges@, self.spec_nodes()),
            ),
    {
        let ghost m = self.node_positions@;
        let mut lines: Vec<LineEdge<'a>> = Vec::new();
        let mut used: std::collections::HashSet<u32> = std::collections::HashSet::new();
        let mut i: usize = 0;
        while i < edges.len()
            invariant
                i <= edges@.len(),
                m == self.node_positions@,
                lines@.map_values(|l: LineEdge<'a>| l.view()) == edge_lines(
                    edges@.subrange(0, i as int),
                    m,
                ),
                used@ == used_nodes(edges@.subrange(0, i as int), m),
            decreases edges@.len() - i,
        {
            let edge = &edges[i];
            let ghost pre = edges@.subrange(0, i as int);
            let ghost next = edges@.subrange(0, i + 1);
            assert(next.drop_last() =~= pre);
            assert(next.last() == *edge);
            let ghost lines_before = lines@;
            if edge.from != edge.to {
                let from = self.node_positions.get(&(edge.from as u32));
                let to = self.node_positions.get(&(edge.to as u32));
                match (from, to) {
                    (Some(from), Some(to)) => {
                        used.insert(edge.from as u32);
                        used.insert(edge.to as u32);
                        let text = match &edge.label {
                            Some(l) => Some(l.as_str()),
                            None => None,
                        };
                        let from_marker = if char_is_ascii_uppercase(edge.from) {
                            None
                        } else {
                            Some(edge.from)
                        };
                        let to_marker = if char_is_ascii_uppercase(edge.to) {
                            None
                        } else {
                            Some(edge.to)
                        };
                        let line = LineEdge {
                            from: *from,
                            from_marker,
                            to: *to,
                            to_marker,
                            text,
                            variant: edge.variant,
                        };
                        assert(line.view() == edge_line(*edge, m));
                        lines.push(line);
                        assert(lines@.map_values(|l: LineEdge<'a>| l.view()) =~= lines_before.map_values(
                            |l: LineEdge<'a>| l.view(),
                        ).push(line.view()));
                    },
                    _ => {},
                }
            }
            i = i + 1;
        }
        assert(edges@.subrange(0, edges@.len() as int) =~= edges@);
        let ghost used_all = used@;
        let ghost texts = self.spec_texts();
        let mut text_nodes: Vec<LineEdgeText> = Vec::new();
        let mut k: usize = 0;
        while k < self.text_nodes.len()
            invariant
                k <= self.text_nodes@.len(),
                texts == self.spec_texts(),
                used@ == used_all,
                text_nodes@.map_values(|t: LineEdgeText| t.view()) == staying_texts(
                    texts.subrange(0, k as int),
                    used_all,
                ),
            decreases self.text_nodes@.len() - k,
        {
            let node = self.text_nodes[k];
            let ghost pre = texts.subrange(0, k as int);
            let ghost next = texts.subrange(0, k + 1);
            assert(next.drop_last() =~= pre);
            assert(next.last() == node.view());
            let ghost before = text_nodes@;
            let code = node.text as u32;
            if !used.contains(&code) && !char_is_ascii_uppercase(node.text) {
                text_nodes.push(node);
                assert(text_nodes@.map_values(|t: LineEdgeText| t.view()) =~= before.map_values(
                    |t: LineEdgeText| t.view(),
                ).push(node.view()));
            }
            k = k + 1;
        }
        assert(texts.subrange(0, texts.len() as int) =~= texts);
        LineEdgeMarkers { lines, text_nodes }
    }
}

/// The node positions of the signals of `lines`, line `k` standing at signal index `k`.
pub open spec fn lines_node_map(lines: Seq<AssembledLine>) -> Map<u32, InSignalPosition>
    decreases lines.len(),
{
    if lines.len() == 0 {
        Map::empty()
    } else {
        nodes_after(
            lines_node_map(lines.drop_last()),
            lines.last().spec_node(),
            lines.last().spec_phase(),
            (lines.len() - 1) as u32,
        )
    }
}

/// The text nodes of the signals of `lines`, in order.
pub open spec fn lines_texts(lines: Seq<AssembledLine>) -> Seq<(InSignalPosition, char)>
    decreases lines.len(),
{
    if lines.len() == 0 {
        Seq::empty()
    } else {
        lines_texts(lines.drop_last()) + texts_of(
            lines.last().spec_node(),
            lines.last().spec_phase(),
            (lines.len() - 1) as u32,
        )
    }
}

/// Do the nodes of a line lie within the cycles a `u32` counts?
pub open spec fn line_nodes_fit(line: AssembledLine) -> bool {
    line.spec_phase().quarters() + 4 * line.spec_node().len() <= 4 * (u32::MAX as int)
}

impl<'a> AssembledFigure<'a> {
    /// The edge markers of the figure: the nodes of its signals, each at the cycle of its index
    /// shifted by the phase of its signal, and the edges `edges` between them (see
    /// [`LineEdgeMarkersBuilder::build`]). `None` when a node would lie beyond the cycles a
    /// `u32` counts.
    pub fn edge_markers<'e>(&self, edges: &'e [EdgeDefinition]) -> (r: Option<LineEdgeMarkers<'e>>)
        ensures
            r is Some <==> forall|k: int|
                0 <= k < self.spec_lines().len() ==> #[trigger] line_nodes_fit(self.spec_lines()[k]),
            r matches Some(m) ==> {
                &&& m.spec_lines().map_values(|l: LineEdge<'e>| l.view()) == edge_lines(
                    edges@,
                    lines_node_map(self.spec_lines()),
                )
                &&& m.spec_text_nodes().map_values(|t: LineEdgeText| t.view()) == staying_texts(
                    lines_texts(self.spec_lines()),
                    used_nodes(edges@, lines_node_map(self.spec_lines())),
                )
            },
    {
        let lines = self.lines();
        let count = self.num_lines();
        let mut builder = LineEdgeMarkersBuilder::new();
        let mut i: usize = 0;
        assert(lines@.subrange(0, 0) =~= Seq::<AssembledLine>::empty());
        while i < lines.len()
            invariant
                lines@ == self.spec_lines(),
                count == lines@.len(),
                i <= lines@.len(),
                builder.spec_line_number() == i,
                builder.spec_nodes() == lines_node_map(lines@.subrange(0, i as int)),
                builder.spec_texts() == lines_texts(lines@.subrange(0, i as int)),
                forall|k: int| 0 <= k < i ==> #[trigger] line_nodes_fit(lines@[k]),
            decreases lines@.len() - i,
        {
            let line = &lines[i];
            let node = line.node();
            let phase = line.phase();
            proof {
                phase.lemma_fits();
            }
            let quarters = 4 * (phase.cycle_index() as u64) + match phase.in_cycle_offset() {
                InCycleOffset::Begin => 0,
                InCycleOffset::Quarter => 1,
                InCycleOffset::Half => 2,
                InCycleOffset::ThreeQuarter => 3,
            };
            let len = node.unicode_len() as u128;
            if quarters as u128 + 4 * len > 4 * 0xffff_ffffu128 {
                assert(!line_nodes_fit(lines@[i as int]));
                return None;
            }
            let ghost pre = lines@.subrange(0, i as int);
            let ghost next = lines@.subrange(0, i + 1);
            assert(next.drop_last() =~= pre);
            builder.add_signal(node, phase);
            i = i + 1;
        }
        assert(lines@.subrange(0, lines@.len() as int) =~= lines@);
        Some(builder.build(edges))
    }
}

/// A text node that stays is at no drawn edge and is not an uppercase ASCII letter, and it is
/// one of the text nodes it was kept from.
pub proof fn lemma_staying_texts(texts: Seq<(InSignalPosition, char)>, used: Set<u32>)
    ensures
        forall|k: int|
            0 <= k < staying_texts(texts, used).len() ==> {
                let t = #[trigger] staying_texts(texts, used)[k];
                &&& !used.contains(t.1 as u32)
                &&& !is_ascii_uppercase(t.1)
                &&& texts.contains(t)
            },
        staying_texts(texts, used).len() <= texts.len(),
    decreases texts.len(),
{
    if texts.len() > 0 {
        let pre = texts.drop_last();
        lemma_staying_texts(pre, used);
        assert forall|k: int| 0 <= k < staying_texts(texts, used).len() implies texts.contains(
            #[trigger] staying_texts(texts, used)[k],
        ) by {
            let t = staying_texts(texts, used)[k];
            if k < staying_texts(pre, used).len() {
                assert(pre.contains(t));
                let j = choose|j: int| 0 <= j < pre.len() && pre[j] == t;
                assert(texts[j] == t);
            } else {
                assert(texts[texts.len() - 1] == t);
            }
        }
    }
}

/// An edge is drawn only between two distinct nodes that signals show.
pub proof fn lemma_edge_lines_drawn(edges: Seq<EdgeDefinition>, m: Map<u32, InSignalPosition>)
    ensures
        edge_lines(edges, m).len() <= edges.len(),
        forall|e: EdgeDefinition|
            edges.contains(e) && #[trigger] edge_drawn(e, m) ==> used_nodes(edges, m).contains(
                e.from as u32,
            ) && used_nodes(edges, m).contains(e.to as u32),
    decreases edges.len(),
{
    if edges.len() > 0 {
        let pre = edges.drop_last();
        lemma_edge_lines_drawn(pre, m);
        assert forall|e: EdgeDefinition|
            edges.contains(e) && #[trigger] edge_drawn(e, m) implies used_nodes(edges, m).contains(
            e.from as u32,
        ) && used_nodes(edges, m).contains(e.to as u32) by {
            let j = choose|j: int| 0 <= j < edges.len() && edges[j] == e;
            if j < edges.len() - 1 {
                assert(pre[j] == e);
                assert(pre.contains(e));
            }
        }
    }
}


/// The edge lines are the drawn edges, in order, each drawn between the positions of its nodes:
/// the edges between two distinct nodes that the node map holds.
pub proof fn lemma_edge_lines_are_drawn_edges(edges: Seq<EdgeDefinition>, m: Map<u32, InSignalPosition>)
    ensures
        edge_lines(edges, m) == edges.filter(|e: EdgeDefinition| edge_drawn(e, m)).map_values(
            |e: EdgeDefinition| edge_line(e, m),
        ),
    decreases edges.len(),
{
    reveal_with_fuel(Seq::filter, 1);
    if edges.len() > 0 {
        lemma_edge_lines_are_drawn_edges(edges.drop_last(), m);
        let pre = edges.drop_last().filter(|e: EdgeDefinition| edge_drawn(e, m));
        assert(pre.push(edges.last()).map_values(|e: EdgeDefinition| edge_line(e, m))
            =~= pre.map_values(|e: EdgeDefinition| edge_line(e, m)).push(edge_line(edges.last(), m)));
    } else {
        assert(edges.filter(|e: EdgeDefinition| edge_drawn(e, m)).map_values(
            |e: EdgeDefinition| edge_line(e, m),
        ) =~= Seq::<LineEdgeView>::empty());
    }
}

/// The text nodes that stay are the recorded text nodes, in order, whose node is at no drawn
/// edge and is not an uppercase ASCII letter.
pub proof fn lemma_staying_texts_filter(texts: Seq<(InSignalPosition, char)>, used: Set<u32>)
    ensures
        staying_texts(texts, used) == texts.filter(
            |t: (InSignalPosition, char)| text_stays(t, used),
        ),
    decreases texts.len(),
{
    reveal_with_fuel(Seq::filter, 1);
    if texts.len() > 0 {
        lemma_staying_texts_filter(texts.drop_last(), used);
    }
}


/// An edge identifier is a spline exactly when it holds a `~`: the variant read at the start of
/// `s` is a spline when the characters it takes contain `~`, and a sharp edge when they do not.
pub proof fn lemma_consume_spline_iff_tilde(s: Seq<char>)
    requires
        spec_consume(s) is Some,
    ensures
        ({
            let (k, v) = spec_consume(s)->Some_0;
            (v is Spline) <==> s.take(k as int).contains('~')
        }),
{
    let (k, v) = spec_consume(s)->Some_0;
    let t = s.take(k as int);
    let l = char_at(s, 0, '<');
    let i: int = if l {
        1
    } else {
        0
    };
    let r = s.skip(i);
    assert forall|j: int| 0 <= j < r.len() implies r[j] == s[i + j] by {}
    if char_at(r, 0, '+') {
        assert(k == 1 && !l);
        assert(t =~= seq!['+']);
        assert(!t.contains('~')) by {
            if t.contains('~') {
                let j = choose|j: int| 0 <= j < t.len() && t[j] == '~';
                assert(t[j] == '+');
            }
        }
    } else {
        let (kk, shape) = edge_shape(r)->Some_0;
        let right = char_at(r, kk as int, '>');
        assert(k == i + kk + if right {
            1int
        } else {
            0int
        });
        assert(forall|j: int| 0 <= j < t.len() ==> t[j] == s[j]);
        if shape == 3 || shape == 4 || shape == 6 {
            let j: int = if shape == 3 {
                i + 1
            } else {
                i
            };
            assert(t[j] == '~');
        } else {
            assert forall|j: int| 0 <= j < t.len() implies t[j] != '~' by {
                if j < i {
                    assert(s[j] == '<');
                } else if j < i + kk {
                    assert(s[j] == r[j - i]);
                } else {
                    assert(s[j] == r[kk as int]);
                }
            }
        }
    }
}



/// The edge identifier `id` with an optional `<` before it and an optional `>` after it.
pub open spec fn with_arrows(left: bool, id: Seq<char>, right: bool) -> Seq<char> {
    (if left {
        seq!['<']
    } else {
        Seq::empty()
    }) + id + (if right {
        seq!['>']
    } else {
        Seq::empty()
    })
}

/// Does `rest`, following an identifier with or without a `>`, leave the identifier as it is: it
/// does not go on with a character that would make a longer identifier or an arrow?
pub open spec fn ends_identifier(rest: Seq<char>, right: bool) -> bool {
    right || rest.len() == 0 || (rest[0] != '>' && rest[0] != '|' && rest[0] != '-' && rest[0]
        != '~')
}

/// The arrows of an edge: at the start where a `<` stands before its identifier, at the end
/// where a `>` stands after it.
pub open spec fn arrows(left: bool, right: bool) -> EdgeArrowType {
    if left && right {
        EdgeArrowType::Both
    } else if left {
        EdgeArrowType::Start
    } else if right {
        EdgeArrowType::End
    } else {
        EdgeArrowType::NoArrows
    }
}

/// An identifier with its arrows splits into the `<`, when there is one, and the identifier
/// followed by the `>`, when there is one, and the rest.
proof fn lemma_arrowed(left: bool, id: Seq<char>, right: bool, rest: Seq<char>)
    requires
        id.len() > 0,
        id[0] != '<',
    ensures
        char_at(with_arrows(left, id, right) + rest, 0, '<') == left,
        (with_arrows(left, id, right) + rest).skip(
            if left {
                1int
            } else {
                0int
            },
        ) == id + (if right {
            seq!['>']
        } else {
            Seq::empty()
        }) + rest,
{
    let s = with_arrows(left, id, right) + rest;
    let t = id + (if right {
        seq!['>']
    } else {
        Seq::empty()
    }) + rest;
    if left {
        assert(s =~= seq!['<'] + t);
    } else {
        assert(s =~= t);
        assert(s[0] == id[0]);
    }
    assert(s.skip(if left {
        1int
    } else {
        0int
    }) =~= t);
}

/// The identifier `['-']` reads as its variant, with its arrows.
proof fn lemma_identifier_straight(left: bool, right: bool, rest: Seq<char>)
    requires
        ends_identifier(rest, right),
    ensures
        ({
            let a = arrows(left, right);
            let id = seq!['-'];
            spec_consume(with_arrows(left, id, right) + rest) == Some(
                (
                    (if left {
                        1nat
                    } else {
                        0nat
                    }) + id.len() + (if right {
                        1nat
                    } else {
                        0nat
                    }),
                    EdgeVariant::Sharp(SharpEdgeVariant::Straight(a)),
                ),
            )
        }),
{
    let id = seq!['-'];
    lemma_arrowed(left, id, right, rest);
    let r = id + (if right {
        seq!['>']
    } else {
        Seq::empty()
    }) + rest;
    assert forall|j: int| 0 <= j < id.len() implies r[j] == id[j] by {}
    if right {
        assert(r[id.len() as int] == '>');
    } else if rest.len() > 0 {
        assert(r[id.len() as int] == rest[0]);
    }
}

/// The identifier `['~']` reads as its variant, with its arrows.
proof fn lemma_identifier_spline(left: bool, right: bool, rest: Seq<char>)
    requires
        ends_identifier(rest, right),
    ensures
        ({
            let a = arrows(left, right);
            let id = seq!['~'];
            spec_consume(with_arrows(left, id, right) + rest) == Some(
                (
                    (if left {
                        1nat
                    } else {
                        0nat
                    }) + id.len() + (if right {
                        1nat
                    } else {
                        0nat
                    }),
                    EdgeVariant::Spline(SplineEdgeVariant::BothHorizontal(a)),
                ),
            )
        }),
{
    let id = seq!['~'];
    lemma_arrowed(left, id, right, rest);
    let r = id + (if right {
        seq!['>']
    } else {
        Seq::empty()
    }) + rest;
    assert forall|j: int| 0 <= j < id.len() implies r[j] == id[j] by {}
    if right {
        assert(r[id.len() as int] == '>');
    } else if rest.len() > 0 {
        assert(r[id.len() as int] == rest[0]);
    }
}

/// The identifier `['-', '|', '-']` reads as its variant, with its arrows.
proof fn lemma_identifier_sharp_both(left: bool, right: bool, rest: Seq<char>)
    requires
        (right || rest.len() == 0 || rest[0] != '>'),
    ensures
        ({
            let a = arrows(left, right);
            let id = seq!['-', '|', '-'];
            spec_consume(with_arrows(left, id, right) + rest) == Some(
                (
                    (if left {
                        1nat
                    } else {
                        0nat
                    }) + id.len() + (if right {
                        1nat
                    } else {
                        0nat
                    }),
                    EdgeVariant::Sharp(SharpEdgeVariant::BothHorizontal(a)),
                ),
            )
        }),
{
    let id = seq!['-', '|', '-'];
    lemma_arrowed(left, id, right, rest);
    let r = id + (if right {
        seq!['>']
    } else {
        Seq::empty()
    }) + rest;
    assert forall|j: int| 0 <= j < id.len() implies r[j] == id[j] by {}
    if right {
        assert(r[id.len() as int] == '>');
    } else if rest.len() > 0 {
        assert(r[id.len() as int] == rest[0]);
    }
}

/// The identifier `['-', '|']` reads as its variant, with its arrows.
proof fn lemma_identifier_sharp_start(left: bool, right: bool, rest: Seq<char>)
    requires
        (right || rest.len() == 0 || (rest[0] != '>' && rest[0] != '-')),
    ensures
        ({
            let a = arrows(left, right);
            let id = seq!['-', '|'];
            spec_consume(with_arrows(left, id, right) + rest) == Some(
                (
                    (if left {
                        1nat
                    } else {
                        0nat
                    }) + id.len() + (if right {
                        1nat
                    } else {
                        0nat
                    }),
                    EdgeVariant::Sharp(SharpEdgeVariant::StartHorizontal(a)),
                ),
            )
        }),
{
    let id = seq!['-', '|'];
    lemma_arrowed(left, id, right, rest);
    let r = id + (if right {
        seq!['>']
    } else {
        Seq::empty()
    }) + rest;
    assert forall|j: int| 0 <= j < id.len() implies r[j] == id[j] by {}
    if right {
        assert(r[id.len() as int] == '>');
    } else if rest.len() > 0 {
        assert(r[id.len() as int] == rest[0]);
    }
}

/// The identifier `['|', '-']` reads as its variant, with its arrows.
proof fn lemma_identifier_sharp_end(left: bool, right: bool, rest: Seq<char>)
    requires
        (right || rest.len() == 0 || rest[0] != '>'),
    ensures
        ({
            let a = arrows(left, right);
            let id = seq!['|', '-'];
            spec_consume(with_arrows(left, id, right) + rest) == Some(
                (
                    (if left {
                        1nat
                    } else {
                        0nat
                    }) + id.len() + (if right {
                        1nat
                    } else {
                        0nat
                    }),
                    EdgeVariant::Sharp(SharpEdgeVariant::EndHorizontal(a)),
                ),
            )
        }),
{
    let id = seq!['|', '-'];
    lemma_arrowed(left, id, right, rest);
    let r = id + (if right {
        seq!['>']
    } else {
        Seq::empty()
    }) + rest;
    assert forall|j: int| 0 <= j < id.len() implies r[j] == id[j] by {}
    if right {
        assert(r[id.len() as int] == '>');
    } else if rest.len() > 0 {
        assert(r[id.len() as int] == rest[0]);
    }
}

/// The identifier `['-', '~']` reads as its variant, with its arrows.
proof fn lemma_identifier_spline_start(left: bool, right: bool, rest: Seq<char>)
    requires
        (right || rest.len() == 0 || rest[0] != '>'),
    ensures
        ({
            let a = arrows(left, right);
            let id = seq!['-', '~'];
            spec_consume(with_arrows(left, id, right) + rest) == Some(
                (
                    (if left {
                        1nat
                    } else {
                        0nat
                    }) + id.len() + (if right {
                        1nat
                    } else {
                        0nat
                    }),
                    EdgeVariant::Spline(SplineEdgeVariant::StartHorizontal(a)),
                ),
            )
        }),
{
    let id = seq!['-', '~'];
    lemma_arrowed(left, id, right, rest);
    let r = id + (if right {
        seq!['>']
    } else {
        Seq::empty()
    }) + rest;
    assert forall|j: int| 0 <= j < id.len() implies r[j] == id[j] by {}
    if right {
        assert(r[id.len() as int] == '>');
    } else if rest.len() > 0 {
        assert(r[id.len() as int] == rest[0]);
    }
}

/// The identifier `['~', '-']` reads as its variant, with its arrows.
proof fn lemma_identifier_spline_end(left: bool, right: bool, rest: Seq<char>)
    requires
        (right || rest.len() == 0 || rest[0] != '>'),
    ensures
        ({
            let a = arrows(left, right);
            let id = seq!['~', '-'];
            spec_consume(with_arrows(left, id, right) + rest) == Some(
                (
                    (if left {
                        1nat
                    } else {
                        0nat
                    }) + id.len() + (if right {
                        1nat
                    } else {
                        0nat
                    }),
                    EdgeVariant::Spline(SplineEdgeVariant::EndHorizontal(a)),
                ),
            )
        }),
{
    let id = seq!['~', '-'];
    lemma_arrowed(left, id, right, rest);
    let r = id + (if right {
        seq!['>']
    } else {
        Seq::empty()
    }) + rest;
    assert forall|j: int| 0 <= j < id.len() implies r[j] == id[j] by {}
    if right {
        assert(r[id.len() as int] == '>');
    } else if rest.len() > 0 {
        assert(r[id.len() as int] == rest[0]);
    }
}

/// Each edge identifier reads as its variant, with arrows where `<` and `>` stand around it:
/// `-` straight, `-|-`, `-|` and `|-` sharp with both ends, the start or the end horizontal,
/// `~` a spline with both ends horizontal, `-~` and `~-` splines with the start or the end
/// horizontal, and `+` (which takes no arrows) the cross. The identifier is read as long as it
/// goes, and a `>` right after it is its end arrow.
pub proof fn lemma_edge_identifiers(left: bool, right: bool, rest: Seq<char>)
    ensures
        ({
            let a = arrows(left, right);
            let n: nat = (if left {
                1nat
            } else {
                0nat
            }) + (if right {
                1nat
            } else {
                0nat
            });
            &&& ends_identifier(rest, right) ==> spec_consume(
                with_arrows(left, seq!['-'], right) + rest,
            ) == Some((n + 1, EdgeVariant::Sharp(SharpEdgeVariant::Straight(a))))
            &&& ends_identifier(rest, right) ==> spec_consume(
                with_arrows(left, seq!['~'], right) + rest,
            ) == Some((n + 1, EdgeVariant::Spline(SplineEdgeVariant::BothHorizontal(a))))
            &&& (right || rest.len() == 0 || rest[0] != '>') ==> spec_consume(
                with_arrows(left, seq!['-', '|', '-'], right) + rest,
            ) == Some((n + 3, EdgeVariant::Sharp(SharpEdgeVariant::BothHorizontal(a))))
            &&& (right || rest.len() == 0 || (rest[0] != '>' && rest[0] != '-')) ==> spec_consume(
                with_arrows(left, seq!['-', '|'], right) + rest,
            ) == Some((n + 2, EdgeVariant::Sharp(SharpEdgeVariant::StartHorizontal(a))))
            &&& (right || rest.len() == 0 || rest[0] != '>') ==> spec_consume(
                with_arrows(left, seq!['|', '-'], right) + rest,
            ) == Some((n + 2, EdgeVariant::Sharp(SharpEdgeVariant::EndHorizontal(a))))
            &&& (right || rest.len() == 0 || rest[0] != '>') ==> spec_consume(
                with_arrows(left, seq!['-', '~'], right) + rest,
            ) == Some((n + 2, EdgeVariant::Spline(SplineEdgeVariant::StartHorizontal(a))))
            &&& (right || rest.len() == 0 || rest[0] != '>') ==> spec_consume(
                with_arrows(left, seq!['~', '-'], right) + rest,
            ) == Some((n + 2, EdgeVariant::Spline(SplineEdgeVariant::EndHorizontal(a))))
            &&& spec_consume(seq!['+'] + rest) == Some(
                (1nat, EdgeVariant::Sharp(SharpEdgeVariant::Cross)),
            )
            &&& spec_consume(seq!['<', '+'] + rest) is None
        }),
{
    if ends_identifier(rest, right) {
        lemma_identifier_straight(left, right, rest);
    }
    if ends_identifier(rest, right) {
        lemma_identifier_spline(left, right, rest);
    }
    if (right || rest.len() == 0 || rest[0] != '>') {
        lemma_identifier_sharp_both(left, right, rest);
    }
    if (right || rest.len() == 0 || (rest[0] != '>' && rest[0] != '-')) {
        lemma_identifier_sharp_start(left, right, rest);
    }
    if (right || rest.len() == 0 || rest[0] != '>') {
        lemma_identifier_sharp_end(left, right, rest);
    }
    if (right || rest.len() == 0 || rest[0] != '>') {
        lemma_identifier_spline_start(left, right, rest);
    }
    if (right || rest.len() == 0 || rest[0] != '>') {
        lemma_identifier_spline_end(left, right, rest);
    }
    let p1 = seq!['+'] + rest;
    assert(p1[0] == '+');
    assert(p1.skip(0) =~= p1);
    let p2 = seq!['<', '+'] + rest;
    assert(p2[0] == '<' && p2[1] == '+');
    assert(p2.skip(1)[0] == '+');
}

/// After an identifier that reads as `v`, an end node that is not whitespace gives the node and
/// the label of what follows it.
#[verifier::spinoff_prover]
proof fn lemma_parse_rest_written(s3: Seq<char>, ws: nat, k: nat, v: EdgeVariant, to: char, tail: Seq<
    char,
>)
    requires
        spec_consume(s3) == Some((k, v)),
        s3.skip(k as int) == seq![to] + tail,
        !is_whitespace(to),
    ensures
        spec_parse_edge_rest(s3, ws) == Ok::<(EdgeVariant, char, Option<Seq<char>>), nat>(
            (v, to, label_of(tail)),
        ),
{
    let s4 = s3.skip(k as int);
    assert(leading_whitespace(s4) == 0);
    assert(s4.skip(0) =~= s4);
    assert(s4.skip(1) =~= tail);
}

/// A label written after a space reads as itself.
proof fn lemma_label_written(label: Seq<char>)
    requires
        label.len() == 0 || !is_whitespace(label[0]),
    ensures
        label_of(
            if label.len() == 0 {
                Seq::empty()
            } else {
                seq![' '] + label
            },
        ) == if label.len() == 0 {
            None
        } else {
            Some(label)
        },
{
    if label.len() > 0 {
        let tail = seq![' '] + label;
        assert(is_whitespace(' '));
        assert(tail[0] == ' ');
        assert(tail.drop_first() =~= label);
        assert(leading_whitespace(label) == 0);
        assert(leading_whitespace(tail) == 1);
        assert(tail.skip(1) =~= label);
    }
}

/// Writing a definition gives its parts back: a start node, an identifier (see
/// [`lemma_edge_identifiers`] for what each identifier reads as), an end node and, after a space,
/// a label parse to the identifier's variant, the two nodes and the label, and to no label when
/// none is written.
#[verifier::spinoff_prover]
#[verifier::rlimit(40)]
pub proof fn lemma_parse_written_definition(
    from: char,
    id: Seq<char>,
    to: char,
    label: Seq<char>,
    v: EdgeVariant,
)
    requires
        !is_whitespace(from),
        !is_whitespace(to),
        id.len() > 0,
        !is_whitespace(id[0]),
        label.len() == 0 || !is_whitespace(label[0]),
        spec_consume(
            id + seq![to] + (if label.len() == 0 {
                Seq::empty()
            } else {
                seq![' '] + label
            }),
        ) == Some((id.len(), v)),
    ensures
        spec_parse_edge(
            seq![from] + id + seq![to] + (if label.len() == 0 {
                Seq::empty()
            } else {
                seq![' '] + label
            }),
        ) == Ok::<(EdgeVariant, char, char, Option<Seq<char>>), nat>(
            (
                v,
                from,
                to,
                if label.len() == 0 {
                    None
                } else {
                    Some(label)
                },
            ),
        ),
{
    let tail = if label.len() == 0 {
        Seq::empty()
    } else {
        seq![' '] + label
    };
    let s = seq![from] + id + seq![to] + tail;
    assert(leading_whitespace(s) == 0);
    assert(s.skip(0) =~= s);
    let s2 = s.skip(1);
    assert(s2 =~= id + seq![to] + tail);
    assert(leading_whitespace(s2) == 0);
    assert(s2.skip(0) =~= s2);
    assert(s2.skip(id.len() as int) =~= seq![to] + tail);
    let ws = utf8_len(s.take(0)) + utf8_len(s2.take(0));
    lemma_parse_rest_written(s2, ws, id.len(), v, to, tail);
    lemma_label_written(label);
}

} // verus!

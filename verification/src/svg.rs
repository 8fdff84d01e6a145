//! The SVG document of an assembled figure laid out with a set of render options.
//!
//! Every number of the document is computed as the unsigned (or, for path coordinates, signed)
//! 32 bit number it is drawn as; where one of them would not fit, there is no document.
use vstd::prelude::*;

use crate::color::{css_string, Color};
use crate::cycle_offset::CycleOffset;
use crate::dimensions::SvgDimensions;
use crate::escape::{escape_str, escaped};
use crate::figure::{count_true, AssembledFigure, AssembledLine, CycleMarker, WaveGroup};
use crate::font::Font;
use crate::options::{is_default_render_options, RenderOptions};
use crate::markers::ClockEdge;
use crate::path::{ClockEdgeMarker, PathSegmentBackground, WaveOptions, WavePathSegment};
use crate::svg_path::{decimal, path_data, path_data_string, push_decimal};
use crate::text::push_str;

verus! {

/// The attributes between the position of a centered text and its font size.
pub const TEXT_CENTERED: &'static str = "\" text-anchor=\"middle\" dominant-baseline=\"middle\" font-family=\"Helvetica\" font-size=\"";

/// The attributes between the font size of a text and its content.
pub const TEXT_CONTENT: &'static str = "\" letter-spacing=\"0\"><tspan>";

/// The end of a text.
pub const TEXT_END: &'static str = "</tspan></text>";

/// The start of the document, up to its width.
pub const SVG_OPEN: &'static str = "<svg version=\"1.1\" xmlns=\"http://www.w3.org/2000/svg\" xmlns:xlink=\"http://www.w3.org/1999/xlink\" viewport=\"0 0 ";

/// The pattern that fills undefined states.
pub const UNDEFINED_PATTERN: &'static str = "<pattern id=\"x-bg\" patternUnits=\"userSpaceOnUse\" width=\"4\" height=\"10\" patternTransform=\"rotate(45)\"><line x1=\"0\" y=\"0\" x2=\"0\" y2=\"10\" stroke=\"#000\" stroke-width=\"1\"/></pattern>";

/// The start of the definition of the dashed line between cycles, up to its length.
pub const HINT_LINE_OPEN: &'static str = "<g id=\"cl\"><path fill=\"none\" d=\"M0,0v";

/// The end of the definition of the dashed line between cycles.
pub const HINT_LINE_CLOSE: &'static str = "\" stroke-width=\"1\" stroke-dasharray=\"2\" stroke=\"#CCC\"/></g>";

/// The start of a group label, up to its font size.
pub const GROUP_LABEL: &'static str = ")\"><text text-anchor=\"middle\" dominant-baseline=\"middle\" font-family=\"Helvetica\" font-size=\"";

/// The attributes between the font size of a group label and its content.
pub const GROUP_LABEL_CONTENT: &'static str = "\" letter-spacing=\"0\" transform=\"rotate(270)\"><tspan>";

/// The start of the name of a signal, up to its vertical position.
pub const NAME_OPEN: &'static str = "<g transform=\"translate(0,";

/// The attributes between the vertical position of a signal name and its font size.
pub const NAME_TEXT: &'static str = ")\"><text dominant-baseline=\"middle\" font-family=\"Helvetica\" font-size=\"";

/// The data text of a segment, between its position and its font family.
pub const MARKER_TEXT: &'static str = ")\"><text text-anchor=\"middle\" dominant-baseline=\"middle\" font-family=\"";

/// Both parts, if there are both.
pub open spec fn cat(a: Option<Seq<char>>, b: Option<Seq<char>>) -> Option<Seq<char>> {
    match a {
        Some(x) => match b {
            Some(y) => Some(x + y),
            None => None,
        },
        None => None,
    }
}

/// `rest` with `prefix` before it, if there is a rest.
pub open spec fn after(prefix: Seq<char>, rest: Option<Seq<char>>) -> Option<Seq<char>> {
    match rest {
        Some(r) => Some(prefix + r),
        None => None,
    }
}

/// Does `v` fit a `u32`?
pub open spec fn fits(v: int) -> bool {
    0 <= v <= u32::MAX
}

/// Does `v` fit an `i32`?
pub open spec fn fits_signed(v: int) -> bool {
    i32::MIN <= v <= i32::MAX
}

/// `v / 2` rounded toward zero.
pub open spec fn half_toward_zero(v: int) -> int {
    if v >= 0 {
        v / 2
    } else {
        -((-v) / 2)
    }
}

/// `cat` is associative.
proof fn lemma_cat_assoc(a: Option<Seq<char>>, b: Option<Seq<char>>, c: Option<Seq<char>>)
    ensures
        cat(cat(a, b), c) == cat(a, cat(b, c)),
{
    match (a, b, c) {
        (Some(x), Some(y), Some(z)) => {
            assert(x + y + z =~= x + (y + z));
        },
        _ => {},
    }
}

/// A step over one more part: what follows `prefix` and then `t` is what follows `prefix + t`.
proof fn lemma_after_step(prefix: Seq<char>, t: Seq<char>, rest: Option<Seq<char>>)
    ensures
        after(prefix, cat(Some(t), rest)) == after(prefix + t, rest),
{
    match rest {
        Some(r) => {
            assert(prefix + (t + r) =~= prefix + t + r);
        },
        None => {},
    }
}

// ---------------------------------------------------------------------------------------------
// The definitions
// ---------------------------------------------------------------------------------------------
/// The arrow drawn at a marked clock edge, for signals `wave_height` high: pointing up for a
/// positive edge, down for a negative one.
pub open spec fn arrow(wave_height: int, positive: bool) -> Seq<char> {
    let s = wave_height / 6;
    let y = if positive {
        s
    } else {
        -s
    };
    "<path d=\"M"@ + decimal(-s) + ","@ + decimal(y) + "L0,"@ + decimal(-y) + "L"@ + decimal(s)
        + ","@ + decimal(y) + "H"@ + decimal(-(s + s)) + "z\" fill=\"#000\" stroke=\"none\"/>"@
}

/// The opening tag of a document `fw` wide and `fh` high.
pub open spec fn svg_open(fw: int, fh: int) -> Seq<char> {
    SVG_OPEN@ + decimal(fw) + " "@ + decimal(fh) + "\" overflow=\"hidden\" width=\""@ + decimal(fw)
        + "\" height=\""@ + decimal(fh) + "\">"@
}

/// The pattern for undefined states, where they are shown.
#[verifier::opaque]
pub open spec fn undefined_def(x: bool) -> Seq<char> {
    if x {
        UNDEFINED_PATTERN@
    } else {
        Seq::empty()
    }
}

/// The arrow of marked positive (`positive`) or negative clock edges, for signals `wh` high,
/// where they are shown (`shown`).
#[verifier::opaque]
pub open spec fn edge_def(shown: bool, wh: int, positive: bool) -> Seq<char> {
    if !shown {
        Seq::empty()
    } else if positive {
        "<g id=\"pei\">"@ + arrow(wh, true) + "</g>"@
    } else {
        "<g id=\"nei\">"@ + arrow(wh, false) + "</g>"@
    }
}

/// The gap, drawn as `gap`, where gaps are shown (`g`).
#[verifier::opaque]
pub open spec fn gap_def(g: bool, gap: Seq<char>) -> Seq<char> {
    if g {
        "<g id=\"gap\">"@ + gap + "</g>"@
    } else {
        Seq::empty()
    }
}

/// The dashed line between cycles, `sh` long, and the end of the definitions.
#[verifier::opaque]
pub open spec fn hint_def(sh: int) -> Seq<char> {
    HINT_LINE_OPEN@ + decimal(sh) + HINT_LINE_CLOSE@ + "</defs>"@
}

/// The definitions of a figure that shows undefined states (`x`), marked positive (`p`) and
/// negative (`n`) clock edges and gaps (`g`, drawn as `gap`), for signals `wh` high: each
/// only where it is shown, then the dashed line between cycles, `sh` long.
#[verifier::opaque]
pub open spec fn svg_defs(x: bool, p: bool, n: bool, g: bool, wh: int, gap: Seq<char>, sh: int) -> Seq<char> {
    "<defs>"@ + undefined_def(x) + edge_def(p, wh, true) + edge_def(n, wh, false) + gap_def(g, gap)
        + hint_def(sh)
}

/// The start of the document and its definitions (see [`svg_defs`]), for the figure of `d`
/// with the gap drawn as `gap`.
pub open spec fn svg_head<'a>(d: SvgDimensions<'a>, gap: Seq<char>) -> Seq<char> {
    let f = d.spec_figure();
    svg_open(d.spec_figure_width(), d.spec_figure_height()) + svg_defs(
        f.spec_has_undefined(),
        f.spec_has_posedge_marker(),
        f.spec_has_negedge_marker(),
        f.spec_has_gaps(),
        d.spec_options().wave_dimensions.wave_height as int,
        gap,
        d.spec_schema_height(),
    )
}

/// The background rectangle of the document, if it has a background color.
#[verifier::opaque]
pub open spec fn background_rect(background: Option<Color>) -> Seq<char> {
    match background {
        Some(c) => "<rect width=\"100%\" height=\"100%\" fill=\""@ + css_string(c) + "\"/>"@,
        None => Seq::empty(),
    }
}

/// The opening of the figure moved by the padding (`left`, `top`).
#[verifier::opaque]
pub open spec fn padded_open(left: int, top: int) -> Seq<char> {
    "<g transform=\"translate("@ + decimal(left) + ","@ + decimal(top) + ")\">"@
}

/// The title of the figure, centered in the header.
#[verifier::opaque]
pub open spec fn header_title<'a>(d: SvgDimensions<'a>) -> Seq<char> {
    match d.spec_figure().spec_title() {
        Some(t) => "<text x=\""@ + decimal(d.spec_inner_width() / 2) + "\" y=\""@ + decimal(
            d.spec_header_height() / 2,
        ) + TEXT_CENTERED@ + decimal(d.spec_options().header.font_size as int) + TEXT_CONTENT@
            + escaped(t) + TEXT_END@,
        None => Seq::empty(),
    }
}

/// The background of the document, the opening of the padded figure and its title.
pub open spec fn svg_title<'a>(d: SvgDimensions<'a>) -> Seq<char> {
    let o = d.spec_options();
    background_rect(o.background) + padded_open(
        o.paddings.figure_left as int,
        o.paddings.figure_top as int,
    ) + header_title(d)
}

// ---------------------------------------------------------------------------------------------
// Cycle enumerations and the lines between cycles
// ---------------------------------------------------------------------------------------------
/// A number of a cycle enumeration, at (`x`, `y`) with font size `font_size`.
#[verifier::opaque]
pub open spec fn cycle_number(x: int, y: int, font_size: int, n: int) -> Seq<char> {
    "<text x=\""@ + decimal(x) + "\" y=\""@ + decimal(y) + TEXT_CENTERED@ + decimal(font_size)
        + TEXT_CONTENT@ + decimal(n) + TEXT_END@
}

/// The numbers `off, off + every, ...` below `end` of the enumeration starting at `start`,
/// cycles `cw` wide from `x0` on.
pub open spec fn cycle_numbers_from(
    x0: int,
    cw: int,
    start: int,
    end: int,
    every: int,
    off: int,
    y: int,
    font_size: int,
) -> Option<Seq<char>>
    decreases (if end > off {
        end - off
    } else {
        0
    }),
{
    if every <= 0 || off >= end {
        Some(Seq::empty())
    } else {
        let x = x0 + cw * (off - start) + cw / 2;
        cat(
            if fits(x) {
                Some(cycle_number(x, y, font_size, off))
            } else {
                None
            },
            cycle_numbers_from(x0, cw, start, end, every, off + every, y, font_size),
        )
    }
}

/// The cycle enumeration `m` of the figure of `d` at height `y` with font size `font_size`:
/// one number every `every` cycles over the cycles of the figure, none when `every` is zero.
/// The last cycle number must fit a `u32`.
pub open spec fn cycle_enumeration<'a>(
    d: SvgDimensions<'a>,
    m: Option<CycleMarker>,
    y: int,
    font_size: int,
) -> Option<Seq<char>> {
    match m {
        None => Some(Seq::empty()),
        Some(cm) => {
            let start = cm.spec_start() as int;
            let end = start + d.spec_figure().spec_num_cycles();
            if !fits(end) {
                None
            } else {
                cycle_numbers_from(
                    d.spec_schema_x(),
                    d.spec_cycle_width(),
                    start,
                    end,
                    cm.spec_every() as int,
                    start,
                    y,
                    font_size,
                )
            }
        },
    }
}

/// The dashed line between cycles at `x`.
#[verifier::opaque]
pub open spec fn hint_use(x: int) -> Seq<char> {
    "<use transform=\"translate("@ + decimal(x) + ")\" xlink:href=\"#cl\"/>"@
}

/// The dashed lines between cycles `i..=n`, cycles being `cw` wide.
pub open spec fn hint_lines_from(cw: int, i: int, n: int) -> Option<Seq<char>>
    decreases n + 1 - i,
{
    if i > n {
        Some(Seq::empty())
    } else {
        cat(
            if fits(i * cw) {
                Some(hint_use(i * cw))
            } else {
                None
            },
            hint_lines_from(cw, i + 1, n),
        )
    }
}

/// The dashed lines between the cycles of the figure, placed at the signals.
pub open spec fn hint_lines<'a>(d: SvgDimensions<'a>) -> Option<Seq<char>> {
    cat(
        Some(
            "<g transform=\"translate("@ + decimal(d.spec_schema_x()) + ","@ + decimal(
                d.spec_schema_y(),
            ) + ")\">"@,
        ),
        cat(
            hint_lines_from(d.spec_cycle_width(), 0, d.spec_figure().spec_num_cycles() as int),
            Some("</g>"@),
        ),
    )
}

// ---------------------------------------------------------------------------------------------
// Group indicators
// ---------------------------------------------------------------------------------------------
/// The label `l` of a group, turned, centered at (`x`, `y`) with font size `font_size`.
#[verifier::opaque]
pub open spec fn group_label(x: int, y: int, font_size: int, l: Seq<char>) -> Seq<char> {
    "<g transform=\"translate("@ + decimal(x) + ","@ + decimal(y) + GROUP_LABEL@ + decimal(font_size)
        + GROUP_LABEL_CONTENT@ + escaped(l) + TEXT_END@ + "</g>"@
}

/// The start of the bracket of a group from (`x`, `y`), `w` wide, up to its straight part.
#[verifier::opaque]
pub open spec fn bracket_start(x: int, y: int, w: int) -> Seq<char> {
    "<path fill=\"none\" d=\"M"@ + decimal(x) + ","@ + decimal(y) + "m"@ + decimal(w) + ",0c-3,0 -"@
        + decimal(w) + ",1 -"@ + decimal(w) + ","@ + decimal(w) + "v"@
}

/// The rest of the bracket of a group `w` wide, from its straight part `h` long.
#[verifier::opaque]
pub open spec fn bracket_end(w: int, h: int) -> Seq<char> {
    decimal(h) + "c0,3 1,"@ + decimal(w) + " "@ + decimal(w) + ","@ + decimal(w)
        + "\" stroke=\"#000\"/>"@
}

/// The bracket of a group from (`x`, `y`), `w` wide, with a straight part `h` long.
pub open spec fn group_bracket(x: int, y: int, w: int, h: int) -> Seq<char> {
    bracket_start(x, y, w) + bracket_end(w, h)
}

/// The indicator of group `g` of the figure of `d`: its label, turned, and a bracket along its
/// lines. An empty group has none.
pub open spec fn group_indicator<'a>(d: SvgDimensions<'a>, g: WaveGroup<'a>) -> Option<Seq<char>> {
    let o = d.spec_options();
    let gi = o.group_indicator_dimensions;
    let labels = d.spec_figure().spec_labels();
    let wh = o.wave_dimensions.wave_height as int;
    let ltl = o.spacings.line_to_line as int;
    let depth = g.spec_depth() as int;
    let start = g.spec_start() as int;
    let len = g.spec_end() - g.spec_start();
    let height = len * wh + (len - 1) * ltl;
    let lh = gi.label_spacing + gi.label_fontsize;
    let x = count_true(labels, depth + 1) * lh + if depth == 0 {
        0
    } else {
        depth * gi.width
    };
    let y = d.spec_header_height() + o.paddings.schema_top + if start == 0 {
        0
    } else {
        start * wh + start * ltl
    };
    let h = height - gi.width * 2;
    if len == 0 {
        Some(Seq::empty())
    } else if !fits(height) || !fits(lh) || !fits(depth + 1) || !fits(x) || !fits(y) || !fits(
        gi.width * 2,
    ) || !fits(h) {
        None
    } else {
        let label = match g.spec_label() {
            None => Some(Seq::empty()),
            Some(l) => {
                let x2 = if depth == 0 {
                    0
                } else {
                    count_true(labels, depth) * lh + depth * gi.width
                };
                let lx = x2 + gi.label_spacing + 2;
                let ly = y + height / 2;
                if !fits(x2) || !fits(lx) || !fits(ly) {
                    None
                } else {
                    Some(group_label(lx, ly, gi.label_fontsize as int, l))
                }
            },
        };
        let w = gi.width as int;
        cat(label, Some(group_bracket(x, y, w, h)))
    }
}

/// The indicators of the groups `k..` of the figure of `d`.
pub open spec fn group_indicators_from<'a>(d: SvgDimensions<'a>, k: int) -> Option<Seq<char>>
    decreases d.spec_figure().spec_groups().len() - k,
{
    let gs = d.spec_figure().spec_groups();
    if k < 0 || k >= gs.len() {
        Some(Seq::empty())
    } else {
        cat(group_indicator(d, gs[k]), group_indicators_from(d, k + 1))
    }
}

// ---------------------------------------------------------------------------------------------
// Signals
// ---------------------------------------------------------------------------------------------
/// The fill of a segment with background `bg`.
pub open spec fn fill_of(bg: Option<PathSegmentBackground>, w: WaveOptions) -> Seq<char> {
    match bg {
        Some(PathSegmentBackground::B2) => w.backgrounds[0]@,
        Some(PathSegmentBackground::B3) => w.backgrounds[1]@,
        Some(PathSegmentBackground::B4) => w.backgrounds[2]@,
        Some(PathSegmentBackground::B5) => w.backgrounds[3]@,
        Some(PathSegmentBackground::B6) => w.backgrounds[4]@,
        Some(PathSegmentBackground::B7) => w.backgrounds[5]@,
        Some(PathSegmentBackground::B8) => w.backgrounds[6]@,
        Some(PathSegmentBackground::B9) => w.backgrounds[7]@,
        Some(PathSegmentBackground::Undefined) => "url(#x-bg)"@,
        None => "none"@,
    }
}

/// The path of a segment: filled, closed where it has a background, and, where a command of it
/// is not stroked, stroked as a second path.
#[verifier::opaque]
pub open spec fn segment_path(s: WavePathSegment, w: WaveOptions) -> Seq<char> {
    let bg = s.spec_background();
    "<path fill=\""@ + fill_of(bg, w) + "\" d=\""@ + path_data_string(
        s.spec_x(),
        s.spec_y(),
        s.spec_actions(),
        true,
        bg is Some,
    ) + (if s.spec_is_fully_stroked() {
        Seq::empty()
    } else {
        "\" stroke=\"none\"/><path fill=\"none\" d=\""@ + path_data_string(
            s.spec_x(),
            s.spec_y(),
            s.spec_actions(),
            false,
            false,
        )
    }) + "\" stroke-width=\"1\" stroke=\"#000\"/>"@
}

/// A data text `t` centered at (`x`, `y`) in font `family` of size `font_size`.
#[verifier::opaque]
pub open spec fn data_text(x: int, y: int, family: Seq<char>, font_size: int, t: Seq<char>) -> Seq<char> {
    "<g transform=\"translate("@ + decimal(x) + ","@ + decimal(y) + MARKER_TEXT@ + family
        + "\" font-size=\""@ + decimal(font_size) + TEXT_CONTENT@ + t + TEXT_END@ + "</g>"@
}

/// The data text of a segment, centered on it.
pub open spec fn segment_text(s: WavePathSegment, w: WaveOptions) -> Option<Seq<char>> {
    match s.spec_text() {
        None => Some(Seq::empty()),
        Some(t) => {
            let x = s.spec_x() + half_toward_zero(s.spec_width());
            if !fits_signed(x) {
                None
            } else {
                Some(data_text(x, w.wave_height as int / 2, w.font_family@, w.font_size as int, t))
            }
        },
    }
}

/// The arrow of a marked clock edge at height `y`.
#[verifier::opaque]
pub open spec fn clock_arrow(m: ClockEdgeMarker, y: int) -> Seq<char> {
    "<use transform=\"translate("@ + decimal(m.x as int) + ","@ + decimal(y) + ")\" xlink:href=\"#"@
        + (match m.edge {
        ClockEdge::Positive => "pei"@,
        ClockEdge::Negative => "nei"@,
    }) + "\"/>"@
}

/// The arrows of the marked clock edges `k..` of `ms`.
pub open spec fn clock_arrows_from(ms: Seq<ClockEdgeMarker>, k: int, y: int) -> Seq<char>
    decreases ms.len() - k,
{
    if k < 0 || k >= ms.len() {
        Seq::empty()
    } else {
        clock_arrow(ms[k], y) + clock_arrows_from(ms, k + 1, y)
    }
}

/// A gap at (`x`, `y`).
#[verifier::opaque]
pub open spec fn gap_text(x: int, y: int) -> Seq<char> {
    "<use transform=\"translate("@ + decimal(x) + ","@ + decimal(y) + ")\" xlink:href=\"#gap\"/>"@
}

/// The gap drawn at offset `g`, in the middle of its cycle, cycles being `cw` wide.
pub open spec fn gap_use(g: CycleOffset, cw: int, y: int) -> Option<Seq<char>> {
    let x = g.index_of() * cw + (((g.quarters() % 4) * cw + 2) / 4) + cw / 2;
    if !fits(g.index_of() * cw + (((g.quarters() % 4) * cw + 2) / 4)) || !fits(x) {
        None
    } else {
        Some(gap_text(x, y))
    }
}

/// The gaps `k..` of `gs`.
pub open spec fn gaps_from(gs: Seq<CycleOffset>, k: int, cw: int, y: int) -> Option<Seq<char>>
    decreases gs.len() - k,
{
    if k < 0 || k >= gs.len() {
        Some(Seq::empty())
    } else {
        cat(gap_use(gs[k], cw, y), gaps_from(gs, k + 1, cw, y))
    }
}

/// A segment of a signal with its data text, clock edge arrows and gaps, drawn with `w` at a
/// horizontal scale of `hscale`.
pub open spec fn segment_svg(s: WavePathSegment, w: WaveOptions, hscale: int) -> Option<Seq<char>> {
    let cw = w.cycle_width * hscale;
    let y = w.wave_height as int / 2;
    cat(
        Some(segment_path(s, w)),
        cat(
            segment_text(s, w),
            cat(
                Some(clock_arrows_from(s.spec_clock_edge_markers(), 0, y)),
                if s.spec_gaps().len() > 0 && cw > u16::MAX {
                    None
                } else {
                    gaps_from(s.spec_gaps(), 0, cw, y)
                },
            ),
        ),
    )
}

/// The segments `k..` of `segs`.
pub open spec fn segments_from(segs: Seq<WavePathSegment>, k: int, w: WaveOptions, hscale: int) -> Option<
    Seq<char>,
>
    decreases segs.len() - k,
{
    if k < 0 || k >= segs.len() {
        Some(Seq::empty())
    } else {
        cat(segment_svg(segs[k], w, hscale), segments_from(segs, k + 1, w, hscale))
    }
}

/// The opening of a line at (`x`, `y`) with its name `text`, where it has one, at half the
/// signal height `wh` with font size `font_size`.
#[verifier::opaque]
pub open spec fn line_head(x: int, y: int, wh: int, font_size: int, text: Seq<char>) -> Seq<char> {
    "<g transform=\"translate("@ + decimal(x) + ","@ + decimal(y) + ")\">"@ + if text.len() > 0 {
        NAME_OPEN@ + decimal(wh / 2) + NAME_TEXT@ + decimal(font_size) + TEXT_CONTENT@ + escaped(
            text,
        ) + TEXT_END@ + "</g>"@
    } else {
        Seq::empty()
    }
}

/// The opening of a group moved right by `dx`.
#[verifier::opaque]
pub open spec fn shift_open(dx: int) -> Seq<char> {
    "<g transform=\"translate("@ + decimal(dx) + ")\">"@
}

/// Line `i` of the figure of `d`: its name, where it has one, and its signal, moved right of the
/// names where a line has a name.
pub open spec fn line_svg<'a>(d: SvgDimensions<'a>, i: int, line: AssembledLine<'a>) -> Option<Seq<char>> {
    let o = d.spec_options();
    let w = o.wave_dimensions;
    let wh = w.wave_height as int;
    let x = if d.spec_has_textbox() {
        d.spec_textbox_x()
    } else {
        d.spec_schema_x()
    };
    let y = d.spec_header_height() + o.paddings.schema_top + if i == 0 {
        0
    } else {
        (wh + o.spacings.line_to_line) * i
    };
    let signal = segments_from(
        line.spec_path().spec_segments(),
        0,
        w,
        d.spec_figure().spec_hscale() as int,
    );
    let head = line_head(x, y, wh, w.font_size as int, line.spec_text());
    if !fits(y) {
        None
    } else if d.spec_has_textbox() {
        cat(
            Some(head + shift_open(d.spec_schema_x() - d.spec_textbox_x())),
            cat(signal, Some("</g></g>"@)),
        )
    } else {
        cat(Some(head), cat(signal, Some("</g>"@)))
    }
}

/// The lines `k..` of the figure of `d`.
pub open spec fn lines_from<'a>(d: SvgDimensions<'a>, k: int) -> Option<Seq<char>>
    decreases d.spec_figure().spec_lines().len() - k,
{
    let ls = d.spec_figure().spec_lines();
    if k < 0 || k >= ls.len() {
        Some(Seq::empty())
    } else {
        cat(line_svg(d, k, ls[k]), lines_from(d, k + 1))
    }
}

// ---------------------------------------------------------------------------------------------
// The footer and the whole document
// ---------------------------------------------------------------------------------------------
/// The text `t` centered at (`x`, `y`) with font size `font_size`.
#[verifier::opaque]
pub open spec fn centered_text(x: int, y: int, font_size: int, t: Seq<char>) -> Seq<char> {
    "<text x=\""@ + decimal(x) + "\" y=\""@ + decimal(y) + TEXT_CENTERED@ + decimal(font_size)
        + TEXT_CONTENT@ + escaped(t) + TEXT_END@
}

/// The footer text of the figure of `d`, centered below the signals.
pub open spec fn footer_svg<'a>(d: SvgDimensions<'a>) -> Option<Seq<char>> {
    match d.spec_figure().spec_footer() {
        None => Some(Seq::empty()),
        Some(t) => {
            let y = d.spec_schema_y() + d.spec_schema_height() + d.spec_footer_height() / 2;
            if !fits(y) {
                None
            } else {
                Some(
                    centered_text(
                        d.spec_inner_width() / 2,
                        y,
                        d.spec_options().footer.font_size as int,
                        t,
                    ),
                )
            }
        },
    }
}

/// The SVG document of the figure of `d`: its definitions (with the gap drawn as `gap`), the
/// background, the title and top cycle enumeration, the dashed lines between cycles, the group
/// indicators, the signals with their names, the footer and bottom cycle enumeration, and the
/// drawn edges `edges`. There is none where a number of it would not fit (see the module).
pub open spec fn svg_document<'a>(d: SvgDimensions<'a>, gap: Seq<char>, edges: Seq<char>) -> Option<
    Seq<char>,
> {
    let f = d.spec_figure();
    let o = d.spec_options();
    cat(
        Some(svg_head(d, gap) + svg_title(d)),
        cat(
            cycle_enumeration(
                d,
                f.spec_top_cycle_marker(),
                d.spec_header_height(),
                o.header.cycle_marker_fontsize as int,
            ),
            cat(
                hint_lines(d),
                cat(
                    group_indicators_from(d, 0),
                    cat(
                        lines_from(d, 0),
                        cat(
                            footer_svg(d),
                            cat(
                                cycle_enumeration(
                                    d,
                                    f.spec_bottom_cycle_marker(),
                                    d.spec_schema_y() + d.spec_schema_height(),
                                    o.footer.cycle_marker_fontsize as int,
                                ),
                                Some("</g>"@ + edges + "</svg>"@),
                            ),
                        ),
                    ),
                ),
            ),
        ),
    )
}

// ---------------------------------------------------------------------------------------------
// Writing the document
// ---------------------------------------------------------------------------------------------
/// The product of two numbers that fit a `u32`.
fn mul_u32(a: u128, b: u128) -> (r: u128)
    requires
        a <= u32::MAX,
        b <= u32::MAX,
    ensures
        r == a * b,
        r <= 0xffff_fffe_0000_0001u128,
{
    assert(a * b <= 0xffff_ffffu128 * 0xffff_ffffu128) by (nonlinear_arith)
        requires
            a <= 0xffff_ffffu128,
            b <= 0xffff_ffffu128,
    ;
    a * b
}

/// Appends the decimal form of `v`, which fits a `u32`.
fn push_u32(out: &mut String, v: u128)
    requires
        v <= u32::MAX,
    ensures
        final(out)@ == old(out)@ + decimal(v as int),
{
    push_decimal(out, v as i64);
}

/// Appends the CSS form of `c`.
fn push_color(out: &mut String, c: Color)
    ensures
        final(out)@ == old(out)@ + css_string(c),
{
    let s = c.to_string();
    push_str(out, s.as_str());
}

/// Appends the escaped form of `t`.
fn push_escaped(out: &mut String, t: &str)
    ensures
        final(out)@ == old(out)@ + escaped(t@),
{
    let s = escape_str(t);
    push_str(out, s.as_str());
}

/// Appends the arrow of a marked clock edge (see [`arrow`]).
#[verifier::rlimit(30)]
fn push_arrow(out: &mut String, wave_height: u16, positive: bool)
    ensures
        final(out)@ == old(out)@ + arrow(wave_height as int, positive),
{
    let s = (wave_height / 6) as i64;
    assert(s <= 10922);
    let y = if positive {
        s
    } else {
        -s
    };
    push_str(out, "<path d=\"M");
    push_decimal(out, -s);
    push_str(out, ",");
    push_decimal(out, y);
    push_str(out, "L0,");
    push_decimal(out, -y);
    push_str(out, "L");
    push_decimal(out, s);
    push_str(out, ",");
    push_decimal(out, y);
    push_str(out, "H");
    let s2 = s + s;
    push_decimal(out, -s2);
    push_str(out, "z\" fill=\"#000\" stroke=\"none\"/>");
    assert(out@ =~= old(out)@ + arrow(wave_height as int, positive));
}

/// Appends the opening tag of the document (see [`svg_open`]).
fn write_open(out: &mut String, fw: u32, fh: u32)
    ensures
        final(out)@ == old(out)@ + svg_open(fw as int, fh as int),
{
    push_str(out, SVG_OPEN);
    push_u32(out, fw as u128);
    push_str(out, " ");
    push_u32(out, fh as u128);
    push_str(out, "\" overflow=\"hidden\" width=\"");
    push_u32(out, fw as u128);
    push_str(out, "\" height=\"");
    push_u32(out, fh as u128);
    push_str(out, "\">");
    assert(out@ =~= old(out)@ + svg_open(fw as int, fh as int));
}

/// Appends the arrow of marked clock edges where they are shown (see [`edge_def`]).
fn write_edge_def(out: &mut String, shown: bool, wh: u16, positive: bool)
    ensures
        final(out)@ == old(out)@ + edge_def(shown, wh as int, positive),
{
    if shown {
        if positive {
            push_str(out, "<g id=\"pei\">");
        } else {
            push_str(out, "<g id=\"nei\">");
        }
        push_arrow(out, wh, positive);
        push_str(out, "</g>");
    }
    assert(out@ =~= old(out)@ + edge_def(shown, wh as int, positive)) by {
        reveal(edge_def);
    }
}

/// Appends the gap where gaps are shown (see [`gap_def`]).
fn write_gap_def(out: &mut String, g: bool, gap: &str)
    ensures
        final(out)@ == old(out)@ + gap_def(g, gap@),
{
    if g {
        push_str(out, "<g id=\"gap\">");
        push_str(out, gap);
        push_str(out, "</g>");
    }
    assert(out@ =~= old(out)@ + gap_def(g, gap@)) by {
        reveal(gap_def);
    }
}

/// Appends the definitions (see [`svg_defs`]).
fn write_defs(out: &mut String, x: bool, p: bool, n: bool, g: bool, wh: u16, gap: &str, sh: u32)
    ensures
        final(out)@ == old(out)@ + svg_defs(x, p, n, g, wh as int, gap@, sh as int),
{
    push_str(out, "<defs>");
    if x {
        push_str(out, UNDEFINED_PATTERN);
    }
    assert(out@ =~= old(out)@ + "<defs>"@ + undefined_def(x)) by {
        reveal(undefined_def);
    }
    write_edge_def(out, p, wh, true);
    write_edge_def(out, n, wh, false);
    write_gap_def(out, g, gap);
    let ghost before = out@;
    push_str(out, HINT_LINE_OPEN);
    push_u32(out, sh as u128);
    push_str(out, HINT_LINE_CLOSE);
    push_str(out, "</defs>");
    assert(out@ =~= before + hint_def(sh as int)) by {
        reveal(hint_def);
    }
    assert(out@ =~= old(out)@ + svg_defs(x, p, n, g, wh as int, gap@, sh as int)) by {
        reveal(svg_defs);
    }
}

/// Appends the start of the document and its definitions (see [`svg_head`]).
fn write_head(out: &mut String, d: &SvgDimensions, gap: &str)
    ensures
        final(out)@ == old(out)@ + svg_head(*d, gap@),
{
    let f = d.figure();
    write_open(out, d.figure_width(), d.figure_height());
    write_defs(
        out,
        f.has_undefined(),
        f.has_posedge_marker(),
        f.has_negedge_marker(),
        f.has_gaps(),
        d.options().wave_dimensions.wave_height,
        gap,
        d.schema_height(),
    );
    assert(out@ =~= old(out)@ + svg_head(*d, gap@));
}

/// Appends the background rectangle (see [`background_rect`]).
fn write_background(out: &mut String, background: Option<Color>)
    ensures
        final(out)@ == old(out)@ + background_rect(background),
{
    match background {
        Some(c) => {
            push_str(out, "<rect width=\"100%\" height=\"100%\" fill=\"");
            push_color(out, c);
            push_str(out, "\"/>");
        },
        None => {},
    }
    assert(out@ =~= old(out)@ + background_rect(background)) by {
        reveal(background_rect);
    }
}

/// Appends the opening of the padded figure (see [`padded_open`]).
fn write_padded_open(out: &mut String, left: u32, top: u32)
    ensures
        final(out)@ == old(out)@ + padded_open(left as int, top as int),
{
    push_str(out, "<g transform=\"translate(");
    push_u32(out, left as u128);
    push_str(out, ",");
    push_u32(out, top as u128);
    push_str(out, ")\">");
    assert(out@ =~= old(out)@ + padded_open(left as int, top as int)) by {
        reveal(padded_open);
    }
}

/// Appends the title of the figure (see [`header_title`]).
fn write_header_title(out: &mut String, d: &SvgDimensions)
    ensures
        final(out)@ == old(out)@ + header_title(*d),
{
    match d.figure().header_text() {
        Some(t) => {
            push_str(out, "<text x=\"");
            push_u32(out, (d.header_width() / 2) as u128);
            push_str(out, "\" y=\"");
            push_u32(out, (d.header_height() / 2) as u128);
            push_str(out, TEXT_CENTERED);
            push_u32(out, d.options().header.font_size as u128);
            push_str(out, TEXT_CONTENT);
            push_escaped(out, t);
            push_str(out, TEXT_END);
        },
        None => {},
    }
    assert(out@ =~= old(out)@ + header_title(*d)) by {
        reveal(header_title);
    }
}

/// Appends the background, the opening of the padded figure and the title (see
/// [`svg_title`]).
fn write_title(out: &mut String, d: &SvgDimensions)
    ensures
        final(out)@ == old(out)@ + svg_title(*d),
{
    let o = d.options();
    write_background(out, o.background);
    write_padded_open(out, o.paddings.figure_left, o.paddings.figure_top);
    write_header_title(out, d);
    assert(out@ =~= old(out)@ + svg_title(*d));
}

/// Appends a number of a cycle enumeration (see [`cycle_number`]).
fn write_cycle_number(out: &mut String, x: u128, y: u32, font_size: u32, n: u128)
    requires
        x <= u32::MAX,
        n <= u32::MAX,
    ensures
        final(out)@ == old(out)@ + cycle_number(x as int, y as int, font_size as int, n as int),
{
    push_str(out, "<text x=\"");
    push_u32(out, x);
    push_str(out, "\" y=\"");
    push_u32(out, y as u128);
    push_str(out, TEXT_CENTERED);
    push_u32(out, font_size as u128);
    push_str(out, TEXT_CONTENT);
    push_u32(out, n);
    push_str(out, TEXT_END);
    assert(out@ =~= old(out)@ + cycle_number(x as int, y as int, font_size as int, n as int)) by {
        reveal(cycle_number);
    }
}

/// Appends a cycle enumeration (see [`cycle_enumeration`]).
fn write_cycle_enumeration(
    out: &mut String,
    d: &SvgDimensions,
    m: Option<CycleMarker>,
    y: u32,
    font_size: u32,
) -> (ok: bool)
    ensures
        ok == cycle_enumeration(*d, m, y as int, font_size as int) is Some,
        ok ==> final(out)@ == old(out)@ + cycle_enumeration(
            *d,
            m,
            y as int,
            font_size as int,
        )->Some_0,
{
    let ghost base = out@;
    let cm = match m {
        None => {
            assert(out@ =~= base + Seq::empty());
            return true;
        },
        Some(cm) => cm,
    };
    let start = cm.start() as u64;
    let end = start + d.figure().num_cycles() as u64;
    if end > 0xffff_ffff {
        return false;
    }
    let every = cm.every() as u64;
    let x0 = d.schema_x() as u128;
    let cw = d.cycle_width() as u128;
    let ghost whole = cycle_numbers_from(
        x0 as int,
        cw as int,
        start as int,
        end as int,
        every as int,
        start as int,
        y as int,
        font_size as int,
    );
    assert(whole == cycle_enumeration(*d, m, y as int, font_size as int));
    if every == 0 {
        assert(out@ =~= base + Seq::empty());
        return true;
    }
    let mut off = start;
    while off < end
        invariant
            start <= off,
            end <= u32::MAX,
            1 <= every <= u32::MAX,
            cw <= u32::MAX,
            x0 <= u32::MAX,
            whole == cycle_enumeration(*d, m, y as int, font_size as int),
            after(base, whole) == after(
                out@,
                cycle_numbers_from(
                    x0 as int,
                    cw as int,
                    start as int,
                    end as int,
                    every as int,
                    off as int,
                    y as int,
                    font_size as int,
                ),
            ),
        decreases end + every - off,
    {
        let x = x0 + mul_u32(cw, (off - start) as u128) + cw / 2;
        if x > 0xffff_ffff {
            return false;
        }
        let ghost rest = cycle_numbers_from(
            x0 as int,
            cw as int,
            start as int,
            end as int,
            every as int,
            off + every,
            y as int,
            font_size as int,
        );
        proof {
            lemma_after_step(out@, cycle_number(x as int, y as int, font_size as int, off as int), rest);
        }
        write_cycle_number(out, x, y, font_size, off as u128);
        off = off + every;
    }
    assert(out@ + Seq::empty() =~= out@);
    true
}

/// Appends the dashed lines between cycles (see [`hint_lines`]).
fn write_hint_lines(out: &mut String, d: &SvgDimensions) -> (ok: bool)
    ensures
        ok == hint_lines(*d) is Some,
        ok ==> final(out)@ == old(out)@ + hint_lines(*d)->Some_0,
{
    let ghost base = out@;
    let ghost whole = hint_lines(*d);
    let sx = d.schema_x();
    let sy = d.schema_y();
    let n = d.figure().num_cycles() as u64;
    let cw = d.cycle_width() as u128;
    let ghost close = Some("</g>"@);
    let ghost open = "<g transform=\"translate("@ + decimal(sx as int) + ","@ + decimal(sy as int)
        + ")\">"@;
    push_str(out, "<g transform=\"translate(");
    push_u32(out, sx as u128);
    push_str(out, ",");
    push_u32(out, sy as u128);
    push_str(out, ")\">");
    assert(out@ =~= base + open);
    proof {
        lemma_after_step(base, open, cat(hint_lines_from(cw as int, 0, n as int), close));
    }
    let mut i: u64 = 0;
    while i <= n
        invariant
            n <= u32::MAX,
            cw <= u32::MAX,
            i <= n + 1,
            close == Some("</g>"@),
            whole == hint_lines(*d),
            after(base, whole) == after(out@, cat(hint_lines_from(cw as int, i as int, n as int), close)),
        decreases n + 1 - i,
    {
        let x = mul_u32(i as u128, cw);
        let ghost rest = hint_lines_from(cw as int, i + 1, n as int);
        if x > 0xffff_ffff {
            proof {
                lemma_cat_assoc(None, rest, close);
            }
            return false;
        }
        proof {
            lemma_cat_assoc(Some(hint_use(x as int)), rest, close);
            lemma_after_step(out@, hint_use(x as int), cat(rest, close));
        }
        let ghost before = out@;
        push_str(out, "<use transform=\"translate(");
        push_u32(out, x);
        push_str(out, ")\" xlink:href=\"#cl\"/>");
        assert(out@ =~= before + hint_use(x as int)) by {
            reveal(hint_use);
        }
        i = i + 1;
    }
    push_str(out, "</g>");
    true
}

/// Appends the label of a group (see [`group_label`]).
fn write_group_label(out: &mut String, x: u128, y: u128, font_size: u32, l: &str)
    requires
        x <= u32::MAX,
        y <= u32::MAX,
    ensures
        final(out)@ == old(out)@ + group_label(x as int, y as int, font_size as int, l@),
{
    push_str(out, "<g transform=\"translate(");
    push_u32(out, x);
    push_str(out, ",");
    push_u32(out, y);
    push_str(out, GROUP_LABEL);
    push_u32(out, font_size as u128);
    push_str(out, GROUP_LABEL_CONTENT);
    push_escaped(out, l);
    push_str(out, TEXT_END);
    push_str(out, "</g>");
    assert(out@ =~= old(out)@ + group_label(x as int, y as int, font_size as int, l@)) by {
        reveal(group_label);
    }
}

/// Appends the bracket of a group (see [`group_bracket`]).
fn write_group_bracket(out: &mut String, x: u128, y: u128, w: u32, h: u128)
    requires
        x <= u32::MAX,
        y <= u32::MAX,
        h <= u32::MAX,
    ensures
        final(out)@ == old(out)@ + group_bracket(x as int, y as int, w as int, h as int),
{
    let w = w as u128;
    push_str(out, "<path fill=\"none\" d=\"M");
    push_u32(out, x);
    push_str(out, ",");
    push_u32(out, y);
    push_str(out, "m");
    push_u32(out, w);
    push_str(out, ",0c-3,0 -");
    push_u32(out, w);
    push_str(out, ",1 -");
    push_u32(out, w);
    push_str(out, ",");
    push_u32(out, w);
    push_str(out, "v");
    assert(out@ =~= old(out)@ + bracket_start(x as int, y as int, w as int)) by {
        reveal(bracket_start);
    }
    let ghost mid = out@;
    push_u32(out, h);
    push_str(out, "c0,3 1,");
    push_u32(out, w);
    push_str(out, " ");
    push_u32(out, w);
    push_str(out, ",");
    push_u32(out, w);
    push_str(out, "\" stroke=\"#000\"/>");
    assert(out@ =~= mid + bracket_end(w as int, h as int)) by {
        reveal(bracket_end);
    }
    assert(out@ =~= old(out)@ + group_bracket(x as int, y as int, w as int, h as int));
}

/// Appends the indicator of a group (see [`group_indicator`]).
#[verifier::rlimit(40)]
fn write_group<'a>(out: &mut String, d: &SvgDimensions<'a>, g: &WaveGroup<'a>) -> (ok: bool)
    ensures
        ok == group_indicator(*d, *g) is Some,
        ok ==> final(out)@ == old(out)@ + group_indicator(*d, *g)->Some_0,
{
    let f = d.figure();
    let o = d.options();
    let gi = &o.group_indicator_dimensions;
    if g.is_empty() {
        assert(out@ =~= old(out)@ + Seq::empty());
        return true;
    }
    let len = g.len() as u128;
    let wh = o.wave_dimensions.wave_height as u128;
    let ltl = o.spacings.line_to_line as u128;
    let height = mul_u32(len, wh) + mul_u32(len - 1, ltl);
    if height > 0xffff_ffff {
        return false;
    }
    let lh = gi.label_spacing as u128 + gi.label_fontsize as u128;
    if lh > 0xffff_ffff {
        return false;
    }
    let depth = g.depth() as u128;
    if depth + 1 > 0xffff_ffff {
        return false;
    }
    let c1 = f.amount_labels_before((depth + 1) as u32) as u128;
    let x = mul_u32(c1, lh) + if depth == 0 {
        0
    } else {
        mul_u32(depth, gi.width as u128)
    };
    if x > 0xffff_ffff {
        return false;
    }
    let start = g.start() as u128;
    let y = d.header_height() as u128 + o.paddings.schema_top as u128 + if start == 0 {
        0
    } else {
        mul_u32(start, wh) + mul_u32(start, ltl)
    };
    if y > 0xffff_ffff {
        return false;
    }
    let w2 = gi.width as u128 * 2;
    if w2 > 0xffff_ffff || height < w2 {
        return false;
    }
    let h = height - w2;
    match g.label() {
        None => {},
        Some(l) => {
            let x2 = if depth == 0 {
                0
            } else {
                let c2 = f.amount_labels_before(depth as u32) as u128;
                mul_u32(c2, lh) + mul_u32(depth, gi.width as u128)
            };
            if x2 > 0xffff_ffff {
                return false;
            }
            let lx = x2 + gi.label_spacing as u128 + 2;
            let ly = y + height / 2;
            if lx > 0xffff_ffff || ly > 0xffff_ffff {
                return false;
            }
            write_group_label(out, lx, ly, gi.label_fontsize, l);
        },
    }
    write_group_bracket(out, x, y, gi.width, h);
    true
}

/// Appends the indicators of the groups (see [`group_indicators_from`]).
fn write_groups(out: &mut String, d: &SvgDimensions) -> (ok: bool)
    ensures
        ok == group_indicators_from(*d, 0) is Some,
        ok ==> final(out)@ == old(out)@ + group_indicators_from(*d, 0)->Some_0,
{
    let ghost base = out@;
    let ghost whole = group_indicators_from(*d, 0);
    let groups = d.figure().group_markers();
    let mut k: usize = 0;
    assert(after(base, whole) == after(out@, group_indicators_from(*d, 0))) by {
        match whole {
            Some(w) => {
                assert(base + w =~= out@ + w);
            },
            None => {},
        }
    }
    while k < groups.len()
        invariant
            groups@ == d.spec_figure().spec_groups(),
            k <= groups@.len(),
            whole == group_indicators_from(*d, 0),
            after(base, whole) == after(out@, group_indicators_from(*d, k as int)),
        decreases groups@.len() - k,
    {
        let ghost before = out@;
        let ghost rest = group_indicators_from(*d, k + 1);
        let ok = write_group(out, d, &groups[k]);
        if !ok {
            return false;
        }
        proof {
            lemma_after_step(before, group_indicator(*d, groups@[k as int])->Some_0, rest);
        }
        k = k + 1;
    }
    assert(out@ + Seq::empty() =~= out@);
    true
}

/// Appends the fill of a segment with background `bg` (see [`fill_of`]).
fn write_fill(out: &mut String, bg: Option<&PathSegmentBackground>, w: &WaveOptions)
    ensures
        final(out)@ == old(out)@ + fill_of(
            match bg {
                Some(b) => Some(*b),
                None => None,
            },
            *w,
        ),
{
    match bg {
        None => push_str(out, "none"),
        Some(b) => match *b {
            PathSegmentBackground::B2 => push_str(out, w.backgrounds[0].as_str()),
            PathSegmentBackground::B3 => push_str(out, w.backgrounds[1].as_str()),
            PathSegmentBackground::B4 => push_str(out, w.backgrounds[2].as_str()),
            PathSegmentBackground::B5 => push_str(out, w.backgrounds[3].as_str()),
            PathSegmentBackground::B6 => push_str(out, w.backgrounds[4].as_str()),
            PathSegmentBackground::B7 => push_str(out, w.backgrounds[5].as_str()),
            PathSegmentBackground::B8 => push_str(out, w.backgrounds[6].as_str()),
            PathSegmentBackground::B9 => push_str(out, w.backgrounds[7].as_str()),
            PathSegmentBackground::Undefined => push_str(out, "url(#x-bg)"),
        },
    }
}

/// Appends the path of a segment (see [`segment_path`]).
fn write_segment_path(out: &mut String, s: &WavePathSegment, w: &WaveOptions)
    ensures
        final(out)@ == old(out)@ + segment_path(*s, *w),
{
    let bg = s.background();
    push_str(out, "<path fill=\"");
    write_fill(out, bg, w);
    push_str(out, "\" d=\"");
    let p = path_data(s.x(), s.y(), s.actions(), true, bg.is_some());
    push_str(out, p.as_str());
    if !s.is_fully_stroked() {
        push_str(out, "\" stroke=\"none\"/><path fill=\"none\" d=\"");
        let q = path_data(s.x(), s.y(), s.actions(), false, false);
        push_str(out, q.as_str());
    }
    push_str(out, "\" stroke-width=\"1\" stroke=\"#000\"/>");
    assert(out@ =~= old(out)@ + segment_path(*s, *w)) by {
        reveal(segment_path);
    }
}

/// Half of `v`, rounded toward zero.
fn half_i32(v: i32) -> (r: i64)
    ensures
        r == half_toward_zero(v as int),
{
    if v >= 0 {
        ((v as u64) / 2) as i64
    } else {
        let m = (-(v as i64)) as u64;
        -((m / 2) as i64)
    }
}

/// Appends the data text of a segment (see [`segment_text`]).
fn write_segment_text(out: &mut String, s: &WavePathSegment, w: &WaveOptions) -> (ok: bool)
    ensures
        ok == segment_text(*s, *w) is Some,
        ok ==> final(out)@ == old(out)@ + segment_text(*s, *w)->Some_0,
{
    match s.marker_text() {
        None => {
            assert(out@ =~= old(out)@ + Seq::empty());
            true
        },
        Some(t) => {
            let x = s.x() as i64 + half_i32(s.width());
            if x < -0x8000_0000 || x > 0x7fff_ffff {
                return false;
            }
            push_str(out, "<g transform=\"translate(");
            push_decimal(out, x);
            push_str(out, ",");
            push_u32(out, (w.wave_height / 2) as u128);
            push_str(out, MARKER_TEXT);
            push_str(out, w.font_family.as_str());
            push_str(out, "\" font-size=\"");
            push_u32(out, w.font_size as u128);
            push_str(out, TEXT_CONTENT);
            push_str(out, t);
            push_str(out, TEXT_END);
            push_str(out, "</g>");
            assert(out@ =~= old(out)@ + data_text(
                x as int,
                w.wave_height as int / 2,
                w.font_family@,
                w.font_size as int,
                t@,
            )) by {
                reveal(data_text);
            }
            true
        },
    }
}

/// Appends the arrows of the marked clock edges of a segment (see [`clock_arrows_from`]).
fn write_clock_arrows(out: &mut String, ms: &[ClockEdgeMarker], y: u32)
    ensures
        final(out)@ == old(out)@ + clock_arrows_from(ms@, 0, y as int),
{
    let ghost base = out@;
    let mut k: usize = 0;
    while k < ms.len()
        invariant
            k <= ms@.len(),
            base + clock_arrows_from(ms@, 0, y as int) == out@ + clock_arrows_from(
                ms@,
                k as int,
                y as int,
            ),
        decreases ms@.len() - k,
    {
        let m = ms[k];
        let ghost before = out@;
        let ghost rest = clock_arrows_from(ms@, k + 1, y as int);
        push_str(out, "<use transform=\"translate(");
        push_u32(out, m.x as u128);
        push_str(out, ",");
        push_u32(out, y as u128);
        push_str(out, ")\" xlink:href=\"#");
        match m.edge {
            ClockEdge::Positive => push_str(out, "pei"),
            ClockEdge::Negative => push_str(out, "nei"),
        }
        push_str(out, "\"/>");
        assert(out@ =~= before + clock_arrow(m, y as int)) by {
            reveal(clock_arrow);
        }
        assert(before + (clock_arrow(m, y as int) + rest) =~= out@ + rest);
        k = k + 1;
    }
    assert(out@ + Seq::empty() =~= out@);
}

/// Appends the gaps of a segment (see [`gaps_from`]), cycles being `cw` wide.
fn write_gaps(out: &mut String, gs: &[CycleOffset], cw: u32, y: u32) -> (ok: bool)
    requires
        cw <= u16::MAX,
    ensures
        ok == gaps_from(gs@, 0, cw as int, y as int) is Some,
        ok ==> final(out)@ == old(out)@ + gaps_from(gs@, 0, cw as int, y as int)->Some_0,
{
    let ghost base = out@;
    let ghost whole = gaps_from(gs@, 0, cw as int, y as int);
    let mut k: usize = 0;
    assert(after(base, whole) == after(out@, whole)) by {
        assert(base == out@);
    }
    while k < gs.len()
        invariant
            k <= gs@.len(),
            cw <= u16::MAX,
            whole == gaps_from(gs@, 0, cw as int, y as int),
            after(base, whole) == after(out@, gaps_from(gs@, k as int, cw as int, y as int)),
        decreases gs@.len() - k,
    {
        let g = gs[k];
        proof {
            g.lemma_fits();
        }
        let a = mul_u32(g.cycle_index() as u128, cw as u128) + g.in_cycle_offset().width_offset(
            cw,
        ) as u128;
        let x = a + (cw / 2) as u128;
        if a > 0xffff_ffff || x > 0xffff_ffff {
            return false;
        }
        let ghost before = out@;
        let ghost rest = gaps_from(gs@, k + 1, cw as int, y as int);
        proof {
            lemma_after_step(before, gap_text(x as int, y as int), rest);
        }
        push_str(out, "<use transform=\"translate(");
        push_u32(out, x);
        push_str(out, ",");
        push_u32(out, y as u128);
        push_str(out, ")\" xlink:href=\"#gap\"/>");
        assert(out@ =~= before + gap_text(x as int, y as int)) by {
            reveal(gap_text);
        }
        k = k + 1;
    }
    assert(out@ + Seq::empty() =~= out@);
    true
}

/// Appends a segment with its data text, clock edge arrows and gaps (see [`segment_svg`]).
fn write_segment(out: &mut String, s: &WavePathSegment, w: &WaveOptions, hscale: u16) -> (ok: bool)
    ensures
        ok == segment_svg(*s, *w, hscale as int) is Some,
        ok ==> final(out)@ == old(out)@ + segment_svg(*s, *w, hscale as int)->Some_0,
{
    let y = (w.wave_height / 2) as u32;
    write_segment_path(out, s, w);
    if !write_segment_text(out, s, w) {
        return false;
    }
    write_clock_arrows(out, s.clock_edge_markers(), y);
    let ghost c = out@;
    let gaps = s.gaps();
    let cw = mul_u32(w.cycle_width as u128, hscale as u128);
    if gaps.len() > 0 && cw > 0xffff {
        return false;
    }
    if gaps.len() > 0 {
        if !write_gaps(out, gaps, cw as u32, y) {
            return false;
        }
    } else {
        assert(out@ =~= c + Seq::empty());
    }
    assert(out@ =~= old(out)@ + segment_svg(*s, *w, hscale as int)->Some_0);
    true
}

/// Appends the segments of a signal (see [`segments_from`]).
fn write_segments(out: &mut String, segs: &[WavePathSegment], w: &WaveOptions, hscale: u16) -> (ok: bool)
    ensures
        ok == segments_from(segs@, 0, *w, hscale as int) is Some,
        ok ==> final(out)@ == old(out)@ + segments_from(segs@, 0, *w, hscale as int)->Some_0,
{
    let ghost base = out@;
    let ghost whole = segments_from(segs@, 0, *w, hscale as int);
    let mut k: usize = 0;
    while k < segs.len()
        invariant
            k <= segs@.len(),
            whole == segments_from(segs@, 0, *w, hscale as int),
            after(base, whole) == after(out@, segments_from(segs@, k as int, *w, hscale as int)),
        decreases segs@.len() - k,
    {
        let ghost before = out@;
        let ghost rest = segments_from(segs@, k + 1, *w, hscale as int);
        if !write_segment(out, &segs[k], w, hscale) {
            return false;
        }
        proof {
            lemma_after_step(before, segment_svg(segs@[k as int], *w, hscale as int)->Some_0, rest);
        }
        k = k + 1;
    }
    assert(out@ + Seq::empty() =~= out@);
    true
}

/// Appends the opening of a line with its name (see [`line_head`]).
fn write_line_head(out: &mut String, x: u32, y: u128, wh: u16, font_size: u32, text: &str)
    requires
        y <= u32::MAX,
    ensures
        final(out)@ == old(out)@ + line_head(x as int, y as int, wh as int, font_size as int, text@),
{
    push_str(out, "<g transform=\"translate(");
    push_u32(out, x as u128);
    push_str(out, ",");
    push_u32(out, y);
    push_str(out, ")\">");
    if text.unicode_len() > 0 {
        push_str(out, NAME_OPEN);
        push_u32(out, (wh / 2) as u128);
        push_str(out, NAME_TEXT);
        push_u32(out, font_size as u128);
        push_str(out, TEXT_CONTENT);
        push_escaped(out, text);
        push_str(out, TEXT_END);
        push_str(out, "</g>");
    }
    assert(out@ =~= old(out)@ + line_head(x as int, y as int, wh as int, font_size as int, text@))
        by {
        reveal(line_head);
    }
}

/// Appends line `i` (see [`line_svg`]).
#[verifier::rlimit(30)]
fn write_line<'a>(out: &mut String, d: &SvgDimensions<'a>, i: u32, line: &AssembledLine<'a>) -> (ok: bool)
    ensures
        ok == line_svg(*d, i as int, *line) is Some,
        ok ==> final(out)@ == old(out)@ + line_svg(*d, i as int, *line)->Some_0,
{
    let o = d.options();
    let w = &o.wave_dimensions;
    let wh = w.wave_height as u128;
    let x = if d.has_textbox() {
        d.textbox_x()
    } else {
        d.schema_x()
    };
    let step = wh + o.spacings.line_to_line as u128;
    if step > 0xffff_ffff && i != 0 {
        assert(step * i >= step) by (nonlinear_arith)
            requires
                i >= 1,
        ;
        return false;
    }
    let y = d.header_height() as u128 + o.paddings.schema_top as u128 + if i == 0 {
        0
    } else {
        mul_u32(step, i as u128)
    };
    if y > 0xffff_ffff {
        return false;
    }
    write_line_head(out, x, y, w.wave_height, w.font_size, line.text());
    let ghost a = out@;
    if d.has_textbox() {
        let dx = d.schema_x() - d.textbox_x();
        push_str(out, "<g transform=\"translate(");
        push_u32(out, dx as u128);
        push_str(out, ")\">");
        assert(out@ =~= a + shift_open(dx as int)) by {
            reveal(shift_open);
        }
    }
    if !write_segments(out, line.path().segments(), w, d.figure().horizontal_scale()) {
        return false;
    }
    if d.has_textbox() {
        push_str(out, "</g></g>");
    } else {
        push_str(out, "</g>");
    }
    assert(out@ =~= old(out)@ + line_svg(*d, i as int, *line)->Some_0);
    true
}

/// Appends the lines (see [`lines_from`]).
fn write_lines(out: &mut String, d: &SvgDimensions) -> (ok: bool)
    ensures
        ok == lines_from(*d, 0) is Some,
        ok ==> final(out)@ == old(out)@ + lines_from(*d, 0)->Some_0,
{
    let ghost base = out@;
    let ghost whole = lines_from(*d, 0);
    let lines = d.figure().lines();
    let n = d.figure().num_lines();
    let mut k: usize = 0;
    while k < lines.len()
        invariant
            lines@ == d.spec_figure().spec_lines(),
            n == lines@.len(),
            k <= lines@.len(),
            whole == lines_from(*d, 0),
            after(base, whole) == after(out@, lines_from(*d, k as int)),
        decreases lines@.len() - k,
    {
        let ghost before = out@;
        let ghost rest = lines_from(*d, k + 1);
        if !write_line(out, d, k as u32, &lines[k]) {
            return false;
        }
        proof {
            lemma_after_step(before, line_svg(*d, k as int, lines@[k as int])->Some_0, rest);
        }
        k = k + 1;
    }
    assert(out@ + Seq::empty() =~= out@);
    true
}

/// Appends the footer text (see [`footer_svg`]).
fn write_footer(out: &mut String, d: &SvgDimensions) -> (ok: bool)
    ensures
        ok == footer_svg(*d) is Some,
        ok ==> final(out)@ == old(out)@ + footer_svg(*d)->Some_0,
{
    match d.figure().footer_text() {
        None => {
            assert(out@ =~= old(out)@ + Seq::empty());
            true
        },
        Some(t) => {
            let y = d.footer_y() as u128 + (d.footer_height() / 2) as u128;
            if y > 0xffff_ffff {
                return false;
            }
            push_str(out, "<text x=\"");
            push_u32(out, (d.footer_width() / 2) as u128);
            push_str(out, "\" y=\"");
            push_u32(out, y);
            push_str(out, TEXT_CENTERED);
            push_u32(out, d.options().footer.font_size as u128);
            push_str(out, TEXT_CONTENT);
            push_escaped(out, t);
            push_str(out, TEXT_END);
            assert(out@ =~= old(out)@ + centered_text(
                d.spec_inner_width() / 2,
                y as int,
                d.spec_options().footer.font_size as int,
                t@,
            )) by {
                reveal(centered_text);
            }
            true
        },
    }
}

/// The SVG document of the figure laid out as `d` (see [`svg_document`]), with the gap drawn
/// as `gap` and the drawn edges `edges`. `None` where a number of it would not fit.
#[verifier::rlimit(40)]
pub fn render_svg(d: &SvgDimensions, gap: &str, edges: &str) -> (r: Option<String>)
    ensures
        match svg_document(*d, gap@, edges@) {
            Some(s) => r matches Some(t) && t@ == s,
            None => r is None,
        },
{
    let f = d.figure();
    let o = d.options();
    let mut out = String::new();
    write_head(&mut out, d, gap);
    write_title(&mut out, d);
    let ghost a = out@;
    if !write_cycle_enumeration(
        &mut out,
        d,
        f.top_cycle_marker(),
        d.header_height(),
        o.header.cycle_marker_fontsize,
    ) {
        return None;
    }
    let ghost b = out@;
    if !write_hint_lines(&mut out, d) {
        return None;
    }
    let ghost c = out@;
    if !write_groups(&mut out, d) {
        return None;
    }
    let ghost e = out@;
    if !write_lines(&mut out, d) {
        return None;
    }
    let ghost g = out@;
    if !write_footer(&mut out, d) {
        return None;
    }
    let ghost h = out@;
    if !write_cycle_enumeration(
        &mut out,
        d,
        f.bottom_cycle_marker(),
        d.footer_y(),
        o.footer.cycle_marker_fontsize,
    ) {
        return None;
    }
    let ghost k = out@;
    push_str(&mut out, "</g>");
    push_str(&mut out, edges);
    push_str(&mut out, "</svg>");
    proof {
        let ff = d.spec_figure();
        let oo = d.spec_options();
        let top = cycle_enumeration(
            *d,
            ff.spec_top_cycle_marker(),
            d.spec_header_height(),
            oo.header.cycle_marker_fontsize as int,
        );
        let bottom = cycle_enumeration(
            *d,
            ff.spec_bottom_cycle_marker(),
            d.spec_schema_y() + d.spec_schema_height(),
            oo.footer.cycle_marker_fontsize as int,
        );
        let z = Some("</g>"@ + edges@ + "</svg>"@);
        let r6 = cat(bottom, z);
        let r5 = cat(footer_svg(*d), r6);
        let r4 = cat(lines_from(*d, 0), r5);
        let r3 = cat(group_indicators_from(*d, 0), r4);
        let r2 = cat(hint_lines(*d), r3);
        let r1 = cat(top, r2);
        let doc = svg_document(*d, gap@, edges@);
        assert(doc == cat(Some(svg_head(*d, gap@) + svg_title(*d)), r1));
        assert(Seq::<char>::empty() + (svg_head(*d, gap@) + svg_title(*d)) =~= a);
        lemma_after_step(Seq::empty(), svg_head(*d, gap@) + svg_title(*d), r1);
        lemma_after_step(a, top->Some_0, r2);
        lemma_after_step(b, hint_lines(*d)->Some_0, r3);
        lemma_after_step(c, group_indicators_from(*d, 0)->Some_0, r4);
        lemma_after_step(e, lines_from(*d, 0)->Some_0, r5);
        lemma_after_step(g, footer_svg(*d)->Some_0, r6);
        lemma_after_step(h, bottom->Some_0, z);
        assert(k + ("</g>"@ + edges@ + "</svg>"@) =~= out@);
        assert(after(Seq::empty(), doc) == Some(out@));
        assert(Seq::<char>::empty() + doc->Some_0 =~= doc->Some_0);
    }
    Some(out)
}

impl<'a> AssembledFigure<'a> {
    /// The SVG document of the figure laid out with `options` (see [`SvgDimensions::new`] and
    /// [`svg_document`]), with the gap drawn as `gap` and the drawn edges `edges`. `None` where
    /// the layout or a number of the document would not fit.
    pub fn write_svg_with_options(&self, options: &RenderOptions, gap: &str, edges: &str) -> (r: Option<String>)
        ensures
            svg_result(SvgDimensions::layout(self, options), gap@, edges@, r),
    {
        match SvgDimensions::new(self, Font {}, options) {
            None => None,
            Some(d) => render_svg(&d, gap, edges),
        }
    }

    /// The SVG document of the figure laid out with the default rendering options, with the gap
    /// drawn as `gap` and the drawn edges `edges` (see [`Self::write_svg_with_options`]).
    pub fn write_svg(&self, gap: &str, edges: &str) -> (r: Option<String>)
        ensures
            exists|options: RenderOptions|
                {
                    &&& is_default_render_options(options)
                    &&& #[trigger] svg_result(SvgDimensions::layout(self, &options), gap@, edges@, r)
                },
    {
        let options = RenderOptions::default();
        let r = self.write_svg_with_options(&options, gap, edges);
        assert(svg_result(SvgDimensions::layout(self, &options), gap@, edges@, r));
        r
    }
}

/// Is `r` the document laid out as `d`, with the gap drawn as `gap` and the drawn edges `edges`:
/// `None` where the layout or a number of the document would not fit?
pub open spec fn svg_result<'a>(d: SvgDimensions<'a>, gap: Seq<char>, edges: Seq<char>, r: Option<String>) -> bool {
    if !d.fits() {
        r is None
    } else {
        match svg_document(d, gap, edges) {
            Some(s) => r matches Some(t) && t@ == s,
            None => r is None,
        }
    }
}

/// A document opens with the width and height of the layout and ends with the drawn edges
/// and the closing tag.
pub proof fn lemma_document_frame<'a>(d: SvgDimensions<'a>, gap: Seq<char>, edges: Seq<char>)
    requires
        svg_document(d, gap, edges) is Some,
    ensures
        exists|m: Seq<char>|
            svg_document(d, gap, edges)->Some_0 == svg_open(d.spec_figure_width(), d.spec_figure_height()) + m
                + edges + "</svg>"@,
{
    let f = d.spec_figure();
    let o = d.spec_options();
    let top = cycle_enumeration(
        d,
        f.spec_top_cycle_marker(),
        d.spec_header_height(),
        o.header.cycle_marker_fontsize as int,
    )->Some_0;
    let hints = hint_lines(d)->Some_0;
    let groups = group_indicators_from(d, 0)->Some_0;
    let lines = lines_from(d, 0)->Some_0;
    let footer = footer_svg(d)->Some_0;
    let bottom = cycle_enumeration(
        d,
        f.spec_bottom_cycle_marker(),
        d.spec_schema_y() + d.spec_schema_height(),
        o.footer.cycle_marker_fontsize as int,
    )->Some_0;
    let open = svg_open(d.spec_figure_width(), d.spec_figure_height());
    let defs = svg_defs(
        f.spec_has_undefined(),
        f.spec_has_posedge_marker(),
        f.spec_has_negedge_marker(),
        f.spec_has_gaps(),
        o.wave_dimensions.wave_height as int,
        gap,
        d.spec_schema_height(),
    );
    let m = defs + svg_title(d) + top + hints + groups + lines + footer + bottom + "</g>"@;
    assert(svg_document(d, gap, edges)->Some_0 =~= open + m + edges + "</svg>"@);
}


/// The dashed lines between cycles `i..=n` are one use of the dashed line for each cycle
/// boundary from `i` to `n`, at `k * cw`, in order.
pub proof fn lemma_hint_lines_from(cw: int, i: int, n: int)
    requires
        i <= n + 1,
        hint_lines_from(cw, i, n) is Some,
    ensures
        hint_lines_from(cw, i, n)->Some_0 == Seq::new(
            (n + 1 - i) as nat,
            |k: int| hint_use((i + k) * cw),
        ).flatten(),
    decreases n + 1 - i,
{
    let s = Seq::new((n + 1 - i) as nat, |k: int| hint_use((i + k) * cw));
    if i > n {
        assert(s =~= Seq::empty());
    } else {
        lemma_hint_lines_from(cw, i + 1, n);
        let t = Seq::new((n - i) as nat, |k: int| hint_use((i + 1 + k) * cw));
        assert(s.drop_first() =~= t);
        assert(s.first() == hint_use(i * cw));
    }
}

/// The lines between cycles of a document are, in a group placed at the signals, one use of
/// the dashed line for each cycle boundary, `0..=` the figure's cycle count, a cycle width
/// apart.
pub proof fn lemma_hint_lines<'a>(d: SvgDimensions<'a>)
    requires
        hint_lines(d) is Some,
    ensures
        hint_lines(d)->Some_0 == "<g transform=\"translate("@ + decimal(d.spec_schema_x()) + ","@
            + decimal(d.spec_schema_y()) + ")\">"@ + Seq::new(
            (d.spec_figure().spec_num_cycles() + 1) as nat,
            |k: int| hint_use(k * d.spec_cycle_width()),
        ).flatten() + "</g>"@,
{
    let n = d.spec_figure().spec_num_cycles() as int;
    let cw = d.spec_cycle_width();
    lemma_hint_lines_from(cw, 0, n);
    assert(Seq::new((n + 1 - 0) as nat, |k: int| hint_use((0 + k) * cw)) =~= Seq::new(
        (n + 1) as nat,
        |k: int| hint_use(k * cw),
    ));
}

/// The number of numbers `off, off + every, ...` below `end`.
pub open spec fn numbers_below(off: int, end: int, every: int) -> nat {
    if off >= end || every <= 0 {
        0
    } else {
        ((end - off - 1) / every + 1) as nat
    }
}

/// A cycle enumeration holds the numbers `off, off + every, ...` below `end`, in order, each
/// centered on its cycle.
pub proof fn lemma_cycle_numbers_from(
    x0: int,
    cw: int,
    start: int,
    end: int,
    every: int,
    off: int,
    y: int,
    font_size: int,
)
    requires
        every > 0,
        cycle_numbers_from(x0, cw, start, end, every, off, y, font_size) is Some,
    ensures
        cycle_numbers_from(x0, cw, start, end, every, off, y, font_size)->Some_0 == Seq::new(
            numbers_below(off, end, every),
            |k: int|
                cycle_number(
                    x0 + cw * (off + k * every - start) + cw / 2,
                    y,
                    font_size,
                    off + k * every,
                ),
        ).flatten(),
    decreases (if end > off {
        end - off
    } else {
        0
    }),
{
    let s = Seq::new(
        numbers_below(off, end, every),
        |k: int|
            cycle_number(x0 + cw * (off + k * every - start) + cw / 2, y, font_size, off + k * every),
    );
    if off >= end {
        assert(s =~= Seq::empty());
    } else {
        lemma_cycle_numbers_from(x0, cw, start, end, every, off + every, y, font_size);
        let t = Seq::new(
            numbers_below(off + every, end, every),
            |k: int|
                cycle_number(
                    x0 + cw * (off + every + k * every - start) + cw / 2,
                    y,
                    font_size,
                    off + every + k * every,
                ),
        );
        if off + every >= end {
            assert((end - off - 1) / every == 0) by (nonlinear_arith)
                requires
                    every > 0,
                    0 <= end - off - 1 < every,
            ;
        } else {
            assert((end - off - 1) / every == (end - off - every - 1) / every + 1) by (nonlinear_arith)
                requires
                    every > 0,
                    end - off - every - 1 >= 0,
            ;
        }
        assert(s.len() == t.len() + 1);
        assert forall|k: int| 0 <= k < t.len() implies s.drop_first()[k] == t[k] by {
            assert(off + (k + 1) * every == off + every + k * every) by (nonlinear_arith);
        }
        assert(s.drop_first() =~= t);
        assert(off + 0 * every == off) by (nonlinear_arith);
        assert(s.first() == cycle_number(x0 + cw * (off - start) + cw / 2, y, font_size, off));
    }
}


/// A cycle enumeration with step `every` numbers the cycles `start, start + every, ...` below
/// `start` plus the figure's cycle count, in order, each centered on its cycle.
pub proof fn lemma_cycle_enumeration<'a>(d: SvgDimensions<'a>, cm: CycleMarker, y: int, font_size: int)
    requires
        cm.spec_every() > 0,
        cycle_enumeration(d, Some(cm), y, font_size) is Some,
    ensures
        ({
            let start = cm.spec_start() as int;
            let every = cm.spec_every() as int;
            let cw = d.spec_cycle_width();
            cycle_enumeration(d, Some(cm), y, font_size)->Some_0 == Seq::new(
                numbers_below(start, start + d.spec_figure().spec_num_cycles(), every),
                |k: int|
                    cycle_number(
                        d.spec_schema_x() + cw * (k * every) + cw / 2,
                        y,
                        font_size,
                        start + k * every,
                    ),
            ).flatten()
        }),
{
    let start = cm.spec_start() as int;
    let every = cm.spec_every() as int;
    let cw = d.spec_cycle_width();
    let end = start + d.spec_figure().spec_num_cycles();
    lemma_cycle_numbers_from(d.spec_schema_x(), cw, start, end, every, start, y, font_size);
    assert(Seq::new(
        numbers_below(start, end, every),
        |k: int|
            cycle_number(
                d.spec_schema_x() + cw * (start + k * every - start) + cw / 2,
                y,
                font_size,
                start + k * every,
            ),
    ) =~= Seq::new(
        numbers_below(start, end, every),
        |k: int| cycle_number(d.spec_schema_x() + cw * (k * every) + cw / 2, y, font_size, start + k * every),
    ));
}


/// Every clock edge arrow refers to the arrow defined for its own edge: the name it uses is the
/// name under which the definitions hold the arrow of that edge, pointing up for a positive
/// edge and down for a negative one.
pub proof fn lemma_clock_arrow_refers_to_its_edge(m: ClockEdgeMarker, y: int, wh: int)
    ensures
        exists|id: Seq<char>|
            #![trigger "<g id=\""@ + id]
            {
                &&& clock_arrow(m, y) == "<use transform=\"translate("@ + decimal(m.x as int)
                    + ","@ + decimal(y) + ")\" xlink:href=\"#"@ + id + "\"/>"@
                &&& edge_def(true, wh, m.edge == ClockEdge::Positive) == "<g id=\""@ + id
                    + "\">"@ + arrow(wh, m.edge == ClockEdge::Positive) + "</g>"@
            },
{
    reveal(clock_arrow);
    reveal(edge_def);
    reveal_strlit("pei");
    reveal_strlit("nei");
    reveal_strlit("<g id=\"pei\">");
    reveal_strlit("<g id=\"nei\">");
    reveal_strlit("<g id=\"");
    reveal_strlit("\">");
    let id = match m.edge {
        ClockEdge::Positive => "pei"@,
        ClockEdge::Negative => "nei"@,
    };
    let positive = m.edge == ClockEdge::Positive;
    if positive {
        assert("<g id=\"pei\">"@ =~= "<g id=\""@ + "pei"@ + "\">"@);
    } else {
        assert("<g id=\"nei\">"@ =~= "<g id=\""@ + "nei"@ + "\">"@);
    }
    assert(edge_def(true, wh, positive) =~= "<g id=\""@ + id + "\">"@ + arrow(wh, positive) + "</g>"@);
    assert(clock_arrow(m, y) == "<use transform=\"translate("@ + decimal(m.x as int) + ","@
        + decimal(y) + ")\" xlink:href=\"#"@ + id + "\"/>"@);
}


/// A document starts with its head: the opening tag and the definitions.
proof fn lemma_document_head<'a>(d: SvgDimensions<'a>, gap: Seq<char>, edges: Seq<char>) -> (tail:
    Seq<char>)
    requires
        svg_document(d, gap, edges) is Some,
    ensures
        svg_document(d, gap, edges)->Some_0 == svg_head(d, gap) + tail,
{
    let f = d.spec_figure();
    let o = d.spec_options();
    let top = cycle_enumeration(
        d,
        f.spec_top_cycle_marker(),
        d.spec_header_height(),
        o.header.cycle_marker_fontsize as int,
    )->Some_0;
    let hints = hint_lines(d)->Some_0;
    let groups = group_indicators_from(d, 0)->Some_0;
    let lines = lines_from(d, 0)->Some_0;
    let footer = footer_svg(d)->Some_0;
    let bottom = cycle_enumeration(
        d,
        f.spec_bottom_cycle_marker(),
        d.spec_schema_y() + d.spec_schema_height(),
        o.footer.cycle_marker_fontsize as int,
    )->Some_0;
    let tail = svg_title(d) + top + hints + groups + lines + footer + bottom + "</g>"@ + edges
        + "</svg>"@;
    assert(svg_document(d, gap, edges)->Some_0 =~= svg_head(d, gap) + tail);
    tail
}

/// The definitions of a figure that shows marked clock edges of one kind hold the arrow of that
/// kind.
proof fn lemma_head_defines_edge_arrow<'a>(d: SvgDimensions<'a>, gap: Seq<char>, positive: bool) -> (w:
    (Seq<char>, Seq<char>))
    requires
        if positive {
            d.spec_figure().spec_has_posedge_marker()
        } else {
            d.spec_figure().spec_has_negedge_marker()
        },
    ensures
        svg_head(d, gap) == w.0 + edge_def(
            true,
            d.spec_options().wave_dimensions.wave_height as int,
            positive,
        ) + w.1,
{
    let f = d.spec_figure();
    let wh = d.spec_options().wave_dimensions.wave_height as int;
    reveal(svg_defs);
    let open = svg_open(d.spec_figure_width(), d.spec_figure_height());
    let x = undefined_def(f.spec_has_undefined());
    let ep = edge_def(f.spec_has_posedge_marker(), wh, true);
    let en = edge_def(f.spec_has_negedge_marker(), wh, false);
    let rest = gap_def(f.spec_has_gaps(), gap) + hint_def(d.spec_schema_height());
    if positive {
        let pre = open + "<defs>"@ + x;
        let post = en + rest;
        assert(svg_head(d, gap) =~= pre + edge_def(true, wh, positive) + post);
        (pre, post)
    } else {
        let pre = open + "<defs>"@ + x + ep;
        assert(svg_head(d, gap) =~= pre + edge_def(true, wh, positive) + rest);
        (pre, rest)
    }
}

/// A document defines the arrow of each kind of marked clock edge that its figure shows, under
/// the very name that a clock arrow of that edge refers to: the arrow a marker points at is in
/// the document, pointing up for a positive edge and down for a negative one.
#[verifier::spinoff_prover]
pub proof fn lemma_document_defines_clock_arrows<'a>(
    d: SvgDimensions<'a>,
    gap: Seq<char>,
    edges: Seq<char>,
    m: ClockEdgeMarker,
    y: int,
) -> (w: (Seq<char>, Seq<char>, Seq<char>))
    requires
        svg_document(d, gap, edges) is Some,
        if m.edge == ClockEdge::Positive {
            d.spec_figure().spec_has_posedge_marker()
        } else {
            d.spec_figure().spec_has_negedge_marker()
        },
    ensures
        clock_arrow(m, y) == "<use transform=\"translate("@ + decimal(m.x as int) + ","@ + decimal(y)
            + ")\" xlink:href=\"#"@ + w.0 + "\"/>"@,
        svg_document(d, gap, edges)->Some_0 == w.1 + "<g id=\""@ + w.0 + "\">"@ + arrow(
            d.spec_options().wave_dimensions.wave_height as int,
            m.edge == ClockEdge::Positive,
        ) + "</g>"@ + w.2,
{
    let f = d.spec_figure();
    let o = d.spec_options();
    let wh = o.wave_dimensions.wave_height as int;
    let positive = m.edge == ClockEdge::Positive;
    lemma_clock_arrow_refers_to_its_edge(m, y, wh);
    let id = choose|id: Seq<char>|
        #![trigger "<g id=\""@ + id]
        {
            &&& clock_arrow(m, y) == "<use transform=\"translate("@ + decimal(m.x as int) + ","@
                + decimal(y) + ")\" xlink:href=\"#"@ + id + "\"/>"@
            &&& edge_def(true, wh, positive) == "<g id=\""@ + id + "\">"@ + arrow(wh, positive)
                + "</g>"@
        };
    let tail = lemma_document_head(d, gap, edges);
    let (pre, post) = lemma_head_defines_edge_arrow(d, gap, positive);
    let e = "<g id=\""@ + id + "\">"@ + arrow(wh, positive) + "</g>"@;
    let head = svg_head(d, gap);
    assert(edge_def(true, wh, positive) == e);
    assert(head + tail =~= pre + e + (post + tail));
    (id, pre, post + tail)
}

/// The arrows of `ms` from `j` on hold the arrow of the marker `k`, followed by those after it.
proof fn lemma_clock_arrows_split(ms: Seq<ClockEdgeMarker>, j: int, k: int, y: int) -> (pre: Seq<
    char,
>)
    requires
        0 <= j <= k < ms.len(),
    ensures
        clock_arrows_from(ms, j, y) == pre + clock_arrow(ms[k], y) + clock_arrows_from(ms, k + 1, y),
    decreases k - j,
{
    if j == k {
        assert(clock_arrows_from(ms, j, y) =~= Seq::<char>::empty() + clock_arrow(ms[k], y)
            + clock_arrows_from(ms, k + 1, y));
        Seq::empty()
    } else {
        let p = lemma_clock_arrows_split(ms, j + 1, k, y);
        let pre = clock_arrow(ms[j], y) + p;
        assert(clock_arrows_from(ms, j, y) =~= pre + clock_arrow(ms[k], y) + clock_arrows_from(
            ms,
            k + 1,
            y,
        ));
        pre
    }
}

/// The drawing of a segment marks each of its marked clock edges with an arrow at the edge's
/// x and half the signal height, which refers to the arrow defined for that edge: pointing up
/// for a positive edge and down for a negative one.
#[verifier::spinoff_prover]
pub proof fn lemma_segment_clock_arrows(s: WavePathSegment, w: WaveOptions, hscale: int, k: int) -> (r:
    (Seq<char>, Seq<char>, Seq<char>))
    requires
        segment_svg(s, w, hscale) is Some,
        0 <= k < s.spec_clock_edge_markers().len(),
    ensures
        ({
            let m = s.spec_clock_edge_markers()[k];
            let wh = w.wave_height as int;
            &&& segment_svg(s, w, hscale)->Some_0 == r.0 + "<use transform=\"translate("@
                + decimal(m.x as int) + ","@ + decimal(wh / 2) + ")\" xlink:href=\"#"@ + r.1
                + "\"/>"@ + r.2
            &&& edge_def(true, wh, m.edge == ClockEdge::Positive) == "<g id=\""@ + r.1 + "\">"@
                + arrow(wh, m.edge == ClockEdge::Positive) + "</g>"@
        }),
{
    let ms = s.spec_clock_edge_markers();
    let m = ms[k];
    let wh = w.wave_height as int;
    let y = wh / 2;
    let positive = m.edge == ClockEdge::Positive;
    lemma_clock_arrow_refers_to_its_edge(m, y, wh);
    let id = choose|id: Seq<char>|
        #![trigger "<g id=\""@ + id]
        {
            &&& clock_arrow(m, y) == "<use transform=\"translate("@ + decimal(m.x as int) + ","@
                + decimal(y) + ")\" xlink:href=\"#"@ + id + "\"/>"@
            &&& edge_def(true, wh, positive) == "<g id=\""@ + id + "\">"@ + arrow(wh, positive)
                + "</g>"@
        };
    let pre = lemma_clock_arrows_split(ms, 0, k, y);
    let cw = w.cycle_width * hscale;
    let path = segment_path(s, w);
    let text = segment_text(s, w)->Some_0;
    let gaps = (if s.spec_gaps().len() > 0 && cw > u16::MAX {
        None
    } else {
        gaps_from(s.spec_gaps(), 0, cw, y)
    })->Some_0;
    let arrows = clock_arrows_from(ms, 0, y);
    let svg = segment_svg(s, w, hscale)->Some_0;
    assert(svg == path + (text + (arrows + gaps)));
    let a = clock_arrow(m, y);
    let before = path + text + pre;
    let after = clock_arrows_from(ms, k + 1, y) + gaps;
    let u = "<use transform=\"translate("@ + decimal(m.x as int) + ","@ + decimal(y)
        + ")\" xlink:href=\"#"@ + id + "\"/>"@;
    assert(a == u);
    assert(path + (text + ((pre + a + clock_arrows_from(ms, k + 1, y)) + gaps)) =~= before + u
        + after);
    (before, id, after)
}

} // verus!

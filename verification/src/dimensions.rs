//! The layout of a drawn figure: where the header, the group indicators, the signal names, the
//! signals themselves and the footer go.
use vstd::prelude::*;

use crate::cycle_offset::{rounded_quarter_width, CycleOffset};
use crate::figure::{count_true, AssembledFigure};
use crate::font::{text_width, Font};
use crate::options::RenderOptions;

verus! {

/// The layout of an assembled figure drawn with a set of render options.
pub struct SvgDimensions<'a> {
    figure: &'a AssembledFigure<'a>,
    options: &'a RenderOptions,
    textbox_width: Option<u32>,
}

/// The largest width of the names of the first `n` lines at `font_size`, or zero.
pub open spec fn max_text_width(figure: AssembledFigure, n: int, font_size: u32) -> nat
    decreases n,
{
    if n <= 0 {
        0
    } else {
        let a = max_text_width(figure, n - 1, font_size);
        let b = text_width(figure.spec_lines()[n - 1].spec_text(), font_size);
        if a >= b {
            a
        } else {
            b
        }
    }
}

impl<'a> SvgDimensions<'a> {
    /// The figure laid out.
    pub closed spec fn spec_figure(&self) -> AssembledFigure<'a> {
        *self.figure
    }

    /// The options it is laid out with.
    pub closed spec fn spec_options(&self) -> RenderOptions {
        *self.options
    }

    /// The width of the box of signal names, when there is one.
    pub closed spec fn spec_textbox(&self) -> Option<u32> {
        self.textbox_width
    }

    /// The number of lines.
    pub open spec fn spec_num_lines(&self) -> int {
        self.spec_figure().spec_lines().len() as int
    }

    /// Does a line have a name?
    pub open spec fn spec_has_textbox(&self) -> bool {
        exists|k: int|
            0 <= k < self.spec_num_lines() && #[trigger] self.spec_figure().spec_lines()[k].spec_text().len()
                > 0
    }

    /// The width of the box of signal names, or zero.
    pub open spec fn spec_textbox_width(&self) -> int {
        match self.spec_textbox() {
            Some(w) => w as int,
            None => 0,
        }
    }

    /// The width of a cycle: the cycle width of the options times the horizontal scale.
    pub open spec fn spec_cycle_width(&self) -> int {
        self.spec_figure().spec_hscale() * self.spec_options().wave_dimensions.cycle_width
    }

    /// The height of a signal.
    pub open spec fn spec_wave_height(&self) -> int {
        self.spec_options().wave_dimensions.wave_height as int
    }

    /// Are there group indicators?
    pub open spec fn spec_has_grouping(&self) -> bool {
        self.spec_figure().spec_max_depth() != 0
    }

    /// The height of a group label: its spacing and its font size.
    pub open spec fn spec_label_height(&self) -> int {
        self.spec_options().group_indicator_dimensions.label_spacing
            + self.spec_options().group_indicator_dimensions.label_fontsize
    }

    /// The number of depths that have a labelled group.
    pub open spec fn spec_label_count(&self) -> int {
        let labels = self.spec_figure().spec_labels();
        count_true(labels, labels.len() as int) as int
    }

    /// The width of the group indicators: one indicator with its spacing for each depth and the
    /// height of a label for each depth with a labelled group.
    pub open spec fn spec_grouping_width(&self) -> int {
        let depth = self.spec_figure().spec_max_depth() as int;
        let g = self.spec_options().group_indicator_dimensions;
        if depth == 0 {
            0
        } else {
            depth * g.width + (depth - 1) * g.spacing + self.spec_label_count()
                * self.spec_label_height()
        }
    }

    /// The width of the signals.
    pub open spec fn spec_schema_width(&self) -> int {
        self.spec_figure().spec_num_cycles() * self.spec_cycle_width()
    }

    /// The x position of the box of signal names.
    pub open spec fn spec_textbox_x(&self) -> int {
        self.spec_options().paddings.figure_left + if self.spec_has_grouping() {
            self.spec_grouping_width() + self.spec_options().spacings.groupbox_to_textbox
        } else {
            0
        }
    }

    /// The x position of the signals.
    pub open spec fn spec_schema_x(&self) -> int {
        self.spec_textbox_x() + if self.spec_has_textbox() {
            self.spec_textbox_width() + self.spec_options().spacings.textbox_to_schema
        } else {
            0
        }
    }

    /// The width within the paddings.
    pub open spec fn spec_inner_width(&self) -> int {
        self.spec_schema_x() - self.spec_options().paddings.figure_left + self.spec_schema_width()
    }

    /// The width of the figure.
    pub open spec fn spec_figure_width(&self) -> int {
        self.spec_options().paddings.figure_left + self.spec_options().paddings.figure_right
            + self.spec_inner_width()
    }

    /// The height of the header: the title and the top cycle marker, where there are.
    pub open spec fn spec_header_height(&self) -> int {
        let h = self.spec_options().header;
        (if self.spec_figure().spec_title().is_some() {
            h.height as int
        } else {
            0
        }) + (if self.spec_figure().spec_top_cycle_marker().is_some() {
            h.cycle_marker_height as int
        } else {
            0
        })
    }

    /// The height of the footer: the footer text and the bottom cycle marker, where there are.
    pub open spec fn spec_footer_height(&self) -> int {
        let f = self.spec_options().footer;
        (if self.spec_figure().spec_footer().is_some() {
            f.height as int
        } else {
            0
        }) + (if self.spec_figure().spec_bottom_cycle_marker().is_some() {
            f.cycle_marker_height as int
        } else {
            0
        })
    }

    /// The y position of the signals.
    pub open spec fn spec_schema_y(&self) -> int {
        self.spec_options().paddings.figure_top + self.spec_header_height()
    }

    /// The height of the signals: the paddings, the signals and the space between them, or
    /// nothing without lines.
    pub open spec fn spec_schema_height(&self) -> int {
        let n = self.spec_num_lines();
        let o = self.spec_options();
        if n == 0 {
            0
        } else {
            o.paddings.schema_top + o.paddings.schema_bottom + (n - 1) * o.spacings.line_to_line
                + self.spec_wave_height() * n
        }
    }

    /// The height of the figure.
    pub open spec fn spec_figure_height(&self) -> int {
        self.spec_schema_y() + self.spec_schema_height() + self.spec_footer_height()
            + self.spec_options().paddings.figure_bottom
    }

    /// Does any of the first `n` lines of `figure` have a name?
    pub open spec fn has_names(figure: AssembledFigure, n: int) -> bool {
        exists|k: int| 0 <= k < n && #[trigger] figure.spec_lines()[k].spec_text().len() > 0
    }

    /// The layout of `figure` with `options`: the box of signal names is as wide as the widest
    /// name at the font size of the options, and there is none when no line has a name.
    pub closed spec fn layout(figure: &'a AssembledFigure<'a>, options: &'a RenderOptions) -> SvgDimensions<'a> {
        let n = figure.spec_lines().len() as int;
        SvgDimensions {
            figure,
            options,
            textbox_width: if Self::has_names(*figure, n) {
                Some(max_text_width(*figure, n, options.wave_dimensions.font_size) as u32)
            } else {
                None
            },
        }
    }

    /// The layout of `figure` with `options` is laid out for that figure with those options, its
    /// box of signal names as wide as the widest name, or absent when no line has a name.
    pub proof fn lemma_layout_of(figure: &'a AssembledFigure<'a>, options: &'a RenderOptions)
        ensures
            SvgDimensions::layout(figure, options).spec_figure() == *figure,
            SvgDimensions::layout(figure, options).spec_options() == *options,
            SvgDimensions::layout(figure, options).spec_textbox() == if SvgDimensions::has_names(
                *figure,
                figure.spec_lines().len() as int,
            ) {
                Some(
                    max_text_width(
                        *figure,
                        figure.spec_lines().len() as int,
                        options.wave_dimensions.font_size,
                    ) as u32,
                )
            } else {
                None
            },
    {
    }

    /// Do the sizes of the layout fit: the scaled cycle width a `u16`, the group label height,
    /// the width and the height of the figure a `u32`?
    pub open spec fn fits(&self) -> bool {
        &&& self.spec_cycle_width() <= u16::MAX
        &&& self.spec_label_height() <= u32::MAX
        &&& self.spec_figure_width() <= u32::MAX
        &&& self.spec_figure_height() <= u32::MAX
    }

    /// The layout fits: its sizes fit a `u32` and its products are the products of non-negative
    /// numbers.
    #[verifier::type_invariant]
    closed spec fn wf(&self) -> bool {
        let o = self.spec_options();
        let n = self.spec_num_lines();
        let depth = self.spec_figure().spec_max_depth() as int;
        &&& n <= u32::MAX
        &&& self.spec_cycle_width() <= u16::MAX
        &&& self.spec_label_height() <= u32::MAX
        &&& self.spec_figure_width() <= u32::MAX
        &&& self.spec_figure_height() <= u32::MAX
        &&& self.spec_schema_width() >= 0
        &&& depth * o.group_indicator_dimensions.width >= 0
        &&& (depth - 1) * o.group_indicator_dimensions.spacing >= 0 || depth == 0
        &&& self.spec_label_count() * self.spec_label_height() >= 0
        &&& self.spec_label_count() <= u32::MAX
        &&& (n - 1) * o.spacings.line_to_line >= 0 || n == 0
        &&& self.spec_wave_height() * n >= 0
        &&& self.spec_has_textbox() == self.spec_textbox().is_some()
    }
}

impl<'a> SvgDimensions<'a> {
    /// Lay out `figure` with `options`, measuring the signal names with `font`. Returns `None`
    /// when the figure would not fit: when its width or height, the scaled cycle width (a `u16`)
    /// or the group label height do not fit.
    pub fn new(figure: &'a AssembledFigure<'a>, font: Font, options: &'a RenderOptions) -> (r:
        Option<SvgDimensions<'a>>)
        ensures
            match r {
                Some(d) => {
                    &&& d == SvgDimensions::layout(figure, options)
                    &&& d.fits()
                    &&& d.spec_figure() == *figure
                    &&& d.spec_options() == *options
                },
                None => !SvgDimensions::layout(figure, options).fits(),
            },
    {
        let lines = figure.lines();
        let n = figure.num_lines();
        let fs = options.wave_dimensions.font_size;
        let mut has_textbox = false;
        let mut widest: u32 = 0;
        let mut i: usize = 0;
        while i < lines.len()
            invariant
                lines@ == figure.spec_lines(),
                i <= lines@.len(),
                fs == options.wave_dimensions.font_size,
                has_textbox == SvgDimensions::has_names(*figure, i as int),
                widest == max_text_width(*figure, i as int, fs),
            decreases lines@.len() - i,
        {
            let text = lines[i].text();
            if !text.is_empty() {
                has_textbox = true;
            }
            let w = font.get_text_width(text, fs);
            if w > widest {
                widest = w;
            }
            i = i + 1;
        }
        let textbox_width = if has_textbox {
            Some(widest)
        } else {
            None
        };
        let ghost d = SvgDimensions::layout(figure, options);
        assert(lines@.subrange(0, lines@.len() as int) =~= lines@);
        assert(d.spec_textbox() == textbox_width);
        let g = &options.group_indicator_dimensions;
        let label_count = figure.label_count() as u128;
        proof {
            lemma_mul_le(figure.spec_hscale() as int, options.wave_dimensions.cycle_width as int, 0xffff, 0xffff);
            lemma_mul_le(figure.spec_max_depth() as int, options.group_indicator_dimensions.width as int, 0xffff_ffff, 0xffff_ffff);
            lemma_mul_le(figure.spec_max_depth() - 1, options.group_indicator_dimensions.spacing as int, 0xffff_ffff, 0xffff_ffff);
            lemma_mul_le(count_true(figure.spec_labels(), figure.spec_labels().len() as int) as int, options.group_indicator_dimensions.label_spacing + options.group_indicator_dimensions.label_fontsize, 0xffff_ffff, 0x1_ffff_fffe);
            lemma_mul_le(figure.spec_num_cycles() as int, figure.spec_hscale() * options.wave_dimensions.cycle_width, 0xffff_ffff, 0xfffe_0001int);
            lemma_mul_le(figure.spec_lines().len() - 1, options.spacings.line_to_line as int, 0xffff_ffff, 0xffff_ffff);
            lemma_mul_le(options.wave_dimensions.wave_height as int, figure.spec_lines().len() as int, 0xffff, 0xffff_ffff);
        }
        let cw = (figure.horizontal_scale() as u128) * (options.wave_dimensions.cycle_width as u128);
        let label_height = (g.label_spacing as u128) + (g.label_fontsize as u128);
        let depth = figure.group_nesting() as u128;
        let grouping = if depth == 0 {
            0
        } else {
            depth * (g.width as u128) + (depth - 1) * (g.spacing as u128) + label_count
                * label_height
        };
        let p = &options.paddings;
        let sp = &options.spacings;
        let schema_width = (figure.num_cycles() as u128) * cw;
        let textbox_x = (p.figure_left as u128) + if depth != 0 {
            grouping + (sp.groupbox_to_textbox as u128)
        } else {
            0
        };
        let schema_x = textbox_x + if has_textbox {
            (widest as u128) + (sp.textbox_to_schema as u128)
        } else {
            0
        };
        let figure_width = (p.figure_right as u128) + schema_x + schema_width;
        let header_height = (if figure.header_text().is_some() {
            options.header.height as u128
        } else {
            0
        }) + (if figure.top_cycle_marker().is_some() {
            options.header.cycle_marker_height as u128
        } else {
            0
        });
        let footer_height = (if figure.footer_text().is_some() {
            options.footer.height as u128
        } else {
            0
        }) + (if figure.bottom_cycle_marker().is_some() {
            options.footer.cycle_marker_height as u128
        } else {
            0
        });
        let wh = options.wave_dimensions.wave_height as u128;
        let nl = n as u128;
        let schema_height = if n == 0 {
            0
        } else {
            (p.schema_top as u128) + (p.schema_bottom as u128) + (nl - 1) * (sp.line_to_line as u128) + wh * nl
        };
        let figure_height = (p.figure_top as u128) + header_height + schema_height + footer_height
            + (p.figure_bottom as u128);
        assert(d.spec_cycle_width() == cw);
        assert(d.spec_label_height() == label_height);
        assert(d.spec_grouping_width() == grouping);
        assert(d.spec_schema_width() == schema_width);
        assert(d.spec_figure_width() == figure_width);
        assert(d.spec_figure_height() == figure_height);
        if cw > 0xffff || label_height > 0xffff_ffff || figure_width > 0xffff_ffff || figure_height
            > 0xffff_ffff {
            return None;
        }
        Some(SvgDimensions { figure, options, textbox_width })
    }
}

impl<'a> SvgDimensions<'a> {
    /// The figure laid out.
    pub fn figure(&self) -> (r: &'a AssembledFigure<'a>)
        ensures
            *r == self.spec_figure(),
    {
        self.figure
    }

    /// The options it is laid out with.
    pub fn options(&self) -> (r: &'a RenderOptions)
        ensures
            *r == self.spec_options(),
    {
        self.options
    }

    /// The width within the paddings.
    pub fn inner_width(&self) -> (r: u32)
        ensures
            r == self.spec_inner_width(),
    {
        proof {
            use_type_invariant(self);
        }
        let spacings = &self.options.spacings;
        let mut width = self.schema_width();
        if self.has_grouping() {
            width = width + self.grouping_width() + spacings.groupbox_to_textbox;
        }
        if self.has_textbox() {
            width = width + self.textbox_width() + spacings.textbox_to_schema;
        }
        width
    }

    /// The x position within the paddings.
    pub fn inner_x(&self) -> (r: u32)
        ensures
            r == self.spec_options().paddings.figure_left,
    {
        self.options.paddings.figure_left
    }

    /// The width of the figure.
    pub fn figure_width(&self) -> (r: u32)
        ensures
            r == self.spec_figure_width(),
    {
        proof {
            use_type_invariant(self);
        }
        let paddings = &self.options.paddings;
        paddings.figure_left + paddings.figure_right + self.inner_width()
    }

    /// The height of the figure.
    pub fn figure_height(&self) -> (r: u32)
        ensures
            r == self.spec_figure_height(),
    {
        proof {
            use_type_invariant(self);
        }
        let paddings = &self.options.paddings;
        paddings.figure_top + self.header_height() + self.schema_height() + self.footer_height()
            + paddings.figure_bottom
    }

    /// The width of the header.
    pub fn header_width(&self) -> (r: u32)
        ensures
            r == self.spec_inner_width(),
    {
        self.inner_width()
    }

    /// The height of the header.
    pub fn header_height(&self) -> (r: u32)
        ensures
            r == self.spec_header_height(),
    {
        proof {
            use_type_invariant(self);
        }
        let header = &self.options.header;
        let mut height: u32 = 0;
        if self.figure.header_text().is_some() {
            height = height + header.height;
        }
        if self.figure.top_cycle_marker().is_some() {
            height = height + header.cycle_marker_height;
        }
        height
    }

    /// The x position of the header.
    pub fn header_x(&self) -> (r: u32)
        ensures
            r == self.spec_options().paddings.figure_left,
    {
        self.options.paddings.figure_left
    }

    /// The y position of the header.
    pub fn header_y(&self) -> (r: u32)
        ensures
            r == self.spec_options().paddings.figure_top,
    {
        self.options.paddings.figure_top
    }

    /// The width of the footer.
    pub fn footer_width(&self) -> (r: u32)
        ensures
            r == self.spec_inner_width(),
    {
        self.inner_width()
    }

    /// The height of the footer.
    pub fn footer_height(&self) -> (r: u32)
        ensures
            r == self.spec_footer_height(),
    {
        proof {
            use_type_invariant(self);
        }
        let footer = &self.options.footer;
        let mut height: u32 = 0;
        if self.figure.footer_text().is_some() {
            height = height + footer.height;
        }
        if self.figure.bottom_cycle_marker().is_some() {
            height = height + footer.cycle_marker_height;
        }
        height
    }

    /// The y position of the footer: below the signals.
    pub fn footer_y(&self) -> (r: u32)
        ensures
            r == self.spec_schema_y() + self.spec_schema_height(),
    {
        proof {
            use_type_invariant(self);
        }
        self.schema_y() + self.schema_height()
    }

    /// Does a line have a name?
    pub fn has_textbox(&self) -> (r: bool)
        ensures
            r == self.spec_has_textbox(),
    {
        proof {
            use_type_invariant(self);
        }
        self.textbox_width.is_some()
    }

    /// The width of the box of signal names, or zero.
    pub fn textbox_width(&self) -> (r: u32)
        ensures
            r == self.spec_textbox_width(),
    {
        match self.textbox_width {
            Some(w) => w,
            None => 0,
        }
    }

    /// The point of the node at cycle offset `x` of line `y`: the offset's position in the
    /// schema and the middle of the line, or `None` where a coordinate would not fit a `u32`.
    pub open spec fn spec_node_position(&self, x: CycleOffset, y: u32) -> Option<(int, int)> {
        let cw = self.spec_options().wave_dimensions.cycle_width as nat;
        let px = self.spec_schema_x() + x.index_of() * cw + rounded_quarter_width(
            x.quarters() % 4,
            cw,
        );
        let py = self.spec_schema_y() + self.spec_options().paddings.schema_top + (if y == 0 {
            0
        } else {
            (self.spec_wave_height() + self.spec_options().spacings.line_to_line) * y
        }) + self.spec_wave_height() / 2;
        if px <= u32::MAX && py <= u32::MAX {
            Some((px, py))
        } else {
            None
        }
    }

    /// The point of the node at cycle offset `x` of line `y` (see [`Self::spec_node_position`]).
    pub fn node_position(&self, x: CycleOffset, y: u32) -> (r: Option<(u32, u32)>)
        ensures
            match self.spec_node_position(x, y) {
                Some(p) => r matches Some(q) && q.0 == p.0 && q.1 == p.1,
                None => r is None,
            },
    {
        let cw = self.options.wave_dimensions.cycle_width as u32;
        let idx = x.cycle_index() as u128;
        let part = x.in_cycle_offset().width_offset(cw) as u128;
        proof {
            x.lemma_fits();
        }
        assert(idx * (cw as u128) <= 0xffff_ffff * 0xffff) by (nonlinear_arith)
            requires
                idx <= 0xffff_ffff,
                cw <= 0xffff,
        ;
        let px = self.schema_x() as u128 + idx * (cw as u128) + part;
        let step = self.wave_height() as u128 + self.options.spacings.line_to_line as u128;
        assert(step * (y as u128) <= 0x1_0000_ffff * 0xffff_ffff) by (nonlinear_arith)
            requires
                step <= 0x1_0000_ffff,
                y <= 0xffff_ffff,
        ;
        let rows = if y == 0 {
            0
        } else {
            step * (y as u128)
        };
        let py = self.schema_y() as u128 + self.options.paddings.schema_top as u128 + rows
            + (self.wave_height() / 2) as u128;
        if px > 0xffff_ffff || py > 0xffff_ffff {
            return None;
        }
        Some((px as u32, py as u32))
    }

    /// The y position of the top of line `idx`.
    pub fn signal_top(&self, idx: u32) -> (r: u32)
        requires
            self.spec_schema_y() + self.spec_options().paddings.schema_top + (if idx == 0 {
                0
            } else {
                (self.spec_wave_height() + self.spec_options().spacings.line_to_line) * idx
            }) <= u32::MAX,
        ensures
            r == self.spec_schema_y() + self.spec_options().paddings.schema_top + (if idx == 0 {
                0
            } else {
                (self.spec_wave_height() + self.spec_options().spacings.line_to_line) * idx
            }),
    {
        proof {
            use_type_invariant(self);
        }
        let top = self.schema_y() + self.options.paddings.schema_top;
        if idx == 0 {
            return top;
        }
        let step = (self.options.wave_dimensions.wave_height as u64)
            + (self.options.spacings.line_to_line as u64);
        assert(step * (idx as u64) >= step) by (nonlinear_arith)
            requires
                idx >= 1,
                step >= 0,
        ;
        let offset = step * (idx as u64);
        assert(offset <= u32::MAX);
        top + offset as u32
    }

    /// The x position of the box of signal names.
    pub fn textbox_x(&self) -> (r: u32)
        ensures
            r == self.spec_textbox_x(),
    {
        proof {
            use_type_invariant(self);
        }
        let mut x = self.grouping_x();
        if self.has_grouping() {
            x = x + self.grouping_width() + self.options.spacings.groupbox_to_textbox;
        }
        x
    }

    /// Are there group indicators?
    pub fn has_grouping(&self) -> (r: bool)
        ensures
            r == self.spec_has_grouping(),
    {
        self.figure.group_nesting() != 0
    }

    /// The x position of the group indicators.
    pub fn grouping_x(&self) -> (r: u32)
        ensures
            r == self.spec_options().paddings.figure_left,
    {
        self.inner_x()
    }

    /// The width of the group indicators.
    pub fn grouping_width(&self) -> (r: u32)
        ensures
            r == self.spec_grouping_width(),
    {
        proof {
            use_type_invariant(self);
        }
        let depth = self.figure.group_nesting();
        if depth == 0 {
            return 0;
        }
        let g = &self.options.group_indicator_dimensions;
        let sum_indicator_widths = depth * g.width;
        let spacing = (depth - 1) * g.spacing;
        let label_widths = self.figure.label_count() * (g.label_spacing + g.label_fontsize);
        sum_indicator_widths + spacing + label_widths
    }

    /// The x position of the signals.
    pub fn schema_x(&self) -> (r: u32)
        ensures
            r == self.spec_schema_x(),
    {
        proof {
            use_type_invariant(self);
        }
        let mut x = self.textbox_x();
        if self.has_textbox() {
            x = x + self.textbox_width() + self.options.spacings.textbox_to_schema;
        }
        x
    }

    /// The y position of the signals: below the header.
    pub fn schema_y(&self) -> (r: u32)
        ensures
            r == self.spec_schema_y(),
    {
        proof {
            use_type_invariant(self);
        }
        self.header_y() + self.header_height()
    }

    /// The width of the signals.
    pub fn schema_width(&self) -> (r: u32)
        ensures
            r == self.spec_schema_width(),
    {
        proof {
            use_type_invariant(self);
        }
        self.figure.num_cycles() * self.cycle_width()
    }

    /// The height of the signals.
    pub fn schema_height(&self) -> (r: u32)
        ensures
            r == self.spec_schema_height(),
    {
        proof {
            use_type_invariant(self);
        }
        let n = self.num_lines();
        if n == 0 {
            return 0;
        }
        let paddings = &self.options.paddings;
        paddings.schema_top + paddings.schema_bottom + (n - 1) * self.options.spacings.line_to_line
            + self.wave_height() * n
    }

    /// The width of a cycle.
    pub fn cycle_width(&self) -> (r: u32)
        ensures
            r == self.spec_cycle_width(),
    {
        proof {
            use_type_invariant(self);
        }
        (self.figure.horizontal_scale() as u32) * (self.options.wave_dimensions.cycle_width as u32)
    }

    /// The height of a signal.
    pub fn wave_height(&self) -> (r: u32)
        ensures
            r == self.spec_wave_height(),
    {
        self.options.wave_dimensions.wave_height as u32
    }

    /// The number of lines.
    pub fn num_lines(&self) -> (r: u32)
        ensures
            r == self.spec_num_lines(),
    {
        self.figure.num_lines()
    }
}

/// A product of numbers within bounds is within the product of the bounds.
proof fn lemma_mul_le(a: int, b: int, x: int, y: int)
    by (nonlinear_arith)
    requires
        0 <= a <= x || a < 0,
        0 <= b <= y,
    ensures
        0 <= a ==> 0 <= a * b <= x * y,
{
}

/// The top of line `idx` of a layout `d`.
pub open spec fn spec_signal_top(d: SvgDimensions, idx: int) -> int {
    d.spec_schema_y() + d.spec_options().paddings.schema_top + if idx == 0 {
        0
    } else {
        (d.spec_wave_height() + d.spec_options().spacings.line_to_line) * idx
    }
}

/// The parts of a layout follow each other: from left to right the group indicators, the box of
/// signal names and the signals, then the right padding, span the figure's width; from top to
/// bottom the header, the signals and the footer, then the bottom padding, span its height; and
/// each line starts a signal height and a line spacing below the one before it.
pub proof fn lemma_layout(d: SvgDimensions, idx: int)
    requires
        idx >= 0,
    ensures
        d.spec_options().paddings.figure_left <= d.spec_textbox_x() <= d.spec_schema_x(),
        d.spec_schema_y() == d.spec_options().paddings.figure_top + d.spec_header_height(),
        d.spec_figure_width() == d.spec_schema_x() + d.spec_schema_width()
            + d.spec_options().paddings.figure_right,
        d.spec_figure_height() == d.spec_schema_y() + d.spec_schema_height()
            + d.spec_footer_height() + d.spec_options().paddings.figure_bottom,
        spec_signal_top(d, idx + 1) == spec_signal_top(d, idx) + d.spec_wave_height()
            + d.spec_options().spacings.line_to_line,
{
    let o = d.spec_options();
    let depth = d.spec_figure().spec_max_depth() as int;
    assert(d.spec_grouping_width() >= 0) by (nonlinear_arith)
        requires
            d.spec_grouping_width() == if depth == 0 {
                0
            } else {
                depth * o.group_indicator_dimensions.width + (depth - 1)
                    * o.group_indicator_dimensions.spacing + d.spec_label_count()
                    * d.spec_label_height()
            },
            depth >= 0,
            d.spec_label_count() >= 0,
            d.spec_label_height() >= 0,
    ;
    assert((d.spec_wave_height() + o.spacings.line_to_line) * (idx + 1) == (d.spec_wave_height()
        + o.spacings.line_to_line) * idx + d.spec_wave_height() + o.spacings.line_to_line)
        by (nonlinear_arith);
}


/// From top to bottom a figure is its top padding, a row for its title and one for its top cycle
/// enumeration where it has them, its signals, a row for its footer text and one for its bottom
/// cycle enumeration where it has them, and its bottom padding: every row drawn has its room.
pub proof fn lemma_figure_height(d: SvgDimensions)
    ensures
        ({
            let o = d.spec_options();
            let f = d.spec_figure();
            &&& d.spec_header_height() == (if f.spec_title() is Some {
                o.header.height as int
            } else {
                0
            }) + (if f.spec_top_cycle_marker() is Some {
                o.header.cycle_marker_height as int
            } else {
                0
            })
            &&& d.spec_footer_height() == (if f.spec_footer() is Some {
                o.footer.height as int
            } else {
                0
            }) + (if f.spec_bottom_cycle_marker() is Some {
                o.footer.cycle_marker_height as int
            } else {
                0
            })
            &&& d.spec_figure_height() == o.paddings.figure_top + d.spec_header_height()
                + d.spec_schema_height() + d.spec_footer_height() + o.paddings.figure_bottom
            &&& f.spec_bottom_cycle_marker() is Some ==> d.spec_schema_y() + d.spec_schema_height()
                + o.footer.cycle_marker_height <= d.spec_figure_height() - o.paddings.figure_bottom
            &&& f.spec_top_cycle_marker() is Some ==> o.paddings.figure_top
                + o.header.cycle_marker_height <= d.spec_schema_y()
        }),
{
}

/// A node sits on the middle of its line, at its cycle offset counted in quarter cycles from the
/// start of the signals, rounded to the nearest point (halves up).
pub proof fn lemma_node_position(d: SvgDimensions, x: CycleOffset, y: u32)
    requires
        d.spec_node_position(x, y) is Some,
    ensures
        ({
            let p = d.spec_node_position(x, y)->Some_0;
            let cw = d.spec_options().wave_dimensions.cycle_width as int;
            &&& p.0 == d.spec_schema_x() + (x.quarters() * cw + 2) / 4
            &&& p.1 == spec_signal_top(d, y as int) + d.spec_wave_height() / 2
        }),
{
    let cw = d.spec_options().wave_dimensions.cycle_width as int;
    let q = x.quarters() as int;
    let i = x.index_of() as int;
    let r = (q % 4) as int;
    assert(q == 4 * i + r);
    assert(i * cw + (r * cw + 2) / 4 == (q * cw + 2) / 4) by (nonlinear_arith)
        requires
            q == 4 * i + r,
            0 <= r < 4,
            cw >= 0,
    ;
}

} // verus!

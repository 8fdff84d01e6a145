//! The options that decide how a figure is laid out and drawn.
use vstd::prelude::*;

use crate::color::Color;
use crate::path::{is_default_wave_options, WaveOptions};

verus! {

/// The options used while rendering a figure.
#[derive(Debug, Clone)]
pub struct RenderOptions {
    pub background: Option<Color>,
    pub paddings: FigurePadding,
    pub spacings: FigureSpacing,
    pub header: HeaderOptions,
    pub footer: FooterOptions,
    pub wave_dimensions: WaveOptions,
    pub group_indicator_dimensions: GroupIndicatorDimension,
    pub edges: EdgeOptions,
}

/// The paddings around the figure and around the signals.
#[derive(Debug, Clone, Copy)]
pub struct FigurePadding {
    pub figure_top: u32,
    pub figure_bottom: u32,
    pub figure_left: u32,
    pub figure_right: u32,
    pub schema_top: u32,
    pub schema_bottom: u32,
}

/// The spacings between the parts of the figure.
#[derive(Debug, Clone, Copy)]
pub struct FigureSpacing {
    pub textbox_to_schema: u32,
    pub groupbox_to_textbox: u32,
    pub line_to_line: u32,
}

/// The dimensions of the group indicators.
#[derive(Debug, Clone, Copy)]
pub struct GroupIndicatorDimension {
    pub width: u32,
    pub spacing: u32,
    pub color: Color,
    pub label_spacing: u32,
    pub label_fontsize: u32,
    pub label_color: Color,
}

/// The options for the header of the figure.
#[derive(Debug, Clone, Copy)]
pub struct HeaderOptions {
    pub font_size: u32,
    pub height: u32,
    pub color: Color,
    pub cycle_marker_height: u32,
    pub cycle_marker_fontsize: u32,
    pub cycle_marker_color: Color,
}

/// The options for the footer of the figure.
#[derive(Debug, Clone, Copy)]
pub struct FooterOptions {
    pub font_size: u32,
    pub height: u32,
    pub color: Color,
    pub cycle_marker_height: u32,
    pub cycle_marker_fontsize: u32,
    pub cycle_marker_color: Color,
}

/// The options for the arrows / edges of the figure.
#[derive(Debug, Clone, Copy)]
pub struct EdgeOptions {
    pub node_font_size: u32,
    pub node_text_color: Color,
    pub node_background_color: Color,
    pub edge_text_font_size: u32,
    pub edge_text_color: Color,
    pub edge_text_background_color: Color,
    pub edge_color: Color,
    pub edge_arrow_color: Color,
    pub edge_arrow_size: u32,
}

/// Pure black.
pub open spec fn black() -> Color {
    Color { red: 0, green: 0, blue: 0 }
}

/// Pure white.
pub open spec fn white() -> Color {
    Color { red: 0xFF, green: 0xFF, blue: 0xFF }
}

/// Pure blue.
pub open spec fn blue() -> Color {
    Color { red: 0, green: 0, blue: 0xFF }
}

/// The default options of the header.
pub open spec fn default_header() -> HeaderOptions {
    HeaderOptions {
        font_size: 24,
        height: 32,
        color: black(),
        cycle_marker_height: 12,
        cycle_marker_fontsize: 12,
        cycle_marker_color: black(),
    }
}

impl Default for HeaderOptions {
    fn default() -> (r: HeaderOptions)
        ensures
            r == default_header(),
    {
        HeaderOptions {
            font_size: 24,
            height: 32,
            color: Color::black(),
            cycle_marker_height: 12,
            cycle_marker_fontsize: 12,
            cycle_marker_color: Color::black(),
        }
    }
}

/// The default options of the footer.
pub open spec fn default_footer() -> FooterOptions {
    FooterOptions {
        font_size: 24,
        height: 32,
        color: black(),
        cycle_marker_height: 12,
        cycle_marker_fontsize: 12,
        cycle_marker_color: black(),
    }
}

impl Default for FooterOptions {
    fn default() -> (r: FooterOptions)
        ensures
            r == default_footer(),
    {
        FooterOptions {
            font_size: 24,
            height: 32,
            color: Color::black(),
            cycle_marker_height: 12,
            cycle_marker_fontsize: 12,
            cycle_marker_color: Color::black(),
        }
    }
}

/// The default dimensions of the group indicators.
pub open spec fn default_group_indicator() -> GroupIndicatorDimension {
    GroupIndicatorDimension {
        width: 4,
        spacing: 4,
        color: black(),
        label_spacing: 4,
        label_fontsize: 14,
        label_color: black(),
    }
}

impl Default for GroupIndicatorDimension {
    fn default() -> (r: GroupIndicatorDimension)
        ensures
            r == default_group_indicator(),
    {
        GroupIndicatorDimension {
            width: 4,
            spacing: 4,
            color: Color::black(),
            label_spacing: 4,
            label_fontsize: 14,
            label_color: Color::black(),
        }
    }
}

/// The default options of the edges.
pub open spec fn default_edge_options() -> EdgeOptions {
    EdgeOptions {
        node_font_size: 14,
        node_text_color: black(),
        node_background_color: white(),
        edge_text_font_size: 14,
        edge_text_color: black(),
        edge_text_background_color: white(),
        edge_color: blue(),
        edge_arrow_color: blue(),
        edge_arrow_size: 8,
    }
}

impl Default for EdgeOptions {
    fn default() -> (r: EdgeOptions)
        ensures
            r == default_edge_options(),
    {
        EdgeOptions {
            node_font_size: 14,
            node_text_color: Color::black(),
            node_background_color: Color::white(),
            edge_text_font_size: 14,
            edge_text_color: Color::black(),
            edge_text_background_color: Color::white(),
            edge_color: Color { red: 0, green: 0, blue: 255 },
            edge_arrow_color: Color { red: 0, green: 0, blue: 255 },
            edge_arrow_size: 8,
        }
    }
}

/// The default paddings.
pub open spec fn default_padding() -> FigurePadding {
    FigurePadding {
        figure_top: 8,
        figure_bottom: 8,
        figure_left: 8,
        figure_right: 8,
        schema_top: 8,
        schema_bottom: 8,
    }
}

impl Default for FigurePadding {
    fn default() -> (r: FigurePadding)
        ensures
            r == default_padding(),
    {
        FigurePadding {
            figure_top: 8,
            figure_bottom: 8,
            figure_left: 8,
            figure_right: 8,
            schema_top: 8,
            schema_bottom: 8,
        }
    }
}

/// The default spacings.
pub open spec fn default_spacing() -> FigureSpacing {
    FigureSpacing { groupbox_to_textbox: 8, textbox_to_schema: 8, line_to_line: 8 }
}

impl Default for FigureSpacing {
    fn default() -> (r: FigureSpacing)
        ensures
            r == default_spacing(),
    {
        FigureSpacing { groupbox_to_textbox: 8, textbox_to_schema: 8, line_to_line: 8 }
    }
}

/// Are `o` the default rendering options?
pub open spec fn is_default_render_options(o: RenderOptions) -> bool {
    &&& o.background == Some(white())
    &&& o.paddings == default_padding()
    &&& o.spacings == default_spacing()
    &&& o.header == default_header()
    &&& o.footer == default_footer()
    &&& is_default_wave_options(o.wave_dimensions)
    &&& o.group_indicator_dimensions == default_group_indicator()
    &&& o.edges == default_edge_options()
}

impl Default for RenderOptions {
    fn default() -> (r: RenderOptions)
        ensures
            is_default_render_options(r),
    {
        RenderOptions {
            background: Some(Color::white()),
            paddings: FigurePadding::default(),
            spacings: FigureSpacing::default(),
            header: HeaderOptions::default(),
            footer: FooterOptions::default(),
            wave_dimensions: WaveOptions::default(),
            group_indicator_dimensions: GroupIndicatorDimension::default(),
            edges: EdgeOptions::default(),
        }
    }
}

impl GroupIndicatorDimension {
    /// The label spacing added to the label font size.
    pub fn label_height(&self) -> (r: u32)
        requires
            self.label_spacing + self.label_fontsize <= u32::MAX,
        ensures
            r == self.label_spacing + self.label_fontsize,
    {
        self.label_spacing + self.label_fontsize
    }
}

/// The value `v` where it is set, else `old`.
pub open spec fn or_keep<T>(v: Option<T>, old: T) -> T {
    match v {
        Some(x) => x,
        None => old,
    }
}

/// `*target` set to `v` where `v` is set.
fn set_if<T>(target: &mut T, v: Option<T>)
    ensures
        *final(target) == or_keep(v, *old(target)),
{
    match v {
        Some(x) => {
            *target = x;
        },
        None => {},
    }
}

/// Shaping options that a skin may set.
#[derive(Debug, Clone)]
pub struct PartialWaveOptions {
    pub font_family: Option<String>,
    pub font_size: Option<u32>,
    pub wave_height: Option<u16>,
    pub cycle_width: Option<u16>,
    pub transition_offset: Option<u16>,
    pub backgrounds: Option<[String; 8]>,
}

/// Paddings that a skin may set.
#[derive(Debug, Clone, Copy)]
pub struct PartialPadding {
    pub figure_top: Option<u32>,
    pub figure_bottom: Option<u32>,
    pub figure_left: Option<u32>,
    pub figure_right: Option<u32>,
    pub schema_top: Option<u32>,
    pub schema_bottom: Option<u32>,
}

/// Spacings that a skin may set.
#[derive(Debug, Clone, Copy)]
pub struct PartialSpacing {
    pub textbox_to_schema: Option<u32>,
    pub groupbox_to_textbox: Option<u32>,
    pub line_to_line: Option<u32>,
}

/// Group indicator dimensions that a skin may set.
#[derive(Debug, Clone, Copy)]
pub struct PartialGroupIndicator {
    pub width: Option<u32>,
    pub spacing: Option<u32>,
    pub color: Option<Color>,
    pub label_spacing: Option<u32>,
    pub label_fontsize: Option<u32>,
    pub label_color: Option<Color>,
}

/// Header or footer options that a skin may set.
#[derive(Debug, Clone, Copy)]
pub struct PartialTextOptions {
    pub font_size: Option<u32>,
    pub height: Option<u32>,
    pub color: Option<Color>,
    pub cycle_marker_height: Option<u32>,
    pub cycle_marker_fontsize: Option<u32>,
    pub cycle_marker_color: Option<Color>,
}

/// Edge options that a skin may set.
#[derive(Debug, Clone, Copy)]
pub struct PartialEdgeOptions {
    pub node_font_size: Option<u32>,
    pub node_text_color: Option<Color>,
    pub node_background_color: Option<Color>,
    pub edge_text_font_size: Option<u32>,
    pub edge_text_color: Option<Color>,
    pub edge_text_background_color: Option<Color>,
    pub edge_color: Option<Color>,
    pub edge_arrow_color: Option<Color>,
    pub edge_arrow_size: Option<u32>,
}

/// Rendering options that a skin may set. A background can be set, not removed.
#[derive(Debug, Clone)]
pub struct PartialRenderOptions {
    pub background: Option<Color>,
    pub paddings: Option<PartialPadding>,
    pub spacings: Option<PartialSpacing>,
    pub header: Option<PartialTextOptions>,
    pub footer: Option<PartialTextOptions>,
    pub wave_dimensions: Option<PartialWaveOptions>,
    pub group_indicator_dimensions: Option<PartialGroupIndicator>,
    pub edges: Option<PartialEdgeOptions>,
}

/// `o` with the shaping options that `p` sets.
pub open spec fn merged_wave_options(o: WaveOptions, p: PartialWaveOptions) -> WaveOptions {
    WaveOptions {
        font_family: or_keep(p.font_family, o.font_family),
        font_size: or_keep(p.font_size, o.font_size),
        wave_height: or_keep(p.wave_height, o.wave_height),
        cycle_width: or_keep(p.cycle_width, o.cycle_width),
        transition_offset: or_keep(p.transition_offset, o.transition_offset),
        backgrounds: or_keep(p.backgrounds, o.backgrounds),
    }
}

/// `o` with the paddings that `p` sets.
pub open spec fn merged_padding(o: FigurePadding, p: PartialPadding) -> FigurePadding {
    FigurePadding {
        figure_top: or_keep(p.figure_top, o.figure_top),
        figure_bottom: or_keep(p.figure_bottom, o.figure_bottom),
        figure_left: or_keep(p.figure_left, o.figure_left),
        figure_right: or_keep(p.figure_right, o.figure_right),
        schema_top: or_keep(p.schema_top, o.schema_top),
        schema_bottom: or_keep(p.schema_bottom, o.schema_bottom),
    }
}

/// `o` with the spacings that `p` sets.
pub open spec fn merged_spacing(o: FigureSpacing, p: PartialSpacing) -> FigureSpacing {
    FigureSpacing {
        textbox_to_schema: or_keep(p.textbox_to_schema, o.textbox_to_schema),
        groupbox_to_textbox: or_keep(p.groupbox_to_textbox, o.groupbox_to_textbox),
        line_to_line: or_keep(p.line_to_line, o.line_to_line),
    }
}

/// `o` with the group indicator dimensions that `p` sets.
pub open spec fn merged_group_indicator(
    o: GroupIndicatorDimension,
    p: PartialGroupIndicator,
) -> GroupIndicatorDimension {
    GroupIndicatorDimension {
        width: or_keep(p.width, o.width),
        spacing: or_keep(p.spacing, o.spacing),
        color: or_keep(p.color, o.color),
        label_spacing: or_keep(p.label_spacing, o.label_spacing),
        label_fontsize: or_keep(p.label_fontsize, o.label_fontsize),
        label_color: or_keep(p.label_color, o.label_color),
    }
}

/// `o` with the header options that `p` sets.
pub open spec fn merged_header(o: HeaderOptions, p: PartialTextOptions) -> HeaderOptions {
    HeaderOptions {
        font_size: or_keep(p.font_size, o.font_size),
        height: or_keep(p.height, o.height),
        color: or_keep(p.color, o.color),
        cycle_marker_height: or_keep(p.cycle_marker_height, o.cycle_marker_height),
        cycle_marker_fontsize: or_keep(p.cycle_marker_fontsize, o.cycle_marker_fontsize),
        cycle_marker_color: or_keep(p.cycle_marker_color, o.cycle_marker_color),
    }
}

/// `o` with the footer options that `p` sets.
pub open spec fn merged_footer(o: FooterOptions, p: PartialTextOptions) -> FooterOptions {
    FooterOptions {
        font_size: or_keep(p.font_size, o.font_size),
        height: or_keep(p.height, o.height),
        color: or_keep(p.color, o.color),
        cycle_marker_height: or_keep(p.cycle_marker_height, o.cycle_marker_height),
        cycle_marker_fontsize: or_keep(p.cycle_marker_fontsize, o.cycle_marker_fontsize),
        cycle_marker_color: or_keep(p.cycle_marker_color, o.cycle_marker_color),
    }
}

/// `o` with the edge options that `p` sets.
pub open spec fn merged_edge_options(o: EdgeOptions, p: PartialEdgeOptions) -> EdgeOptions {
    EdgeOptions {
        node_font_size: or_keep(p.node_font_size, o.node_font_size),
        node_text_color: or_keep(p.node_text_color, o.node_text_color),
        node_background_color: or_keep(p.node_background_color, o.node_background_color),
        edge_text_font_size: or_keep(p.edge_text_font_size, o.edge_text_font_size),
        edge_text_color: or_keep(p.edge_text_color, o.edge_text_color),
        edge_text_background_color: or_keep(
            p.edge_text_background_color,
            o.edge_text_background_color,
        ),
        edge_color: or_keep(p.edge_color, o.edge_color),
        edge_arrow_color: or_keep(p.edge_arrow_color, o.edge_arrow_color),
        edge_arrow_size: or_keep(p.edge_arrow_size, o.edge_arrow_size),
    }
}

/// `o` with the rendering options that `p` sets, group by group.
pub open spec fn merged_render_options(o: RenderOptions, p: PartialRenderOptions) -> RenderOptions {
    RenderOptions {
        background: match p.background {
            Some(c) => Some(c),
            None => o.background,
        },
        paddings: match p.paddings {
            Some(q) => merged_padding(o.paddings, q),
            None => o.paddings,
        },
        spacings: match p.spacings {
            Some(q) => merged_spacing(o.spacings, q),
            None => o.spacings,
        },
        header: match p.header {
            Some(q) => merged_header(o.header, q),
            None => o.header,
        },
        footer: match p.footer {
            Some(q) => merged_footer(o.footer, q),
            None => o.footer,
        },
        wave_dimensions: skin_wave_options(o.wave_dimensions, p.wave_dimensions),
        group_indicator_dimensions: match p.group_indicator_dimensions {
            Some(q) => merged_group_indicator(o.group_indicator_dimensions, q),
            None => o.group_indicator_dimensions,
        },
        edges: match p.edges {
            Some(q) => merged_edge_options(o.edges, q),
            None => o.edges,
        },
    }
}

/// `o` with the shaping options that `p` sets, if any.
pub open spec fn skin_wave_options(o: WaveOptions, p: Option<PartialWaveOptions>) -> WaveOptions {
    match p {
        Some(q) => merged_wave_options(o, q),
        None => o,
    }
}

/// `o` with the rendering options that `p` sets, if any.
pub open spec fn skin_render_options(o: RenderOptions, p: Option<PartialRenderOptions>) -> RenderOptions {
    match p {
        Some(q) => merged_render_options(o, q),
        None => o,
    }
}

impl WaveOptions {
    /// Set the shaping options that `p` sets.
    pub fn merge_in(&mut self, p: PartialWaveOptions)
        ensures
            *final(self) == merged_wave_options(*old(self), p),
    {
        set_if(&mut self.font_family, p.font_family);
        set_if(&mut self.font_size, p.font_size);
        set_if(&mut self.wave_height, p.wave_height);
        set_if(&mut self.cycle_width, p.cycle_width);
        set_if(&mut self.transition_offset, p.transition_offset);
        set_if(&mut self.backgrounds, p.backgrounds);
    }
}

impl FigurePadding {
    /// Set the paddings that `p` sets.
    pub fn merge_in(&mut self, p: PartialPadding)
        ensures
            *final(self) == merged_padding(*old(self), p),
    {
        set_if(&mut self.figure_top, p.figure_top);
        set_if(&mut self.figure_bottom, p.figure_bottom);
        set_if(&mut self.figure_left, p.figure_left);
        set_if(&mut self.figure_right, p.figure_right);
        set_if(&mut self.schema_top, p.schema_top);
        set_if(&mut self.schema_bottom, p.schema_bottom);
    }
}

impl FigureSpacing {
    /// Set the spacings that `p` sets.
    pub fn merge_in(&mut self, p: PartialSpacing)
        ensures
            *final(self) == merged_spacing(*old(self), p),
    {
        set_if(&mut self.textbox_to_schema, p.textbox_to_schema);
        set_if(&mut self.groupbox_to_textbox, p.groupbox_to_textbox);
        set_if(&mut self.line_to_line, p.line_to_line);
    }
}

impl GroupIndicatorDimension {
    /// Set the group indicator dimensions that `p` sets.
    pub fn merge_in(&mut self, p: PartialGroupIndicator)
        ensures
            *final(self) == merged_group_indicator(*old(self), p),
    {
        set_if(&mut self.width, p.width);
        set_if(&mut self.spacing, p.spacing);
        set_if(&mut self.color, p.color);
        set_if(&mut self.label_spacing, p.label_spacing);
        set_if(&mut self.label_fontsize, p.label_fontsize);
        set_if(&mut self.label_color, p.label_color);
    }
}

impl HeaderOptions {
    /// Set the header options that `p` sets.
    pub fn merge_in(&mut self, p: PartialTextOptions)
        ensures
            *final(self) == merged_header(*old(self), p),
    {
        set_if(&mut self.font_size, p.font_size);
        set_if(&mut self.height, p.height);
        set_if(&mut self.color, p.color);
        set_if(&mut self.cycle_marker_height, p.cycle_marker_height);
        set_if(&mut self.cycle_marker_fontsize, p.cycle_marker_fontsize);
        set_if(&mut self.cycle_marker_color, p.cycle_marker_color);
    }
}

impl FooterOptions {
    /// Set the footer options that `p` sets.
    pub fn merge_in(&mut self, p: PartialTextOptions)
        ensures
            *final(self) == merged_footer(*old(self), p),
    {
        set_if(&mut self.font_size, p.font_size);
        set_if(&mut self.height, p.height);
        set_if(&mut self.color, p.color);
        set_if(&mut self.cycle_marker_height, p.cycle_marker_height);
        set_if(&mut self.cycle_marker_fontsize, p.cycle_marker_fontsize);
        set_if(&mut self.cycle_marker_color, p.cycle_marker_color);
    }
}

impl EdgeOptions {
    /// Set the edge options that `p` sets.
    pub fn merge_in(&mut self, p: PartialEdgeOptions)
        ensures
            *final(self) == merged_edge_options(*old(self), p),
    {
        set_if(&mut self.node_font_size, p.node_font_size);
        set_if(&mut self.node_text_color, p.node_text_color);
        set_if(&mut self.node_background_color, p.node_background_color);
        set_if(&mut self.edge_text_font_size, p.edge_text_font_size);
        set_if(&mut self.edge_text_color, p.edge_text_color);
        set_if(&mut self.edge_text_background_color, p.edge_text_background_color);
        set_if(&mut self.edge_color, p.edge_color);
        set_if(&mut self.edge_arrow_color, p.edge_arrow_color);
        set_if(&mut self.edge_arrow_size, p.edge_arrow_size);
    }
}

impl RenderOptions {
    /// Set the rendering options that `p` sets, group by group.
    pub fn merge_in(&mut self, p: PartialRenderOptions)
        ensures
            *final(self) == merged_render_options(*old(self), p),
    {
        match p.background {
            Some(c) => {
                self.background = Some(c);
            },
            None => {},
        }
        match p.paddings {
            Some(q) => self.paddings.merge_in(q),
            None => {},
        }
        match p.spacings {
            Some(q) => self.spacings.merge_in(q),
            None => {},
        }
        match p.header {
            Some(q) => self.header.merge_in(q),
            None => {},
        }
        match p.footer {
            Some(q) => self.footer.merge_in(q),
            None => {},
        }
        match p.wave_dimensions {
            Some(q) => self.wave_dimensions.merge_in(q),
            None => {},
        }
        match p.group_indicator_dimensions {
            Some(q) => self.group_indicator_dimensions.merge_in(q),
            None => {},
        }
        match p.edges {
            Some(q) => self.edges.merge_in(q),
            None => {},
        }
    }
}

/// A skin: the shaping options and rendering options that it sets, the others being left to
/// their defaults.
#[derive(Debug, Clone)]
pub struct Skin {
    pub assemble: Option<PartialWaveOptions>,
    pub render: Option<PartialRenderOptions>,
}

impl Skin {
    /// The shaping and rendering options of the skin: the defaults with what the skin sets
    /// merged in.
    pub fn options(self) -> (r: (WaveOptions, RenderOptions))
        ensures
            exists|d: WaveOptions|
                is_default_wave_options(d) && r.0 == #[trigger] skin_wave_options(d, self.assemble),
            exists|d: RenderOptions|
                is_default_render_options(d) && r.1 == #[trigger] skin_render_options(
                    d,
                    self.render,
                ),
    {
        let mut assemble = WaveOptions::default();
        let ghost da = assemble;
        match self.assemble {
            Some(p) => assemble.merge_in(p),
            None => {},
        }
        let mut render = RenderOptions::default();
        let ghost dr = render;
        match self.render {
            Some(p) => render.merge_in(p),
            None => {},
        }
        assert(assemble == skin_wave_options(da, self.assemble));
        assert(render == skin_render_options(dr, self.render));
        (assemble, render)
    }
}


/// Is `new` the value `given`, where one is given, and `old` otherwise?
pub open spec fn given_or_kept<T>(given: Option<T>, old: T, new: T) -> bool {
    match given {
        Some(v) => new == v,
        None => new == old,
    }
}

/// Merging shaping options sets every option that the skin gives and keeps every other one.
pub proof fn lemma_merge_wave_options(o: WaveOptions, p: PartialWaveOptions)
    ensures
        ({
            let r = merged_wave_options(o, p);
            &&& given_or_kept(p.font_family, o.font_family, r.font_family)
            &&& given_or_kept(p.font_size, o.font_size, r.font_size)
            &&& given_or_kept(p.wave_height, o.wave_height, r.wave_height)
            &&& given_or_kept(p.cycle_width, o.cycle_width, r.cycle_width)
            &&& given_or_kept(p.transition_offset, o.transition_offset, r.transition_offset)
            &&& given_or_kept(p.backgrounds, o.backgrounds, r.backgrounds)
        }),
{
}

/// Merging paddings sets every padding that the skin gives and keeps every other one.
pub proof fn lemma_merge_padding(o: FigurePadding, p: PartialPadding)
    ensures
        ({
            let r = merged_padding(o, p);
            &&& given_or_kept(p.figure_top, o.figure_top, r.figure_top)
            &&& given_or_kept(p.figure_bottom, o.figure_bottom, r.figure_bottom)
            &&& given_or_kept(p.figure_left, o.figure_left, r.figure_left)
            &&& given_or_kept(p.figure_right, o.figure_right, r.figure_right)
            &&& given_or_kept(p.schema_top, o.schema_top, r.schema_top)
            &&& given_or_kept(p.schema_bottom, o.schema_bottom, r.schema_bottom)
        }),
{
}

/// Merging spacings sets every spacing that the skin gives and keeps every other one.
pub proof fn lemma_merge_spacing(o: FigureSpacing, p: PartialSpacing)
    ensures
        ({
            let r = merged_spacing(o, p);
            &&& given_or_kept(p.textbox_to_schema, o.textbox_to_schema, r.textbox_to_schema)
            &&& given_or_kept(p.groupbox_to_textbox, o.groupbox_to_textbox, r.groupbox_to_textbox)
            &&& given_or_kept(p.line_to_line, o.line_to_line, r.line_to_line)
        }),
{
}

/// Merging group indicator dimensions sets every one that the skin gives and keeps the others.
pub proof fn lemma_merge_group_indicator(o: GroupIndicatorDimension, p: PartialGroupIndicator)
    ensures
        ({
            let r = merged_group_indicator(o, p);
            &&& given_or_kept(p.width, o.width, r.width)
            &&& given_or_kept(p.spacing, o.spacing, r.spacing)
            &&& given_or_kept(p.color, o.color, r.color)
            &&& given_or_kept(p.label_spacing, o.label_spacing, r.label_spacing)
            &&& given_or_kept(p.label_fontsize, o.label_fontsize, r.label_fontsize)
            &&& given_or_kept(p.label_color, o.label_color, r.label_color)
        }),
{
}

/// Merging header options sets every option that the skin gives and keeps every other one.
pub proof fn lemma_merge_header(o: HeaderOptions, p: PartialTextOptions)
    ensures
        ({
            let r = merged_header(o, p);
            &&& given_or_kept(p.font_size, o.font_size, r.font_size)
            &&& given_or_kept(p.height, o.height, r.height)
            &&& given_or_kept(p.color, o.color, r.color)
            &&& given_or_kept(p.cycle_marker_height, o.cycle_marker_height, r.cycle_marker_height)
            &&& given_or_kept(p.cycle_marker_fontsize, o.cycle_marker_fontsize, r.cycle_marker_fontsize)
            &&& given_or_kept(p.cycle_marker_color, o.cycle_marker_color, r.cycle_marker_color)
        }),
{
}

/// Merging footer options sets every option that the skin gives and keeps every other one.
pub proof fn lemma_merge_footer(o: FooterOptions, p: PartialTextOptions)
    ensures
        ({
            let r = merged_footer(o, p);
            &&& given_or_kept(p.font_size, o.font_size, r.font_size)
            &&& given_or_kept(p.height, o.height, r.height)
            &&& given_or_kept(p.color, o.color, r.color)
            &&& given_or_kept(p.cycle_marker_height, o.cycle_marker_height, r.cycle_marker_height)
            &&& given_or_kept(p.cycle_marker_fontsize, o.cycle_marker_fontsize, r.cycle_marker_fontsize)
            &&& given_or_kept(p.cycle_marker_color, o.cycle_marker_color, r.cycle_marker_color)
        }),
{
}

/// Merging edge options sets every option that the skin gives and keeps every other one.
pub proof fn lemma_merge_edge_options(o: EdgeOptions, p: PartialEdgeOptions)
    ensures
        ({
            let r = merged_edge_options(o, p);
            &&& given_or_kept(p.node_font_size, o.node_font_size, r.node_font_size)
            &&& given_or_kept(p.node_text_color, o.node_text_color, r.node_text_color)
            &&& given_or_kept(p.node_background_color, o.node_background_color, r.node_background_color)
            &&& given_or_kept(p.edge_text_font_size, o.edge_text_font_size, r.edge_text_font_size)
            &&& given_or_kept(p.edge_text_color, o.edge_text_color, r.edge_text_color)
            &&& given_or_kept(p.edge_text_background_color, o.edge_text_background_color, r.edge_text_background_color)
            &&& given_or_kept(p.edge_color, o.edge_color, r.edge_color)
            &&& given_or_kept(p.edge_arrow_color, o.edge_arrow_color, r.edge_arrow_color)
            &&& given_or_kept(p.edge_arrow_size, o.edge_arrow_size, r.edge_arrow_size)
        }),
{
}

/// Merging rendering options sets the background where the skin gives one and keeps it
/// otherwise, and merges each group of options that the skin gives, leaving the others as they
/// are.
pub proof fn lemma_merge_render_options(o: RenderOptions, p: PartialRenderOptions)
    ensures
        ({
            let r = merged_render_options(o, p);
            &&& r.background == match p.background {
                Some(c) => Some(c),
                None => o.background,
            }
            &&& p.paddings is None ==> r.paddings == o.paddings
            &&& p.paddings matches Some(q) ==> r.paddings == merged_padding(o.paddings, q)
            &&& p.spacings is None ==> r.spacings == o.spacings
            &&& p.spacings matches Some(q) ==> r.spacings == merged_spacing(o.spacings, q)
            &&& p.header is None ==> r.header == o.header
            &&& p.header matches Some(q) ==> r.header == merged_header(o.header, q)
            &&& p.footer is None ==> r.footer == o.footer
            &&& p.footer matches Some(q) ==> r.footer == merged_footer(o.footer, q)
            &&& p.wave_dimensions is None ==> r.wave_dimensions == o.wave_dimensions
            &&& p.wave_dimensions matches Some(q) ==> r.wave_dimensions == merged_wave_options(
                o.wave_dimensions,
                q,
            )
            &&& p.group_indicator_dimensions is None ==> r.group_indicator_dimensions
                == o.group_indicator_dimensions
            &&& p.group_indicator_dimensions matches Some(q) ==> r.group_indicator_dimensions
                == merged_group_indicator(o.group_indicator_dimensions, q)
            &&& p.edges is None ==> r.edges == o.edges
            &&& p.edges matches Some(q) ==> r.edges == merged_edge_options(o.edges, q)
        }),
{
}

} // verus!

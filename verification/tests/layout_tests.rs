use wavedrom::cycle_offset::{CycleOffset, InCycleOffset};
use wavedrom::dimensions::SvgDimensions;
use wavedrom::figure::{Cycles, Figure, GroupItem, Wave, WaveLine, WaveLineGroup};
use wavedrom::font::Font;
use wavedrom::options::RenderOptions;
use wavedrom::wavejson::{Config, Head};

fn wave(name: &str, states: &str) -> WaveLine {
    WaveLine::Wave(Wave::new(name.to_string(), Cycles::parse(states), vec![], 1, 0))
}

#[test]
fn font_text_widths() {
    let font = Font::default();
    assert_eq!(font.get_text_width("", 14), 0);
    // c, l and k advance 1024 + 455 + 1024 units of 2048 per em.
    assert_eq!(font.get_text_width("clk", 14), 18);
    assert_eq!(font.get_text_width("a", 14), 8);
    assert_eq!(font.get_text_width("a", 2048), 1139);
    // Characters beyond ASCII advance 2052 units.
    assert_eq!(font.get_text_width("é", 2048), 2052);
    assert_eq!(font.get_font_family_name(), Some("Helvetica".to_string()));
}

#[test]
fn dimensions_of_grouped_figure() {
    let group = WaveLineGroup::from_items(vec![
        GroupItem::Label("grp".to_string()),
        GroupItem::Line(wave("a", "01.x")),
        GroupItem::Line(wave("d", "2.3|")),
    ]);
    let figure = Figure::from_lines(vec![wave("clk", "p..."), WaveLine::Group(group)]);
    let assembled = figure.assemble().unwrap();
    let options = RenderOptions::default();
    let d = SvgDimensions::new(&assembled, Font::default(), &options).unwrap();
    assert_eq!(d.num_lines(), 3);
    assert!(d.has_textbox());
    assert_eq!(d.textbox_width(), 18);
    assert!(d.has_grouping());
    assert_eq!(d.grouping_x(), 8);
    assert_eq!(d.grouping_width(), 22);
    assert_eq!(d.textbox_x(), 38);
    assert_eq!(d.schema_x(), 64);
    assert_eq!(d.cycle_width(), 48);
    assert_eq!(d.schema_width(), 192);
    assert_eq!(d.inner_width(), 248);
    assert_eq!(d.figure_width(), 264);
    assert_eq!(d.header_height(), 0);
    assert_eq!(d.schema_y(), 8);
    assert_eq!(d.schema_height(), 104);
    assert_eq!(d.footer_height(), 0);
    assert_eq!(d.footer_y(), 112);
    assert_eq!(d.figure_height(), 120);
    assert_eq!(d.signal_top(0), 16);
    assert_eq!(d.signal_top(2), 80);
    assert_eq!(d.wave_height(), 24);
    // Line 1 starts at 16 + 32; its middle is 12 lower. One and a half cycles of 48 are 72.
    assert_eq!(d.node_position(CycleOffset::from_quarter_count(6), 1), Some((64 + 72, 48 + 12)));
    // A quarter of 48 is 12; three quarters are 36.
    assert_eq!(d.node_position(CycleOffset::from_quarter_count(3), 0), Some((64 + 36, 16 + 12)));
    assert_eq!(d.node_position(CycleOffset::from_quarter_count(u32::MAX), 0), None);
    assert_eq!(d.node_position(CycleOffset::zero(), u32::MAX), None);
}

#[test]
fn dimensions_with_header_and_scale() {
    let head = Head { text: Some("T".to_string()), tick: Some(0), every: None };
    let config = Config { hscale: Some(2), skin: None };
    let figure = Figure::from_parts(Some(head), None, Some(config), vec![wave("", "01")]);
    let assembled = figure.assemble().unwrap();
    let options = RenderOptions::default();
    let d = SvgDimensions::new(&assembled, Font::default(), &options).unwrap();
    assert!(!d.has_textbox());
    assert!(!d.has_grouping());
    assert_eq!(d.header_height(), 44);
    assert_eq!(d.header_x(), 8);
    assert_eq!(d.header_y(), 8);
    assert_eq!(d.cycle_width(), 96);
    assert_eq!(d.schema_x(), 8);
    assert_eq!(d.figure_width(), 8 + 8 + 192);
    assert_eq!(d.figure_height(), 8 + 44 + 40 + 8);
}

#[test]
fn dimensions_empty_figure() {
    let figure = Figure::from_lines(vec![]);
    let assembled = figure.assemble().unwrap();
    let options = RenderOptions::default();
    let d = SvgDimensions::new(&assembled, Font::default(), &options).unwrap();
    assert_eq!(d.num_lines(), 0);
    assert_eq!(d.schema_height(), 0);
    assert_eq!(d.figure_width(), 16);
    assert_eq!(d.figure_height(), 16);
}

fn c_of(q: u32) -> CycleOffset {
    CycleOffset::from_quarter_count(q)
}

#[test]
fn cycle_offsets() {
    let a = CycleOffset::new(2, InCycleOffset::Half);
    assert_eq!(a.cycle_index(), 2);
    assert_eq!(a.in_cycle_offset(), InCycleOffset::Half);
    assert_eq!(a.ceil_num_cycles(), 3);
    assert_eq!(CycleOffset::new_rounded(5).ceil_num_cycles(), 5);
    assert_eq!(a.width_offset(48), 2 * 48 + 24);
    assert_eq!(CycleOffset::new(0, InCycleOffset::Quarter).width_offset(10), 3);
    assert_eq!(CycleOffset::new(0, InCycleOffset::ThreeQuarter).width_offset(10), 8);
    let b = CycleOffset::from_quarter_count(7);
    assert_eq!(b, CycleOffset::new(1, InCycleOffset::ThreeQuarter));
    assert_eq!(a.add(b), CycleOffset::new(4, InCycleOffset::Quarter));
    assert_eq!(a.add(b), b.add(a));
    assert_eq!(a.add(CycleOffset::zero()), a);
    assert_eq!(a.add(b).add(c_of(3)), a.add(b.add(c_of(3))));
    assert_eq!(a.half(), CycleOffset::new(1, InCycleOffset::Quarter));
    let mut c = CycleOffset::zero();
    c.add_assign(b);
    c.add_assign(b);
    assert_eq!(c, CycleOffset::new(3, InCycleOffset::Half));
    assert!(CycleOffset::new(1, InCycleOffset::ThreeQuarter) < CycleOffset::new(2, InCycleOffset::Begin));
}

#[test]
fn dimensions_too_wide_refused() {
    let config = Config { hscale: Some(2000), skin: None };
    let figure = Figure::from_parts(None, None, Some(config), vec![wave("s", "01")]);
    let assemble = wavedrom::path::WaveOptions { cycle_width: 1, ..wavedrom::path::WaveOptions::default() };
    let assembled = figure.assemble_with_options(&assemble).unwrap();
    let options = RenderOptions::default();
    assert!(SvgDimensions::new(&assembled, Font::default(), &options).is_none());
    assert!(assembled.write_svg_with_options(&options, "", "").is_none());
}

use wavedrom::figure::{Cycles, Figure, GroupItem, Wave, WaveLine, WaveLineGroup};
use wavedrom::options::RenderOptions;
use wavedrom::wavejson::{Config, Head};

fn wave(name: &str, states: &str) -> WaveLine {
    WaveLine::Wave(Wave::new(name.to_string(), Cycles::parse(states), vec![], 1, 0))
}

#[test]
fn svg_single_signal() {
    let figure = Figure::from_lines(vec![wave("a", "01")]);
    let assembled = figure.assemble().unwrap();
    let svg = assembled.write_svg_with_options(&RenderOptions::default(), "", "<!--edges-->").unwrap();
    let head = [
        r##"<svg version="1.1" xmlns="http://www.w3.org/2000/svg" xmlns:xlink="http://www.w3.org/1999/xlink" viewport="0 0 128 56" overflow="hidden" width="128" height="56">"##,
        r##"<defs><g id="cl"><path fill="none" d="M0,0v40" stroke-width="1" stroke-dasharray="2" stroke="#CCC"/></g></defs>"##,
        r##"<rect width="100%" height="100%" fill="#FFF"/><g transform="translate(8,8)">"##,
        r##"<g transform="translate(24,8)"><use transform="translate(0)" xlink:href="#cl"/><use transform="translate(48)" xlink:href="#cl"/><use transform="translate(96)" xlink:href="#cl"/></g>"##,
        r##"<g transform="translate(8,8)"><g transform="translate(0,12)"><text dominant-baseline="middle" font-family="Helvetica" font-size="14" letter-spacing="0"><tspan>a</tspan></text></g><g transform="translate(16)"><path fill="none" d="M"##,
    ]
    .concat();
    assert!(svg.starts_with(&head), "{svg}");
    assert!(svg.ends_with(r##"stroke-width="1" stroke="#000"/></g></g></g><!--edges--></svg>"##), "{svg}");
}

#[test]
fn svg_groups_title_and_markers() {
    let group = WaveLineGroup::from_items(vec![
        GroupItem::Label("g".to_string()),
        GroupItem::Line(wave("a", "P.")),
        GroupItem::Line(wave("b", "0|1")),
    ]);
    let head = Head { text: Some("T".to_string()), tick: Some(0), every: None };
    let figure = Figure::from_parts(Some(head), None, None, vec![WaveLine::Group(group)]);
    let assembled = figure.assemble().unwrap();
    let svg = assembled.write_svg_with_options(&RenderOptions::default(), "GAP", "").unwrap();
    assert!(svg.contains(r##"<g id="pei"><path d="M-4,4L0,-4L4,4H-8z" fill="#000" stroke="none"/></g>"##));
    assert!(!svg.contains(r##"<g id="nei">"##));
    assert!(svg.contains(r##"<g id="gap">GAP</g>"##));
    assert!(svg.contains(r##"<text x="95" y="22" text-anchor="middle" dominant-baseline="middle" font-family="Helvetica" font-size="24" letter-spacing="0"><tspan>T</tspan></text>"##));
    for (x, n) in [(78, 0), (126, 1), (174, 2)] {
        let marker = format!(r##"<text x="{x}" y="44" text-anchor="middle" dominant-baseline="middle" font-family="Helvetica" font-size="12" letter-spacing="0"><tspan>{n}</tspan></text>"##);
        assert!(svg.contains(&marker), "{marker}");
    }
    assert!(svg.contains(r##"<g transform="translate(6,80)"><text text-anchor="middle" dominant-baseline="middle" font-family="Helvetica" font-size="14" letter-spacing="0" transform="rotate(270)"><tspan>g</tspan></text></g>"##));
    assert!(svg.contains(r##"<path fill="none" d="M18,52m4,0c-3,0 -4,1 -4,4v48c0,3 1,4 4,4" stroke="#000"/>"##));
    assert!(svg.contains(r##"xlink:href="#pei"/>"##));
    assert!(svg.contains(r##"xlink:href="#gap"/>"##));
}

#[test]
fn svg_escapes_names() {
    let figure = Figure::from_lines(vec![wave("a<b", "1")]);
    let assembled = figure.assemble().unwrap();
    let svg = assembled.write_svg_with_options(&RenderOptions::default(), "", "").unwrap();
    assert!(svg.contains("<tspan>a&lt;b</tspan>"));
}

#[test]
fn svg_enumeration_overflow_refused() {
    let head = Head { text: None, tick: Some(u32::MAX), every: Some(1) };
    let figure = Figure::from_parts(Some(head), None, Some(Config { hscale: None, skin: None }), vec![wave("a", "01")]);
    let assembled = figure.assemble().unwrap();
    assert!(assembled.write_svg_with_options(&RenderOptions::default(), "", "").is_none());
}

#[test]
fn svg_default_options_match() {
    let figure = Figure::from_lines(vec![wave("a", "0110"), wave("b", "x2.3")]);
    let assembled = figure.assemble().unwrap();
    let plain = assembled.write_svg("", "").unwrap();
    let with_defaults = assembled.write_svg_with_options(&RenderOptions::default(), "", "").unwrap();
    assert_eq!(plain, with_defaults);
    assert!(plain.contains(r##"<g transform="translate(8,8)">"##));
}

#[test]
fn svg_hint_lines_and_cycle_numbers() {
    let head = Head { text: None, tick: Some(3), every: Some(2) };
    let figure = Figure::from_parts(Some(head), None, None, vec![wave("a", "01010")]);
    let assembled = figure.assemble().unwrap();
    let svg = assembled.write_svg_with_options(&RenderOptions::default(), "", "").unwrap();
    // One dashed line for each cycle boundary: five cycles, six lines.
    assert_eq!(svg.matches(r##"xlink:href="#cl""##).count(), 6);
    // Numbers 3, 5 and 7 below 3 + 5.
    assert!(svg.contains("<tspan>3</tspan>"));
    assert!(svg.contains("<tspan>5</tspan>"));
    assert!(svg.contains("<tspan>7</tspan>"));
    assert!(!svg.contains("<tspan>4</tspan>"));
    assert!(!svg.contains("<tspan>9</tspan>"));
    let empty_figure = Figure::from_lines(vec![]);
    let empty = empty_figure.assemble().unwrap();
    let svg = empty.write_svg_with_options(&RenderOptions::default(), "", "").unwrap();
    assert_eq!(svg.matches(r##"xlink:href="#cl""##).count(), 1);
}

use wavedrom::figure::{Cycles, CycleMarker, Figure, GroupItem, Wave, WaveLine, WaveLineGroup};
use wavedrom::path::{PathState, WaveOptions};
use wavedrom::wavejson::{Config, Foot, Head, SignalData};

fn wave(name: &str, states: &str, data: &[&str]) -> WaveLine {
    WaveLine::Wave(Wave::new(
        name.to_string(),
        Cycles::parse(states),
        data.iter().map(|s| s.to_string()).collect(),
        1,
        0,
    ))
}

#[test]
fn cycles_parse_states() {
    let c = Cycles::parse("01zx.|pP2?");
    assert_eq!(
        c.states(),
        &[
            PathState::Bottom,
            PathState::Top,
            PathState::Middle,
            PathState::X,
            PathState::Continue,
            PathState::Gap,
            PathState::PosedgeClockUnmarked,
            PathState::PosedgeClockMarked,
            PathState::Box2,
            PathState::X,
        ]
    );
}

#[test]
fn cycle_marker_from_tick() {
    assert_eq!(CycleMarker::from_tick(Some(3), None), Some(CycleMarker::new(3, 1)));
    assert_eq!(CycleMarker::from_tick(Some(3), Some(2)), Some(CycleMarker::new(3, 2)));
    assert_eq!(CycleMarker::from_tick(None, Some(2)), None);
    let m = CycleMarker::new(5, 7);
    assert_eq!((m.start(), m.every()), (5, 7));
    // A step of zero numbers every cycle.
    assert_eq!(CycleMarker::new(2, 0).every(), 1);
    assert_eq!(CycleMarker::from_tick(Some(0), Some(0)).map(|m| m.every()), Some(1));
}

#[test]
fn figure_assembles_groups() {
    let group = WaveLineGroup::from_items(vec![
        GroupItem::Label("grp".to_string()),
        GroupItem::Line(wave("a", "01.x", &[])),
        GroupItem::Label("ignored".to_string()),
        GroupItem::Line(wave("d", "2.3|", &["A", "B"])),
    ]);
    let figure = Figure::from_lines(vec![wave("clk", "p...", &[]), WaveLine::Group(group)]);
    let assembled = figure.assemble().unwrap();
    assert_eq!(assembled.num_lines(), 3);
    assert_eq!(assembled.num_cycles(), 4);
    assert_eq!(assembled.horizontal_scale(), 1);
    assert!(assembled.has_undefined());
    assert!(assembled.has_gaps());
    assert!(!assembled.has_posedge_marker());
    assert!(!assembled.has_negedge_marker());
    assert_eq!(assembled.group_nesting(), 1);
    assert_eq!(assembled.label_count(), 1);
    assert!(assembled.has_group_label_at_depth(0));
    assert!(!assembled.has_group_label_at_depth(1));
    assert_eq!(assembled.amount_labels_before(0), 0);
    assert_eq!(assembled.amount_labels_before(1), 1);

    let lines = assembled.lines();
    assert_eq!(lines[0].text(), "clk");
    assert_eq!(lines[0].depth(), 0);
    assert_eq!(lines[1].text(), "a");
    assert_eq!(lines[1].depth(), 1);
    assert_eq!(lines[2].text(), "d");
    assert!(!lines[2].is_empty());
    assert_eq!(lines[2].path().num_cycles(), 4);

    let groups = assembled.group_markers();
    assert_eq!(groups.len(), 1);
    assert_eq!(groups[0].label(), Some("grp"));
    assert_eq!((groups[0].start(), groups[0].end(), groups[0].depth()), (1, 3, 0));
    assert_eq!(groups[0].len(), 2);
    assert!(!groups[0].is_empty());
}

#[test]
fn figure_from_parts() {
    let head = Head { text: Some("Title".to_string()), tick: Some(2), every: None };
    let foot = Foot { text: Some("Foot".to_string()), tock: Some(0), every: Some(3) };
    let config = Config { hscale: Some(2), skin: None };
    let figure = Figure::from_parts(Some(head), Some(foot), Some(config), vec![wave("s", "PN", &[])]);
    let assembled = figure.assemble().unwrap();
    assert_eq!(assembled.header_text(), Some("Title"));
    assert_eq!(assembled.footer_text(), Some("Foot"));
    assert_eq!(assembled.top_cycle_marker(), Some(CycleMarker::new(2, 1)));
    assert_eq!(assembled.bottom_cycle_marker(), Some(CycleMarker::new(0, 3)));
    assert_eq!(assembled.horizontal_scale(), 2);
    assert_eq!(assembled.wave_options().cycle_width, 96);
    assert!(assembled.has_posedge_marker());
    assert!(assembled.has_negedge_marker());
    assert!(!assembled.has_undefined());
}

#[test]
fn figure_too_wide_fails() {
    let config = Config { hscale: Some(2000), skin: None };
    let figure = Figure::from_parts(None, None, Some(config), vec![wave("s", "01", &[])]);
    assert!(figure.assemble().is_err());
    let ok = figure.assemble_with_options(&WaveOptions { cycle_width: 10, ..WaveOptions::default() });
    assert!(ok.is_ok());
}

#[test]
fn figure_deep_groups_shown() {
    let mut line = wave("deep", "1", &[]);
    for _ in 0..6 {
        line = WaveLine::Group(WaveLineGroup::new(Some("g".to_string()), vec![line]));
    }
    let figure = Figure::from_lines(vec![wave("top", "0", &[]), line]);
    let assembled = figure.assemble().unwrap();
    assert_eq!(assembled.num_lines(), 2);
    assert_eq!(assembled.lines()[1].text(), "deep");
    assert_eq!(assembled.lines()[1].depth(), 6);
    assert_eq!(assembled.group_nesting(), 6);
    assert_eq!(assembled.label_count(), 6);
    assert_eq!(assembled.group_markers().len(), 6);
    for g in assembled.group_markers() {
        assert!(g.depth() < 6);
        assert_eq!((g.start(), g.end()), (1, 2));
    }
}

#[test]
fn signal_data_fields() {
    assert_eq!(SignalData::One("  A B\tCC  ".to_string()).fields(), vec!["A", "B", "CC"]);
    assert_eq!(SignalData::One("".to_string()).fields(), Vec::<String>::new());
    assert_eq!(
        SignalData::Multiple(vec!["x y".to_string(), "".to_string()]).fields(),
        vec!["x y".to_string(), "".to_string()]
    );
}

#[test]
fn leading_continuation_is_flagged_undefined() {
    // A leading continuation or gap is drawn as the undefined state.
    let figure = Figure::from_lines(vec![wave("a", ".01", &[])]);
    assert!(figure.assemble().unwrap().has_undefined());
    let gap_first = Figure::from_lines(vec![wave("b", "|1", &[])]);
    assert!(gap_first.assemble().unwrap().has_undefined());
    let plain = Figure::from_lines(vec![wave("c", "01.", &[])]);
    assert!(!plain.assemble().unwrap().has_undefined());
    let figure_x = Figure::from_lines(vec![wave("d", "0x", &[])]);
    let with_x = figure_x.assemble().unwrap();
    assert!(with_x.has_undefined());
}

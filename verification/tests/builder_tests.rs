use wavedrom::cycle_offset::CycleOffset;
use wavedrom::edges::EdgeVariant::Sharp;
use wavedrom::edges::{EdgeArrowType, EdgeDefinition, SharpEdgeVariant};
use wavedrom::figure::{Cycles, Figure, Wave, WaveLine, WaveLineGroup};
use wavedrom::path::PathState;

#[test]
fn wave_builders() {
    let w = Wave::with_cycle_str("01.x")
        .name("clk".to_string())
        .add_cycle(PathState::Box2)
        .add_n_cycles(2, PathState::Continue)
        .add_cycles(vec![PathState::Top, PathState::Bottom])
        .add_data_field("a".to_string())
        .add_data_fields(vec!["b".to_string(), "c".to_string()])
        .add_nodes("ab")
        .add_node(None)
        .add_node(Some('c'))
        .period(0)
        .phase(CycleOffset::from_quarter_count(6));
    assert_eq!(w.get_name(), "clk");
    assert_eq!(
        w.cycles(),
        &[
            PathState::Bottom,
            PathState::Top,
            PathState::Continue,
            PathState::X,
            PathState::Box2,
            PathState::Continue,
            PathState::Continue,
            PathState::Top,
            PathState::Bottom,
        ]
    );
    assert_eq!(w.get_data_fields(), &["a".to_string(), "b".to_string(), "c".to_string()]);
    assert_eq!(w.get_nodes(), "ab.c");
    assert_eq!(w.get_period(), 1);
    assert_eq!(w.get_phase().cycle_index(), 1);
    assert_eq!(w.period(3).get_period(), 3);
}

#[test]
fn wave_repeated_and_default() {
    let w = Wave::repeated(PathState::Box3, 3);
    assert_eq!(w.cycles(), &[PathState::Box3, PathState::Box3, PathState::Box3]);
    assert_eq!(w.get_name(), "");
    assert_eq!(w.get_nodes(), "");
    assert_eq!(w.get_period(), 1);
    assert!(Wave::repeated(PathState::Top, 0).cycles().is_empty());
    let d = Wave::default();
    assert!(d.cycles().is_empty());
    assert!(d.get_data_fields().is_empty());
    assert_eq!(Wave::with_cycle_str("").cycles().len(), 0);
    assert_eq!(Wave::default().add_n_cycles(0, PathState::Top).cycles().len(), 0);
}

#[test]
fn figure_builders() {
    let group = WaveLineGroup::new(
        Some("g".to_string()),
        vec![WaveLine::Wave(Wave::repeated(PathState::X, 2))],
    );
    let figure = Figure::default()
        .header_text("Hello World!".to_string())
        .footer_text("Bye World!".to_string())
        .top_cycle_marker(0, 2)
        .bottom_cycle_marker(1, 1)
        .horizontal_scale(2)
        .add_signals(vec![
            Wave::repeated(PathState::X, 8),
            Wave::repeated(PathState::Box2, 7),
        ])
        .add_signal(Wave::new("s".to_string(), Cycles::parse("01"), vec![], 1, 0))
        .add_group(group)
        .add_groups(vec![WaveLineGroup::new(None, vec![])])
        .add_section(WaveLine::Wave(Wave::repeated(PathState::Top, 1)))
        .add_sections(vec![]);
    let assembled = figure.assemble().unwrap();
    assert_eq!(assembled.header_text(), Some("Hello World!"));
    assert_eq!(assembled.footer_text(), Some("Bye World!"));
    assert_eq!(assembled.top_cycle_marker().map(|m| (m.start(), m.every())), Some((0, 2)));
    assert_eq!(assembled.bottom_cycle_marker().map(|m| (m.start(), m.every())), Some((1, 1)));
    assert_eq!(assembled.horizontal_scale(), 2);
    assert_eq!(assembled.num_lines(), 5);
    assert_eq!(assembled.lines()[2].text(), "s");
    assert_eq!(assembled.lines()[3].depth(), 1);
    assert_eq!(assembled.num_cycles(), 8);
}

#[test]
fn figure_edge_builders() {
    let straight = Sharp(SharpEdgeVariant::Straight(EdgeArrowType::End));
    let figure = Figure::default()
        .add_signal(Wave::with_cycle_str("01").add_nodes("ab"))
        .add_edge(EdgeDefinition::parse("a+b").unwrap())
        .add_edges(vec![EdgeDefinition::parse("b->a x").unwrap()])
        .add_edge_with(straight, 'a', 'b')
        .add_labeled_edge_with(Sharp(SharpEdgeVariant::Cross), 'b', 'a', "lbl".to_string());
    let edges = figure.edges();
    assert_eq!(edges.len(), 4);
    assert_eq!((edges[0].from, edges[0].to), ('a', 'b'));
    assert_eq!(edges[1].label, Some("x".to_string()));
    assert_eq!(edges[2].variant, straight);
    assert_eq!(edges[2].label, None);
    assert_eq!(edges[3].label, Some("lbl".to_string()));
    let assembled = figure.assemble().unwrap();
    let markers = assembled.edge_markers(figure.edges()).unwrap();
    assert_eq!(markers.lines().len(), 4);
    assert!(markers.text_nodes().is_empty());
    let with = Figure::with(None, None, None, None, 1, vec![EdgeDefinition::parse("a-b").unwrap()], vec![]);
    assert_eq!(with.edges().len(), 1);
    assert!(Figure::from_lines(vec![]).edges().is_empty());
}

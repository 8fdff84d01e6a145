use wavedrom::figure::{Cycles, Figure, Wave, WaveLine, WaveLineGroup};
use wavedrom::cycle_offset::{CycleOffset, InCycleOffset};
use wavedrom::edges::{EdgeArrowType, EdgeDefinition, EdgeVariant, LineEdgeMarkersBuilder, SharpEdgeVariant};

#[test]
fn edge_markers_build() {
    let mut builder = LineEdgeMarkersBuilder::new();
    builder.add_signal("a.b", CycleOffset::zero());
    builder.add_signal(".c", CycleOffset::new(0, InCycleOffset::Half));
    builder.add_signal("A", CycleOffset::zero());
    let edges = vec![
        EdgeDefinition::parse("a->c hello").unwrap(),
        EdgeDefinition::parse("b~d").unwrap(),
        EdgeDefinition::parse("A-c").unwrap(),
        EdgeDefinition::parse("a-a").unwrap(),
    ];
    let markers = builder.build(&edges);

    let lines = markers.lines();
    assert_eq!(lines.len(), 2);
    let first = &lines[0];
    assert_eq!(first.from().x(), CycleOffset::zero());
    assert_eq!(first.from().y(), 0);
    assert_eq!(first.to().x(), CycleOffset::new(1, InCycleOffset::Half));
    assert_eq!(first.to().y(), 1);
    assert_eq!(first.from_marker(), Some('a'));
    assert_eq!(first.to_marker(), Some('c'));
    assert_eq!(first.label(), Some("hello"));
    assert_eq!(first.variant(), EdgeVariant::Sharp(SharpEdgeVariant::Straight(EdgeArrowType::End)));
    let second = &lines[1];
    assert_eq!(second.from().y(), 2);
    assert_eq!(second.from_marker(), None);
    assert_eq!(second.to_marker(), Some('c'));
    assert_eq!(second.label(), None);

    let texts = markers.text_nodes();
    assert_eq!(texts.len(), 1);
    assert_eq!(texts[0].text(), 'b');
    assert_eq!(texts[0].at().x(), CycleOffset::new_rounded(2));
    assert_eq!(texts[0].at().y(), 0);
}

#[test]
fn edge_markers_later_node_wins() {
    let mut builder = LineEdgeMarkersBuilder::new();
    builder.add_signal("x", CycleOffset::zero());
    builder.add_signal("..x", CycleOffset::zero());
    builder.add_signal("y", CycleOffset::zero());
    let edges = vec![EdgeDefinition::parse("x-y").unwrap()];
    let markers = builder.build(&edges);
    assert_eq!(markers.lines().len(), 1);
    assert_eq!(markers.lines()[0].from().y(), 1);
    assert_eq!(markers.lines()[0].from().x(), CycleOffset::new_rounded(2));
    assert!(markers.text_nodes().is_empty());
}

#[test]
fn figure_edge_markers() {
    let a = Wave::new("a".to_string(), Cycles::parse("0101"), vec![], 1, 0).with_node("a.b".to_string());
    let c = Wave::new("c".to_string(), Cycles::parse("1010"), vec![], 1, 2).with_node(".c".to_string());
    let figure = Figure::from_lines(vec![
        WaveLine::Wave(a),
        WaveLine::Group(WaveLineGroup::new(None, vec![WaveLine::Wave(c)])),
    ]);
    let assembled = figure.assemble().unwrap();
    assert_eq!(assembled.lines()[0].node(), "a.b");
    assert_eq!(assembled.lines()[1].phase(), CycleOffset::new(0, InCycleOffset::Half));
    let edges = vec![EdgeDefinition::parse("a->c").unwrap()];
    let markers = assembled.edge_markers(&edges).unwrap();
    assert_eq!(markers.lines().len(), 1);
    assert_eq!(markers.lines()[0].to().x(), CycleOffset::new(1, InCycleOffset::Half));
    assert_eq!(markers.lines()[0].to().y(), 1);
    assert_eq!(markers.text_nodes().len(), 1);
    assert_eq!(markers.text_nodes()[0].text(), 'b');
}

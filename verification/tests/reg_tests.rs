use wavedrom::reg::{FieldString, Lane, LaneBitRange, RegisterFigure};
use wavedrom::wavejson::{RegFieldString, RegItem, RegItemAttribute, RegJson, RegJsonConfig};

fn item(bits: u32, name: &str) -> RegItem {
    RegItem { bits, name: Some(RegFieldString::Text(name.to_string())), attr: None, variant: None }
}

fn config(lanes: Option<u32>, bits: Option<u32>, vflip: Option<bool>) -> RegJsonConfig {
    RegJsonConfig {
        vspace: Some(80),
        hspace: None,
        lanes,
        bits,
        fontsize: None,
        fontweight: None,
        fontfamily: None,
        compact: None,
        hflip: None,
        vflip,
        uneven: None,
        offset: None,
    }
}

fn name_of(r: &LaneBitRange) -> String {
    match r.name() {
        Some(FieldString::Text(s)) => s.clone(),
        Some(FieldString::Binary(b)) => format!("{b}"),
        None => String::new(),
    }
}

fn shape(lane: &Lane) -> (u32, u32, Vec<(String, u32)>) {
    (
        lane.get_start_bit(),
        lane.width(),
        lane.bit_ranges().iter().map(|r| (name_of(r), r.length())).collect(),
    )
}

fn s(name: &str, len: u32) -> (String, u32) {
    (name.to_string(), len)
}

#[test]
fn reg_single_lane_padded() {
    let json = RegJson { reg: vec![item(4, "a"), item(8, "b")], config: Some(config(None, Some(16), None)) };
    let figure = RegisterFigure::from_json(json);
    assert_eq!(figure.lanes().len(), 1);
    assert_eq!(shape(&figure.lanes()[0]), (0, 16, vec![s("a", 4), s("b", 8)]));
    assert_eq!(figure.get_vspace(), Some(80));
    assert_eq!(figure.get_hspace(), None);
}

#[test]
fn reg_single_lane_clipped() {
    let json = RegJson { reg: vec![item(4, "a"), item(8, "b"), item(3, "c")], config: Some(config(None, Some(10), None)) };
    let figure = RegisterFigure::from_json(json);
    assert_eq!(shape(&figure.lanes()[0]), (0, 10, vec![s("a", 4), s("b", 6), s("c", 0)]));
}

#[test]
fn reg_default_bits() {
    let json = RegJson { reg: vec![item(3, "a"), item(5, "b")], config: None };
    let figure = RegisterFigure::from_json(json);
    assert_eq!(figure.lanes().len(), 1);
    assert_eq!(shape(&figure.lanes()[0]), (0, 8, vec![s("a", 3), s("b", 5)]));
    assert_eq!(figure.get_vspace(), None);
}

#[test]
fn reg_two_lanes_split_field() {
    let json = RegJson { reg: vec![item(3, "a"), item(5, "b")], config: Some(config(Some(2), None, None)) };
    let figure = RegisterFigure::from_json(json);
    assert_eq!(figure.lanes().len(), 2);
    assert_eq!(shape(&figure.lanes()[0]), (0, 4, vec![s("a", 3), s("b", 1)]));
    assert_eq!(shape(&figure.lanes()[1]), (4, 4, vec![s("b", 4)]));
}

#[test]
fn reg_lanes_flipped() {
    let json = RegJson { reg: vec![item(3, "a"), item(5, "b")], config: Some(config(Some(2), None, Some(true))) };
    let figure = RegisterFigure::from_json(json);
    assert_eq!(shape(&figure.lanes()[0]), (4, 4, vec![s("b", 4)]));
    assert_eq!(shape(&figure.lanes()[1]), (0, 4, vec![s("a", 3), s("b", 1)]));
}

#[test]
fn reg_padding_lanes() {
    let json = RegJson { reg: vec![item(2, "a")], config: Some(config(Some(3), Some(6), None)) };
    let figure = RegisterFigure::from_json(json);
    let shapes: Vec<_> = figure.lanes().iter().map(shape).collect();
    assert_eq!(shapes, vec![(0, 2, vec![s("a", 2)]), (2, 2, vec![]), (4, 2, vec![])]);
}

#[test]
fn reg_attributes_and_variant() {
    let json = RegJson {
        reg: vec![RegItem {
            bits: 2,
            name: Some(RegFieldString::Binary(5)),
            attr: Some(RegItemAttribute::Multiple(vec![
                RegFieldString::Text("rw".to_string()),
                RegFieldString::Binary(1),
            ])),
            variant: Some(3),
        }],
        config: None,
    };
    let figure = RegisterFigure::from_json(json);
    let range = &figure.lanes()[0].bit_ranges()[0];
    assert_eq!(name_of(range), "5");
    assert_eq!(range.variant(), 3);
    assert_eq!(range.attributes().len(), 2);
    assert!(matches!(&range.attributes()[0], FieldString::Text(t) if t == "rw"));
    assert!(matches!(&range.attributes()[1], FieldString::Binary(1)));
}

#[test]
fn reg_too_many_bits_refused() {
    let json = RegJson { reg: vec![item(u32::MAX, "a"), item(u32::MAX, "b")], config: None };
    assert!(RegisterFigure::try_from_json(json).is_none());
    let ok = RegJson { reg: vec![item(1, "a")], config: None };
    assert!(RegisterFigure::try_from_json(ok).is_some());
}

#[test]
fn lane_builders() {
    let lane = Lane::new().start_bit(8).add(LaneBitRange::new(3)).add(LaneBitRange::new_padding(2)).pad(1);
    assert_eq!(lane.get_start_bit(), 8);
    assert_eq!(lane.width(), 6);
    assert_eq!(lane.bit_ranges().len(), 2);
    assert!(!lane.is_empty());
    assert!(Lane::new().is_empty());
    assert_eq!(Lane::padded(4).width(), 4);
    let fig = RegisterFigure::with(vec![lane]).vspace(3).hspace(9);
    assert_eq!(fig.get_vspace(), Some(3));
    assert_eq!(fig.get_hspace(), Some(9));
}

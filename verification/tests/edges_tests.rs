use std::str::FromStr;

use wavedrom::edges::EdgeVariant::Sharp;
use wavedrom::edges::{EdgeArrowType, EdgeDefinition, EdgeVariant, SharpEdgeVariant};

fn consumes_fully(input: &str, expected: EdgeVariant) {
    let out = EdgeVariant::consume(input);
    assert!(out.is_some());
    let (out_str, out) = out.unwrap();
    assert!(out_str.is_empty());
    assert_eq!(out, expected);
}

#[test]
fn edge_variant_parse() {
    consumes_fully("-|-", Sharp(SharpEdgeVariant::BothHorizontal(EdgeArrowType::NoArrows)));
    consumes_fully("<-|-", Sharp(SharpEdgeVariant::BothHorizontal(EdgeArrowType::Start)));
    consumes_fully("<-|->", Sharp(SharpEdgeVariant::BothHorizontal(EdgeArrowType::Both)));
    consumes_fully("-|->", Sharp(SharpEdgeVariant::BothHorizontal(EdgeArrowType::End)));
    consumes_fully("->", Sharp(SharpEdgeVariant::Straight(EdgeArrowType::End)));
    consumes_fully("+", Sharp(SharpEdgeVariant::Cross));
    assert!(EdgeVariant::consume("<+").is_none());
    assert!(EdgeVariant::consume("<+>").is_none());
}

#[test]
fn edge_definition() {

    let out = EdgeDefinition::from_str("I+J abc");
    assert!(out.is_ok());
    let out = out.unwrap();
    assert_eq!(out.from, 'I');
    assert_eq!(out.to, 'J');
    assert_eq!(out.variant, Sharp(SharpEdgeVariant::Cross));
    assert_eq!(out.label, Some("abc").map(Into::into));

    assert!(EdgeDefinition::from_str("I<+J abc").is_err());

    let out = EdgeDefinition::from_str("<+J");
    assert!(out.is_ok());
    let out = out.unwrap();
    assert_eq!(out.from, '<');
    assert_eq!(out.to, 'J');
    assert_eq!(out.variant, Sharp(SharpEdgeVariant::Cross));
    assert!(out.label.is_none());
}

use wavedrom::figure::Figure;
use wavedrom::mdbook::{
    fence_kind, find_diagrams, splice_diagrams, wavedrom_blocks, MdEvent, MdEventKind,
    RenderedBlock, WavedromPreProcessor,
};

#[test]
fn fence_info_strings() {
    assert_eq!(fence_kind("wavedrom"), Some(false));
    assert_eq!(fence_kind("  wavedrom  "), Some(false));
    assert_eq!(fence_kind("wavedrom [with_source]"), Some(true));
    assert_eq!(fence_kind("wavedrom[a, with_source ]"), Some(true));
    assert_eq!(fence_kind("wavedrom [a]"), Some(false));
    assert_eq!(fence_kind("wavedrom []"), Some(false));
    assert_eq!(fence_kind("wavedromx"), None);
    assert_eq!(fence_kind("wavedrom [with_source"), None);
    assert_eq!(fence_kind("rust"), None);
    assert_eq!(fence_kind(""), None);
}

#[test]
fn preprocessor_renderers() {
    let p = WavedromPreProcessor::new();
    assert_eq!(p.name(), "wavedrom");
    assert!(p.supports_renderer("html"));
    assert!(!p.supports_renderer("not-supported"));
}

fn event(kind: MdEventKind, start: usize, end: usize) -> MdEvent {
    MdEvent { kind, start, end }
}

#[test]
fn find_and_splice_with_source() {
    let content = "x\n```wavedrom [with_source]\nAB\n```\ny";
    let start = 2;
    let end = content.find("```\ny").unwrap() + 3;
    let text_start = content.find("AB").unwrap();
    let events = vec![
        event(MdEventKind::Other, 0, 1),
        event(MdEventKind::FenceStart("wavedrom [with_source]".to_string()), start, end),
        event(MdEventKind::Text, text_start, text_start + 3),
        event(MdEventKind::FenceEnd("wavedrom [with_source]".to_string()), start, end),
        event(MdEventKind::Text, end + 1, end + 2),
    ];
    let scan = find_diagrams(&events, content.as_bytes());
    assert!(!scan.failed);
    assert_eq!(scan.blocks.len(), 1);
    let block = &scan.blocks[0];
    assert_eq!((block.start, block.end), (start, end));
    assert_eq!(block.text, b"AB\n".to_vec());
    let tag_end = content[start..].find('\n').unwrap() + start;
    assert_eq!(block.keep_source, Some((start, tag_end)));

    let rendered = vec![RenderedBlock {
        start: block.start,
        end: block.end,
        svg: b"<svg/>".to_vec(),
        keep_source: block.keep_source,
    }];
    let out = splice_diagrams(content.as_bytes(), &rendered).unwrap();
    assert_eq!(
        String::from_utf8(out).unwrap(),
        "x\n<pre class=\"wavedrom\"><svg/></pre>\n\n```json\nAB\n```\ny"
    );
}

#[test]
fn find_skips_other_code_blocks() {
    let content = "```rust\nfn x\n```\n";
    let events = vec![
        event(MdEventKind::FenceStart("rust".to_string()), 0, content.len()),
        event(MdEventKind::Text, 8, 13),
        event(MdEventKind::FenceEnd("rust".to_string()), 0, content.len()),
    ];
    let scan = find_diagrams(&events, content.as_bytes());
    assert!(!scan.failed);
    assert!(scan.blocks.is_empty());
}

#[test]
fn find_fails_on_foreign_close() {
    let content = "```wavedrom\n{}\n```\n";
    let events = vec![
        event(MdEventKind::FenceStart("wavedrom".to_string()), 0, content.len()),
        event(MdEventKind::FenceEnd("rust".to_string()), 0, content.len()),
    ];
    let scan = find_diagrams(&events, content.as_bytes());
    assert!(scan.failed);
}

#[test]
fn splice_without_source_and_bad_ranges() {
    let content = b"ab[block]cd";
    let ok = vec![RenderedBlock { start: 2, end: 9, svg: b"S".to_vec(), keep_source: None }];
    assert_eq!(
        splice_diagrams(content, &ok).unwrap(),
        b"ab<pre class=\"wavedrom\">S</pre>\n\ncd".to_vec()
    );
    assert_eq!(splice_diagrams(content, &[]).unwrap(), content.to_vec());
    let out_of_range = vec![RenderedBlock { start: 2, end: 40, svg: vec![], keep_source: None }];
    assert!(splice_diagrams(content, &out_of_range).is_none());
    let unordered = vec![
        RenderedBlock { start: 5, end: 6, svg: vec![], keep_source: None },
        RenderedBlock { start: 2, end: 3, svg: vec![], keep_source: None },
    ];
    assert!(splice_diagrams(content, &unordered).is_none());
}

#[test]
fn basic_insertion_blocks() {
    let content = r#"
# Header

```wavedrom
{
    "signal": []
}
```
        "#;
    let scan = wavedrom_blocks(content);
    assert!(!scan.failed);
    assert_eq!(scan.blocks.len(), 1);
    let block = &scan.blocks[0];
    assert!(content[block.start..].starts_with("```wavedrom"));
    assert!(content[..block.end].trim_end().ends_with("```"));
    assert_eq!(block.text, b"{\n    \"signal\": []\n}\n".to_vec());
    assert_eq!(block.keep_source, None);
    // The block holds a figure without signals.
    let json: serde_json::Value = serde_json::from_slice(&block.text).unwrap();
    assert_eq!(json["signal"].as_array().map(|a| a.len()), Some(0));
    let figure = Figure::from_lines(vec![]);
    let svg = figure.assemble().unwrap().write_svg("", "").unwrap();
    let rendered = vec![RenderedBlock {
        start: block.start,
        end: block.end,
        svg: svg.into_bytes(),
        keep_source: None,
    }];
    let out = String::from_utf8(splice_diagrams(content.as_bytes(), &rendered).unwrap()).unwrap();
    assert_ne!(content, out);
    assert!(out.contains(r#"<pre class="wavedrom">"#));
    assert!(out.contains("</svg>"));
}

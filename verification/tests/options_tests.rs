use wavedrom::color::Color;
use wavedrom::options::{
    PartialPadding, PartialRenderOptions, PartialTextOptions, PartialWaveOptions, RenderOptions, Skin,
};

fn no_text_options() -> PartialTextOptions {
    PartialTextOptions {
        font_size: None,
        height: None,
        color: None,
        cycle_marker_height: None,
        cycle_marker_fontsize: None,
        cycle_marker_color: None,
    }
}

#[test]
fn skin_without_settings_gives_defaults() {
    let (wave, render) = Skin { assemble: None, render: None }.options();
    assert_eq!(wave.cycle_width, 48);
    assert_eq!(wave.wave_height, 24);
    assert_eq!(wave.transition_offset, 4);
    assert_eq!(wave.font_family, "Helvetica");
    assert_eq!(render.background, Some(Color { red: 0xFF, green: 0xFF, blue: 0xFF }));
    assert_eq!(render.paddings.figure_top, 8);
    assert_eq!(render.header.font_size, 24);
    assert_eq!(render.edges.edge_arrow_size, 8);
}

#[test]
fn skin_sets_only_what_it_names() {
    let assemble = PartialWaveOptions {
        font_family: None,
        font_size: None,
        wave_height: Some(30),
        cycle_width: None,
        transition_offset: Some(2),
        backgrounds: None,
    };
    let render = PartialRenderOptions {
        background: Some(Color { red: 1, green: 2, blue: 3 }),
        paddings: Some(PartialPadding {
            figure_top: Some(20),
            figure_bottom: None,
            figure_left: None,
            figure_right: None,
            schema_top: None,
            schema_bottom: Some(1),
        }),
        spacings: None,
        header: Some(PartialTextOptions { height: Some(40), ..no_text_options() }),
        footer: None,
        wave_dimensions: None,
        group_indicator_dimensions: None,
        edges: None,
    };
    let (wave, options) = Skin { assemble: Some(assemble), render: Some(render) }.options();
    assert_eq!(wave.wave_height, 30);
    assert_eq!(wave.transition_offset, 2);
    assert_eq!(wave.cycle_width, 48);
    assert_eq!(options.background, Some(Color { red: 1, green: 2, blue: 3 }));
    assert_eq!(options.paddings.figure_top, 20);
    assert_eq!(options.paddings.figure_bottom, 8);
    assert_eq!(options.paddings.schema_bottom, 1);
    assert_eq!(options.header.height, 40);
    assert_eq!(options.header.font_size, 24);
    assert_eq!(options.footer.height, 32);
    assert_eq!(options.spacings.line_to_line, 8);
}

#[test]
fn render_options_merge_keeps_background() {
    let mut o = RenderOptions::default();
    o.background = Some(Color { red: 9, green: 9, blue: 9 });
    o.merge_in(PartialRenderOptions {
        background: None,
        paddings: None,
        spacings: None,
        header: None,
        footer: Some(no_text_options()),
        wave_dimensions: None,
        group_indicator_dimensions: None,
        edges: None,
    });
    assert_eq!(o.background, Some(Color { red: 9, green: 9, blue: 9 }));
    assert_eq!(o.footer.height, 32);
}

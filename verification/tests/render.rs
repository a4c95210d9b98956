use terminal_control::frame::{Attributes, Cell, Color, Cursor, Frame, Underline};
use terminal_control::render::box_drawing::{rects, UNITS};
use terminal_control::render::{
    block_graphic, graphic, patch, style_attributes, svg, xml, Graphic, Shape,
};

const WHITE: Color = Color { r: 255, g: 255, b: 255 };
const BLACK: Color = Color { r: 0, g: 0, b: 0 };

#[test]
fn emits_background_and_text_styles_in_svg() {
    let frame = Frame {
        version: 1,
        cols: 4,
        rows: 1,
        foreground: WHITE,
        background: BLACK,
        cursor: None,
        cells: vec![Cell {
            x: 0,
            y: 0,
            text: "Hi".to_owned(),
            width: 2,
            foreground: Color { r: 1, g: 2, b: 3 },
            background: Color { r: 4, g: 5, b: 6 },
            attributes: Attributes {
                bold: true,
                underline: Some(Underline::Single),
                ..Attributes::default()
            },
        }],
    };

    let shapes = svg(&frame, true);

    match &shapes[0] {
        Shape::Fill { x: 0, y: 0, width: 2, color } => assert_eq!(color.css(), "#040506"),
        other => panic!("unexpected {other:?}"),
    }
    match &shapes[1] {
        Shape::Text { x: 0, y: 0, color, style, content } => {
            assert_eq!(color.css(), "#010203");
            assert!(style.contains("font-weight=\"700\""));
            assert!(style.contains("text-decoration=\"underline\""));
            assert_eq!(content, "Hi");
        }
        other => panic!("unexpected {other:?}"),
    }
    assert_eq!(shapes.len(), 2);
}

#[test]
fn renders_block_elements_as_geometry_instead_of_font_glyphs() {
    let frame = Frame {
        version: 1,
        cols: 1,
        rows: 1,
        foreground: WHITE,
        background: BLACK,
        cursor: None,
        cells: vec![Cell {
            x: 0,
            y: 0,
            text: "▀".to_owned(),
            width: 1,
            foreground: WHITE,
            background: BLACK,
            attributes: Attributes::default(),
        }],
    };

    let shapes = svg(&frame, true);

    assert_eq!(shapes.len(), 1);
    match &shapes[0] {
        Shape::Block { graphic: Graphic::Patches(patches), .. } => {
            assert_eq!(patches.len(), 1);
            assert_eq!(f64::from(patches[0].height) / 8.0 * 18.0, 9.0);
        }
        other => panic!("unexpected {other:?}"),
    }
}

#[test]
fn preserves_physical_stroke_weight_across_axes() {
    let horizontal = rects('─', 9, 18).unwrap()[0];
    let vertical = rects('│', 9, 18).unwrap()[0];

    assert_eq!(horizontal.height, vertical.width);
    assert_eq!(f64::from(horizontal.height) / f64::from(UNITS), 0.72);
}

#[test]
fn reaches_cell_edges_for_contiguous_lines() {
    let horizontal = rects('━', 9, 18).unwrap()[0];
    let vertical = rects('┃', 9, 18).unwrap()[0];

    assert_eq!((horizontal.left, horizontal.width), (0, 9 * UNITS));
    assert_eq!((vertical.top, vertical.height), (0, 18 * UNITS));
}

#[test]
fn falls_back_for_non_box_glyphs() {
    assert_eq!(rects('a', 9, 18), None);
    assert_eq!(rects('┼', 9, 18).unwrap().len(), 2);
}

#[test]
fn markup_is_escaped() {
    assert_eq!(xml("a<b> & \"c\" 'd'"), "a&lt;b&gt; &amp; &quot;c&quot; &apos;d&apos;");
}

#[test]
fn styles_become_attributes() {
    assert_eq!(style_attributes(&Attributes::default()), "");
    assert_eq!(
        style_attributes(&Attributes {
            italic: true,
            faint: true,
            strikethrough: true,
            overline: true,
            ..Attributes::default()
        }),
        " font-style=\"italic\" opacity=\"0.55\" text-decoration=\"line-through overline\""
    );
}

#[test]
fn blocks_and_shades_are_geometry() {
    match block_graphic('▙') {
        Some(Graphic::Patches(patches)) => {
            assert_eq!(patches, [patch(0, 0, 4, 8), patch(4, 4, 4, 4)])
        }
        other => panic!("unexpected {other:?}"),
    }
    assert!(matches!(block_graphic('▒'), Some(Graphic::Shade(50))));
    assert!(block_graphic('a').is_none());
    let cell = Cell {
        x: 0,
        y: 0,
        text: "██".to_owned(),
        width: 2,
        foreground: WHITE,
        background: BLACK,
        attributes: Attributes::default(),
    };
    assert!(graphic(&cell).is_none());
}

#[test]
fn hidden_texts_and_hidden_cursors_are_not_drawn() {
    let frame = Frame {
        version: 1,
        cols: 1,
        rows: 1,
        foreground: WHITE,
        background: BLACK,
        cursor: Some(Cursor {
            x: 0,
            y: 0,
            color: WHITE,
            blinking: false,
        }),
        cells: vec![Cell {
            x: 0,
            y: 0,
            text: "x".to_owned(),
            width: 1,
            foreground: WHITE,
            background: BLACK,
            attributes: Attributes {
                invisible: true,
                ..Attributes::default()
            },
        }],
    };
    assert!(svg(&frame, false).is_empty());
    assert!(matches!(svg(&frame, true)[0], Shape::Cursor { x: 0, y: 0, .. }));
}

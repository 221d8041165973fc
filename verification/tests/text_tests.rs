use tetroid::color::Color;
use tetroid::text::{format_status, TextBlock};

#[test]
fn status_text_has_three_lines() {
    assert_eq!(format_status(0, 0, 0), "UPS: 0.00\nFPS: 0.00\nnum: 0");
    assert_eq!(format_status(6000, 14_285, 921_600), "UPS: 60.00\nFPS: 142.85\nnum: 921600");
    assert_eq!(format_status(5, 90, 7), "UPS: 0.05\nFPS: 0.90\nnum: 7");
    assert_eq!(format_status(100, 1_234_567, 10), "UPS: 1.00\nFPS: 12345.67\nnum: 10");
    assert_eq!(
        format_status(u128::MAX, 0, usize::MAX),
        format!(
            "UPS: 3402823669209384634633746074317682114.55\nFPS: 0.00\nnum: {}",
            usize::MAX
        )
    );
}

#[test]
fn status_label_starts_white_in_the_corner() {
    let label = TextBlock::status();
    assert_eq!(
        label,
        TextBlock {
            text: String::from("UPS: 0.00\nFPS: 0.00\nnum: 0"),
            x: 0,
            y: 0,
            z: 0,
            w: 100,
            h: 100,
            color: Color { r: 255, g: 255, b: 255, a: 255 },
            fontname: String::from("Standard"),
            fontsize: 14,
        }
    );
}

#[test]
fn colours_are_opaque_unless_alpha_is_given() {
    assert_eq!(Color::rgb(100, 160, 230), Color { r: 100, g: 160, b: 230, a: 255 });
    assert_eq!(Color::rgba(1, 2, 3, 4), Color { r: 1, g: 2, b: 3, a: 4 });
}

#[test]
fn standard_tables_name_one_colour_and_one_font() {
    assert_eq!(
        tetroid::color::standard_colors(),
        vec![("Blue", Color { r: 100, g: 160, b: 230, a: 255 })]
    );
    assert_eq!(
        tetroid::text::standard_fonts(),
        vec![("Standard", "rsc/disposabledroid-bb.regular.ttf")]
    );
}

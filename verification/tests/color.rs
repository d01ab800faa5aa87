use minal::color::{
    hex_rgb, indexed_color, resolve_cell_colors, resolve_color, CellAttrs, CellColor, ColorSource,
    PaletteColor, Shade,
};
use minal::agent::{status_text, AgentStatus};

#[test]
fn hex_to_rgba_valid() {
    assert_eq!(hex_rgb("#ff0000"), Some((255, 0, 0)));
}

#[test]
fn hex_to_rgba_without_hash() {
    assert_eq!(hex_rgb("00ff00"), Some((0, 255, 0)));
}

#[test]
fn hex_to_rgba_invalid_returns_black() {
    assert_eq!(hex_rgb("xyz"), None);
}

#[test]
fn hex_with_a_non_digit_is_invalid() {
    assert_eq!(hex_rgb("ff00zz"), None);
    assert_eq!(hex_rgb("#zz10Ab"), None);
    assert_eq!(hex_rgb("+f+F-1"), None);
    assert_eq!(hex_rgb("éé0000"), None);
    assert_eq!(hex_rgb("#12345"), None);
    assert_eq!(hex_rgb("#1e1e2eff"), Some((30, 30, 46)));
    assert_eq!(hex_rgb("#A0b1C2"), Some((160, 177, 194)));
}

#[test]
fn resolve_color_default() {
    assert_eq!(resolve_color(CellColor::Default, ColorSource::Foreground), ColorSource::Foreground);
}

#[test]
fn resolve_color_rgb() {
    assert_eq!(resolve_color(CellColor::Rgb(255, 0, 0), ColorSource::Background), ColorSource::Rgb(255, 0, 0));
}

#[test]
fn resolve_color_named() {
    assert_eq!(resolve_color(CellColor::Named(1), ColorSource::Foreground), ColorSource::Theme(1));
}

#[test]
fn resolve_cell_colors_inverse() {
    let attrs = CellAttrs { inverse: true, ..CellAttrs::default() };
    let (fg, bg) = resolve_cell_colors(CellColor::Default, CellColor::Default, attrs);
    assert_eq!(fg, Shade { source: ColorSource::Background, dimmed: false });
    assert_eq!(bg, Shade { source: ColorSource::Foreground, dimmed: false });
}

#[test]
fn resolve_cell_colors_hidden() {
    let attrs = CellAttrs { hidden: true, ..CellAttrs::default() };
    let (fg, bg) = resolve_cell_colors(CellColor::Default, CellColor::Default, attrs);
    assert_eq!(fg, bg);
}

#[test]
fn indexed_color_cube() {
    assert_eq!(indexed_color(16), PaletteColor::Rgb(0, 0, 0));
    assert_eq!(indexed_color(231), PaletteColor::Rgb(255, 255, 255));
    assert_eq!(indexed_color(16 + 36 + 6 * 2 + 3), PaletteColor::Rgb(95, 135, 175));
}

#[test]
fn indexed_color_grayscale() {
    assert_eq!(indexed_color(232), PaletteColor::Rgb(8, 8, 8));
    assert_eq!(indexed_color(255), PaletteColor::Rgb(238, 238, 238));
}

#[test]
fn indexed_color_named_range() {
    assert_eq!(indexed_color(0), PaletteColor::Theme(0));
    assert_eq!(indexed_color(15), PaletteColor::Theme(15));
}

#[test]
fn resolve_cell_colors_dim() {
    let attrs = CellAttrs { dim: true, ..CellAttrs::default() };
    let (fg, _bg) = resolve_cell_colors(CellColor::Rgb(255, 255, 255), CellColor::Default, attrs);
    assert_eq!(fg, Shade { source: ColorSource::Rgb(255, 255, 255), dimmed: true });
}

#[test]
fn resolve_cell_colors_bold_as_bright() {
    let attrs = CellAttrs { bold: true, ..CellAttrs::default() };
    let (fg, _bg) = resolve_cell_colors(CellColor::Named(1), CellColor::Default, attrs);
    assert_eq!(fg.source, ColorSource::Theme(9));
}

#[test]
fn resolve_cell_colors_bold_already_bright_unchanged() {
    let attrs = CellAttrs { bold: true, ..CellAttrs::default() };
    let (fg, _bg) = resolve_cell_colors(CellColor::Named(9), CellColor::Default, attrs);
    assert_eq!(fg.source, ColorSource::Theme(9));
}

#[test]
fn resolve_cell_colors_bold_rgb_no_bright() {
    let attrs = CellAttrs { bold: true, ..CellAttrs::default() };
    let (fg, _bg) = resolve_cell_colors(CellColor::Rgb(128, 0, 0), CellColor::Default, attrs);
    assert_eq!(fg.source, ColorSource::Rgb(128, 0, 0));
}

#[test]
fn indexed_color_full_256_range() {
    for i in 0..=255u8 {
        match indexed_color(i) {
            PaletteColor::Theme(n) => assert!(n < 16 && i < 16),
            PaletteColor::Rgb(..) => assert!(i >= 16),
        }
    }
}

#[test]
fn inverse_hidden_text_takes_the_text_colour_as_background() {
    let attrs = CellAttrs { inverse: true, hidden: true, dim: true, bold: false };
    let (fg, bg) = resolve_cell_colors(CellColor::Named(2), CellColor::Rgb(1, 2, 3), attrs);
    assert_eq!(bg, Shade { source: ColorSource::Theme(2), dimmed: true });
    assert_eq!(fg, bg);
}

#[test]
fn status_text_planning() {
    assert_eq!(status_text(AgentStatus::Planning), "Planning...");
}

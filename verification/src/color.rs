//! Colours of the terminal grid: theme colours written as hex, the
//! 256-colour palette, and which colour a cell's text and background take.

use vstd::prelude::*;

use crate::input::{boundary_at, byte_len};

verus! {

/// The value of an ASCII hex digit, in either case.
pub open spec fn hex_digit(b: u8) -> Option<u8> {
    if 0x30 <= b <= 0x39 {
        Some((b - 0x30) as u8)
    } else if 0x61 <= b <= 0x66 {
        Some((b - 0x61 + 10) as u8)
    } else if 0x41 <= b <= 0x46 {
        Some((b - 0x41 + 10) as u8)
    } else {
        None
    }
}

/// The number two hex digits write, the first the higher; `None` unless
/// both are hex digits.
pub open spec fn hex_pair(b0: u8, b1: u8) -> Option<u8> {
    match (hex_digit(b0), hex_digit(b1)) {
        (Some(x), Some(y)) => Some((x * 16 + y) as u8),
        _ => None,
    }
}

/// The bytes of a colour without a leading `#`.
pub open spec fn without_hash(b: Seq<u8>) -> Seq<u8> {
    if b.len() > 0 && b[0] == 0x23 {
        b.skip(1)
    } else {
        b
    }
}

/// The red, green and blue of a colour written as hex (`#rrggbb` or
/// `rrggbb`, anything after the sixth digit ignored); `None` when fewer
/// than six bytes follow the `#` or one of the six is no hex digit.
pub open spec fn hex_rgb_of(b: Seq<u8>) -> Option<(u8, u8, u8)> {
    let h = without_hash(b);
    if h.len() >= 6 {
        match (hex_pair(h[0], h[1]), hex_pair(h[2], h[3]), hex_pair(h[4], h[5])) {
            (Some(r), Some(g), Some(b)) => Some((r, g, b)),
            _ => None,
        }
    } else {
        None
    }
}

/// The characters of a colour without a leading `#`.
pub open spec fn without_hash_chars(s: Seq<char>) -> Seq<char> {
    if s.len() > 0 && s[0] == '#' {
        s.skip(1)
    } else {
        s
    }
}

fn hex_digit_value(b: u8) -> (v: Option<u8>)
    ensures
        v == hex_digit(b),
{
    if 0x30 <= b && b <= 0x39 {
        Some(b - 0x30)
    } else if 0x61 <= b && b <= 0x66 {
        Some(b - 0x61 + 10)
    } else if 0x41 <= b && b <= 0x46 {
        Some(b - 0x41 + 10)
    } else {
        None
    }
}

fn hex_pair_value(b0: u8, b1: u8) -> (v: Option<u8>)
    ensures
        v == hex_pair(b0, b1),
{
    match (hex_digit_value(b0), hex_digit_value(b1)) {
        (Some(x), Some(y)) => Some(x * 16 + y),
        _ => None,
    }
}

/// The red, green and blue of a colour written as hex. A text of six
/// bytes or more after the `#` must have character boundaries after its
/// second, fourth and sixth byte, where the pairs are cut.
pub fn hex_rgb(hex: &str) -> (rgb: Option<(u8, u8, u8)>)
    requires
        byte_len(without_hash_chars(hex@)) >= 6 ==> {
            &&& exists|k: int| boundary_at(without_hash_chars(hex@), k, 2)
            &&& exists|k: int| boundary_at(without_hash_chars(hex@), k, 4)
            &&& exists|k: int| boundary_at(without_hash_chars(hex@), k, 6)
        },
    ensures
        rgb == hex_rgb_of(vstd::utf8::encode_utf8(hex@)),
{
    let bytes = hex.as_bytes();
    let n = bytes.len();
    let start: usize = if n > 0 && bytes[0] == 0x23 {
        1
    } else {
        0
    };
    if n - start >= 6 {
        let r = hex_pair_value(bytes[start], bytes[start + 1]);
        let g = hex_pair_value(bytes[start + 2], bytes[start + 3]);
        let b = hex_pair_value(bytes[start + 4], bytes[start + 5]);
        match (r, g, b) {
            (Some(r), Some(g), Some(b)) => Some((r, g, b)),
            _ => None,
        }
    } else {
        None
    }
}

/// A colour of the 256-colour palette: one of the sixteen theme colours,
/// or a fixed red, green and blue.
#[derive(Debug, Clone, Copy, PartialEq, Eq, Structural)]
pub enum PaletteColor {
    Theme(u8),
    Rgb(u8, u8, u8),
}

/// The intensity of a step of the 6x6x6 colour cube.
pub open spec fn cube_level(v: u8) -> u8 {
    if v == 0 {
        0
    } else {
        (55 + 40 * v) as u8
    }
}

/// A 256-colour index: 0 to 15 the theme colours, 16 to 231 the 6x6x6
/// cube, 232 to 255 a grey ramp from 8 in steps of 10.
pub open spec fn palette_color(idx: u8) -> PaletteColor {
    if idx <= 15 {
        PaletteColor::Theme(idx)
    } else if idx <= 231 {
        let i = (idx - 16) as u8;
        PaletteColor::Rgb(
            cube_level(((i / 36) % 6) as u8),
            cube_level(((i / 6) % 6) as u8),
            cube_level((i % 6) as u8),
        )
    } else {
        let v = (8 + 10 * (idx - 232)) as u8;
        PaletteColor::Rgb(v, v, v)
    }
}

fn cube_level_of(v: u8) -> (l: u8)
    requires
        v < 6,
    ensures
        l == cube_level(v),
{
    if v == 0 {
        0
    } else {
        55 + 40 * v
    }
}

/// The colour of a 256-colour index.
pub fn indexed_color(idx: u8) -> (c: PaletteColor)
    ensures
        c == palette_color(idx),
{
    if idx <= 15 {
        PaletteColor::Theme(idx)
    } else if idx <= 231 {
        let i = idx - 16;
        PaletteColor::Rgb(cube_level_of((i / 36) % 6), cube_level_of((i / 6) % 6), cube_level_of(i % 6))
    } else {
        let v = 8 + 10 * (idx - 232);
        PaletteColor::Rgb(v, v, v)
    }
}

/// A cell's colour as the terminal records it.
#[derive(Debug, Clone, Copy, PartialEq, Eq, Structural)]
pub enum CellColor {
    /// The theme's foreground or background.
    Default,
    /// One of the sixteen theme colours.
    Named(u8),
    /// A 256-colour index.
    Indexed(u8),
    Rgb(u8, u8, u8),
}

/// The attributes of a cell that change its colours.
#[derive(Debug, Clone, Copy, PartialEq, Eq, Default, Structural)]
pub struct CellAttrs {
    pub bold: bool,
    pub dim: bool,
    pub inverse: bool,
    pub hidden: bool,
}

/// Where a colour that is drawn comes from.
#[derive(Debug, Clone, Copy, PartialEq, Eq, Structural)]
pub enum ColorSource {
    /// The theme's foreground.
    Foreground,
    /// The theme's background.
    Background,
    /// One of the sixteen theme colours.
    Theme(u8),
    Rgb(u8, u8, u8),
}

/// A colour to draw, and whether it is dimmed.
#[derive(Debug, Clone, Copy, PartialEq, Eq, Structural)]
pub struct Shade {
    pub source: ColorSource,
    pub dimmed: bool,
}

/// Where a cell colour comes from, with `default` for the theme's own.
pub open spec fn source_of(c: CellColor, default: ColorSource) -> ColorSource {
    match c {
        CellColor::Default => default,
        CellColor::Named(n) => ColorSource::Theme(n),
        CellColor::Indexed(i) => match palette_color(i) {
            PaletteColor::Theme(n) => ColorSource::Theme(n),
            PaletteColor::Rgb(r, g, b) => ColorSource::Rgb(r, g, b),
        },
        CellColor::Rgb(r, g, b) => ColorSource::Rgb(r, g, b),
    }
}

/// The text and background colours of a cell: bold text in one of the
/// first eight theme colours takes its bright twin; dim text is dimmed;
/// inverse swaps text and background; hidden text takes the background.
pub open spec fn cell_shades(fg: CellColor, bg: CellColor, attrs: CellAttrs) -> (Shade, Shade) {
    let fg_source = match fg {
        CellColor::Named(n) => if attrs.bold && n < 8 {
            ColorSource::Theme((n + 8) as u8)
        } else {
            source_of(fg, ColorSource::Foreground)
        },
        _ => source_of(fg, ColorSource::Foreground),
    };
    let f = Shade { source: fg_source, dimmed: attrs.dim };
    let b = Shade { source: source_of(bg, ColorSource::Background), dimmed: false };
    let (f2, b2) = if attrs.inverse {
        (b, f)
    } else {
        (f, b)
    };
    if attrs.hidden {
        (b2, b2)
    } else {
        (f2, b2)
    }
}

/// Where a cell colour comes from, with `default` for the theme's own.
pub fn resolve_color(c: CellColor, default: ColorSource) -> (s: ColorSource)
    ensures
        s == source_of(c, default),
{
    match c {
        CellColor::Default => default,
        CellColor::Named(n) => ColorSource::Theme(n),
        CellColor::Indexed(i) => match indexed_color(i) {
            PaletteColor::Theme(n) => ColorSource::Theme(n),
            PaletteColor::Rgb(r, g, b) => ColorSource::Rgb(r, g, b),
        },
        CellColor::Rgb(r, g, b) => ColorSource::Rgb(r, g, b),
    }
}

/// The text and background colours of a cell.
pub fn resolve_cell_colors(fg: CellColor, bg: CellColor, attrs: CellAttrs) -> (shades: (Shade, Shade))
    ensures
        shades == cell_shades(fg, bg, attrs),
{
    let mut f = Shade { source: resolve_color(fg, ColorSource::Foreground), dimmed: false };
    let mut b = Shade { source: resolve_color(bg, ColorSource::Background), dimmed: false };
    if attrs.bold {
        if let CellColor::Named(n) = fg {
            if n < 8 {
                f.source = ColorSource::Theme(n + 8);
            }
        }
    }
    if attrs.dim {
        f.dimmed = true;
    }
    if attrs.inverse {
        let t = f;
        f = b;
        b = t;
    }
    if attrs.hidden {
        f = b;
    }
    (f, b)
}

/// Inverse video swaps the text and background colours a cell would
/// have without it.
pub proof fn law_inverse_swaps(fg: CellColor, bg: CellColor, attrs: CellAttrs)
    requires
        !attrs.hidden,
    ensures
        cell_shades(fg, bg, CellAttrs { inverse: true, ..attrs }).0 == cell_shades(
            fg,
            bg,
            CellAttrs { inverse: false, ..attrs },
        ).1,
        cell_shades(fg, bg, CellAttrs { inverse: true, ..attrs }).1 == cell_shades(
            fg,
            bg,
            CellAttrs { inverse: false, ..attrs },
        ).0,
{
}

/// Hidden text is drawn in its background colour.
pub proof fn law_hidden_text_is_invisible(fg: CellColor, bg: CellColor, attrs: CellAttrs)
    requires
        attrs.hidden,
    ensures
        cell_shades(fg, bg, attrs).0 == cell_shades(fg, bg, attrs).1,
{
}

} // verus!

//! Plain data shared with the GPU renderer, and how many lines a text
//! takes when it wraps at a fixed number of cells.

use vstd::prelude::*;

use crate::text::str_to_chars;

verus! {

/// Information needed to render a single tab in the tab bar.
#[derive(Debug, Clone)]
pub struct TabBarInfo {
    pub title: String,
    pub is_active: bool,
}

/// Errors that can occur in the rendering engine.
#[derive(Debug)]
#[non_exhaustive]
pub enum RendererError {
    /// Failed to initialize the GPU surface.
    SurfaceInit(String),
    /// Shader compilation error.
    Shader(String),
    /// No suitable GPU adapter was found.
    AdapterNotFound,
    /// Failed to request a GPU device.
    DeviceRequest(String),
    /// Surface configuration failed.
    SurfaceConfig(String),
    /// Surface texture is outdated and needs reconfiguration.
    SurfaceOutdated,
    /// Surface was lost and may need recreation.
    SurfaceLost,
    /// GPU out of memory.
    OutOfMemory,
    /// Surface texture acquisition timed out (transient, may retry).
    SurfaceTimeout,
    /// A generic surface error from the backend.
    SurfaceOther(String),
    /// Buffer mapping failed during texture readback.
    BufferMap(String),
}

/// The line (from 1) and the column after laying out `s` with lines of
/// `width` cells: a line break starts a new line, and a character that
/// would go past the last cell goes first on a new line.
pub open spec fn wrap_position(s: Seq<char>, width: nat) -> (nat, nat)
    decreases s.len(),
{
    if s.len() == 0 {
        (1, 0)
    } else {
        let (line, col) = wrap_position(s.drop_last(), width);
        if s.last() == '\n' {
            (line + 1, 0)
        } else if col + 1 > width {
            (line + 1, 1)
        } else {
            (line, col + 1)
        }
    }
}

/// How many lines `s` takes with lines of `width` cells; one line for an
/// empty text, and one line when not a single cell fits.
pub open spec fn wrapped_lines(s: Seq<char>, width: nat) -> nat {
    if s.len() == 0 || width == 0 {
        1
    } else {
        wrap_position(s, width).0
    }
}

proof fn lemma_wrap_position_bounds(s: Seq<char>, width: nat)
    requires
        width > 0,
    ensures
        1 <= wrap_position(s, width).0 <= s.len() + 1,
        wrap_position(s, width).1 <= width,
    decreases s.len(),
{
    if s.len() > 0 {
        lemma_wrap_position_bounds(s.drop_last(), width);
    }
}

/// How many lines `text` takes when wrapped at `chars_per_line` cells.
pub fn wrapped_line_count(text: &str, chars_per_line: usize) -> (lines: usize)
    requires
        text@.len() < usize::MAX,
    ensures
        lines == wrapped_lines(text@, chars_per_line as nat),
{
    let chars = str_to_chars(text);
    if chars.len() == 0 || chars_per_line == 0 {
        return 1;
    }
    let ghost s = chars@;
    let mut lines: usize = 1;
    let mut col: usize = 0;
    let mut i: usize = 0;
    proof {
        assert(s.take(0) =~= Seq::<char>::empty());
    }
    while i < chars.len()
        invariant
            s == chars@,
            s.len() < usize::MAX,
            chars_per_line > 0,
            i <= s.len(),
            (lines as nat, col as nat) == wrap_position(s.take(i as int), chars_per_line as nat),
        decreases s.len() - i,
    {
        proof {
            assert(s.take(i + 1).drop_last() =~= s.take(i as int));
            lemma_wrap_position_bounds(s.take(i as int), chars_per_line as nat);
        }
        let c = chars[i];
        if c == '\n' {
            lines = lines + 1;
            col = 0;
        } else {
            if col >= chars_per_line {
                lines = lines + 1;
                col = 1;
            } else {
                col = col + 1;
            }
        }
        i = i + 1;
    }
    proof {
        assert(s.take(s.len() as int) =~= s);
    }
    lines
}

} // verus!

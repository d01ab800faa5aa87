//! Render data of the error panel, and the badge colour of an error category.

use vstd::prelude::*;

use crate::text::{ascii_lower, str_eq};

verus! {

/// An error entry to render in the panel.
#[derive(Debug, Clone)]
pub struct ErrorPanelEntry {
    /// Error category label (e.g. "Build", "Runtime").
    pub category: String,
    /// The command that failed.
    pub command: String,
    /// Brief summary of the error.
    pub summary: String,
    /// AI analysis explanation, if available.
    pub explanation: Option<String>,
    /// AI-suggested fix commands, if available.
    pub suggestions: Vec<String>,
}

/// The palette entry of an error category badge.
#[derive(Debug, Clone, Copy, PartialEq, Eq, Structural)]
pub enum CategoryColor {
    Build,
    Test,
    Runtime,
    Permission,
    NotFound,
    Network,
    Unknown,
}

/// What `str::to_lowercase` of std makes of `s` (full Unicode lower-case
/// mapping).
pub uninterp spec fn lowercase(s: Seq<char>) -> Seq<char>;

/// `str::to_lowercase` of std. An ASCII string has its letters A to Z
/// mapped to a to z and keeps every other character; beyond ASCII the
/// Unicode mapping is only named.
#[verifier::external_body]
fn str_to_lowercase(s: &str) -> (r: String)
    ensures
        r@ == lowercase(s@),
        (forall|i: int| 0 <= i < s@.len() ==> (s@[i] as u32) < 128) ==> r@ == s@.map_values(
            |c: char| ascii_lower(c),
        ),
{
    s.to_lowercase()
}

/// The badge colour of a lower-cased category name.
pub open spec fn category_of(lower: Seq<char>) -> CategoryColor {
    if lower == "build"@ {
        CategoryColor::Build
    } else if lower == "test"@ {
        CategoryColor::Test
    } else if lower == "runtime"@ {
        CategoryColor::Runtime
    } else if lower == "permission"@ {
        CategoryColor::Permission
    } else if lower == "not found"@ || lower == "notfound"@ || lower == "not_found"@ {
        CategoryColor::NotFound
    } else if lower == "network"@ {
        CategoryColor::Network
    } else {
        CategoryColor::Unknown
    }
}

/// Returns the badge colour for a category name that is already lower case.
pub fn category_color_of_lowercase(lower: &str) -> (color: CategoryColor)
    ensures
        color == category_of(lower@),
{
    if str_eq(lower, "build") {
        CategoryColor::Build
    } else if str_eq(lower, "test") {
        CategoryColor::Test
    } else if str_eq(lower, "runtime") {
        CategoryColor::Runtime
    } else if str_eq(lower, "permission") {
        CategoryColor::Permission
    } else if str_eq(lower, "not found") || str_eq(lower, "notfound") || str_eq(lower, "not_found") {
        CategoryColor::NotFound
    } else if str_eq(lower, "network") {
        CategoryColor::Network
    } else {
        CategoryColor::Unknown
    }
}

/// Returns the badge color for an error category string.
pub fn category_color(category: &str) -> (color: CategoryColor)
    ensures
        color == category_of(lowercase(category@)),
        (forall|i: int| 0 <= i < category@.len() ==> (category@[i] as u32) < 128) ==> color == category_of(
            category@.map_values(|c: char| ascii_lower(c)),
        ),
{
    let lower = str_to_lowercase(category);
    category_color_of_lowercase(lower.as_str())
}

} // verus!

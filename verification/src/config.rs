//! Window configuration.

use vstd::prelude::*;

verus! {

/// How the window is opened.
#[derive(Debug, Clone)]
pub struct WindowConfig {
    pub title: String,
    pub width: u32,
    pub height: u32,
    pub min_width: Option<u32>,
    pub min_height: Option<u32>,
    pub max_width: Option<u32>,
    pub max_height: Option<u32>,
    pub position_x: Option<i32>,
    pub position_y: Option<i32>,
    pub resizable: bool,
    pub fullscreen: bool,
    pub maximized: bool,
    pub visible: bool,
    pub decorations: bool,
    pub vsync: bool,
}

impl Default for WindowConfig {
    /// A visible, resizable and decorated window of 1600 by 900, with vertical sync.
    fn default() -> (r: Self)
        ensures
            r.title@ == "PrismaRev"@,
            r.width == 1600,
            r.height == 900,
            r.min_width is None,
            r.min_height is None,
            r.max_width is None,
            r.max_height is None,
            r.position_x is None,
            r.position_y is None,
            r.resizable,
            !r.fullscreen,
            !r.maximized,
            r.visible,
            r.decorations,
            r.vsync,
    {
        WindowConfig {
            title: "PrismaRev".to_owned(),
            width: 1600,
            height: 900,
            min_width: None,
            min_height: None,
            max_width: None,
            max_height: None,
            position_x: None,
            position_y: None,
            resizable: true,
            fullscreen: false,
            maximized: false,
            visible: true,
            decorations: true,
            vsync: true,
        }
    }
}

/// Optional attributes of a window: those that are set only as a pair.
#[derive(Clone, Copy, Debug, PartialEq, Eq)]
pub struct WindowLimits {
    pub min_size: Option<(u32, u32)>,
    pub max_size: Option<(u32, u32)>,
    pub position: Option<(i32, i32)>,
}

/// Both values, if both are there.
pub open spec fn both<T>(a: Option<T>, b: Option<T>) -> Option<(T, T)> {
    match (a, b) {
        (Some(x), Some(y)) => Some((x, y)),
        _ => None,
    }
}

impl WindowConfig {
    /// The size limits and the position that the window is created with.
    pub open spec fn limited(&self) -> WindowLimits {
        WindowLimits {
            min_size: both(self.min_width, self.min_height),
            max_size: both(self.max_width, self.max_height),
            position: both(self.position_x, self.position_y),
        }
    }

    /// The size limits and the position that the window is created with. A limit or a
    /// position with only one of its two values is ignored.
    pub fn limits(&self) -> (r: WindowLimits)
        ensures
            r == self.limited(),
    {
        let min_size = match (self.min_width, self.min_height) {
            (Some(w), Some(h)) => Some((w, h)),
            _ => None,
        };
        let max_size = match (self.max_width, self.max_height) {
            (Some(w), Some(h)) => Some((w, h)),
            _ => None,
        };
        let position = match (self.position_x, self.position_y) {
            (Some(x), Some(y)) => Some((x, y)),
            _ => None,
        };
        WindowLimits { min_size, max_size, position }
    }
}

/// A limit or a position is used as it is configured, width before height and across before
/// down, where both of its values are there, and not at all where one is missing.
pub proof fn limits_are_as_configured(config: WindowConfig, a: u32, b: u32, x: i32, y: i32)
    ensures
        config.min_width == Some(a) && config.min_height == Some(b) ==> config.limited().min_size
            == Some((a, b)),
        config.min_width is None || config.min_height is None ==> config.limited().min_size is None,
        config.max_width == Some(a) && config.max_height == Some(b) ==> config.limited().max_size
            == Some((a, b)),
        config.max_width is None || config.max_height is None ==> config.limited().max_size is None,
        config.position_x == Some(x) && config.position_y == Some(y) ==> config.limited().position
            == Some((x, y)),
        config.position_x is None || config.position_y is None ==> config.limited().position
            is None,
{
}

} // verus!

//! What an element of the user interface is made of.
//!
//! Lengths, colors and positions are bit patterns of single-precision numbers.

use vstd::prelude::*;

verus! {

/// Marks an element of the user interface.
#[derive(Clone, Copy, Debug, PartialEq, Eq, Structural)]
pub struct Node;

/// The element that an element stands in, by its number.
#[derive(Clone, Copy, Debug, PartialEq, Eq, Structural)]
pub struct UiParent(pub u32);

/// Where a text stands in its rectangle.
#[derive(Clone, Copy, Debug, PartialEq, Eq, Structural)]
pub enum TextAlign {
    Center,
    Left,
    Right,
}

impl Default for TextAlign {
    fn default() -> (r: Self)
        ensures
            r == TextAlign::Center,
    {
        TextAlign::Center
    }
}

/// What the pointer does to an element.
#[derive(Clone, Copy, Debug, PartialEq, Eq, Structural)]
pub struct Interaction {
    pub hovered: bool,
    pub pressed: bool,
    /// Holds for one frame.
    pub clicked: bool,
}

impl Default for Interaction {
    fn default() -> (r: Self)
        ensures
            !r.hovered,
            !r.pressed,
            !r.clicked,
    {
        Interaction { hovered: false, pressed: false, clicked: false }
    }
}

/// A rectangle on the screen in pixels: left, top, width and height.
#[derive(Clone, Copy, Debug)]
pub struct ComputedLayout {
    pub rect: [u32; 4],
}

impl ComputedLayout {
    pub fn left(&self) -> (r: u32)
        ensures
            r == self.rect@[0],
    {
        self.rect[0]
    }

    pub fn top(&self) -> (r: u32)
        ensures
            r == self.rect@[1],
    {
        self.rect[1]
    }

    pub fn width(&self) -> (r: u32)
        ensures
            r == self.rect@[2],
    {
        self.rect[2]
    }

    pub fn height(&self) -> (r: u32)
        ensures
            r == self.rect@[3],
    {
        self.rect[3]
    }
}

/// Bit pattern of one half.
pub const HALF: u32 = 0x3f00_0000;

/// Bit pattern of one.
pub const ONE: u32 = 0x3f80_0000;

/// Bit pattern of 16, the size of a text unless it is given.
pub const DEFAULT_FONT_SIZE: u32 = 0x4180_0000;

/// Where the edges of an element lie between those of the element it stands in: zero is
/// left or top, and one is right or bottom.
#[derive(Clone, Copy, Debug, PartialEq, Eq, Structural)]
pub struct Anchors {
    pub min_x: u32,
    pub min_y: u32,
    pub max_x: u32,
    pub max_y: u32,
}

impl Anchors {
    /// All of the element it stands in.
    pub fn stretch() -> (r: Self)
        ensures
            r == (Anchors { min_x: 0, min_y: 0, max_x: ONE, max_y: ONE }),
    {
        Anchors { min_x: 0, min_y: 0, max_x: ONE, max_y: ONE }
    }

    /// The left upper corner.
    pub fn top_left() -> (r: Self)
        ensures
            r == (Anchors { min_x: 0, min_y: 0, max_x: 0, max_y: 0 }),
    {
        Anchors { min_x: 0, min_y: 0, max_x: 0, max_y: 0 }
    }

    /// The middle.
    pub fn center() -> (r: Self)
        ensures
            r == (Anchors { min_x: HALF, min_y: HALF, max_x: HALF, max_y: HALF }),
    {
        Anchors { min_x: HALF, min_y: HALF, max_x: HALF, max_y: HALF }
    }

    /// The middle of the lower edge.
    pub fn bottom_center() -> (r: Self)
        ensures
            r == (Anchors { min_x: HALF, min_y: ONE, max_x: HALF, max_y: ONE }),
    {
        Anchors { min_x: HALF, min_y: ONE, max_x: HALF, max_y: ONE }
    }
}

impl Default for Anchors {
    fn default() -> (r: Self)
        ensures
            r == (Anchors { min_x: 0, min_y: 0, max_x: ONE, max_y: ONE }),
    {
        Anchors::stretch()
    }
}

/// The point of an element that is put in place: zero is left or top, and one is right
/// or bottom.
#[derive(Clone, Copy, Debug, PartialEq, Eq, Structural)]
pub struct Pivot {
    pub x: u32,
    pub y: u32,
}

impl Pivot {
    /// The middle.
    pub fn center() -> (r: Self)
        ensures
            r == (Pivot { x: HALF, y: HALF }),
    {
        Pivot { x: HALF, y: HALF }
    }

    /// The left upper corner.
    pub fn top_left() -> (r: Self)
        ensures
            r == (Pivot { x: 0, y: 0 }),
    {
        Pivot { x: 0, y: 0 }
    }
}

impl Default for Pivot {
    fn default() -> (r: Self)
        ensures
            r == (Pivot { x: HALF, y: HALF }),
    {
        Pivot::center()
    }
}

/// Distances from the anchors in pixels.
#[derive(Clone, Copy, Debug, PartialEq, Eq, Structural)]
pub struct Margin {
    pub left: u32,
    pub right: u32,
    pub top: u32,
    pub bottom: u32,
}

impl Default for Margin {
    fn default() -> (r: Self)
        ensures
            r == (Margin { left: 0, right: 0, top: 0, bottom: 0 }),
    {
        Margin { left: 0, right: 0, top: 0, bottom: 0 }
    }
}

/// How an element looks, and where it stands.
#[derive(Clone, Copy, Debug, PartialEq)]
pub struct Style {
    /// Width in pixels; the anchors decide where none is given.
    pub width: Option<u32>,
    /// Height in pixels; the anchors decide where none is given.
    pub height: Option<u32>,
    pub anchors: Anchors,
    pub pivot: Pivot,
    pub margin: Margin,
    /// Red, green, blue and opacity.
    pub background: [u32; 4],
    pub border_radius: u32,
    pub visible: bool,
}

/// A style without a background, of this size, at these anchors, with its middle as the
/// point that is put in place.
pub open spec fn is_plain(s: Style, width: Option<u32>, height: Option<u32>, anchors: Anchors) -> bool {
    &&& s.width == width
    &&& s.height == height
    &&& s.anchors == anchors
    &&& s.pivot == (Pivot { x: HALF, y: HALF })
    &&& s.margin == (Margin { left: 0, right: 0, top: 0, bottom: 0 })
    &&& s.background@ == seq![0u32, 0u32, 0u32, 0u32]
    &&& s.border_radius == 0
    &&& s.visible
}

impl Default for Style {
    fn default() -> (r: Self)
        ensures
            is_plain(r, None, None, (Anchors { min_x: 0, min_y: 0, max_x: ONE, max_y: ONE })),
    {
        let background: [u32; 4] = [0, 0, 0, 0];
        assert(background@ =~= seq![0u32, 0u32, 0u32, 0u32]);
        Style {
            width: None,
            height: None,
            anchors: Anchors::stretch(),
            pivot: Pivot::center(),
            margin: Margin { left: 0, right: 0, top: 0, bottom: 0 },
            background,
            border_radius: 0,
            visible: true,
        }
    }
}

impl Style {
    /// A transparent element that fills the one it stands in.
    pub fn fullscreen() -> (r: Self)
        ensures
            is_plain(r, None, None, (Anchors { min_x: 0, min_y: 0, max_x: ONE, max_y: ONE })),
    {
        Style::default()
    }

    /// An element of a given size, in the middle.
    pub fn fixed(w: u32, h: u32) -> (r: Self)
        ensures
            is_plain(
                r,
                Some(w),
                Some(h),
                (Anchors { min_x: HALF, min_y: HALF, max_x: HALF, max_y: HALF }),
            ),
    {
        let plain = Style::default();
        Style {
            width: Some(w),
            height: Some(h),
            anchors: Anchors::center(),
            pivot: Pivot::center(),
            margin: plain.margin,
            background: plain.background,
            border_radius: plain.border_radius,
            visible: plain.visible,
        }
    }
}

/// A text.
pub struct Text {
    pub content: String,
    pub font_size: u32,
    pub color: [u32; 4],
    pub alignment: TextAlign,
}

impl Default for Text {
    fn default() -> (r: Self)
        ensures
            r.content@ == Seq::<char>::empty(),
            r.font_size == DEFAULT_FONT_SIZE,
            r.color@ == seq![ONE, ONE, ONE, ONE],
            r.alignment == TextAlign::Center,
    {
        let color: [u32; 4] = [ONE, ONE, ONE, ONE];
        assert(color@ =~= seq![ONE, ONE, ONE, ONE]);
        Text {
            content: String::new(),
            font_size: DEFAULT_FONT_SIZE,
            color,
            alignment: TextAlign::Center,
        }
    }
}

/// A plain style has the size and the anchors that it is given, shows no background, and is
/// put in place by its middle, without a margin.
pub proof fn plain_style_is_see_through(
    s: Style,
    width: Option<u32>,
    height: Option<u32>,
    anchors: Anchors,
    c: int,
)
    requires
        is_plain(s, width, height, anchors),
        0 <= c < 4,
    ensures
        s.width == width && s.height == height && s.anchors == anchors,
        s.background@[c] == 0,
        s.border_radius == 0,
        s.pivot.x == HALF && s.pivot.y == HALF,
        s.margin.left == 0 && s.margin.right == 0 && s.margin.top == 0 && s.margin.bottom == 0,
        s.visible,
{
}

} // verus!

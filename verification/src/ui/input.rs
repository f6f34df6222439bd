//! Which elements the pointer is over, and what it does to them.

use vstd::prelude::*;

use crate::float_order::{at_most, is_at_most, is_nan, rank};
use crate::ui::components::Interaction;

verus! {

/// The pointer. Its place is in pixels, as bit patterns of single-precision numbers.
#[derive(Clone, Copy, Debug)]
pub struct UiInputState {
    pub cursor_pos: [u32; 2],
    /// The left button went down in this frame.
    pub left_clicked: bool,
    /// The left button is down.
    pub left_held: bool,
}

/// The edges of a rectangle on the screen, as bit patterns of single-precision numbers.
#[derive(Clone, Copy, Debug, PartialEq, Eq, Structural)]
pub struct Bounds {
    pub left: u32,
    pub top: u32,
    pub right: u32,
    pub bottom: u32,
}

/// The point is in the rectangle or on its edge.
pub open spec fn holds_point(b: Bounds, x: u32, y: u32) -> bool {
    at_most(b.left, x) && at_most(x, b.right) && at_most(b.top, y) && at_most(y, b.bottom)
}

/// An element that can be interacted with.
#[derive(Clone, Copy, Debug, PartialEq, Eq, Structural)]
pub struct UiTarget {
    /// It is an element of the user interface.
    pub is_node: bool,
    /// Its rectangle, where it has one.
    pub bounds: Option<Bounds>,
}

/// The pointer is over the element.
pub open spec fn is_hit(target: UiTarget, state: UiInputState) -> bool {
    match target.bounds {
        Some(b) => target.is_node && holds_point(b, state.cursor_pos@[0], state.cursor_pos@[1]),
        None => false,
    }
}

/// What the pointer does to an element in this frame. What it did before is forgotten.
pub open spec fn touched(target: UiTarget, state: UiInputState) -> Interaction {
    let hit = is_hit(target, state);
    Interaction {
        hovered: hit,
        pressed: hit && state.left_held,
        clicked: hit && state.left_clicked,
    }
}

/// Updates what the pointer does to each element. Without a pointer nothing changes.
pub fn ui_input_system(
    interactions: &mut Vec<Interaction>,
    targets: &Vec<UiTarget>,
    state: Option<UiInputState>,
)
    requires
        targets@.len() == old(interactions)@.len(),
    ensures
        match state {
            Some(s) => final(interactions)@ == targets@.map_values(|t: UiTarget| touched(t, s)),
            None => final(interactions)@ == old(interactions)@,
        },
{
    let s = match state {
        Some(s) => s,
        None => return,
    };
    let x: u32 = s.cursor_pos[0];
    let y: u32 = s.cursor_pos[1];
    let mut i: usize = 0;
    while i < targets.len()
        invariant
            i <= targets.len(),
            targets@.len() == interactions@.len(),
            x == s.cursor_pos@[0],
            y == s.cursor_pos@[1],
            forall|k: int| 0 <= k < i ==> #[trigger] interactions@[k] == touched(targets@[k], s),
        decreases targets.len() - i,
    {
        let hit: bool = match targets[i].bounds {
            Some(b) => targets[i].is_node && is_at_most(b.left, x) && is_at_most(x, b.right)
                && is_at_most(b.top, y) && is_at_most(y, b.bottom),
            None => false,
        };
        interactions.set(
            i,
            Interaction {
                hovered: hit,
                pressed: hit && s.left_held,
                clicked: hit && s.left_clicked,
            },
        );
        i = i + 1;
    }
    assert(interactions@ =~= targets@.map_values(|t: UiTarget| touched(t, s)));
}

/// An element that the pointer is not over is neither pressed nor clicked.
pub proof fn only_hovered_elements_react(target: UiTarget, state: UiInputState)
    ensures
        touched(target, state).pressed ==> touched(target, state).hovered,
        touched(target, state).clicked ==> touched(target, state).hovered,
{
}

/// A click holds for one frame: it is gone in the next one unless the button goes down
/// again.
pub proof fn click_lasts_one_frame(target: UiTarget, state: UiInputState)
    requires
        !state.left_clicked,
    ensures
        !touched(target, state).clicked,
{
}

/// An element of the user interface with a rectangle is hovered exactly where the pointer is
/// between its edges, both ways, or on one of them; it is pressed while the button is held
/// there, and clicked when the button goes down there.
pub proof fn pointer_between_the_edges_hovers(b: Bounds, state: UiInputState)
    ensures
        ({
            let i = touched(UiTarget { is_node: true, bounds: Some(b) }, state);
            let x = state.cursor_pos@[0];
            let y = state.cursor_pos@[1];
            let numbers = !is_nan(x) && !is_nan(y) && !is_nan(b.left) && !is_nan(b.right)
                && !is_nan(b.top) && !is_nan(b.bottom);
            &&& i.hovered <==> numbers && rank(b.left) <= rank(x) && rank(x) <= rank(b.right)
                && rank(b.top) <= rank(y) && rank(y) <= rank(b.bottom)
            &&& i.hovered ==> i.pressed == state.left_held && i.clicked == state.left_clicked
            &&& !i.hovered ==> !i.pressed && !i.clicked
        }),
        !touched(UiTarget { is_node: false, bounds: Some(b) }, state).hovered,
        !touched(UiTarget { is_node: true, bounds: None }, state).hovered,
{
}

} // verus!

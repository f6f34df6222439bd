//! Input routing and pointer lock: what a window event means for the input state and
//! for the window's cursor.
//!
//! Cursor positions and scroll amounts are only passed on, so their types are left to
//! the caller.

use vstd::prelude::*;

verus! {

/// Keys that the engine knows by name; any other key is known by its number.
#[derive(Clone, Copy, Debug, PartialEq, Eq, Structural)]
pub enum KeyCode {
    KeyW,
    KeyA,
    KeyS,
    KeyD,
    KeyQ,
    KeyE,
    Space,
    ShiftLeft,
    ShiftRight,
    ControlLeft,
    ControlRight,
    AltLeft,
    AltRight,
    Escape,
    Tab,
    Enter,
    ArrowUp,
    ArrowDown,
    ArrowLeft,
    ArrowRight,
    Digit0,
    Digit1,
    Digit2,
    Digit3,
    Digit4,
    Digit5,
    Digit6,
    Digit7,
    Digit8,
    Digit9,
    Other(u32),
}

/// Mouse buttons.
#[derive(Clone, Copy, Debug, PartialEq, Eq, Structural)]
pub enum MouseButton {
    Left,
    Right,
    Middle,
    Back,
    Forward,
    Other(u16),
}

/// Whether a key or button went down or up.
#[derive(Clone, Copy, Debug, PartialEq, Eq, Structural)]
pub enum ElementState {
    Pressed,
    Released,
}

/// Where a touch stands.
#[derive(Clone, Copy, Debug, PartialEq, Eq, Structural)]
pub enum TouchPhase {
    Started,
    Moved,
    Ended,
    Cancelled,
}

/// A window event that input handling looks at. `P` is a cursor position, `S` a scroll
/// amount.
#[derive(Debug, PartialEq)]
pub enum WindowEvent<P, S> {
    CloseRequested,
    Focused(bool),
    MouseInput { state: ElementState, button: MouseButton },
    CursorMoved(P),
    MouseWheel(S),
    Touch { phase: TouchPhase, position: P },
    Keyboard { key: KeyCode, state: ElementState },
    Unhandled,
}

/// What is done about an event, in order.
#[derive(Debug, PartialEq)]
pub enum InputAction<P, S> {
    /// Leave the event loop.
    Exit,
    /// Hide the cursor and confine it to the window.
    GrabPointer,
    /// Show the cursor and let it go.
    ReleasePointer,
    /// Tell the input manager whether the pointer is locked.
    SetLocked(bool),
    MouseButton(MouseButton, ElementState),
    MouseMove(P),
    SetMousePosition(P),
    Scroll(S),
    Keyboard(KeyCode, ElementState),
}

/// The part of the input state that decides about pointer lock.
#[derive(Clone, Copy, Debug, PartialEq, Eq, Structural)]
pub struct PointerState {
    /// The cursor is grabbed.
    pub pointer_locked: bool,
    /// The next click only brings the window back and does not grab the cursor.
    pub focus_return_click: bool,
    /// The cursor was let go while Alt is held, and is grabbed again afterwards.
    pub alt_temp_release: bool,
}

/// Either Alt key.
pub open spec fn is_alt(key: KeyCode) -> bool {
    key == KeyCode::AltLeft || key == KeyCode::AltRight
}

/// A click that takes the pointer: the left button goes down on an unlocked window that
/// is not just coming back into focus.
pub open spec fn click_grabs(st: PointerState, state: ElementState, button: MouseButton) -> bool {
    &&& state == ElementState::Pressed
    &&& button == MouseButton::Left
    &&& !st.pointer_locked
    &&& !st.focus_return_click
}

/// A click that only brings the window back into focus.
pub open spec fn click_returns(st: PointerState, state: ElementState, button: MouseButton) -> bool {
    &&& state == ElementState::Pressed
    &&& button == MouseButton::Left
    &&& !st.pointer_locked
    &&& st.focus_return_click
}

/// A key that lets go of a locked pointer.
pub open spec fn key_releases(st: PointerState, key: KeyCode, state: ElementState) -> bool {
    &&& state == ElementState::Pressed
    &&& key == KeyCode::Escape || is_alt(key)
    &&& st.pointer_locked
}

/// A key that takes the pointer back.
pub open spec fn key_regrabs(st: PointerState, key: KeyCode, state: ElementState) -> bool {
    &&& state == ElementState::Released
    &&& is_alt(key)
    &&& st.alt_temp_release
}

/// The state after an event.
pub open spec fn next_state<P, S>(st: PointerState, event: WindowEvent<P, S>) -> PointerState {
    match event {
        WindowEvent::Focused(gained) => PointerState {
            pointer_locked: false,
            focus_return_click: gained,
            ..st
        },
        WindowEvent::MouseInput { state, button } => if click_returns(st, state, button) {
            PointerState { focus_return_click: false, ..st }
        } else if click_grabs(st, state, button) {
            PointerState { pointer_locked: true, ..st }
        } else {
            st
        },
        WindowEvent::Keyboard { key, state } => if key_releases(st, key, state) {
            PointerState { pointer_locked: false, alt_temp_release: is_alt(key), ..st }
        } else if key_regrabs(st, key, state) {
            PointerState { pointer_locked: true, alt_temp_release: false, ..st }
        } else {
            st
        },
        _ => st,
    }
}

/// Letting go of the pointer, where it is locked.
pub open spec fn release_if<P, S>(locked: bool) -> Seq<InputAction<P, S>> {
    if locked {
        seq![InputAction::ReleasePointer, InputAction::SetLocked(false)]
    } else {
        Seq::empty()
    }
}

/// What is done about an event.
pub open spec fn actions_for<P, S>(st: PointerState, event: WindowEvent<P, S>) -> Seq<
    InputAction<P, S>,
> {
    match event {
        WindowEvent::CloseRequested => seq![InputAction::Exit],
        WindowEvent::Focused(_) => release_if(st.pointer_locked),
        WindowEvent::MouseInput { state, button } => if click_grabs(st, state, button) {
            seq![InputAction::GrabPointer, InputAction::SetLocked(true)]
        } else {
            seq![InputAction::MouseButton(button, state)]
        },
        WindowEvent::CursorMoved(position) => seq![InputAction::MouseMove(position)],
        WindowEvent::MouseWheel(amount) => seq![InputAction::Scroll(amount)],
        WindowEvent::Touch { phase, position } => match phase {
            TouchPhase::Started => seq![
                InputAction::SetMousePosition(position),
                InputAction::MouseButton(MouseButton::Left, ElementState::Pressed),
            ],
            TouchPhase::Moved => seq![InputAction::MouseMove(position)],
            _ => seq![InputAction::MouseButton(MouseButton::Left, ElementState::Released)],
        },
        WindowEvent::Keyboard { key, state } => {
            let pressed = seq![InputAction::Keyboard(key, state)];
            if key_releases(st, key, state) {
                release_if(true) + pressed
            } else if key_regrabs(st, key, state) {
                seq![InputAction::GrabPointer, InputAction::SetLocked(true)] + pressed
            } else {
                pressed
            }
        },
        WindowEvent::Unhandled => Seq::empty(),
    }
}

fn is_alt_key(key: KeyCode) -> (r: bool)
    ensures
        r == is_alt(key),
{
    key == KeyCode::AltLeft || key == KeyCode::AltRight
}

/// Routes a window event: updates the pointer-lock state and says what to do to the
/// window and to the input manager.
pub fn handle_input_event<P, S>(st: &mut PointerState, event: WindowEvent<P, S>) -> (r:
    Vec<InputAction<P, S>>)
    ensures
        *final(st) == next_state(*old(st), event),
        r@ == actions_for(*old(st), event),
{
    let mut actions: Vec<InputAction<P, S>> = Vec::new();
    match event {
        WindowEvent::CloseRequested => {
            actions.push(InputAction::Exit);
        },
        WindowEvent::Focused(gained) => {
            st.focus_return_click = gained;
            if st.pointer_locked {
                actions.push(InputAction::ReleasePointer);
                actions.push(InputAction::SetLocked(false));
                st.pointer_locked = false;
            }
        },
        WindowEvent::MouseInput { state, button } => {
            let left_down: bool = state == ElementState::Pressed && button == MouseButton::Left
                && !st.pointer_locked;
            if left_down && !st.focus_return_click {
                actions.push(InputAction::GrabPointer);
                actions.push(InputAction::SetLocked(true));
                st.pointer_locked = true;
            } else {
                if left_down {
                    st.focus_return_click = false;
                }
                actions.push(InputAction::MouseButton(button, state));
            }
        },
        WindowEvent::CursorMoved(position) => {
            actions.push(InputAction::MouseMove(position));
        },
        WindowEvent::MouseWheel(amount) => {
            actions.push(InputAction::Scroll(amount));
        },
        WindowEvent::Touch { phase, position } => match phase {
            TouchPhase::Started => {
                actions.push(InputAction::SetMousePosition(position));
                actions.push(InputAction::MouseButton(MouseButton::Left, ElementState::Pressed));
            },
            TouchPhase::Moved => {
                actions.push(InputAction::MouseMove(position));
            },
            _ => {
                actions.push(InputAction::MouseButton(MouseButton::Left, ElementState::Released));
            },
        },
        WindowEvent::Keyboard { key, state } => {
            if state == ElementState::Pressed {
                if (key == KeyCode::Escape || is_alt_key(key)) && st.pointer_locked {
                    actions.push(InputAction::ReleasePointer);
                    actions.push(InputAction::SetLocked(false));
                    st.pointer_locked = false;
                    st.alt_temp_release = is_alt_key(key);
                }
            } else if is_alt_key(key) && st.alt_temp_release {
                actions.push(InputAction::GrabPointer);
                actions.push(InputAction::SetLocked(true));
                st.pointer_locked = true;
                st.alt_temp_release = false;
            }
            actions.push(InputAction::Keyboard(key, state));
        },
        WindowEvent::Unhandled => {},
    }
    assert(actions@ =~= actions_for(*old(st), event));
    actions
}

// ---------------------------------------------------------------------------
// Laws
// ---------------------------------------------------------------------------

/// A change of focus leaves the pointer unlocked, and only a gain of focus makes the
/// next click a mere return.
pub proof fn focus_change_unlocks<P, S>(st: PointerState, gained: bool)
    ensures
        !next_state(st, WindowEvent::<P, S>::Focused(gained)).pointer_locked,
        next_state(st, WindowEvent::<P, S>::Focused(gained)).focus_return_click == gained,
{
}

/// Escape always leaves the pointer unlocked.
pub proof fn escape_unlocks<P, S>(st: PointerState)
    ensures
        !next_state(
            st,
            WindowEvent::<P, S>::Keyboard { key: KeyCode::Escape, state: ElementState::Pressed },
        ).pointer_locked,
{
}

/// Holding Alt lets go of a locked pointer for as long as it is held: on release the
/// state is as before, but for the flag that Alt itself uses.
pub proof fn alt_round_trip<P, S>(st: PointerState, down: KeyCode, up: KeyCode)
    requires
        st.pointer_locked,
        is_alt(down),
        is_alt(up),
    ensures
        ({
            let held = next_state(
                st,
                WindowEvent::<P, S>::Keyboard { key: down, state: ElementState::Pressed },
            );
            let after = next_state(
                held,
                WindowEvent::<P, S>::Keyboard { key: up, state: ElementState::Released },
            );
            &&& !held.pointer_locked
            &&& after == (PointerState { alt_temp_release: false, ..st })
        }),
{
}

/// After the window has come back into focus, the first left click does not grab the
/// pointer and the second one does.
pub proof fn second_click_grabs<P, S>(st: PointerState)
    ensures
        ({
            let click = WindowEvent::<P, S>::MouseInput {
                state: ElementState::Pressed,
                button: MouseButton::Left,
            };
            let back = next_state(st, WindowEvent::<P, S>::Focused(true));
            let first = next_state(back, click);
            let second = next_state(first, click);
            &&& !first.pointer_locked
            &&& second.pointer_locked
        }),
{
}

/// The lock that the input manager is told about is the one that the window was given:
/// every `SetLocked` directly follows the matching cursor command, and tells the new
/// state; without one the state keeps its lock.
pub proof fn lock_follows_window<P, S>(st: PointerState, event: WindowEvent<P, S>)
    ensures
        ({
            let acts = actions_for(st, event);
            let after = next_state(st, event);
            &&& forall|i: int|
                0 <= i < acts.len() ==> ((#[trigger] acts[i]) matches InputAction::SetLocked(locked)
                    ==> {
                    &&& i == 1
                    &&& after.pointer_locked == locked
                    &&& acts[0] == (if locked {
                        InputAction::<P, S>::GrabPointer
                    } else {
                        InputAction::<P, S>::ReleasePointer
                    })
                })
            &&& after.pointer_locked != st.pointer_locked ==> acts.len() >= 2 && acts[1]
                == InputAction::<P, S>::SetLocked(after.pointer_locked)
        }),
{
}

/// The button as it is reported to the input manager by an action, if it is.
pub open spec fn reported_button<P, S>(action: InputAction<P, S>) -> Option<
    (MouseButton, ElementState),
> {
    match action {
        InputAction::MouseButton(button, state) => Some((button, state)),
        _ => None,
    }
}

/// A key is reported as it went, exactly once and last, whatever the pointer does
/// meanwhile: a press as a press of that key, a release as a release of that key.
pub proof fn key_is_reported_as_it_went<P, S>(st: PointerState, key: KeyCode, state: ElementState)
    ensures
        ({
            let acts = actions_for(st, WindowEvent::<P, S>::Keyboard { key, state });
            &&& acts.len() > 0
            &&& acts.last() == InputAction::<P, S>::Keyboard(key, state)
            &&& forall|i: int|
                0 <= i < acts.len() - 1 ==> (#[trigger] acts[i]) !is Keyboard
        }),
{
}

/// No other event is reported as a key, and only the closing of the window leaves the
/// loop.
pub proof fn only_keys_are_keys<P, S>(st: PointerState, event: WindowEvent<P, S>)
    ensures
        forall|i: int|
            0 <= i < actions_for(st, event).len() ==> {
                &&& (#[trigger] actions_for(st, event)[i]) is Keyboard ==> event is Keyboard
                &&& actions_for(st, event)[i] is Exit <==> event is CloseRequested
            },
        event is CloseRequested ==> actions_for(st, event).len() == 1,
{
}

/// A mouse button is reported as it went, unless its press grabs the pointer. A touch is
/// the left button: it goes down where the finger does, and up when the finger is gone.
pub proof fn button_is_reported_as_it_went<P, S>(
    st: PointerState,
    state: ElementState,
    button: MouseButton,
    phase: TouchPhase,
    position: P,
)
    ensures
        ({
            let event = WindowEvent::<P, S>::MouseInput { state, button };
            let acts = actions_for(st, event);
            let grabs = next_state(st, event).pointer_locked && !st.pointer_locked;
            &&& !grabs ==> acts.len() == 1 && reported_button(acts[0]) == Some((button, state))
            &&& grabs ==> {
                &&& state == ElementState::Pressed && button == MouseButton::Left
                &&& forall|i: int| 0 <= i < acts.len() ==> (#[trigger] acts[i]) !is MouseButton
            }
        }),
        ({
            let acts = actions_for(st, WindowEvent::<P, S>::Touch { phase, position });
            match phase {
                TouchPhase::Started => {
                    &&& acts.len() == 2
                    &&& acts[0] == InputAction::<P, S>::SetMousePosition(position)
                    &&& reported_button(acts[1]) == Some((MouseButton::Left, ElementState::Pressed))
                },
                TouchPhase::Moved => acts.len() == 1 && acts[0] == InputAction::<P, S>::MouseMove(
                    position,
                ),
                TouchPhase::Ended | TouchPhase::Cancelled => acts.len() == 1 && reported_button(
                    acts[0],
                ) == Some((MouseButton::Left, ElementState::Released)),
            }
        }),
{
}

/// What the mouse does is passed on as it came: the position, and the amount scrolled. It
/// does not touch the pointer lock, nor does an event that nothing is done about.
pub proof fn motion_is_passed_on<P, S>(
    st: PointerState,
    position: P,
    amount: S,
    phase: TouchPhase,
)
    ensures
        actions_for(st, WindowEvent::<P, S>::CursorMoved(position)) == seq![
            InputAction::<P, S>::MouseMove(position),
        ],
        actions_for(st, WindowEvent::<P, S>::MouseWheel(amount)) == seq![
            InputAction::<P, S>::Scroll(amount),
        ],
        actions_for(st, WindowEvent::<P, S>::Unhandled).len() == 0,
        next_state(st, WindowEvent::<P, S>::CursorMoved(position)) == st,
        next_state(st, WindowEvent::<P, S>::MouseWheel(amount)) == st,
        next_state(st, WindowEvent::<P, S>::Unhandled) == st,
        next_state(st, WindowEvent::<P, S>::CloseRequested) == st,
        next_state(st, WindowEvent::<P, S>::Touch { phase, position }) == st,
{
}

/// The pointer is locked only by a left click on an unlocked window or by letting go of
/// Alt, and unlocked only by a change of focus, by Escape or by Alt.
pub proof fn lock_changes_for_a_reason<P, S>(st: PointerState, event: WindowEvent<P, S>)
    ensures
        ({
            let after = next_state(st, event);
            &&& after.pointer_locked && !st.pointer_locked ==> match event {
                WindowEvent::MouseInput { state, button } => state == ElementState::Pressed
                    && button == MouseButton::Left && !st.focus_return_click,
                WindowEvent::Keyboard { key, state } => state == ElementState::Released && (key
                    == KeyCode::AltLeft || key == KeyCode::AltRight) && st.alt_temp_release,
                _ => false,
            }
            &&& !after.pointer_locked && st.pointer_locked ==> match event {
                WindowEvent::Focused(_) => true,
                WindowEvent::Keyboard { key, state } => state == ElementState::Pressed && (key
                    == KeyCode::AltLeft || key == KeyCode::AltRight || key == KeyCode::Escape),
                _ => false,
            }
            &&& after.focus_return_click && !st.focus_return_click ==> event
                == WindowEvent::<P, S>::Focused(true)
        }),
{
}

/// A left click on an unlocked window that has its focus grabs the pointer.
pub proof fn left_click_grabs<P, S>(st: PointerState)
    requires
        !st.pointer_locked,
        !st.focus_return_click,
    ensures
        ({
            let click = WindowEvent::<P, S>::MouseInput {
                state: ElementState::Pressed,
                button: MouseButton::Left,
            };
            &&& next_state(st, click) == (PointerState { pointer_locked: true, ..st })
            &&& actions_for(st, click).contains(InputAction::<P, S>::GrabPointer)
        }),
{
    let click = WindowEvent::<P, S>::MouseInput {
        state: ElementState::Pressed,
        button: MouseButton::Left,
    };
    assert(actions_for(st, click)[0] == InputAction::<P, S>::GrabPointer);
}

} // verus!

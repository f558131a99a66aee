//! The inputs that are held at a moment: which keys are down, how far the
//! mouse has moved, whether the wheel has turned.

use vstd::prelude::*;
use crate::types::POSITIVE_INFINITY;

verus! {

/// Bit pattern of the single-precision number nearest to 0.00001: mouse
/// motion up to this much counts as none.
pub const EPS_MOUSE: u32 = 0x3727_C5AC;

/// The keys that the camera controls read.
#[derive(Clone, Copy, Debug, PartialEq, Eq, Structural)]
pub enum Key {
    KeyW,
    KeyS,
    KeyA,
    KeyD,
    Space,
    KeyC,
    KeyQ,
    KeyE,
    ShiftLeft,
    /// Any other key.
    Other,
}

/// What a device reports, as far as the camera controls read it.
#[derive(Clone, Copy, Debug, PartialEq, Eq)]
pub enum InputEvent {
    /// A key went down or up.
    Key { key: Key, pressed: bool },
    /// A mouse button went down or up.
    Button { button: u32, pressed: bool },
    /// The mouse moved. The numbers are the motion along each axis since the
    /// inputs were last used, this motion included.
    MouseMotion { total_x: u32, total_y: u32 },
    /// The wheel turned by `y` lines.
    ScrollLines { y: u32 },
    /// Anything else.
    Other,
}

/// The inputs that are held.
#[derive(Clone, Copy, Debug, PartialEq, Eq)]
pub struct InputsCommanded {
    pub fwd: bool,
    pub back: bool,
    pub left: bool,
    pub right: bool,
    pub up: bool,
    pub down: bool,
    pub roll_ccw: bool,
    pub roll_cw: bool,
    pub mouse_delta_x: u32,
    pub mouse_delta_y: u32,
    pub run: bool,
    pub scroll_up: bool,
    pub scroll_down: bool,
    pub free_look: bool,
    pub panning: bool,
    /// Set while the cursor is outside the window.
    pub cursor_out_of_window: bool,
}

/// Whether the number with bit pattern `number` is above zero. The sign bit
/// set means negative; patterns above infinity are not numbers.
pub open spec fn is_positive(number: u32) -> bool {
    0 < number <= POSITIVE_INFINITY
}

/// Whether the number with bit pattern `number` is beyond `EPS_MOUSE` on
/// either side of zero. Clearing the sign bit gives the bit pattern of the
/// absolute value.
pub open spec fn is_motion(number: u32) -> bool {
    EPS_MOUSE < number % 0x8000_0000 <= POSITIVE_INFINITY
}

impl InputsCommanded {
    /// Whether anything is held that moves the camera. Running and looking
    /// around only change what the other inputs do.
    pub open spec fn present(self) -> bool {
        self.fwd || self.back || self.left || self.right || self.up || self.down || self.roll_ccw
            || self.roll_cw || is_motion(self.mouse_delta_x) || is_motion(self.mouse_delta_y)
            || self.scroll_up || self.scroll_down
    }

    /// The inputs after a key went down or up.
    pub open spec fn with_key(self, key: Key, pressed: bool) -> InputsCommanded {
        match key {
            Key::KeyW => InputsCommanded { fwd: pressed, ..self },
            Key::KeyS => InputsCommanded { back: pressed, ..self },
            Key::KeyA => InputsCommanded { left: pressed, ..self },
            Key::KeyD => InputsCommanded { right: pressed, ..self },
            Key::Space => InputsCommanded { up: pressed, ..self },
            Key::KeyC => InputsCommanded { down: pressed, ..self },
            Key::KeyQ => InputsCommanded { roll_ccw: pressed, ..self },
            Key::KeyE => InputsCommanded { roll_cw: pressed, ..self },
            Key::ShiftLeft => InputsCommanded { run: pressed, ..self },
            Key::Other => self,
        }
    }

    /// The inputs after `event`, where `left_click` is the number that the
    /// platform gives the left mouse button. The left button looks around
    /// while it is down; the wheel scrolls down for a turn above zero and up
    /// for any other.
    pub open spec fn after(self, event: InputEvent, left_click: u32) -> InputsCommanded {
        match event {
            InputEvent::Key { key, pressed } => self.with_key(key, pressed),
            InputEvent::Button { button, pressed } => if button == left_click {
                InputsCommanded { free_look: pressed, ..self }
            } else {
                self
            },
            InputEvent::MouseMotion { total_x, total_y } => InputsCommanded {
                mouse_delta_x: total_x,
                mouse_delta_y: total_y,
                ..self
            },
            InputEvent::ScrollLines { y } => if is_positive(y) {
                InputsCommanded { scroll_down: true, ..self }
            } else {
                InputsCommanded { scroll_up: true, ..self }
            },
            InputEvent::Other => self,
        }
    }

    /// Return true if there are any inputs.
    pub fn inputs_present(&self) -> (present: bool)
        ensures
            present == self.present(),
    {
        self.fwd || self.back || self.left || self.right || self.up || self.down || self.roll_ccw
            || self.roll_cw || beyond_eps(self.mouse_delta_x) || beyond_eps(self.mouse_delta_y)
            || self.scroll_up || self.scroll_down
    }
}

impl Default for InputsCommanded {
    /// Nothing is held.
    fn default() -> (inputs: InputsCommanded)
        ensures
            inputs == (InputsCommanded {
                fwd: false,
                back: false,
                left: false,
                right: false,
                up: false,
                down: false,
                roll_ccw: false,
                roll_cw: false,
                mouse_delta_x: 0,
                mouse_delta_y: 0,
                run: false,
                scroll_up: false,
                scroll_down: false,
                free_look: false,
                panning: false,
                cursor_out_of_window: false,
            }),
            !inputs.present(),
    {
        InputsCommanded {
            fwd: false,
            back: false,
            left: false,
            right: false,
            up: false,
            down: false,
            roll_ccw: false,
            roll_cw: false,
            mouse_delta_x: 0,
            mouse_delta_y: 0,
            run: false,
            scroll_up: false,
            scroll_down: false,
            free_look: false,
            panning: false,
            cursor_out_of_window: false,
        }
    }
}

/// Whether the number is beyond `EPS_MOUSE` on either side of zero.
fn beyond_eps(number: u32) -> (beyond: bool)
    ensures
        beyond == is_motion(number),
{
    let magnitude = number % 0x8000_0000;
    EPS_MOUSE < magnitude && magnitude <= POSITIVE_INFINITY
}

/// Holds or lets go of what `key` stands for.
fn set_key(held: InputsCommanded, key: Key, pressed: bool) -> (inputs: InputsCommanded)
    ensures
        inputs == held.with_key(key, pressed),
{
    match key {
        Key::KeyW => InputsCommanded { fwd: pressed, ..held },
        Key::KeyS => InputsCommanded { back: pressed, ..held },
        Key::KeyA => InputsCommanded { left: pressed, ..held },
        Key::KeyD => InputsCommanded { right: pressed, ..held },
        Key::Space => InputsCommanded { up: pressed, ..held },
        Key::KeyC => InputsCommanded { down: pressed, ..held },
        Key::KeyQ => InputsCommanded { roll_ccw: pressed, ..held },
        Key::KeyE => InputsCommanded { roll_cw: pressed, ..held },
        Key::ShiftLeft => InputsCommanded { run: pressed, ..held },
        Key::Other => held,
    }
}

/// Modifies the commanded inputs in place; triggered by a single input event.
pub fn add_input_cmd(event: &InputEvent, inputs: &mut InputsCommanded, left_click: u32)
    ensures
        *final(inputs) == old(inputs).after(*event, left_click),
{
    let held = *inputs;
    *inputs = match event {
        InputEvent::Key { key, pressed } => set_key(held, *key, *pressed),
        InputEvent::Button { button, pressed } => {
            if *button == left_click {
                InputsCommanded { free_look: *pressed, ..held }
            } else {
                held
            }
        },
        InputEvent::MouseMotion { total_x, total_y } => InputsCommanded {
            mouse_delta_x: *total_x,
            mouse_delta_y: *total_y,
            ..held
        },
        // Move the camera forward and back on scroll.
        InputEvent::ScrollLines { y } => {
            if 0 < *y && *y <= POSITIVE_INFINITY {
                InputsCommanded { scroll_down: true, ..held }
            } else {
                InputsCommanded { scroll_up: true, ..held }
            }
        },
        InputEvent::Other => held,
    };
}

} // verus!

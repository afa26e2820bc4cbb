use vstd::prelude::*;

verus! {

/// How the camera moves: around a target, or freely.
#[derive(Debug, Clone, Copy, PartialEq, Eq, Structural)]
pub enum CameraMode {
    Orbit,
    Fly,
}

impl CameraMode {
    /// The other mode, as the mode key switches to it.
    pub fn toggled(self) -> (next: Self)
        ensures
            self == CameraMode::Orbit ==> next == CameraMode::Fly,
            self == CameraMode::Fly ==> next == CameraMode::Orbit,
    {
        match self {
            CameraMode::Orbit => CameraMode::Fly,
            CameraMode::Fly => CameraMode::Orbit,
        }
    }
}

/// The keys the camera listens to.
#[derive(Debug, Clone, Copy, PartialEq, Eq, Structural)]
pub enum CameraKey {
    Tab,
    W,
    S,
    A,
    D,
    E,
    Q,
    ShiftLeft,
    ShiftRight,
    Other,
}

/// What a key event did to the camera.
#[derive(Debug, Clone, Copy, PartialEq, Eq, Structural)]
pub enum KeyResponse {
    /// The mode key was pressed: switch between orbit and fly.
    ToggleMode,
    /// A movement key changed state.
    Handled,
    /// The event is not the camera's.
    Ignored,
}

/// Which fly-mode movement keys are held.
#[derive(Debug, Clone, Copy, PartialEq, Eq, Structural)]
pub struct MovementKeys {
    pub forward: bool,
    pub backward: bool,
    pub left: bool,
    pub right: bool,
    pub up: bool,
    pub down: bool,
    pub fast: bool,
}

impl Default for MovementKeys {
    /// No key held.
    fn default() -> (keys: Self)
        ensures
            !keys.forward && !keys.backward && !keys.left && !keys.right && !keys.up && !keys.down
                && !keys.fast,
    {
        MovementKeys {
            forward: false,
            backward: false,
            left: false,
            right: false,
            up: false,
            down: false,
            fast: false,
        }
    }
}

impl MovementKeys {
    /// The keys after `key` went down (`pressed`) or up: W, S, A, D, E and Q
    /// are held for forward, backward, left, right, up and down, either Shift
    /// for speed; a press of Tab switches the mode; anything else is not the
    /// camera's.
    pub open spec fn apply_key_spec(self, key: CameraKey, pressed: bool) -> (Self, KeyResponse) {
        match key {
            CameraKey::Tab => if pressed {
                (self, KeyResponse::ToggleMode)
            } else {
                (self, KeyResponse::Ignored)
            },
            CameraKey::W => (MovementKeys { forward: pressed, ..self }, KeyResponse::Handled),
            CameraKey::S => (MovementKeys { backward: pressed, ..self }, KeyResponse::Handled),
            CameraKey::A => (MovementKeys { left: pressed, ..self }, KeyResponse::Handled),
            CameraKey::D => (MovementKeys { right: pressed, ..self }, KeyResponse::Handled),
            CameraKey::E => (MovementKeys { up: pressed, ..self }, KeyResponse::Handled),
            CameraKey::Q => (MovementKeys { down: pressed, ..self }, KeyResponse::Handled),
            CameraKey::ShiftLeft | CameraKey::ShiftRight => (
                MovementKeys { fast: pressed, ..self },
                KeyResponse::Handled,
            ),
            CameraKey::Other => (self, KeyResponse::Ignored),
        }
    }

    pub fn apply_key(&mut self, key: CameraKey, pressed: bool) -> (response: KeyResponse)
        ensures
            (*final(self), response) == old(self).apply_key_spec(key, pressed),
    {
        match key {
            CameraKey::Tab => {
                if pressed {
                    KeyResponse::ToggleMode
                } else {
                    KeyResponse::Ignored
                }
            },
            CameraKey::W => {
                self.forward = pressed;
                KeyResponse::Handled
            },
            CameraKey::S => {
                self.backward = pressed;
                KeyResponse::Handled
            },
            CameraKey::A => {
                self.left = pressed;
                KeyResponse::Handled
            },
            CameraKey::D => {
                self.right = pressed;
                KeyResponse::Handled
            },
            CameraKey::E => {
                self.up = pressed;
                KeyResponse::Handled
            },
            CameraKey::Q => {
                self.down = pressed;
                KeyResponse::Handled
            },
            CameraKey::ShiftLeft | CameraKey::ShiftRight => {
                self.fast = pressed;
                KeyResponse::Handled
            },
            CameraKey::Other => KeyResponse::Ignored,
        }
    }
}

/// Each movement key sets exactly its own flag to whether it is pressed and is
/// handled: W forward, S backward, A left, D right, E up, Q down, either Shift
/// fast. Tab pressed asks for a mode switch; Tab released and other keys are
/// not the camera's. Keys that are not movement keys change no flag.
pub proof fn lemma_apply_key_effects(keys: MovementKeys, key: CameraKey, pressed: bool)
    ensures
        ({
            let (after, response) = keys.apply_key_spec(key, pressed);
            &&& (key == CameraKey::W ==> response == KeyResponse::Handled && after == MovementKeys {
                forward: pressed,
                ..keys
            })
            &&& (key == CameraKey::S ==> response == KeyResponse::Handled && after == MovementKeys {
                backward: pressed,
                ..keys
            })
            &&& (key == CameraKey::A ==> response == KeyResponse::Handled && after == MovementKeys {
                left: pressed,
                ..keys
            })
            &&& (key == CameraKey::D ==> response == KeyResponse::Handled && after == MovementKeys {
                right: pressed,
                ..keys
            })
            &&& (key == CameraKey::E ==> response == KeyResponse::Handled && after == MovementKeys {
                up: pressed,
                ..keys
            })
            &&& (key == CameraKey::Q ==> response == KeyResponse::Handled && after == MovementKeys {
                down: pressed,
                ..keys
            })
            &&& ((key == CameraKey::ShiftLeft || key == CameraKey::ShiftRight) ==> response
                == KeyResponse::Handled && after.fast == pressed && after == MovementKeys {
                fast: pressed,
                ..keys
            })
            &&& (key == CameraKey::Tab ==> after == keys && response == if pressed {
                KeyResponse::ToggleMode
            } else {
                KeyResponse::Ignored
            })
            &&& (key == CameraKey::Other ==> after == keys && response == KeyResponse::Ignored)
        }),
{
}

/// A key pressed and released again leaves the held keys as they were
/// before the press.
pub proof fn lemma_key_round_trip(keys: MovementKeys, key: CameraKey)
    requires
        match key {
            CameraKey::W => !keys.forward,
            CameraKey::S => !keys.backward,
            CameraKey::A => !keys.left,
            CameraKey::D => !keys.right,
            CameraKey::E => !keys.up,
            CameraKey::Q => !keys.down,
            CameraKey::ShiftLeft | CameraKey::ShiftRight => !keys.fast,
            _ => true,
        },
    ensures
        ({
            let (held, _) = keys.apply_key_spec(key, true);
            let (released, _) = held.apply_key_spec(key, false);
            released == keys
        }),
{
}

} // verus!

//! Player controls: the keyboard mapping, a control latch that holds them
//! neutral until every key is released, and the steering policy chosen in
//! the menu.

use vstd::prelude::*;

verus! {

/// How human steering input is applied: as read, or smoothed over about
/// 100 ms. AI and autopilot controls bypass it.
#[derive(Debug, Clone, Copy, Default, PartialEq, Eq, Structural)]
pub enum SteeringResponse {
    #[default]
    Raw,
    Smooth,
}

impl SteeringResponse {
    pub open spec fn spec_label(self) -> Seq<char> {
        match self {
            SteeringResponse::Raw => "RAW"@,
            SteeringResponse::Smooth => "SMOOTH (100ms rise)"@,
        }
    }

    /// The policy's variant name, as record keys spell it.
    pub open spec fn spec_key_name(self) -> Seq<char> {
        match self {
            SteeringResponse::Raw => "Raw"@,
            SteeringResponse::Smooth => "Smooth"@,
        }
    }

    /// Menu text for the policy.
    pub fn label(self) -> (s: &'static str)
        ensures
            s@ == self.spec_label(),
    {
        match self {
            SteeringResponse::Raw => "RAW",
            SteeringResponse::Smooth => "SMOOTH (100ms rise)",
        }
    }

    /// The policy's variant name.
    pub fn key_name(self) -> (s: &'static str)
        ensures
            s@ == self.spec_key_name(),
    {
        match self {
            SteeringResponse::Raw => "Raw",
            SteeringResponse::Smooth => "Smooth",
        }
    }
}

/// Digital driving controls read from the keyboard: full throttle, full
/// brake (held at a standstill it engages reverse), steer `+1` left /
/// `-1` right / `0`, and the handbrake.
#[derive(Debug, Clone, Copy, Default, PartialEq, Eq, Structural)]
pub struct KeyCommand {
    pub throttle: bool,
    pub brake: bool,
    pub steer: i8,
    pub handbrake: bool,
}

/// All controls released.
pub open spec fn neutral() -> KeyCommand {
    KeyCommand { throttle: false, brake: false, steer: 0, handbrake: false }
}

/// Maps the held keys to driving controls; opposing steer keys cancel.
pub fn map_keyboard_input(up: bool, down: bool, left: bool, right: bool, handbrake: bool) -> (c:
    KeyCommand)
    ensures
        c.throttle == up,
        c.brake == down,
        c.steer == (if left { 1int } else { 0int }) - (if right { 1int } else { 0int }),
        c.handbrake == handbrake,
{
    let mut steer: i8 = 0;
    if left {
        steer = steer + 1;
    }
    if right {
        steer = steer - 1;
    }
    KeyCommand { throttle: up, brake: down, steer, handbrake }
}

/// Held movement keys must return to neutral after an ownership or screen
/// change before they drive the car again.
pub struct ControlGate {
    pub engaged: bool,
}

impl ControlGate {
    /// A released gate.
    pub fn new() -> (g: ControlGate)
        ensures
            !g.engaged,
    {
        ControlGate { engaged: false }
    }

    /// Holds the controls neutral until they are next all released.
    pub fn engage(&mut self)
        ensures
            final(self).engaged,
    {
        self.engaged = true;
    }

    /// The controls the car receives this frame from the held keys. An
    /// engaged gate releases on the first frame on which no key is held,
    /// and passes only neutral controls before.
    pub fn filter(&mut self, up: bool, down: bool, left: bool, right: bool, handbrake: bool) -> (c:
        KeyCommand)
        ensures
            final(self).engaged == (old(self).engaged && (up || down || left || right
                || handbrake)),
            final(self).engaged ==> c == neutral(),
            !final(self).engaged ==> c == (KeyCommand {
                throttle: up,
                brake: down,
                steer: ((if left { 1int } else { 0int }) - (if right { 1int } else { 0int })) as i8,
                handbrake,
            }),
    {
        let input = map_keyboard_input(up, down, left, right, handbrake);
        if self.engaged && !(up || down || left || right || handbrake) {
            self.engaged = false;
        }
        if self.engaged {
            KeyCommand { throttle: false, brake: false, steer: 0, handbrake: false }
        } else {
            input
        }
    }
}

/// The keys that drive the car.
#[derive(Debug, Clone, Copy, PartialEq, Eq, Structural)]
pub enum Key {
    ArrowUp,
    ArrowDown,
    ArrowLeft,
    ArrowRight,
    KeyW,
    KeyA,
    KeyS,
    KeyD,
    Space,
}

/// The driving keys held this frame.
pub struct HeldKeys {
    pub held: Vec<Key>,
}

impl HeldKeys {
    /// No key held.
    pub fn new() -> (h: HeldKeys)
        ensures
            h.held@ == Seq::<Key>::empty(),
    {
        HeldKeys { held: Vec::new() }
    }

    /// Whether `key` is held.
    pub fn pressed(&self, key: Key) -> (p: bool)
        ensures
            p == self.held@.contains(key),
    {
        let mut i: usize = 0;
        while i < self.held.len()
            invariant
                i <= self.held@.len(),
                forall|j: int| 0 <= j < i ==> self.held@[j] != key,
            decreases self.held@.len() - i,
        {
            if self.held[i] == key {
                return true;
            }
            i = i + 1;
        }
        false
    }

    /// Whether either of two keys is held.
    pub fn any_pressed(&self, a: Key, b: Key) -> (p: bool)
        ensures
            p == (self.held@.contains(a) || self.held@.contains(b)),
    {
        self.pressed(a) || self.pressed(b)
    }
}

/// Releases every key, then holds exactly `pressed`.
pub fn keys(held: &mut HeldKeys, pressed: &[Key])
    ensures
        final(held).held@ == pressed@,
{
    let mut now: Vec<Key> = Vec::new();
    let mut i: usize = 0;
    while i < pressed.len()
        invariant
            i <= pressed@.len(),
            now@ == pressed@.take(i as int),
        decreases pressed@.len() - i,
    {
        now.push(pressed[i]);
        i = i + 1;
        assert(now@ =~= pressed@.take(i as int));
    }
    assert(pressed@.take(pressed@.len() as int) =~= pressed@);
    held.held = now;
}

/// The driving controls from the held keys: W or Up throttles, S or Down
/// brakes, A or Left steers left, D or Right steers right, Space is the
/// handbrake; the control latch then decides what reaches the car.
pub fn read_keyboard_input(keyboard: &HeldKeys, gate: &mut ControlGate) -> (c: KeyCommand)
    ensures
        ({
            let k = keyboard.held@;
            let up = k.contains(Key::ArrowUp) || k.contains(Key::KeyW);
            let down = k.contains(Key::ArrowDown) || k.contains(Key::KeyS);
            let left = k.contains(Key::ArrowLeft) || k.contains(Key::KeyA);
            let right = k.contains(Key::ArrowRight) || k.contains(Key::KeyD);
            let handbrake = k.contains(Key::Space);
            &&& final(gate).engaged == (old(gate).engaged && (up || down || left || right
                || handbrake))
            &&& final(gate).engaged ==> c == neutral()
            &&& !final(gate).engaged ==> c == (KeyCommand {
                throttle: up,
                brake: down,
                steer: ((if left { 1int } else { 0int }) - (if right { 1int } else { 0int })) as i8,
                handbrake,
            })
        }),
{
    let up = keyboard.any_pressed(Key::ArrowUp, Key::KeyW);
    let down = keyboard.any_pressed(Key::ArrowDown, Key::KeyS);
    let left = keyboard.any_pressed(Key::ArrowLeft, Key::KeyA);
    let right = keyboard.any_pressed(Key::ArrowRight, Key::KeyD);
    let handbrake = keyboard.pressed(Key::Space);
    gate.filter(up, down, left, right, handbrake)
}

} // verus!

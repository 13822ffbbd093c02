use topdown_racer::awareness::CameraMode;
use topdown_racer::controls::{
    keys, map_keyboard_input, read_keyboard_input, ControlGate, HeldKeys, Key, KeyCommand,
    SteeringResponse,
};

#[test]
fn map_keyboard_input_neutral_is_zero() {
    let input = map_keyboard_input(false, false, false, false, false);
    assert_eq!(input, KeyCommand::default());
}

#[test]
fn map_keyboard_input_all_five_controls() {
    // 1. Throttle
    let throttle = map_keyboard_input(true, false, false, false, false);
    assert!(throttle.throttle);
    assert!(!throttle.brake);

    // 2. Brake
    let brake = map_keyboard_input(false, true, false, false, false);
    assert!(brake.brake);
    assert!(!brake.throttle);

    // 3. Steer left
    let left = map_keyboard_input(false, false, true, false, false);
    assert_eq!(left.steer, 1);

    // 4. Steer right
    let right = map_keyboard_input(false, false, false, true, false);
    assert_eq!(right.steer, -1);

    // 5. Handbrake
    let hb = map_keyboard_input(false, false, false, false, true);
    assert!(hb.handbrake);
}

#[test]
fn map_keyboard_input_opposing_steer_cancels() {
    let input = map_keyboard_input(false, false, true, true, false);
    assert_eq!(input.steer, 0);
}

#[test]
fn engaged_gate_holds_neutral_until_every_key_is_released() {
    let mut gate = ControlGate::new();
    let driving = gate.filter(true, false, true, false, false);
    assert!(driving.throttle);
    assert_eq!(driving.steer, 1);

    gate.engage();
    // Held keys after an ownership change do nothing ...
    for _ in 0..10 {
        assert_eq!(gate.filter(true, false, true, false, false), KeyCommand::default());
        assert!(gate.engaged);
    }
    // ... and opposing steer keys still count as held.
    assert_eq!(gate.filter(false, false, true, true, false), KeyCommand::default());
    // A frame with nothing held releases it.
    assert_eq!(gate.filter(false, false, false, false, false), KeyCommand::default());
    assert!(!gate.engaged);
    let again = gate.filter(false, true, false, true, true);
    assert!(again.brake && again.handbrake);
    assert_eq!(again.steer, -1);
}

#[test]
fn menu_labels_name_each_policy() {
    assert_eq!(SteeringResponse::default(), SteeringResponse::Raw);
    assert_eq!(SteeringResponse::Raw.label(), "RAW");
    assert_eq!(SteeringResponse::Smooth.label(), "SMOOTH (100ms rise)");
    assert_eq!(SteeringResponse::Raw.key_name(), format!("{:?}", SteeringResponse::Raw));
    assert_eq!(
        SteeringResponse::Smooth.key_name(),
        format!("{:?}", SteeringResponse::Smooth)
    );
    assert_eq!(CameraMode::default(), CameraMode::Centered);
    assert_eq!(CameraMode::Centered.label(), "CENTERED");
    assert_eq!(CameraMode::LookAhead.label(), "LOOK AHEAD");
}

#[test]
fn read_keyboard_input_system_maps_wasd_and_arrows() {
    let mut keyboard = HeldKeys::new();
    let mut gate = ControlGate::new();

    // WASD + Space
    keys(&mut keyboard, &[Key::KeyW, Key::KeyA, Key::Space]);
    let input = read_keyboard_input(&keyboard, &mut gate);
    assert!(input.throttle);
    assert_eq!(input.steer, 1);
    assert!(input.handbrake);

    // Arrows
    keys(&mut keyboard, &[Key::ArrowDown, Key::ArrowRight]);
    let input = read_keyboard_input(&keyboard, &mut gate);
    assert!(input.brake);
    assert_eq!(input.steer, -1);
    assert!(!input.handbrake);
}

#[test]
fn toggling_to_manual_requires_held_controls_to_be_released() {
    let mut keyboard = HeldKeys::new();
    let mut gate = ControlGate::new();
    keys(&mut keyboard, &[Key::KeyW, Key::KeyA]);
    // The ownership switch engages the latch while the keys are held.
    gate.engage();
    for _ in 0..5 {
        let input = read_keyboard_input(&keyboard, &mut gate);
        assert_eq!((input.throttle, input.steer), (false, 0));
    }
    keys(&mut keyboard, &[]);
    read_keyboard_input(&keyboard, &mut gate);
    keys(&mut keyboard, &[Key::KeyW]);
    assert!(read_keyboard_input(&keyboard, &mut gate).throttle);
}

#[test]
fn mixed_aliases_cancel_steering() {
    let mut keyboard = HeldKeys::new();
    let mut gate = ControlGate::new();
    keys(&mut keyboard, &[Key::KeyD, Key::ArrowLeft]);
    assert_eq!(read_keyboard_input(&keyboard, &mut gate).steer, 0);
    keys(&mut keyboard, &[Key::ArrowLeft]);
    assert_eq!(read_keyboard_input(&keyboard, &mut gate).steer, 1);
    assert!(keyboard.pressed(Key::ArrowLeft));
    assert!(!keyboard.pressed(Key::KeyD));
}

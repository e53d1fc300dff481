use dictation::input::{HookButton, HookEvent, HookKey, InputEvent, InputListener};

#[test]
fn middle_button_maps_to_start_and_stop() {
    let mut l = InputListener::new();
    assert_eq!(l.on_event(HookEvent::ButtonPress(HookButton::Middle)), Some(InputEvent::Start));
    assert_eq!(l.on_event(HookEvent::ButtonRelease(HookButton::Middle)), Some(InputEvent::Stop));
    assert_eq!(l.on_event(HookEvent::ButtonPress(HookButton::Other)), None);
}

#[test]
fn disabled_mouse_trigger_is_silent() {
    let mut l = InputListener::new();
    let mut flags = l.flags;
    flags.enable_mouse = false;
    l.set_flags(flags);
    assert_eq!(l.on_event(HookEvent::ButtonPress(HookButton::Middle)), None);
    assert_eq!(l.on_event(HookEvent::ButtonRelease(HookButton::Middle)), None);
}

#[test]
fn right_alt_toggles() {
    let mut l = InputListener::new();
    assert_eq!(l.on_event(HookEvent::KeyPress(HookKey::AltGr)), Some(InputEvent::Toggle));
    assert_eq!(l.on_event(HookEvent::KeyRelease(HookKey::AltGr)), None);
    let mut flags = l.flags;
    flags.enable_toggle = false;
    l.set_flags(flags);
    assert_eq!(l.on_event(HookEvent::KeyPress(HookKey::AltGr)), None);
}

#[test]
fn combo_fires_once_per_formation() {
    let mut l = InputListener::new();
    assert_eq!(l.on_event(HookEvent::KeyPress(HookKey::ControlLeft)), None);
    assert_eq!(l.on_event(HookEvent::KeyPress(HookKey::MetaLeft)), Some(InputEvent::Start));
    // Holding both longer changes nothing.
    assert_eq!(l.on_event(HookEvent::KeyPress(HookKey::ControlLeft)), None);
    // Breaking the combo fires one stop, whatever the release order.
    assert_eq!(l.on_event(HookEvent::KeyRelease(HookKey::MetaLeft)), Some(InputEvent::Stop));
    assert_eq!(l.on_event(HookEvent::KeyRelease(HookKey::ControlLeft)), None);
}

#[test]
fn combo_stop_on_other_release_order() {
    let mut l = InputListener::new();
    l.on_event(HookEvent::KeyPress(HookKey::MetaLeft));
    assert_eq!(l.on_event(HookEvent::KeyPress(HookKey::ControlLeft)), Some(InputEvent::Start));
    assert_eq!(l.on_event(HookEvent::KeyRelease(HookKey::ControlLeft)), Some(InputEvent::Stop));
    assert_eq!(l.on_event(HookEvent::KeyRelease(HookKey::MetaLeft)), None);
}

#[test]
fn disabled_hold_keeps_the_combo_silent() {
    let mut l = InputListener::new();
    let mut flags = l.flags;
    flags.enable_hold = false;
    l.set_flags(flags);
    assert_eq!(l.on_event(HookEvent::KeyPress(HookKey::ControlLeft)), None);
    assert_eq!(l.on_event(HookEvent::KeyPress(HookKey::MetaLeft)), None);
    assert_eq!(l.on_event(HookEvent::KeyRelease(HookKey::MetaLeft)), None);
}

#[test]
fn pointer_position_is_always_remembered() {
    let mut l = InputListener::new();
    assert_eq!(l.get_last_mouse_position(), (0, 0));
    // Tracking is off at first: the position updates, nothing is published.
    assert_eq!(l.on_event(HookEvent::MouseMove { x: 10, y: 20 }), None);
    assert_eq!(l.get_last_mouse_position(), (10, 20));
    let mut flags = l.flags;
    flags.track_mouse_position = true;
    l.set_flags(flags);
    assert_eq!(
        l.on_event(HookEvent::MouseMove { x: -5, y: 7 }),
        Some(InputEvent::MouseMove { x: -5, y: 7 })
    );
    assert_eq!(l.get_last_mouse_position(), (-5, 7));
}

//! The global input hook: translating raw pointer and keyboard events
//! into the abstract trigger commands of the pipeline.
//!
//! The hook backend delivers raw events on its own thread; this state
//! machine turns them into at most one command each, keeps shadow state
//! for the modifier combo so that a hold produces exactly one `Start` on
//! combo formation and one `Stop` when it breaks, and remembers the last
//! pointer position. Trigger flags are consulted per event, so they can
//! be reconfigured without restarting the hook.

use vstd::prelude::*;

verus! {

/// The pointer buttons the hook distinguishes.
#[derive(Clone, Copy, PartialEq, Eq, Structural, Debug)]
pub enum HookButton {
    Middle,
    Other,
}

/// The keys the hook distinguishes. `AltGr` is how the right alt key
/// arrives on some layouts.
#[derive(Clone, Copy, PartialEq, Eq, Structural, Debug)]
pub enum HookKey {
    ControlLeft,
    MetaLeft,
    AltGr,
    Other,
}

/// A raw event from the hook backend. Pointer coordinates are whole
/// screen units.
#[derive(Clone, Copy, PartialEq, Eq, Structural, Debug)]
pub enum HookEvent {
    ButtonPress(HookButton),
    ButtonRelease(HookButton),
    KeyPress(HookKey),
    KeyRelease(HookKey),
    MouseMove { x: i64, y: i64 },
}

/// An abstract trigger command, as the pipeline consumes it.
#[derive(Clone, Copy, PartialEq, Eq, Structural, Debug)]
pub enum InputEvent {
    Start,
    Stop,
    Toggle,
    MouseMove { x: i64, y: i64 },
}

/// Which triggers are active, and whether pointer moves are published.
#[derive(Clone, Copy, PartialEq, Eq, Structural, Debug)]
pub struct TriggerFlags {
    /// Mouse-button hold: middle press is `Start`, release is `Stop`.
    pub enable_mouse: bool,
    /// Modifier-combo hold: left control plus left meta.
    pub enable_hold: bool,
    /// Toggle key: each right-alt press is `Toggle`.
    pub enable_toggle: bool,
    /// Publish `MouseMove` commands (the indicator is following).
    pub track_mouse_position: bool,
}

/// The hook's shadow state: modifier keys currently down, whether the
/// combo is held, and the last known pointer position.
pub struct InputListener {
    pub flags: TriggerFlags,
    pub is_ctrl: bool,
    pub is_win: bool,
    pub combo_active: bool,
    pub last_mouse_x: i64,
    pub last_mouse_y: i64,
}

/// The combo edge: what [`InputListener::check_combo`] leaves behind and
/// returns. A `Start` exactly when the combo just formed, a `Stop`
/// exactly when it just broke, nothing while the hold trigger is off.
pub open spec fn spec_combo_step(s: InputListener) -> (InputListener, Option<InputEvent>) {
    if !s.flags.enable_hold {
        (s, None::<InputEvent>)
    } else if s.is_ctrl && s.is_win && !s.combo_active {
        (InputListener { combo_active: true, ..s }, Some(InputEvent::Start))
    } else if !(s.is_ctrl && s.is_win) && s.combo_active {
        (InputListener { combo_active: false, ..s }, Some(InputEvent::Stop))
    } else {
        (s, None::<InputEvent>)
    }
}

/// One raw event against the listener state: the new state and the
/// command published, if any.
pub open spec fn spec_hook_step(s: InputListener, ev: HookEvent) -> (
    InputListener,
    Option<InputEvent>,
) {
    match ev {
        HookEvent::ButtonPress(HookButton::Middle) => (
            s,
            if s.flags.enable_mouse {
                Some(InputEvent::Start)
            } else {
                None
            },
        ),
        HookEvent::ButtonRelease(HookButton::Middle) => (
            s,
            if s.flags.enable_mouse {
                Some(InputEvent::Stop)
            } else {
                None
            },
        ),
        HookEvent::KeyPress(HookKey::AltGr) => (
            s,
            if s.flags.enable_toggle {
                Some(InputEvent::Toggle)
            } else {
                None
            },
        ),
        HookEvent::KeyPress(HookKey::ControlLeft) => spec_combo_step(
            InputListener { is_ctrl: true, ..s },
        ),
        HookEvent::KeyRelease(HookKey::ControlLeft) => spec_combo_step(
            InputListener { is_ctrl: false, ..s },
        ),
        HookEvent::KeyPress(HookKey::MetaLeft) => spec_combo_step(
            InputListener { is_win: true, ..s },
        ),
        HookEvent::KeyRelease(HookKey::MetaLeft) => spec_combo_step(
            InputListener { is_win: false, ..s },
        ),
        HookEvent::MouseMove { x, y } => (
            InputListener { last_mouse_x: x, last_mouse_y: y, ..s },
            if s.flags.track_mouse_position {
                Some(InputEvent::MouseMove { x, y })
            } else {
                None
            },
        ),
        _ => (s, None::<InputEvent>),
    }
}

impl InputListener {
    /// A fresh listener: all three triggers enabled, pointer tracking
    /// off, no modifiers down, pointer at the origin.
    pub fn new() -> (r: Self)
        ensures
            r.flags == (TriggerFlags {
                enable_mouse: true,
                enable_hold: true,
                enable_toggle: true,
                track_mouse_position: false,
            }),
            !r.is_ctrl,
            !r.is_win,
            !r.combo_active,
            r.last_mouse_x == 0,
            r.last_mouse_y == 0,
    {
        InputListener {
            flags: TriggerFlags {
                enable_mouse: true,
                enable_hold: true,
                enable_toggle: true,
                track_mouse_position: false,
            },
            is_ctrl: false,
            is_win: false,
            combo_active: false,
            last_mouse_x: 0,
            last_mouse_y: 0,
        }
    }

    /// The last pointer position a `MouseMove` reported.
    pub fn get_last_mouse_position(&self) -> (r: (i64, i64))
        ensures
            r.0 == self.last_mouse_x,
            r.1 == self.last_mouse_y,
    {
        (self.last_mouse_x, self.last_mouse_y)
    }

    /// Take over the trigger enables from the configuration, effective at
    /// the next event.
    pub fn set_flags(&mut self, flags: TriggerFlags)
        ensures
            *final(self) == (InputListener { flags, ..*old(self) }),
    {
        self.flags = flags;
    }

    /// Re-evaluate the combo after a modifier changed: one `Start` on the
    /// edge into the combo, one `Stop` on the edge out of it, whatever
    /// the release order.
    pub fn check_combo(&mut self) -> (r: Option<InputEvent>)
        ensures
            *final(self) == spec_combo_step(*old(self)).0,
            r == spec_combo_step(*old(self)).1,
    {
        if !self.flags.enable_hold {
            return None;
        }
        let is_combo = self.is_ctrl && self.is_win;
        if is_combo && !self.combo_active {
            self.combo_active = true;
            Some(InputEvent::Start)
        } else if !is_combo && self.combo_active {
            self.combo_active = false;
            Some(InputEvent::Stop)
        } else {
            None
        }
    }

    /// Consume one raw hook event; the returned command, if any, goes to
    /// the pipeline. The pointer position is remembered on every move,
    /// published only while tracking is on.
    pub fn on_event(&mut self, ev: HookEvent) -> (r: Option<InputEvent>)
        ensures
            *final(self) == spec_hook_step(*old(self), ev).0,
            r == spec_hook_step(*old(self), ev).1,
    {
        match ev {
            HookEvent::ButtonPress(HookButton::Middle) => {
                if self.flags.enable_mouse {
                    Some(InputEvent::Start)
                } else {
                    None
                }
            },
            HookEvent::ButtonRelease(HookButton::Middle) => {
                if self.flags.enable_mouse {
                    Some(InputEvent::Stop)
                } else {
                    None
                }
            },
            HookEvent::KeyPress(HookKey::AltGr) => {
                if self.flags.enable_toggle {
                    Some(InputEvent::Toggle)
                } else {
                    None
                }
            },
            HookEvent::KeyPress(HookKey::ControlLeft) => {
                self.is_ctrl = true;
                self.check_combo()
            },
            HookEvent::KeyRelease(HookKey::ControlLeft) => {
                self.is_ctrl = false;
                self.check_combo()
            },
            HookEvent::KeyPress(HookKey::MetaLeft) => {
                self.is_win = true;
                self.check_combo()
            },
            HookEvent::KeyRelease(HookKey::MetaLeft) => {
                self.is_win = false;
                self.check_combo()
            },
            HookEvent::MouseMove { x, y } => {
                self.last_mouse_x = x;
                self.last_mouse_y = y;
                if self.flags.track_mouse_position {
                    Some(InputEvent::MouseMove { x, y })
                } else {
                    None
                }
            },
            _ => None,
        }
    }
}

} // verus!

use vstd::prelude::*;

verus! {

/// The tracked keys.
#[derive(Clone, Copy, Debug, PartialEq, Eq, Structural)]
pub enum Key {
    Left,
    Right,
    Up,
    Down,
    Fire,
}

/// One discrete event from the input source. `repeat` marks the automatic
/// repeats of a held key, which change nothing.
#[derive(Clone, Copy, Debug, PartialEq, Eq, Structural)]
pub enum InputEvent {
    Quit,
    KeyDown { key: Key, repeat: bool },
    KeyUp { key: Key, repeat: bool },
    /// Anything else the input source reports.
    Other,
}

/// The control state sampled for one tick.
#[derive(Clone, Copy, Debug, PartialEq, Eq, Structural)]
pub struct Controller {
    pub quit: bool,
    pub left_pressed: bool,
    pub right_pressed: bool,
    pub up_pressed: bool,
    pub down_pressed: bool,
    pub fire_pressed: bool,
    pub fire_just_pressed: bool,
    pub just_changed: bool,
}

/// Sets whether `key` is held, leaving the other keys as they are.
pub open spec fn with_key(c: Controller, key: Key, down: bool) -> Controller {
    match key {
        Key::Left => Controller { left_pressed: down, ..c },
        Key::Right => Controller { right_pressed: down, ..c },
        Key::Up => Controller { up_pressed: down, ..c },
        Key::Down => Controller { down_pressed: down, ..c },
        Key::Fire => Controller { fire_pressed: down, ..c },
    }
}

/// The effect of one event. A press or release marks a change; pressing fire
/// also marks `fire_just_pressed`; quit is remembered.
pub open spec fn event_applied(c: Controller, e: InputEvent) -> Controller {
    match e {
        InputEvent::Quit => Controller { quit: true, ..c },
        InputEvent::KeyDown { key, repeat } => if repeat {
            c
        } else {
            let k = with_key(c, key, true);
            Controller {
                just_changed: true,
                fire_just_pressed: if key is Fire {
                    true
                } else {
                    c.fire_just_pressed
                },
                ..k
            }
        },
        InputEvent::KeyUp { key, repeat } => if repeat {
            c
        } else {
            Controller { just_changed: true, ..with_key(c, key, false) }
        },
        InputEvent::Other => c,
    }
}

/// The effect of a sequence of events, in order.
pub open spec fn events_applied(c: Controller, events: Seq<InputEvent>) -> Controller
    decreases events.len(),
{
    if events.len() == 0 {
        c
    } else {
        event_applied(events_applied(c, events.drop_last()), events.last())
    }
}

/// Whether an event is a genuine press of fire.
pub open spec fn presses_fire(e: InputEvent) -> bool {
    e == InputEvent::KeyDown { key: Key::Fire, repeat: false }
}

/// Holding fire does not fire again: a tick whose events hold no genuine
/// press of fire (only its repeats, or nothing) ends with `fire_just_pressed`
/// clear, whatever was held before.
pub proof fn lemma_held_fire_is_not_pressed(c: Controller, events: Seq<InputEvent>)
    requires
        forall|i: int| 0 <= i < events.len() ==> !presses_fire(#[trigger] events[i]),
    ensures
        !events_applied(tick_started(c), events).fire_just_pressed,
    decreases events.len(),
{
    if events.len() > 0 {
        let rest = events.drop_last();
        assert forall|i: int| 0 <= i < rest.len() implies !presses_fire(#[trigger] rest[i]) by {
            assert(rest[i] == events[i]);
        }
        lemma_held_fire_is_not_pressed(c, rest);
        assert(!presses_fire(events[events.len() - 1]));
    }
}

/// The per-tick flags cleared before a tick's events are applied.
pub open spec fn tick_started(c: Controller) -> Controller {
    Controller { just_changed: false, fire_just_pressed: false, ..c }
}

impl Controller {
    /// Nothing held, nothing changed, no quit.
    pub fn new() -> (r: Self)
        ensures
            !r.quit,
            !r.left_pressed,
            !r.right_pressed,
            !r.up_pressed,
            !r.down_pressed,
            !r.fire_pressed,
            !r.fire_just_pressed,
            !r.just_changed,
    {
        Self {
            quit: false,
            left_pressed: false,
            right_pressed: false,
            up_pressed: false,
            down_pressed: false,
            fire_pressed: false,
            fire_just_pressed: false,
            just_changed: false,
        }
    }

    /// Applies one event.
    pub fn apply_event(&mut self, e: InputEvent)
        ensures
            *final(self) == event_applied(*old(self), e),
    {
        match e {
            InputEvent::Quit => self.quit = true,
            InputEvent::KeyDown { key, repeat } => {
                if !repeat {
                    self.set_key(key, true);
                    if key == Key::Fire {
                        self.fire_just_pressed = true;
                    }
                    self.just_changed = true;
                }
            },
            InputEvent::KeyUp { key, repeat } => {
                if !repeat {
                    self.set_key(key, false);
                    self.just_changed = true;
                }
            },
            InputEvent::Other => {},
        }
    }

    fn set_key(&mut self, key: Key, down: bool)
        ensures
            *final(self) == with_key(*old(self), key, down),
    {
        match key {
            Key::Left => self.left_pressed = down,
            Key::Right => self.right_pressed = down,
            Key::Up => self.up_pressed = down,
            Key::Down => self.down_pressed = down,
            Key::Fire => self.fire_pressed = down,
        }
    }
}

/// Samples the control state for a new tick from the events that arrived
/// since the last one: the per-tick flags start cleared, held keys and quit
/// carry over, then the events apply in order.
pub fn update_controller(events: &Vec<InputEvent>, controller: &mut Controller)
    ensures
        *final(controller) == events_applied(tick_started(*old(controller)), events@),
{
    controller.just_changed = false;
    controller.fire_just_pressed = false;
    let mut i: usize = 0;
    while i < events.len()
        invariant
            i <= events.len(),
            *controller == events_applied(tick_started(*old(controller)), events@.subrange(0, i as int)),
        decreases events.len() - i,
    {
        assert(events@.subrange(0, i + 1).drop_last() =~= events@.subrange(0, i as int));
        controller.apply_event(events[i]);
        i += 1;
    }
    assert(events@.subrange(0, events.len() as int) =~= events@);
}

} // verus!

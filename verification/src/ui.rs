//! The user interface of the token: user presence by button, and a status
//! light that shows what the device is doing and winks on request.

use vstd::prelude::*;
use crate::traits::{
    ButtonEvent, Buttons, Clock, Edge, Intensities, Led, Press, RgbLed, State, Uptime,
};

verus! {

/// What the device is doing, as shown on the status light.
#[derive(Clone, Copy, Debug, PartialEq, Eq)]
pub enum Status {
    Idle,
    WaitingForUserPresence,
    Processing,
    Error,
}

/// How strongly the user has consented.
#[derive(Clone, Copy, Debug, PartialEq, Eq)]
pub enum Level {
    /// No consent was given.
    Absent,
    /// The user is present.
    Normal,
    /// The user pressed two buttons at once.
    Strong,
}

/// The colours that the status light shows.
#[derive(Clone, Copy, Debug, PartialEq, Eq)]
pub enum Color {
    Black,
    Red,
    Green,
    Blue,
    Teal,
    Orange,
    White,
}

impl Color {
    /// The brightness of red, green and blue that makes the colour.
    pub open spec fn spec_intensities(self) -> Intensities {
        match self {
            Color::Black => Intensities { red: 0, green: 0, blue: 0 },
            Color::Red => Intensities { red: 0xff, green: 0, blue: 0 },
            Color::Green => Intensities { red: 0, green: 0xff, blue: 0x02 },
            Color::Blue => Intensities { red: 0, green: 0, blue: 0xff },
            Color::Teal => Intensities { red: 0, green: 0xff, blue: 0x5a },
            Color::Orange => Intensities { red: 0xff, green: 0x7e, blue: 0 },
            Color::White => Intensities { red: 0xff, green: 0xff, blue: 0xff },
        }
    }

    /// The brightness of red, green and blue that makes the colour.
    #[verifier::when_used_as_spec(spec_intensities)]
    pub fn intensities(self) -> (intensities: Intensities)
        ensures
            intensities == self.spec_intensities(),
    {
        match self {
            Color::Black => Intensities { red: 0, green: 0, blue: 0 },
            Color::Red => Intensities { red: 0xff, green: 0, blue: 0 },
            Color::Green => Intensities { red: 0, green: 0xff, blue: 0x02 },
            Color::Blue => Intensities { red: 0, green: 0, blue: 0xff },
            Color::Teal => Intensities { red: 0, green: 0xff, blue: 0x5a },
            Color::Orange => Intensities { red: 0xff, green: 0x7e, blue: 0 },
            Color::White => Intensities { red: 0xff, green: 0xff, blue: 0xff },
        }
    }
}

/// Milliseconds in one period of the wink: the light is on for the first
/// half of each period and off for the second.
pub const WINK_PERIOD: u64 = 500;

/// The colour that stands for a status. An idle device shows white while it
/// is being provisioned, and green afterwards.
pub open spec fn spec_status_color(status: Status, provisioner: bool) -> Intensities {
    match status {
        Status::Idle => if provisioner {
            Color::White.intensities()
        } else {
            Color::Green.intensities()
        },
        Status::Processing => Color::Teal.intensities(),
        Status::WaitingForUserPresence => Color::Orange.intensities(),
        Status::Error => Color::Red.intensities(),
    }
}

/// The colour that stands for a status.
#[verifier::when_used_as_spec(spec_status_color)]
pub fn status_color(status: Status, provisioner: bool) -> (color: Intensities)
    ensures
        color == spec_status_color(status, provisioner),
{
    match status {
        Status::Idle => if provisioner {
            Color::White.intensities()
        } else {
            Color::Green.intensities()
        },
        Status::Processing => Color::Teal.intensities(),
        Status::WaitingForUserPresence => Color::Orange.intensities(),
        Status::Error => Color::Red.intensities(),
    }
}

/// The colour of a wink that began `elapsed` milliseconds ago: white for
/// 250 ms, then off for 250 ms, and so on.
pub open spec fn spec_wink_color(elapsed: u64) -> Intensities {
    if elapsed % WINK_PERIOD < WINK_PERIOD / 2 {
        Color::White.intensities()
    } else {
        Color::Black.intensities()
    }
}

/// The colour of a wink that began `elapsed` milliseconds ago.
#[verifier::when_used_as_spec(spec_wink_color)]
pub fn wink_color(elapsed: u64) -> (color: Intensities)
    ensures
        color == spec_wink_color(elapsed),
{
    if elapsed % WINK_PERIOD < WINK_PERIOD / 2 {
        Color::White.intensities()
    } else {
        Color::Black.intensities()
    }
}

/// The consent that a wait for a press amounts to: none where no press
/// came, strong where buttons `a` and `b` were both held down before the
/// wait, normal otherwise.
pub open spec fn spec_consent_level(state: State, pressed: bool) -> Level {
    if pressed {
        if state.a && state.b {
            Level::Strong
        } else {
            Level::Normal
        }
    } else {
        Level::Absent
    }
}

/// The consent that a wait for a press amounts to.
#[verifier::when_used_as_spec(spec_consent_level)]
pub fn consent_level(state: State, pressed: bool) -> (level: Level)
    ensures
        level == spec_consent_level(state, pressed),
{
    if pressed {
        if state.a && state.b {
            Level::Strong
        } else {
            Level::Normal
        }
    } else {
        Level::Absent
    }
}

/// Whether the device is waiting for the user to press a button.
pub struct UserPresenceStatus {
    waiting: bool,
}

impl UserPresenceStatus {
    /// Whether the device is waiting.
    pub closed spec fn spec_waiting(&self) -> bool {
        self.waiting
    }

    /// A status that says the device is not waiting.
    pub fn new() -> (status: Self)
        ensures
            !status.spec_waiting(),
    {
        UserPresenceStatus { waiting: false }
    }

    pub(crate) fn set_waiting(&mut self, waiting: bool)
        ensures
            final(self).spec_waiting() == waiting,
    {
        self.waiting = waiting;
    }

    /// Whether the device is waiting for the user to press a button.
    #[verifier::when_used_as_spec(spec_waiting)]
    pub fn waiting(&self) -> (waiting: bool)
        ensures
            waiting == self.spec_waiting(),
    {
        self.waiting
    }
}

/// The time span of a wink, in milliseconds since boot: from `start` up to,
/// not including, `end`.
#[derive(Clone, Copy, Debug, PartialEq, Eq)]
pub struct Wink {
    pub start: u64,
    pub end: u64,
}

impl Wink {
    /// Whether `time` lies in the span.
    pub open spec fn spec_contains(&self, time: u64) -> bool {
        self.start <= time < self.end
    }

    /// Whether `time` lies in the span.
    #[verifier::when_used_as_spec(spec_contains)]
    pub fn contains(&self, time: u64) -> (inside: bool)
        ensures
            inside == self.spec_contains(time),
    {
        self.start <= time && time < self.end
    }
}

/// The user interface as plain values.
pub struct UiView {
    /// Every time read from the clock, oldest first.
    pub clock: Seq<u64>,
    /// Everything learned from the buttons, oldest first; `None` where the
    /// device has no buttons.
    pub buttons: Option<Seq<ButtonEvent>>,
    /// Every colour shown on the light, oldest first; `None` where the
    /// device has no light.
    pub led: Option<Seq<Intensities>>,
    /// The wink that is going on, if one is.
    pub wink: Option<Wink>,
    /// Whether the device is being provisioned.
    pub provisioner: bool,
    /// Whether the device is waiting for a press.
    pub waiting: bool,
}

impl UiView {
    /// After `color` was shown, where there is a light.
    pub open spec fn showed(self, color: Intensities) -> UiView {
        match self.led {
            Some(shown) => UiView { led: Some(shown.push(color)), ..self },
            None => self,
        }
    }

    /// After the clock was read and said `time`.
    pub open spec fn clocked(self, time: u64) -> UiView {
        UiView { clock: self.clock.push(time), ..self }
    }

    /// After the status was set: its colour is shown, and a wink ends
    /// unless the device is idle.
    pub open spec fn status_set(self, status: Status) -> UiView {
        let shown = self.showed(spec_status_color(status, self.provisioner));
        if status is Idle {
            shown
        } else {
            UiView { wink: None, ..shown }
        }
    }

    /// After a refresh during which the clock, if it was read, said `time`.
    ///
    /// Without a light or a wink nothing happens. During the wink its
    /// colour of the moment is shown. Once the wink is over the light goes
    /// back to idle.
    pub open spec fn refreshed(self, time: u64) -> UiView {
        if self.led is None {
            self
        } else {
            match self.wink {
                None => self,
                Some(wink) => {
                    let read = self.clocked(time);
                    if wink.spec_contains(time) {
                        read.showed(spec_wink_color((time - wink.start) as u64))
                    } else {
                        UiView { wink: None, ..read.status_set(Status::Idle) }
                    }
                },
            }
        }
    }

    /// After a check for user presence during which the buttons, if there
    /// are any, were in `state` and a press came or not. The device shows
    /// that it is waiting while it waits for the press, and no longer
    /// afterwards.
    pub open spec fn presence_checked(self, state: State, pressed: bool) -> UiView {
        match self.buttons {
            Some(learned) => UiView {
                buttons: Some(
                    learned.push(ButtonEvent::Level(state)).push(
                        ButtonEvent::Wait { announced: true, pressed },
                    ),
                ),
                waiting: false,
                ..self
            },
            None => self,
        }
    }

    /// The consent that such a check reports. A device without buttons is
    /// tapped by the user, which shows presence.
    pub open spec fn presence_level(self, state: State, pressed: bool) -> Level {
        if self.buttons is Some {
            spec_consent_level(state, pressed)
        } else {
            Level::Normal
        }
    }

    /// After a wink of `duration` milliseconds was started when the clock
    /// said `time`.
    pub open spec fn winked(self, time: u64, duration: u64) -> UiView {
        let end = if time + duration > u64::MAX {
            u64::MAX
        } else {
            (time + duration) as u64
        };
        UiView { wink: Some(Wink { start: time, end }), ..self.clocked(time).showed(Color::White.intensities()) }
    }
}

/// The user interface of a board with a clock and, where it has them,
/// buttons and a status light.
pub struct UserInterface<C: Clock, BUTTONS: Press + Edge, RGB: RgbLed> {
    rtc: Uptime<C>,
    buttons: Option<Buttons<BUTTONS>>,
    rgb: Option<Led<RGB>>,
    wink: Option<Wink>,
    provisioner: bool,
    presence: UserPresenceStatus,
}

impl<C: Clock, BUTTONS: Press + Edge, RGB: RgbLed> View for UserInterface<C, BUTTONS, RGB> {
    type V = UiView;

    closed spec fn view(&self) -> UiView {
        UiView {
            clock: self.rtc.log(),
            buttons: match self.buttons {
                Some(buttons) => Some(buttons.log()),
                None => None,
            },
            led: match self.rgb {
                Some(rgb) => Some(rgb.log()),
                None => None,
            },
            wink: self.wink,
            provisioner: self.provisioner,
            waiting: self.presence.spec_waiting(),
        }
    }
}

impl<C: Clock, BUTTONS: Press + Edge, RGB: RgbLed> UserInterface<C, BUTTONS, RGB> {
    /// An interface that has read and shown nothing yet, does not wink and
    /// does not wait.
    pub fn new(rtc: C, buttons: Option<BUTTONS>, rgb: Option<RGB>, provisioner: bool) -> (ui: Self)
        ensures
            ui@ == (UiView {
                clock: Seq::empty(),
                buttons: if buttons is Some {
                    Some(Seq::empty())
                } else {
                    None
                },
                led: if rgb is Some {
                    Some(Seq::empty())
                } else {
                    None
                },
                wink: None,
                provisioner,
                waiting: false,
            }),
    {
        let buttons = match buttons {
            Some(buttons) => Some(Buttons::new(buttons)),
            None => None,
        };
        let rgb = match rgb {
            Some(rgb) => Some(Led::new(rgb)),
            None => None,
        };
        UserInterface {
            rtc: Uptime::new(rtc),
            buttons,
            rgb,
            wink: None,
            provisioner,
            presence: UserPresenceStatus::new(),
        }
    }

    /// Whether the device is waiting for a press.
    pub fn presence(&self) -> (presence: &UserPresenceStatus)
        ensures
            presence.spec_waiting() == self@.waiting,
    {
        &self.presence
    }

    /// Whether the device has a status light.
    pub fn has_led(&self) -> (has: bool)
        ensures
            has == (self@.led is Some),
    {
        self.rgb.is_some()
    }

    /// Asks the user for presence and reports the consent given.
    ///
    /// With buttons, their level is read, then a new press is waited for;
    /// the device counts as waiting during the wait only. Without buttons
    /// nothing is read and normal consent is reported.
    pub fn check_user_presence(&mut self) -> (level: Level)
        ensures
            exists|state: State, pressed: bool|
                {
                    &&& final(self)@ == #[trigger] old(self)@.presence_checked(state, pressed)
                    &&& level == old(self)@.presence_level(state, pressed)
                },
    {
        let ghost before = self@;
        match &mut self.buttons {
            Some(buttons) => {
                let state = buttons.state();
                self.presence.set_waiting(true);
                let press_result = buttons.wait_for_any_new_press(self.presence.waiting());
                self.presence.set_waiting(false);
                let pressed = press_result.is_ok();
                assert(self@ == before.presence_checked(state, pressed));
                consent_level(state, pressed)
            },
            None => {
                let ghost state = State { a: false, b: false, middle: false };
                assert(self@ == before.presence_checked(state, false));
                Level::Normal
            },
        }
    }

    /// Shows the colour of `status`, where there is a light, and ends a
    /// wink unless the device is idle.
    pub fn set_status(&mut self, status: Status)
        ensures
            final(self)@ == old(self)@.status_set(status),
    {
        match &mut self.rgb {
            Some(rgb) => {
                rgb.set(status_color(status, self.provisioner));
            },
            None => {},
        }
        match status {
            Status::Idle => {},
            _ => {
                self.wink = None;
            },
        }
    }

    /// Brings the light up to date with a wink that is going on.
    ///
    /// Without a light or a wink nothing is read or shown. Otherwise the
    /// clock is read once: during the wink its colour of the moment is
    /// shown, and once it is over the light goes back to idle.
    pub fn refresh(&mut self)
        ensures
            exists|time: u64| final(self)@ == #[trigger] old(self)@.refreshed(time),
    {
        let ghost before = self@;
        if self.rgb.is_none() {
            assert(self@ == before.refreshed(0));
            return ;
        }
        match self.wink {
            Some(wink) => {
                let time: u64 = self.uptime();
                if wink.contains(time) {
                    let color = wink_color(time - wink.start);
                    match &mut self.rgb {
                        Some(rgb) => {
                            rgb.set(color);
                        },
                        None => {},
                    }
                    assert(self@ == before.refreshed(time));
                } else {
                    self.set_status(Status::Idle);
                    self.wink = None;
                    assert(self@ == before.refreshed(time));
                }
            },
            None => {
                assert(self@ == before.refreshed(0));
            },
        }
    }

    /// Milliseconds since boot, read from the clock.
    pub fn uptime(&mut self) -> (time: u64)
        ensures
            final(self)@ == old(self)@.clocked(time),
    {
        self.rtc.now()
    }

    /// Starts a wink of `duration` milliseconds: the clock is read, the
    /// light turns white, and the wink lasts from now for `duration`.
    pub fn wink(&mut self, duration: u64)
        requires
            old(self)@.led is Some,
        ensures
            exists|time: u64| final(self)@ == #[trigger] old(self)@.winked(time, duration),
    {
        let ghost before = self@;
        let time: u64 = self.uptime();
        self.wink = Some(Wink { start: time, end: time.saturating_add(duration) });
        match &mut self.rgb {
            Some(rgb) => {
                rgb.set(Color::White.intensities());
            },
            None => {},
        }
        assert(self@ == before.winked(time, duration));
    }
}

} // verus!

//! What the user interface needs from the board: a clock, buttons and a
//! status light.
//!
//! The board supplies them by implementing `Clock`, `Press`, `Edge` and
//! `RgbLed`. The interface reaches them only through `Uptime`, `Buttons`
//! and `Led`, which keep a ghost record of what was read and what was shown.

use vstd::prelude::*;

verus! {

/// Which of the buttons are held down.
#[derive(Clone, Copy, Debug, PartialEq, Eq)]
pub struct State {
    pub a: bool,
    pub b: bool,
    pub middle: bool,
}

/// No new press came.
#[derive(Clone, Copy, Debug, PartialEq, Eq)]
pub struct NoPress;

/// Buttons whose level can be read.
pub trait Press {
    /// Which buttons are held down now.
    fn state(&mut self) -> State;
}

/// Buttons whose presses can be waited for.
pub trait Edge {
    /// Waits until any button is newly pressed.
    fn wait_for_any_new_press(&mut self) -> Result<(), NoPress>;
}

/// The brightness of each colour of the status light.
#[derive(Clone, Copy, Debug, PartialEq, Eq)]
pub struct Intensities {
    pub red: u8,
    pub green: u8,
    pub blue: u8,
}

/// A status light of three colours.
pub trait RgbLed {
    /// Shows the given colour.
    fn set(&mut self, intensities: Intensities);
}

/// A clock that counts from boot.
pub trait Clock {
    /// Milliseconds since boot.
    fn uptime(&mut self) -> u64;
}

/// One thing learned from the buttons.
pub enum ButtonEvent {
    /// The level of the buttons was read.
    Level(State),
    /// A new press was waited for: `announced` says whether the device
    /// showed at that time that it was waiting, `pressed` whether a press
    /// came.
    Wait { announced: bool, pressed: bool },
}

/// A clock together with the record of the times read from it.
pub struct Uptime<C: Clock> {
    clock: C,
    read: Ghost<Seq<u64>>,
}

impl<C: Clock> Uptime<C> {
    /// The times read so far, oldest first.
    pub closed spec fn log(&self) -> Seq<u64> {
        self.read@
    }

    /// Takes charge of a clock that was not read yet.
    pub fn new(clock: C) -> (uptime: Self)
        ensures
            uptime.log() == Seq::<u64>::empty(),
    {
        Uptime { clock, read: Ghost(Seq::empty()) }
    }

    /// Reads the clock, and records the time.
    pub fn now(&mut self) -> (time: u64)
        ensures
            final(self).log() == old(self).log().push(time),
    {
        let time: u64 = self.clock.uptime();
        proof {
            self.read@ = self.read@.push(time);
        }
        time
    }
}

/// Buttons together with the record of what was learned from them.
pub struct Buttons<B: Press + Edge> {
    buttons: B,
    learned: Ghost<Seq<ButtonEvent>>,
}

impl<B: Press + Edge> Buttons<B> {
    /// What was learned so far, oldest first.
    pub closed spec fn log(&self) -> Seq<ButtonEvent> {
        self.learned@
    }

    /// Takes charge of buttons that were not read yet.
    pub fn new(buttons: B) -> (wrapped: Self)
        ensures
            wrapped.log() == Seq::<ButtonEvent>::empty(),
    {
        Buttons { buttons, learned: Ghost(Seq::empty()) }
    }

    /// Reads which buttons are held down, and records it.
    pub fn state(&mut self) -> (state: State)
        ensures
            final(self).log() == old(self).log().push(ButtonEvent::Level(state)),
    {
        let state = self.buttons.state();
        proof {
            self.learned@ = self.learned@.push(ButtonEvent::Level(state));
        }
        state
    }

    /// Waits for a new press of any button, and records whether one came
    /// and whether the device was `announced` as waiting meanwhile.
    pub fn wait_for_any_new_press(&mut self, announced: bool) -> (result: Result<(), NoPress>)
        ensures
            final(self).log() == old(self).log().push(
                ButtonEvent::Wait { announced, pressed: result is Ok },
            ),
    {
        let result = self.buttons.wait_for_any_new_press();
        proof {
            self.learned@ = self.learned@.push(
                ButtonEvent::Wait { announced, pressed: result is Ok },
            );
        }
        result
    }
}

/// A status light together with the record of the colours shown on it.
pub struct Led<L: RgbLed> {
    led: L,
    shown: Ghost<Seq<Intensities>>,
}

impl<L: RgbLed> Led<L> {
    /// The colours shown so far, oldest first.
    pub closed spec fn log(&self) -> Seq<Intensities> {
        self.shown@
    }

    /// Takes charge of a light on which nothing was shown yet.
    pub fn new(led: L) -> (wrapped: Self)
        ensures
            wrapped.log() == Seq::<Intensities>::empty(),
    {
        Led { led, shown: Ghost(Seq::empty()) }
    }

    /// Shows a colour, and records it.
    pub fn set(&mut self, intensities: Intensities)
        ensures
            final(self).log() == old(self).log().push(intensities),
    {
        self.led.set(intensities);
        proof {
            self.shown@ = self.shown@.push(intensities);
        }
    }
}

} // verus!

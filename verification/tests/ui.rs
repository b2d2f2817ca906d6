use std::cell::RefCell;
use std::rc::Rc;

use crypto_service::traits::{Clock, Edge, Intensities, NoPress, Press, RgbLed, State};
use crypto_service::ui::{
    consent_level, status_color, wink_color, Color, Level, Status, UserInterface,
    UserPresenceStatus, Wink, WINK_PERIOD,
};

const WHITE: Intensities = Intensities { red: 255, green: 255, blue: 255 };
const BLACK: Intensities = Intensities { red: 0, green: 0, blue: 0 };
const GREEN: Intensities = Intensities { red: 0, green: 255, blue: 2 };
const TEAL: Intensities = Intensities { red: 0, green: 255, blue: 0x5a };
const ORANGE: Intensities = Intensities { red: 255, green: 0x7e, blue: 0 };
const RED: Intensities = Intensities { red: 255, green: 0, blue: 0 };

#[derive(Clone)]
struct FakeClock {
    now: Rc<RefCell<u64>>,
    reads: Rc<RefCell<usize>>,
}

impl FakeClock {
    fn at(time: u64) -> Self {
        FakeClock { now: Rc::new(RefCell::new(time)), reads: Rc::new(RefCell::new(0)) }
    }

    fn set(&self, time: u64) {
        *self.now.borrow_mut() = time;
    }

    fn reads(&self) -> usize {
        *self.reads.borrow()
    }
}

impl Clock for FakeClock {
    fn uptime(&mut self) -> u64 {
        *self.reads.borrow_mut() += 1;
        *self.now.borrow()
    }
}

#[derive(Clone)]
struct FakeButtons {
    state: State,
    pressed: bool,
    calls: Rc<RefCell<Vec<&'static str>>>,
}

impl FakeButtons {
    fn new(a: bool, b: bool, pressed: bool) -> Self {
        FakeButtons {
            state: State { a, b, middle: false },
            pressed,
            calls: Rc::new(RefCell::new(Vec::new())),
        }
    }
}

impl Press for FakeButtons {
    fn state(&mut self) -> State {
        self.calls.borrow_mut().push("state");
        self.state
    }
}

impl Edge for FakeButtons {
    fn wait_for_any_new_press(&mut self) -> Result<(), NoPress> {
        self.calls.borrow_mut().push("wait");
        if self.pressed {
            Ok(())
        } else {
            Err(NoPress)
        }
    }
}

#[derive(Clone)]
struct FakeLed {
    shown: Rc<RefCell<Vec<Intensities>>>,
}

impl FakeLed {
    fn new() -> Self {
        FakeLed { shown: Rc::new(RefCell::new(Vec::new())) }
    }

    fn shown(&self) -> Vec<Intensities> {
        self.shown.borrow().clone()
    }
}

impl RgbLed for FakeLed {
    fn set(&mut self, intensities: Intensities) {
        self.shown.borrow_mut().push(intensities);
    }
}

type Ui = UserInterface<FakeClock, FakeButtons, FakeLed>;

fn with_led(clock: &FakeClock, led: &FakeLed, provisioner: bool) -> Ui {
    UserInterface::new(clock.clone(), None, Some(led.clone()), provisioner)
}

#[test]
fn colours() {
    assert_eq!(Color::Black.intensities(), BLACK);
    assert_eq!(Color::Red.intensities(), RED);
    assert_eq!(Color::Green.intensities(), GREEN);
    assert_eq!(Color::Blue.intensities(), Intensities { red: 0, green: 0, blue: 255 });
    assert_eq!(Color::Teal.intensities(), TEAL);
    assert_eq!(Color::Orange.intensities(), ORANGE);
    assert_eq!(Color::White.intensities(), WHITE);
}

#[test]
fn colour_of_each_status() {
    assert_eq!(status_color(Status::Idle, false), GREEN);
    assert_eq!(status_color(Status::Idle, true), WHITE);
    assert_eq!(status_color(Status::Processing, false), TEAL);
    assert_eq!(status_color(Status::Processing, true), TEAL);
    assert_eq!(status_color(Status::WaitingForUserPresence, false), ORANGE);
    assert_eq!(status_color(Status::Error, true), RED);
}

#[test]
fn wink_is_white_then_off() {
    assert_eq!(WINK_PERIOD, 500);
    assert_eq!(wink_color(0), WHITE);
    assert_eq!(wink_color(249), WHITE);
    assert_eq!(wink_color(250), BLACK);
    assert_eq!(wink_color(499), BLACK);
    assert_eq!(wink_color(500), WHITE);
    assert_eq!(wink_color(750), BLACK);
    assert_eq!(wink_color(1_000_249), WHITE);
}

#[test]
fn consent_of_a_press() {
    let both = State { a: true, b: true, middle: false };
    let one = State { a: true, b: false, middle: true };
    let none = State { a: false, b: false, middle: false };
    assert_eq!(consent_level(both, true), Level::Strong);
    assert_eq!(consent_level(one, true), Level::Normal);
    assert_eq!(consent_level(none, true), Level::Normal);
    assert_eq!(consent_level(both, false), Level::Absent);
    assert_eq!(consent_level(none, false), Level::Absent);
}

#[test]
fn wink_span_contains_its_start_but_not_its_end() {
    let wink = Wink { start: 100, end: 200 };
    assert!(!wink.contains(99));
    assert!(wink.contains(100));
    assert!(wink.contains(199));
    assert!(!wink.contains(200));
}

#[test]
fn presence_status_starts_not_waiting() {
    assert!(!UserPresenceStatus::new().waiting());
}

#[test]
fn new_interface_reads_and_shows_nothing() {
    let clock = FakeClock::at(5);
    let led = FakeLed::new();
    let ui = with_led(&clock, &led, false);
    assert!(ui.has_led());
    assert!(!ui.presence().waiting());
    assert_eq!(clock.reads(), 0);
    assert!(led.shown().is_empty());
    let bare: Ui = UserInterface::new(clock.clone(), None, None, true);
    assert!(!bare.has_led());
}

#[test]
fn presence_without_buttons_is_normal() {
    let clock = FakeClock::at(0);
    let mut ui: Ui = UserInterface::new(clock, None, None, false);
    assert_eq!(ui.check_user_presence(), Level::Normal);
    assert!(!ui.presence().waiting());
}

#[test]
fn presence_with_both_buttons_is_strong() {
    let buttons = FakeButtons::new(true, true, true);
    let mut ui: Ui = UserInterface::new(FakeClock::at(0), Some(buttons.clone()), None, false);
    assert_eq!(ui.check_user_presence(), Level::Strong);
    assert_eq!(*buttons.calls.borrow(), vec!["state", "wait"]);
    assert!(!ui.presence().waiting());
}

#[test]
fn presence_with_one_button_is_normal() {
    let buttons = FakeButtons::new(false, true, true);
    let mut ui: Ui = UserInterface::new(FakeClock::at(0), Some(buttons), None, false);
    assert_eq!(ui.check_user_presence(), Level::Normal);
}

#[test]
fn presence_without_a_press_is_absent() {
    let buttons = FakeButtons::new(true, true, false);
    let mut ui: Ui = UserInterface::new(FakeClock::at(0), Some(buttons), None, false);
    assert_eq!(ui.check_user_presence(), Level::Absent);
    assert!(!ui.presence().waiting());
}

#[test]
fn set_status_shows_the_colour() {
    let clock = FakeClock::at(0);
    let led = FakeLed::new();
    let mut ui = with_led(&clock, &led, false);
    ui.set_status(Status::Idle);
    ui.set_status(Status::Processing);
    ui.set_status(Status::WaitingForUserPresence);
    ui.set_status(Status::Error);
    assert_eq!(led.shown(), vec![GREEN, TEAL, ORANGE, RED]);
    assert_eq!(clock.reads(), 0);
}

#[test]
fn idle_provisioner_is_white() {
    let clock = FakeClock::at(0);
    let led = FakeLed::new();
    let mut ui = with_led(&clock, &led, true);
    ui.set_status(Status::Idle);
    assert_eq!(led.shown(), vec![WHITE]);
}

#[test]
fn set_status_without_a_light_shows_nothing() {
    let clock = FakeClock::at(0);
    let mut ui: Ui = UserInterface::new(clock.clone(), None, None, false);
    ui.set_status(Status::Error);
    ui.refresh();
    assert_eq!(clock.reads(), 0);
}

#[test]
fn uptime_reads_the_clock() {
    let clock = FakeClock::at(1234);
    let mut ui: Ui = UserInterface::new(clock.clone(), None, None, false);
    assert_eq!(ui.uptime(), 1234);
    clock.set(5678);
    assert_eq!(ui.uptime(), 5678);
    assert_eq!(clock.reads(), 2);
}

#[test]
fn refresh_without_a_wink_reads_nothing() {
    let clock = FakeClock::at(0);
    let led = FakeLed::new();
    let mut ui = with_led(&clock, &led, false);
    ui.refresh();
    assert_eq!(clock.reads(), 0);
    assert!(led.shown().is_empty());
}

#[test]
fn wink_blinks_and_then_goes_back_to_idle() {
    let clock = FakeClock::at(1000);
    let led = FakeLed::new();
    let mut ui = with_led(&clock, &led, false);
    ui.wink(1000);
    assert_eq!(led.shown(), vec![WHITE]);
    clock.set(1100);
    ui.refresh();
    clock.set(1250);
    ui.refresh();
    clock.set(1499);
    ui.refresh();
    clock.set(1500);
    ui.refresh();
    clock.set(1999);
    ui.refresh();
    assert_eq!(led.shown(), vec![WHITE, WHITE, BLACK, BLACK, WHITE, BLACK]);
    clock.set(2000);
    ui.refresh();
    assert_eq!(led.shown(), vec![WHITE, WHITE, BLACK, BLACK, WHITE, BLACK, GREEN]);
    let reads = clock.reads();
    ui.refresh();
    assert_eq!(clock.reads(), reads);
    assert_eq!(led.shown().len(), 7);
}

#[test]
fn a_wink_ends_when_the_device_is_no_longer_idle() {
    let clock = FakeClock::at(0);
    let led = FakeLed::new();
    let mut ui = with_led(&clock, &led, false);
    ui.wink(10_000);
    ui.set_status(Status::Processing);
    clock.set(100);
    ui.refresh();
    assert_eq!(led.shown(), vec![WHITE, TEAL]);
    assert_eq!(clock.reads(), 1);
}

#[test]
fn a_wink_goes_on_while_the_device_is_idle() {
    let clock = FakeClock::at(0);
    let led = FakeLed::new();
    let mut ui = with_led(&clock, &led, false);
    ui.wink(10_000);
    ui.set_status(Status::Idle);
    clock.set(300);
    ui.refresh();
    assert_eq!(led.shown(), vec![WHITE, GREEN, BLACK]);
}

#[test]
fn a_wink_near_the_end_of_time_does_not_overflow() {
    let clock = FakeClock::at(u64::MAX - 5);
    let led = FakeLed::new();
    let mut ui = with_led(&clock, &led, false);
    ui.wink(100);
    clock.set(u64::MAX - 1);
    ui.refresh();
    assert_eq!(led.shown(), vec![WHITE, WHITE]);
}

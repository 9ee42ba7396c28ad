//! Decoding of the controller's raw input codes, and the per-channel record
//! of what is currently held.

use vstd::prelude::*;

verus! {

/// Number of playable keys on one controller.
pub const KEY_COUNT: usize = 24;

/// One semantic input of the controller.
#[derive(Clone, Copy, Debug, PartialEq, Eq, Structural)]
pub enum Input {
    /// A playable key, `0..=23`.
    Key(u8),
    WheelUp,
    WheelDown,
    Start,
    Select,
}

/// One hardware transition of an input.
#[derive(Clone, Copy, Debug, PartialEq, Eq, Structural)]
pub enum Event {
    Press(Input),
    Release(Input),
}

/// Whether a raw code belongs to one of the recognised ranges (including the
/// range that is silently dropped).
pub open spec fn known_code(raw: u16) -> bool {
    (304 <= raw && raw <= 320) || (704 <= raw && raw <= 715) || (745 <= raw && raw <= 750)
}

/// The input that a recognised raw code stands for.
pub open spec fn decode(raw: u16) -> Option<Input> {
    if 304 <= raw && raw <= 316 {
        Some(Input::Key((raw - 304) as u8))
    } else if raw == 317 {
        Some(Input::Select)
    } else if 318 <= raw && raw <= 320 {
        Some(Input::Key((raw - 318 + 13) as u8))
    } else if 704 <= raw && raw <= 707 {
        Some(Input::Key((raw - 704 + 15) as u8))
    } else if raw == 708 {
        Some(Input::Start)
    } else if 709 <= raw && raw <= 713 {
        Some(Input::Key((raw - 709 + 19) as u8))
    } else if raw == 714 {
        Some(Input::WheelUp)
    } else if raw == 715 {
        Some(Input::WheelDown)
    } else {
        None
    }
}

impl Input {
    /// A key index is in range; every other input is always valid.
    pub open spec fn wf(self) -> bool {
        match self {
            Input::Key(k) => k < 24,
            _ => true,
        }
    }

    /// Whether `value` is a code that `from_raw` accepts.
    pub fn is_known_code(value: u16) -> (r: bool)
        ensures
            r == known_code(value),
    {
        (304 <= value && value <= 320) || (704 <= value && value <= 715) || (745 <= value
            && value <= 750)
    }

    /// Decodes a raw hardware code. Codes `745..=750` carry no input.
    pub fn from_raw(value: u16) -> (r: Option<Self>)
        requires
            known_code(value),
        ensures
            r == decode(value),
            r matches Some(i) ==> i.wf(),
    {
        if 304 <= value && value <= 316 {
            Some(Input::Key((value - 304) as u8))
        } else if value == 317 {
            Some(Input::Select)
        } else if 318 <= value && value <= 320 {
            Some(Input::Key((value - 318 + 13) as u8))
        } else if 704 <= value && value <= 707 {
            Some(Input::Key((value - 704 + 15) as u8))
        } else if value == 708 {
            Some(Input::Start)
        } else if 709 <= value && value <= 713 {
            Some(Input::Key((value - 709 + 19) as u8))
        } else if value == 714 {
            Some(Input::WheelUp)
        } else if value == 715 {
            Some(Input::WheelDown)
        } else {
            None
        }
    }
}

/// The decoding table: codes 304 to 316 are keys 0 to 12, 317 is Select,
/// 714 and 715 are the wheel, both 320 and 704 are key 15, codes 745 to 750
/// are recognised but carry no input, and 900 is not recognised.
pub proof fn lemma_decode_table()
    ensures
        forall|raw: u16|
            304 <= raw <= 316 ==> known_code(raw) && #[trigger] decode(raw) == Some(
                Input::Key((raw - 304) as u8),
            ),
        decode(317) == Some(Input::Select),
        decode(714) == Some(Input::WheelUp),
        decode(715) == Some(Input::WheelDown),
        decode(320) == Some(Input::Key(15)),
        decode(704) == Some(Input::Key(15)),
        forall|raw: u16| 745 <= raw <= 750 ==> known_code(raw) && #[trigger] decode(raw) is None,
        !known_code(900),
{
}

/// The edge that a hardware key event stands for: value `0` is a release,
/// any other value a press.
pub open spec fn edge_of(raw: u16, value: i32) -> Option<Event> {
    match decode(raw) {
        Some(i) => Some(if value == 0 { Event::Release(i) } else { Event::Press(i) }),
        None => None,
    }
}

impl Event {
    pub open spec fn wf(self) -> bool {
        match self {
            Event::Press(i) => i.wf(),
            Event::Release(i) => i.wf(),
        }
    }

    /// Decodes one hardware key event into an edge.
    pub fn from_raw(code: u16, value: i32) -> (r: Option<Event>)
        requires
            known_code(code),
        ensures
            r == edge_of(code, value),
            r matches Some(e) ==> e.wf(),
    {
        match Input::from_raw(code) {
            Some(i) => Some(
                if value == 0 {
                    Event::Release(i)
                } else {
                    Event::Press(i)
                },
            ),
            None => None,
        }
    }
}

/// What is held on one controller.
#[derive(Clone, Copy, Debug)]
pub struct State {
    keys: [bool; 24],
    wheel_up: bool,
    wheel_down: bool,
    start: bool,
    select: bool,
}

/// The mathematical content of a `State`.
pub ghost struct StateView {
    pub keys: Seq<bool>,
    pub wheel_up: bool,
    pub wheel_down: bool,
    pub start: bool,
    pub select: bool,
}

impl View for State {
    type V = StateView;

    closed spec fn view(&self) -> StateView {
        StateView {
            keys: self.keys@,
            wheel_up: self.wheel_up,
            wheel_down: self.wheel_down,
            start: self.start,
            select: self.select,
        }
    }
}

/// Nothing held.
pub open spec fn idle_state() -> StateView {
    StateView {
        keys: Seq::new(24, |i: int| false),
        wheel_up: false,
        wheel_down: false,
        start: false,
        select: false,
    }
}

/// The state after one edge has been folded in.
pub open spec fn updated(s: StateView, ev: Event) -> StateView {
    match ev {
        Event::Press(Input::Key(k)) => StateView { keys: s.keys.update(k as int, true), ..s },
        Event::Release(Input::Key(k)) => StateView { keys: s.keys.update(k as int, false), ..s },
        Event::Press(Input::WheelUp) => StateView { wheel_up: true, ..s },
        Event::Release(Input::WheelUp) => StateView { wheel_up: false, ..s },
        Event::Press(Input::WheelDown) => StateView { wheel_down: true, ..s },
        Event::Release(Input::WheelDown) => StateView { wheel_down: false, ..s },
        Event::Press(Input::Start) => StateView { start: true, ..s },
        Event::Release(Input::Start) => StateView { start: false, ..s },
        Event::Press(Input::Select) => StateView { select: true, ..s },
        Event::Release(Input::Select) => StateView { select: false, ..s },
    }
}

impl State {
    /// Nothing held.
    pub fn new() -> (r: State)
        ensures
            r@ == idle_state(),
    {
        let r = State {
            keys: [false; 24],
            wheel_up: false,
            wheel_down: false,
            start: false,
            select: false,
        };
        assert(r@.keys =~= idle_state().keys);
        r
    }

    pub fn keys(&self) -> (r: &[bool; 24])
        ensures
            r@ == self@.keys,
    {
        &self.keys
    }

    /// Whether key `k` is held.
    pub fn key(&self, k: u8) -> (r: bool)
        requires
            k < 24,
        ensures
            r == self@.keys[k as int],
    {
        self.keys[k as usize]
    }

    pub fn wheel_up(&self) -> (r: bool)
        ensures
            r == self@.wheel_up,
    {
        self.wheel_up
    }

    pub fn wheel_down(&self) -> (r: bool)
        ensures
            r == self@.wheel_down,
    {
        self.wheel_down
    }

    pub fn start(&self) -> (r: bool)
        ensures
            r == self@.start,
    {
        self.start
    }

    pub fn select(&self) -> (r: bool)
        ensures
            r == self@.select,
    {
        self.select
    }

    /// Folds one edge into the held state.
    pub fn update(&mut self, ev: &Event)
        requires
            ev.wf(),
        ensures
            final(self)@ == updated(old(self)@, *ev),
    {
        match *ev {
            Event::Press(Input::Key(key)) => self.keys[key as usize] = true,
            Event::Release(Input::Key(key)) => self.keys[key as usize] = false,
            Event::Press(Input::WheelUp) => self.wheel_up = true,
            Event::Release(Input::WheelUp) => self.wheel_up = false,
            Event::Press(Input::WheelDown) => self.wheel_down = true,
            Event::Release(Input::WheelDown) => self.wheel_down = false,
            Event::Press(Input::Start) => self.start = true,
            Event::Release(Input::Start) => self.start = false,
            Event::Press(Input::Select) => self.select = true,
            Event::Release(Input::Select) => self.select = false,
        }
        assert(self@.keys =~= updated(old(self)@, *ev).keys);
    }

    /// Forgets that Select and Start are held.
    pub fn reset_select_start(&mut self)
        ensures
            final(self)@ == (StateView { select: false, start: false, ..old(self)@ }),
    {
        self.select = false;
        self.start = false;
    }
}

impl Default for State {
    fn default() -> (r: State)
        ensures
            r@ == idle_state(),
    {
        State::new()
    }
}

} // verus!

//! The command interpreter: turns the ordered stream of controller edges into
//! synthesizer events, mutating and persisting per-channel settings.

use vstd::prelude::*;
use crate::kmctrler::{idle_state, updated, Input, State, StateView};
use crate::kmctrler::Event as Edge;
use crate::settings::{
    is_current, lemma_grown_len, lemma_with_same_keyboard, KeyboardSettings, KeyboardView, SettingsView,
    SynthesizerSettings, MAX_OCTAVE, MAX_PROGRAM,
};

verus! {

/// What the synthesizer is asked to do.
#[derive(Clone, Copy, Debug, PartialEq, Eq, Structural)]
pub enum Event {
    /// Channel, note, velocity.
    Noteon(u8, u8, u8),
    /// Channel, note.
    Noteoff(u8, u8),
    AllNotesOff(u8),
    /// Channel, program.
    ProgramChange(u8, u8),
    /// A synth-wide offset in semitones.
    Tuning(i32),
    HoldOn(u8),
    HoldOff(u8),
    ModulationOn(u8),
    ModulationOff(u8),
    ReverbOn(u8),
    ReverbOff(u8),
    ChorusOn(u8),
    ChorusOff(u8),
}

/// Channel on which the mode-switch cues are played.
pub const PERCUSSION_CHANNEL: u8 = 9;

/// Cue played when configuration mode is entered.
pub const CONFIG_CUE_NOTE: u8 = 42;

/// Cue played when performance mode is entered.
pub const PERFORMANCE_CUE_NOTE: u8 = 36;

/// Note of the cue that confirms a program change.
pub const PROGRAM_CUE_NOTE: u8 = 69;

/// Velocity of the mode-switch cues.
pub const CUE_VELOCITY: u8 = 127;

impl Event {
    /// Whether the event is a note-off, which is paced when it is replayed
    /// from the pending queue.
    pub fn is_noteoff(&self) -> (r: bool)
        ensures
            r == (*self is Noteoff),
    {
        match self {
            Event::Noteoff(_, _) => true,
            _ => false,
        }
    }
}

/// The note played by key `key` at octave `octave`.
pub open spec fn virtual_key(key: u8, octave: u8) -> u8 {
    (key + octave * 12) as u8
}

/// A note-on at the velocity of the channel's current program.
pub open spec fn noteon_of(chan: u8, note: u8, k: KeyboardView) -> Event {
    Event::Noteon(chan, note, k.current_velocity())
}

/// A note-off followed by a note-on of the same note. Pushed on the pending
/// stack, the note-on is delivered first.
pub open spec fn cue(chan: u8, note: u8, k: KeyboardView) -> Seq<Event> {
    seq![Event::Noteoff(chan, note), noteon_of(chan, note, k)]
}

/// The 0/1 weight of key `i` in a chord.
pub open spec fn held(keys: Seq<bool>, i: int) -> int {
    if keys[i] {
        1
    } else {
        0
    }
}

/// The binary number that keys 5 to 11 spell, key 5 the most significant bit.
pub open spec fn chord_value(keys: Seq<bool>) -> int {
    64 * held(keys, 5) + 32 * held(keys, 6) + 16 * held(keys, 7) + 8 * held(keys, 8) + 4 * held(
        keys,
        9,
    ) + 2 * held(keys, 10) + held(keys, 11)
}

/// The program that a chord selects: its value minus one, within seven bits
/// (an empty chord selects the highest program).
pub open spec fn chord_program(keys: Seq<bool>) -> u8 {
    ((chord_value(keys) + 127) % 128) as u8
}

/// The velocity that a key sets for the current program, if it is one of the
/// seven velocity keys.
pub open spec fn velocity_level(key: u8) -> Option<u8> {
    if key == 12 {
        Some(73u8)
    } else if key == 14 {
        Some(82u8)
    } else if key == 16 {
        Some(91u8)
    } else if key == 17 {
        Some(100u8)
    } else if key == 19 {
        Some(109u8)
    } else if key == 21 {
        Some(118u8)
    } else if key == 23 {
        Some(127u8)
    } else {
        None
    }
}

/// The settings of channel `chan` once it has been accessed.
pub open spec fn current(s: SettingsView, chan: u8) -> KeyboardView {
    s.grown(chan).keyboards[chan as int]
}

/// Channel `chan` accessed and its settings replaced by `k`, with no save.
pub open spec fn edited(s: SettingsView, chan: u8, k: KeyboardView) -> SettingsView {
    s.grown(chan).with_keyboard(chan, k)
}

/// One octave down (not below 0); saved when `save`. At octave 0 nothing
/// changes and nothing is saved.
pub open spec fn shifted_down(s: SettingsView, chan: u8, save: bool) -> SettingsView {
    let k = current(s, chan);
    if k.octave == 0 {
        s.grown(chan)
    } else {
        let e = edited(s, chan, KeyboardView { octave: (k.octave - 1) as u8, ..k });
        if save {
            e.save_requested()
        } else {
            e
        }
    }
}

/// One octave up (not above the highest); saved when `save`. At the highest
/// octave nothing changes and nothing is saved.
pub open spec fn shifted_up(s: SettingsView, chan: u8, save: bool) -> SettingsView {
    let k = current(s, chan);
    if k.octave >= MAX_OCTAVE {
        s.grown(chan)
    } else {
        let e = edited(s, chan, KeyboardView { octave: (k.octave + 1) as u8, ..k });
        if save {
            e.save_requested()
        } else {
            e
        }
    }
}

/// Program `p` selected on channel `chan`, and saved.
pub open spec fn program_set(s: SettingsView, chan: u8, p: u8) -> SettingsView {
    edited(s, chan, KeyboardView { program_no: p, ..current(s, chan) }).save_requested()
}

/// The settings after a velocity key: the current program's velocity is set
/// and saved; any other key only accesses the channel.
pub open spec fn velocity_set(s: SettingsView, chan: u8, key: u8) -> SettingsView {
    let k = current(s, chan);
    match velocity_level(key) {
        Some(v) => edited(
            s,
            chan,
            KeyboardView { velocity: k.velocity.update(k.program_no as int, v), ..k },
        ).save_requested(),
        None => s.grown(chan),
    }
}

/// Reverb flipped on channel `chan`, and saved.
pub open spec fn reverb_toggled(s: SettingsView, chan: u8) -> SettingsView {
    let k = current(s, chan);
    edited(s, chan, KeyboardView { reverb: !k.reverb, ..k }).save_requested()
}

/// Chorus flipped on channel `chan`, and saved.
pub open spec fn chorus_toggled(s: SettingsView, chan: u8) -> SettingsView {
    let k = current(s, chan);
    edited(s, chan, KeyboardView { chorus: !k.chorus, ..k }).save_requested()
}

/// A note-on at the velocity of the channel's current program.
pub fn noteon(chan: u8, virtual_key: u8, keyboard: &KeyboardSettings) -> (r: Event)
    requires
        keyboard@.wf(),
    ensures
        r == noteon_of(chan, virtual_key, keyboard@),
{
    Event::Noteon(chan, virtual_key, keyboard.current_velocity())
}

/// Reads keys 5 to 11 as a binary number and selects that program minus one.
pub fn key_to_program_no(keys: &[bool; 24]) -> (r: u8)
    ensures
        r == chord_program(keys@),
        r <= MAX_PROGRAM,
{
    let v: u8 = keys[5] as u8 * 64 + keys[6] as u8 * 32 + keys[7] as u8 * 16 + keys[8] as u8 * 8
        + keys[9] as u8 * 4 + keys[10] as u8 * 2 + keys[11] as u8;
    if v == 0 {
        MAX_PROGRAM
    } else {
        v - 1
    }
}

/// Sets the current program's velocity from one of the seven velocity keys
/// (a curve in steps of 9 up to 127) and requests a save. Returns whether
/// `key` was a velocity key.
pub fn velocity_per_program(settings: &mut SynthesizerSettings, chan: u8, key: u8) -> (r: bool)
    requires
        old(settings)@.wf(),
    ensures
        r == velocity_level(key) is Some,
        final(settings)@ == velocity_set(old(settings)@, chan, key),
        final(settings)@.wf(),
{
    let keyboard = settings.get_or_create_keyboard_mut(chan);
    let program_no = keyboard.program_no();
    let vel: u8 = if key == 12 {
        73
    } else if key == 14 {
        82
    } else if key == 16 {
        91
    } else if key == 17 {
        100
    } else if key == 19 {
        109
    } else if key == 21 {
        118
    } else if key == 23 {
        127
    } else {
        proof {
            lemma_grown_len(old(settings)@, chan);
            lemma_with_same_keyboard(old(settings)@.grown(chan), chan);
        }
        return false;
    };
    keyboard.set_velocity(program_no, vel);
    settings.queue_save();
    true
}

/// Shifts channel `chan` one octave down, not below 0, and requests a save
/// when it moved.
pub fn octave_shift_down(settings: &mut SynthesizerSettings, chan: u8)
    requires
        old(settings)@.wf(),
    ensures
        final(settings)@ == shifted_down(old(settings)@, chan, true),
        final(settings)@.wf(),
{
    let keyboard = settings.get_or_create_keyboard_mut(chan);
    if keyboard.octave() == 0 {
        proof {
            lemma_grown_len(old(settings)@, chan);
            lemma_with_same_keyboard(old(settings)@.grown(chan), chan);
        }
        return;
    }
    let octave = keyboard.octave();
    keyboard.set_octave(octave - 1);
    settings.queue_save();
}

/// Shifts channel `chan` one octave up, not above the highest, and requests a
/// save when it moved.
pub fn octave_shift_up(settings: &mut SynthesizerSettings, chan: u8)
    requires
        old(settings)@.wf(),
    ensures
        final(settings)@ == shifted_up(old(settings)@, chan, true),
        final(settings)@.wf(),
{
    let keyboard = settings.get_or_create_keyboard_mut(chan);
    if keyboard.octave() >= MAX_OCTAVE {
        proof {
            lemma_grown_len(old(settings)@, chan);
            lemma_with_same_keyboard(old(settings)@.grown(chan), chan);
        }
        return;
    }
    let octave = keyboard.octave();
    keyboard.set_octave(octave + 1);
    settings.queue_save();
}

/// Shifts channel `chan` one octave down, not below 0, in memory only.
pub fn octave_shift_down_without_save(settings: &mut SynthesizerSettings, chan: u8)
    requires
        old(settings)@.wf(),
    ensures
        final(settings)@ == shifted_down(old(settings)@, chan, false),
        final(settings)@.wf(),
{
    let keyboard = settings.get_or_create_keyboard_mut(chan);
    if keyboard.octave() == 0 {
        proof {
            lemma_grown_len(old(settings)@, chan);
            lemma_with_same_keyboard(old(settings)@.grown(chan), chan);
        }
        return;
    }
    let octave = keyboard.octave();
    keyboard.set_octave(octave - 1);
}

/// Shifts channel `chan` one octave up, not above the highest, in memory
/// only.
pub fn octave_shift_up_without_save(settings: &mut SynthesizerSettings, chan: u8)
    requires
        old(settings)@.wf(),
    ensures
        final(settings)@ == shifted_up(old(settings)@, chan, false),
        final(settings)@.wf(),
{
    let keyboard = settings.get_or_create_keyboard_mut(chan);
    if keyboard.octave() >= MAX_OCTAVE {
        proof {
            lemma_grown_len(old(settings)@, chan);
            lemma_with_same_keyboard(old(settings)@.grown(chan), chan);
        }
        return;
    }
    let octave = keyboard.octave();
    keyboard.set_octave(octave + 1);
}

/// Selects program `program_no` on channel `chan` and requests a save.
pub fn program_change(settings: &mut SynthesizerSettings, chan: u8, program_no: u8)
    requires
        old(settings)@.wf(),
        program_no <= MAX_PROGRAM,
    ensures
        final(settings)@ == program_set(old(settings)@, chan, program_no),
        final(settings)@.wf(),
{
    settings.get_or_create_keyboard_mut(chan).set_program_no(program_no);
    settings.queue_save();
}

/// Flips reverb on channel `chan`, requests a save, and reports the new
/// setting.
pub fn toggle_reverb(settings: &mut SynthesizerSettings, chan: u8) -> (r: Event)
    requires
        old(settings)@.wf(),
    ensures
        final(settings)@ == reverb_toggled(old(settings)@, chan),
        final(settings)@.wf(),
        r == if current(old(settings)@, chan).reverb {
            Event::ReverbOff(chan)
        } else {
            Event::ReverbOn(chan)
        },
{
    let keyboard = settings.get_or_create_keyboard_mut(chan);
    let new_reverb = !keyboard.reverb();
    keyboard.set_reverb(new_reverb);
    settings.queue_save();
    if new_reverb {
        Event::ReverbOn(chan)
    } else {
        Event::ReverbOff(chan)
    }
}

/// Flips chorus on channel `chan`, requests a save, and reports the new
/// setting.
pub fn toggle_chorus(settings: &mut SynthesizerSettings, chan: u8) -> (r: Event)
    requires
        old(settings)@.wf(),
    ensures
        final(settings)@ == chorus_toggled(old(settings)@, chan),
        final(settings)@.wf(),
        r == if current(old(settings)@, chan).chorus {
            Event::ChorusOff(chan)
        } else {
            Event::ChorusOn(chan)
        },
{
    let keyboard = settings.get_or_create_keyboard_mut(chan);
    let new_chorus = !keyboard.chorus();
    keyboard.set_chorus(new_chorus);
    settings.queue_save();
    if new_chorus {
        Event::ChorusOn(chan)
    } else {
        Event::ChorusOff(chan)
    }
}

/// The cue note for entering a mode: `no == 1` is configuration mode.
pub open spec fn cue_note(no: i32) -> u8 {
    if no == 1 {
        CONFIG_CUE_NOTE
    } else {
        PERFORMANCE_CUE_NOTE
    }
}

/// The pushed part of a mode-switch cue.
pub open spec fn percussion_cues(no: i32) -> Seq<Event> {
    seq![
        Event::Noteoff(PERCUSSION_CHANNEL, cue_note(no)),
        Event::Noteon(PERCUSSION_CHANNEL, cue_note(no), CUE_VELOCITY),
        Event::Noteoff(PERCUSSION_CHANNEL, cue_note(no)),
    ]
}

/// Scripts a double percussion hit: the returned note-on is delivered now,
/// the pushed note-off, note-on, note-off follow.
pub fn percussion(event_queue: &mut Vec<Event>, no: i32) -> (r: Event)
    ensures
        r == Event::Noteon(PERCUSSION_CHANNEL, cue_note(no), CUE_VELOCITY),
        final(event_queue)@ == old(event_queue)@ + percussion_cues(no),
{
    let note = if no == 1 {
        CONFIG_CUE_NOTE
    } else {
        PERFORMANCE_CUE_NOTE
    };
    event_queue.push(Event::Noteoff(PERCUSSION_CHANNEL, note));
    event_queue.push(Event::Noteon(PERCUSSION_CHANNEL, note, CUE_VELOCITY));
    event_queue.push(Event::Noteoff(PERCUSSION_CHANNEL, note));
    assert(event_queue@ =~= old(event_queue)@ + seq![
        Event::Noteoff(PERCUSSION_CHANNEL, note),
        Event::Noteon(PERCUSSION_CHANNEL, note, CUE_VELOCITY),
        Event::Noteoff(PERCUSSION_CHANNEL, note),
    ]);
    Event::Noteon(PERCUSSION_CHANNEL, note, CUE_VELOCITY)
}

/// The pushed part of the "switched on" arpeggio: delivered as 72, 76, 79.
pub open spec fn on_sfx(chan: u8, k: KeyboardView) -> Seq<Event> {
    cue(chan, 79, k) + cue(chan, 76, k) + cue(chan, 72, k)
}

/// The pushed part of the "switched off" arpeggio: delivered as 79, 76, 72.
pub open spec fn off_sfx(chan: u8, k: KeyboardView) -> Seq<Event> {
    cue(chan, 72, k) + cue(chan, 76, k) + cue(chan, 79, k)
}

/// Pushes an ascending three-note arpeggio.
pub fn add_on_sfx(event_queue: &mut Vec<Event>, chan: u8, keyboard: &KeyboardSettings)
    requires
        keyboard@.wf(),
    ensures
        final(event_queue)@ == old(event_queue)@ + on_sfx(chan, keyboard@),
{
    event_queue.push(Event::Noteoff(chan, 79));
    event_queue.push(noteon(chan, 79, keyboard));
    event_queue.push(Event::Noteoff(chan, 76));
    event_queue.push(noteon(chan, 76, keyboard));
    event_queue.push(Event::Noteoff(chan, 72));
    event_queue.push(noteon(chan, 72, keyboard));
    assert(event_queue@ =~= old(event_queue)@ + on_sfx(chan, keyboard@));
}

/// Pushes a descending three-note arpeggio.
pub fn add_off_sfx(event_queue: &mut Vec<Event>, chan: u8, keyboard: &KeyboardSettings)
    requires
        keyboard@.wf(),
    ensures
        final(event_queue)@ == old(event_queue)@ + off_sfx(chan, keyboard@),
{
    event_queue.push(Event::Noteoff(chan, 72));
    event_queue.push(noteon(chan, 72, keyboard));
    event_queue.push(Event::Noteoff(chan, 76));
    event_queue.push(noteon(chan, 76, keyboard));
    event_queue.push(Event::Noteoff(chan, 79));
    event_queue.push(noteon(chan, 79, keyboard));
    assert(event_queue@ =~= old(event_queue)@ + off_sfx(chan, keyboard@));
}

/// Performance mode: the wheel shifts the octave (a press permanently, a
/// release back again in memory only, unless Start is held), Select drives
/// modulation. `Err(true)`: consumed without an event; `Err(false)`: not
/// handled here.
pub open spec fn normal_step(s: SettingsView, st: StateView, chan: u8, ev: Edge) -> (
    SettingsView,
    Result<Event, bool>,
) {
    match ev {
        Edge::Press(Input::WheelUp) => (shifted_down(s, chan, true), Err(true)),
        Edge::Press(Input::WheelDown) => (shifted_up(s, chan, true), Err(true)),
        Edge::Release(Input::WheelUp) => if !st.start {
            (shifted_up(s, chan, false), Err(true))
        } else {
            (s, Err(false))
        },
        Edge::Release(Input::WheelDown) => if !st.start {
            (shifted_down(s, chan, false), Err(true))
        } else {
            (s, Err(false))
        },
        Edge::Press(Input::Select) => (s, Ok(Event::ModulationOn(chan))),
        Edge::Release(Input::Select) => (s, Ok(Event::ModulationOff(chan))),
        _ => (s, Err(false)),
    }
}

/// Handles an edge in performance mode.
pub fn normal_mode_action(
    settings: &mut SynthesizerSettings,
    state: &State,
    chan: u8,
    ev: &Edge,
) -> (r: Result<Event, bool>)
    requires
        old(settings)@.wf(),
    ensures
        (final(settings)@, r) == normal_step(old(settings)@, state@, chan, *ev),
        final(settings)@.wf(),
{
    match *ev {
        Edge::Press(Input::WheelUp) => {
            octave_shift_down(settings, chan);
            Err(true)
        },
        Edge::Press(Input::WheelDown) => {
            octave_shift_up(settings, chan);
            Err(true)
        },
        Edge::Release(Input::WheelUp) => {
            if state.start() {
                Err(false)
            } else {
                octave_shift_up_without_save(settings, chan);
                Err(true)
            }
        },
        Edge::Release(Input::WheelDown) => {
            if state.start() {
                Err(false)
            } else {
                octave_shift_down_without_save(settings, chan);
                Err(true)
            }
        },
        Edge::Press(Input::Select) => Ok(Event::ModulationOn(chan)),
        Edge::Release(Input::Select) => Ok(Event::ModulationOff(chan)),
        _ => Err(false),
    }
}

/// An all-zero row of the octave-at-press table.
pub open spec fn zero_row() -> Seq<u8> {
    Seq::new(24, |j: int| 0u8)
}

/// The octave-at-press table after channel `chan` has been accessed.
pub open spec fn rows_grown(t: Seq<Seq<u8>>, chan: u8) -> Seq<Seq<u8>> {
    if (chan as int) < t.len() {
        t
    } else {
        t + Seq::new((chan + 1 - t.len()) as nat, |i: int| zero_row())
    }
}

/// The views of the rows of an octave-at-press table.
pub open spec fn rows_view(t: Seq<[u8; 24]>) -> Seq<Seq<u8>> {
    t.map_values(|r: [u8; 24]| r@)
}

/// Every remembered octave is in range.
pub open spec fn rows_wf(t: Seq<Seq<u8>>) -> bool {
    forall|i: int, j: int|
        0 <= i < t.len() && 0 <= j < 24 ==> #[trigger] t[i][j] <= MAX_OCTAVE && t[i].len() == 24
}

/// Keys play notes: a press at the channel's octave, remembered per key; a
/// release at the octave remembered for that key (0 if none).
pub open spec fn common_step(s: SettingsView, t: Seq<Seq<u8>>, chan: u8, ev: Edge) -> (
    SettingsView,
    Seq<Seq<u8>>,
    Option<Event>,
) {
    match ev {
        Edge::Press(Input::Key(k)) => {
            let kb = current(s, chan);
            let t1 = rows_grown(t, chan);
            (
                s.grown(chan),
                t1.update(chan as int, t1[chan as int].update(k as int, kb.octave)),
                Some(noteon_of(chan, virtual_key(k, kb.octave), kb)),
            )
        },
        Edge::Release(Input::Key(k)) => {
            let t1 = rows_grown(t, chan);
            (s, t1, Some(Event::Noteoff(chan, virtual_key(k, t1[chan as int][k as int]))))
        },
        _ => (s, t, None),
    }
}

/// Adds zero rows to the octave-at-press table up to channel `chan`.
fn grow_rows(table: &mut Vec<[u8; 24]>, chan: u8)
    requires
        rows_wf(rows_view(old(table)@)),
    ensures
        rows_view(final(table)@) == rows_grown(rows_view(old(table)@), chan),
        rows_wf(rows_view(final(table)@)),
        (chan as int) < final(table)@.len(),
{
    let ghost start = table@;
    let target: usize = chan as usize + 1;
    while table.len() < target
        invariant
            target == chan as nat + 1,
            start.len() <= target ==> table@.len() <= target,
            start.len() >= target ==> table@ == start,
            table@.len() >= start.len(),
            table@.subrange(0, start.len() as int) == start,
            forall|i: int| start.len() <= i < table@.len() ==> (#[trigger] table@[i])@ == zero_row(),
            start == old(table)@,
        decreases target - table.len(),
    {
        let row: [u8; 24] = [0; 24];
        assert(row@ =~= zero_row());
        table.push(row);
    }
    assert(rows_view(table@) =~= rows_grown(rows_view(start), chan));
}

/// Handles an edge that no mode handler claimed.
pub fn common_action(
    settings: &mut SynthesizerSettings,
    keydown_octave_table: &mut Vec<[u8; 24]>,
    chan: u8,
    ev: &Edge,
) -> (r: Option<Event>)
    requires
        old(settings)@.wf(),
        rows_wf(rows_view(old(keydown_octave_table)@)),
        ev.wf(),
    ensures
        (final(settings)@, rows_view(final(keydown_octave_table)@), r) == common_step(
            old(settings)@,
            rows_view(old(keydown_octave_table)@),
            chan,
            *ev,
        ),
        final(settings)@.wf(),
        rows_wf(rows_view(final(keydown_octave_table)@)),
{
    match *ev {
        Edge::Press(Input::Key(key)) => {
            let keyboard = settings.get_or_create_keyboard(chan);
            let octave = keyboard.octave();
            grow_rows(keydown_octave_table, chan);
            let mut row = keydown_octave_table[chan as usize];
            row[key as usize] = octave;
            keydown_octave_table.set(chan as usize, row);
            proof {
                let t1 = rows_grown(rows_view(old(keydown_octave_table)@), chan);
                assert(rows_view(keydown_octave_table@) =~= t1.update(
                    chan as int,
                    t1[chan as int].update(key as int, octave),
                ));
            }
            Some(noteon(chan, key + octave * 12, keyboard))
        },
        Edge::Release(Input::Key(key)) => {
            grow_rows(keydown_octave_table, chan);
            let octave = keydown_octave_table[chan as usize][key as usize];
            proof {
                assert(rows_view(keydown_octave_table@)[chan as int][key as int] == octave);
            }
            Some(Event::Noteoff(chan, key + octave * 12))
        },
        _ => None,
    }
}

/// Whether bit `i` of `v` is set.
pub open spec fn bit_set(v: u8, i: u8) -> bool {
    (v >> i) & 1u8 == 1u8
}

/// The cues that spell the current program plus one in binary, bits `0..n`:
/// bit `i` plays key `11 - i`.
pub open spec fn arpeggio_upto(chan: u8, k: KeyboardView, n: nat) -> Seq<Event>
    decreases n,
{
    if n == 0 {
        seq![]
    } else {
        let i = (n - 1) as u8;
        arpeggio_upto(chan, k, (n - 1) as nat) + if bit_set((k.program_no + 1) as u8, i) {
            cue(chan, virtual_key((11 - i) as u8, k.octave), k)
        } else {
            seq![]
        }
    }
}

/// The cues that spell the current program plus one in seven bits.
pub open spec fn arpeggio(chan: u8, k: KeyboardView) -> Seq<Event> {
    arpeggio_upto(chan, k, 7)
}

/// Program `p` selected and saved, confirmed by a cue at the new program's
/// velocity.
pub open spec fn program_step(s: SettingsView, q: Seq<Event>, chan: u8, p: u8) -> (
    SettingsView,
    Seq<Event>,
    Result<Event, bool>,
) {
    let s1 = program_set(s, chan, p);
    (s1, q + cue(chan, PROGRAM_CUE_NOTE, s1.keyboards[chan as int]), Ok(Event::ProgramChange(chan, p)))
}

/// Configuration mode without the key-1 qualifier: with Start held a key
/// press sets the tuning; otherwise keys 13 and 15 toggle reverb and chorus
/// with an arpeggio cue.
pub open spec fn unqualified_step(
    s: SettingsView,
    q: Seq<Event>,
    st: StateView,
    chan: u8,
    ev: Edge,
) -> (SettingsView, Seq<Event>, Result<Event, bool>) {
    if st.start {
        match ev {
            Edge::Press(Input::Key(k)) => (s, q, Ok(Event::Tuning((k - 12) as i32))),
            _ => (s, q, Err(true)),
        }
    } else {
        let kb = current(s, chan);
        match ev {
            Edge::Press(Input::Key(k)) => if k == 13 {
                (
                    reverb_toggled(s, chan),
                    q + if kb.reverb {
                        off_sfx(chan, kb)
                    } else {
                        on_sfx(chan, kb)
                    },
                    Ok(
                        if kb.reverb {
                            Event::ReverbOff(chan)
                        } else {
                            Event::ReverbOn(chan)
                        },
                    ),
                )
            } else if k == 15 {
                (
                    chorus_toggled(s, chan),
                    q + if kb.chorus {
                        off_sfx(chan, kb)
                    } else {
                        on_sfx(chan, kb)
                    },
                    Ok(
                        if kb.chorus {
                            Event::ChorusOff(chan)
                        } else {
                            Event::ChorusOn(chan)
                        },
                    ),
                )
            } else {
                (s, q, Err(false))
            },
            _ => (s, q, Err(false)),
        }
    }
}

/// Configuration mode. While key 1 is held: pressing key 1 plays the
/// current program as an arpeggio; keys 5 to 11 select the program their
/// chord spells; the velocity keys set the program's velocity; the wheel
/// steps the program with wraparound; releases of keys are left to the rest
/// of the handler; anything else is consumed. Otherwise see
/// `unqualified_step`.
pub open spec fn config_step(
    s: SettingsView,
    q: Seq<Event>,
    st: StateView,
    chan: u8,
    ev: Edge,
) -> (SettingsView, Seq<Event>, Result<Event, bool>) {
    if st.keys[1] {
        match ev {
            Edge::Press(Input::Key(k)) => if k == 1 {
                let notes = arpeggio(chan, current(s, chan));
                if notes.len() == 0 {
                    (s.grown(chan), q, Err(true))
                } else {
                    (s.grown(chan), q + notes.drop_last(), Ok(notes.last()))
                }
            } else if 5 <= k && k <= 11 {
                program_step(s, q, chan, chord_program(st.keys))
            } else {
                (velocity_set(s, chan, k), q, Err(true))
            },
            Edge::Release(Input::Key(_)) => unqualified_step(s, q, st, chan, ev),
            Edge::Press(Input::WheelDown) => {
                let p = current(s, chan).program_no;
                program_step(
                    s,
                    q,
                    chan,
                    if p == 0 {
                        MAX_PROGRAM
                    } else {
                        (p - 1) as u8
                    },
                )
            },
            Edge::Press(Input::WheelUp) => {
                let p = current(s, chan).program_no;
                program_step(
                    s,
                    q,
                    chan,
                    if p >= MAX_PROGRAM {
                        0
                    } else {
                        (p + 1) as u8
                    },
                )
            },
            _ => (s, q, Err(true)),
        }
    } else {
        unqualified_step(s, q, st, chan, ev)
    }
}

/// Plays the current program plus one in binary: returns the first note-on
/// and pushes the rest. Nothing is played when no bit is set.
fn play_program(event_queue: &mut Vec<Event>, chan: u8, keyboard: &KeyboardSettings) -> (r:
    Result<Event, bool>)
    requires
        keyboard@.wf(),
    ensures
        ({
            let notes = arpeggio(chan, keyboard@);
            if notes.len() == 0 {
                final(event_queue)@ == old(event_queue)@ && r == Err::<Event, bool>(true)
            } else {
                final(event_queue)@ == old(event_queue)@ + notes.drop_last() && r == Ok::<
                    Event,
                    bool,
                >(notes.last())
            }
        }),
{
    let program_no = keyboard.program_no();
    let octave = keyboard.octave();
    let bits: u8 = program_no + 1;
    let mut notes: Vec<Event> = Vec::new();
    let mut i: u8 = 0;
    while i < 7
        invariant
            i <= 7,
            bits == (keyboard@.program_no + 1) as u8,
            octave == keyboard@.octave,
            keyboard@.wf(),
            notes@ == arpeggio_upto(chan, keyboard@, i as nat),
        decreases 7 - i,
    {
        if (bits >> i) & 1 == 1 {
            let virtual_key = (11 - i) + octave * 12;
            notes.push(Event::Noteoff(chan, virtual_key));
            notes.push(noteon(chan, virtual_key, keyboard));
        }
        i += 1;
        assert(notes@ =~= arpeggio_upto(chan, keyboard@, i as nat));
    }
    match notes.pop() {
        Some(first) => {
            event_queue.append(&mut notes);
            Ok(first)
        },
        None => Err(true),
    }
}

/// Handles an edge in configuration mode. `Err(true)`: consumed without an
/// event; `Err(false)`: not handled here.
pub fn config_mode_action(
    settings: &mut SynthesizerSettings,
    event_queue: &mut Vec<Event>,
    state: &State,
    chan: u8,
    ev: &Edge,
) -> (r: Result<Event, bool>)
    requires
        old(settings)@.wf(),
        ev.wf(),
    ensures
        (final(settings)@, final(event_queue)@, r) == config_step(
            old(settings)@,
            old(event_queue)@,
            state@,
            chan,
            *ev,
        ),
        final(settings)@.wf(),
{
    if state.key(1) {
        match *ev {
            Edge::Press(Input::Key(key)) => {
                if key == 1 {
                    let keyboard = settings.get_or_create_keyboard(chan);
                    return play_program(event_queue, chan, keyboard);
                }
                if 5 <= key && key <= 11 {
                    let program_no = key_to_program_no(state.keys());
                    program_change(settings, chan, program_no);
                    let keyboard = settings.get_or_create_keyboard(chan);
                    proof {
                        lemma_grown_len(old(settings)@, chan);
                    }
                    event_queue.push(Event::Noteoff(chan, PROGRAM_CUE_NOTE));
                    event_queue.push(noteon(chan, PROGRAM_CUE_NOTE, keyboard));
                    return Ok(Event::ProgramChange(chan, program_no));
                }
                velocity_per_program(settings, chan, key);
                return Err(true);
            },
            Edge::Release(Input::Key(_)) => {},
            Edge::Press(Input::WheelDown) => {
                let current_program_no = settings.get_or_create_keyboard(chan).program_no();
                let new_program_no = if current_program_no == 0 {
                    MAX_PROGRAM
                } else {
                    current_program_no - 1
                };
                proof {
                    lemma_grown_len(old(settings)@, chan);
                }
                program_change(settings, chan, new_program_no);
                let keyboard = settings.get_or_create_keyboard(chan);
                event_queue.push(Event::Noteoff(chan, PROGRAM_CUE_NOTE));
                event_queue.push(noteon(chan, PROGRAM_CUE_NOTE, keyboard));
                return Ok(Event::ProgramChange(chan, new_program_no));
            },
            Edge::Press(Input::WheelUp) => {
                let current_program_no = settings.get_or_create_keyboard(chan).program_no();
                let new_program_no = if current_program_no >= MAX_PROGRAM {
                    0
                } else {
                    current_program_no + 1
                };
                proof {
                    lemma_grown_len(old(settings)@, chan);
                }
                program_change(settings, chan, new_program_no);
                let keyboard = settings.get_or_create_keyboard(chan);
                event_queue.push(Event::Noteoff(chan, PROGRAM_CUE_NOTE));
                event_queue.push(noteon(chan, PROGRAM_CUE_NOTE, keyboard));
                return Ok(Event::ProgramChange(chan, new_program_no));
            },
            _ => return Err(true),
        }
    }
    if state.start() {
        if let Edge::Press(Input::Key(key)) = *ev {
            return Ok(Event::Tuning(key as i32 - 12));
        }
        return Err(true);
    }
    match *ev {
        Edge::Press(Input::Key(13)) => {
            let keyboard = settings.get_or_create_keyboard(chan);
            if keyboard.reverb() {
                add_off_sfx(event_queue, chan, keyboard);
            } else {
                add_on_sfx(event_queue, chan, keyboard);
            }
            proof {
                lemma_grown_len(old(settings)@, chan);
            }
            Ok(toggle_reverb(settings, chan))
        },
        Edge::Press(Input::Key(15)) => {
            let keyboard = settings.get_or_create_keyboard(chan);
            if keyboard.chorus() {
                add_off_sfx(event_queue, chan, keyboard);
            } else {
                add_on_sfx(event_queue, chan, keyboard);
            }
            proof {
                lemma_grown_len(old(settings)@, chan);
            }
            Ok(toggle_chorus(settings, chan))
        },
        _ => Err(false),
    }
}

/// The events that bring the synthesizer in line with stored channel
/// settings, for channels `0..n`: program, then reverb, then chorus.
pub open spec fn init_upto(ks: Seq<KeyboardView>, n: nat) -> Seq<Event>
    decreases n,
{
    if n == 0 {
        seq![]
    } else {
        let chan = (n - 1) as u8;
        let k = ks[n - 1];
        init_upto(ks, (n - 1) as nat) + seq![
            Event::ProgramChange(chan, k.program_no),
            if k.reverb {
                Event::ReverbOn(chan)
            } else {
                Event::ReverbOff(chan)
            },
            if k.chorus {
                Event::ChorusOn(chan)
            } else {
                Event::ChorusOff(chan)
            },
        ]
    }
}

/// The events that bring the synthesizer in line with the stored settings
/// of every channel.
pub fn init(settings: &SynthesizerSettings) -> (r: Vec<Event>)
    ensures
        r@ == init_upto(settings@.keyboards, settings@.keyboards.len()),
{
    let keyboards = settings.keyboards();
    let mut events: Vec<Event> = Vec::new();
    let mut i: usize = 0;
    while i < keyboards.len()
        invariant
            i <= keyboards@.len(),
            keyboards@.len() == settings@.keyboards.len(),
            crate::settings::keyboard_views(keyboards@) == settings@.keyboards,
            events@ == init_upto(settings@.keyboards, i as nat),
        decreases keyboards.len() - i,
    {
        let chan = i as u8;
        let keyboard = &keyboards[i];
        assert(keyboard@ == settings@.keyboards[i as int]);
        events.push(Event::ProgramChange(chan, keyboard.program_no()));
        events.push(
            if keyboard.reverb() {
                Event::ReverbOn(chan)
            } else {
                Event::ReverbOff(chan)
            },
        );
        events.push(
            if keyboard.chorus() {
                Event::ChorusOn(chan)
            } else {
                Event::ChorusOff(chan)
            },
        );
        i += 1;
        assert(events@ =~= init_upto(settings@.keyboards, i as nat));
    }
    events
}

/// The per-channel held state after channel `chan` has been accessed.
pub open spec fn states_grown(ss: Seq<StateView>, chan: u8) -> Seq<StateView> {
    if (chan as int) < ss.len() {
        ss
    } else {
        ss + Seq::new((chan + 1 - ss.len()) as nat, |i: int| idle_state())
    }
}

/// The mathematical content of a `SynthCtrler`.
pub ghost struct CtrlView {
    pub settings: SettingsView,
    /// Global mode: configuration when set, performance otherwise.
    pub mode_config: bool,
    /// What is held, per channel.
    pub states: Seq<StateView>,
    /// The octave at which each key was last pressed, per channel.
    pub octaves: Seq<Seq<u8>>,
    /// Scripted events waiting to be delivered, the last one first.
    pub queue: Seq<Event>,
}

impl CtrlView {
    pub open spec fn wf(self) -> bool {
        &&& self.settings.wf()
        &&& rows_wf(self.octaves)
        &&& forall|i: int| 0 <= i < self.states.len() ==> (#[trigger] self.states[i]).keys.len()
            == 24
        &&& forall|i: int|
            0 <= i < self.states.len() ==> !((#[trigger] self.states[i]).select
                && self.states[i].start)
    }

    /// The controller with new settings and queue.
    pub open spec fn with(self, s: SettingsView, q: Seq<Event>) -> CtrlView {
        CtrlView { settings: s, queue: q, ..self }
    }
}

/// No mode handler claimed the edge: the shared handler decides.
pub open spec fn shared_step(c: CtrlView, chan: u8, ev: Edge) -> (CtrlView, Option<Event>) {
    let r = common_step(c.settings, c.octaves, chan, ev);
    (CtrlView { settings: r.0, octaves: r.1, ..c }, r.2)
}

/// What one input edge on channel `idx` (taken modulo 256) does: it is
/// folded into that channel's held state; Select and Start held together
/// flip the global mode with a percussion cue; otherwise the current mode's
/// handler, then the shared handler, decide.
pub open spec fn recv_step(c: CtrlView, idx: usize, ev: Edge) -> (CtrlView, Option<Event>) {
    let chan = idx as u8;
    let ss = states_grown(c.states, chan);
    let st = updated(ss[chan as int], ev);
    if st.select && st.start {
        let mode = !c.mode_config;
        let no: i32 = if mode {
            1
        } else {
            0
        };
        (
            CtrlView {
                mode_config: mode,
                states: ss.update(chan as int, StateView { select: false, start: false, ..st }),
                queue: c.queue + percussion_cues(no),
                ..c
            },
            Some(Event::Noteon(PERCUSSION_CHANNEL, cue_note(no), CUE_VELOCITY)),
        )
    } else {
        let c1 = CtrlView { states: ss.update(chan as int, st), ..c };
        if c.mode_config {
            let r = config_step(c.settings, c.queue, st, chan, ev);
            match r.2 {
                Ok(e) => (c1.with(r.0, r.1), Some(e)),
                Err(true) => (c1.with(r.0, r.1), None),
                Err(false) => shared_step(c1.with(r.0, r.1), chan, ev),
            }
        } else {
            let r = normal_step(c.settings, st, chan, ev);
            match r.1 {
                Ok(e) => (c1.with(r.0, c.queue), Some(e)),
                Err(true) => (c1.with(r.0, c.queue), None),
                Err(false) => shared_step(c1.with(r.0, c.queue), chan, ev),
            }
        }
    }
}

/// A momentary octave shift in performance mode, with Start not held: a
/// wheel-up press lowers the channel's octave by one and requests a save of
/// that; the release raises it back in memory only, so the pending save
/// still holds the lowered octave.
pub proof fn lemma_momentary_shift(c: CtrlView, idx: usize)
    requires
        c.wf(),
        !c.mode_config,
        !states_grown(c.states, idx as u8)[(idx as u8) as int].start,
        current(c.settings, idx as u8).octave >= 1,
    ensures
        ({
            let chan = idx as u8;
            let o = current(c.settings, chan).octave;
            let (c1, r1) = recv_step(c, idx, Edge::Press(Input::WheelUp));
            let (c2, r2) = recv_step(c1, idx, Edge::Release(Input::WheelUp));
            &&& r1 is None && r2 is None
            &&& current(c1.settings, chan).octave == o - 1
            &&& c1.settings.queued matches Some(j) && j.keyboards[chan as int].octave == o - 1
                && is_current(j.stamp, c1.settings.stamp)
            &&& current(c2.settings, chan).octave == o
            &&& c2.settings.queued == c1.settings.queued
            &&& c2.settings.stamp == c1.settings.stamp
        }),
{
    let chan = idx as u8;
    lemma_grown_len(c.settings, chan);
    let (c1, r1) = recv_step(c, idx, Edge::Press(Input::WheelUp));
    lemma_grown_len(c1.settings, chan);
}

/// In performance mode a key press always plays its note, on the device's
/// channel, at the channel's octave and the current program's velocity.
pub proof fn lemma_key_press_plays(c: CtrlView, idx: usize, k: u8)
    requires
        c.wf(),
        !c.mode_config,
        k < 24,
    ensures
        ({
            let chan = idx as u8;
            let kb = current(c.settings, chan);
            recv_step(c, idx, Edge::Press(Input::Key(k))).1 == Some(
                noteon_of(chan, virtual_key(k, kb.octave), kb),
            )
        }),
{
    let chan = idx as u8;
    let ss = states_grown(c.states, chan);
    assert(!(ss[chan as int].select && ss[chan as int].start)) by {
        if (chan as int) < c.states.len() {
        } else {
        }
    }
}

/// Nothing that qualifies an edge is held: not key 1, Start or Select.
pub open spec fn unqualified(st: StateView) -> bool {
    !st.keys[1] && !st.start && !st.select
}

/// The mode is global: in performance mode, pressing Start while Select is
/// held on one channel switches to configuration mode with the
/// configuration cue (note 42 on the percussion channel), and at once a key
/// 13 press on any other channel toggles reverb, where before the switch it
/// played a note.
pub proof fn lemma_mode_toggle_is_global(c: CtrlView, idx: usize, other: usize)
    requires
        c.wf(),
        !c.mode_config,
        states_grown(c.states, idx as u8)[(idx as u8) as int].select,
        other as u8 != idx as u8,
        unqualified(states_grown(c.states, other as u8)[(other as u8) as int]),
    ensures
        ({
            let (c1, r) = recv_step(c, idx, Edge::Press(Input::Start));
            let chan2 = other as u8;
            &&& c1.mode_config
            &&& r == Some(Event::Noteon(PERCUSSION_CHANNEL, CONFIG_CUE_NOTE, CUE_VELOCITY))
            &&& recv_step(c, other, Edge::Press(Input::Key(13))).1 matches Some(
                Event::Noteon(ch, _, _),
            ) && ch == chan2
            &&& recv_step(c1, other, Edge::Press(Input::Key(13))).1 == Some(
                if current(c1.settings, chan2).reverb {
                    Event::ReverbOff(chan2)
                } else {
                    Event::ReverbOn(chan2)
                },
            )
        }),
{
    let chan = idx as u8;
    let chan2 = other as u8;
    let (c1, r) = recv_step(c, idx, Edge::Press(Input::Start));
    let ss = states_grown(c.states, chan);
    let ss1 = states_grown(c1.states, chan2);
    let ss0 = states_grown(c.states, chan2);
    assert(ss1[chan2 as int] == ss0[chan2 as int]) by {
        if (chan2 as int) < c.states.len() {
        } else if (chan2 as int) < ss.len() {
        } else {
        }
    }
}

/// The command interpreter. Modes: Select + Start switches between
/// performance and configuration, for all channels at once.
///
/// Performance mode: the wheel shifts the octave (Start + wheel keeps the
/// shift), Select drives modulation, keys play.
///
/// Configuration mode: Start + key sets the tuning; key 1 + key 5..11 chord,
/// or key 1 + wheel, selects the program; key 1 + velocity key sets the
/// program's velocity; key 13 and key 15 toggle reverb and chorus.
#[derive(Debug)]
pub struct SynthCtrler {
    settings: SynthesizerSettings,
    mode_config: bool,
    kmctrler_states: Vec<State>,
    keydown_octave_table: Vec<[u8; 24]>,
    event_queue: Vec<Event>,
}

impl View for SynthCtrler {
    type V = CtrlView;

    closed spec fn view(&self) -> CtrlView {
        CtrlView {
            settings: self.settings@,
            mode_config: self.mode_config,
            states: self.kmctrler_states@.map_values(|st: State| st@),
            octaves: rows_view(self.keydown_octave_table@),
            queue: self.event_queue@,
        }
    }
}

impl SynthCtrler {
    /// An interpreter in performance mode, with nothing held or pending.
    pub fn new(settings: SynthesizerSettings) -> (r: SynthCtrler)
        requires
            settings@.wf(),
        ensures
            r@ == (CtrlView {
                settings: settings@,
                mode_config: false,
                states: Seq::empty(),
                octaves: Seq::empty(),
                queue: Seq::empty(),
            }),
            r@.wf(),
    {
        let r = SynthCtrler {
            settings,
            mode_config: false,
            kmctrler_states: Vec::new(),
            keydown_octave_table: Vec::new(),
            event_queue: Vec::new(),
        };
        assert(r@.states =~= Seq::empty());
        assert(r@.octaves =~= Seq::empty());
        r
    }

    pub fn settings(&self) -> (r: &SynthesizerSettings)
        ensures
            r@ == self@.settings,
    {
        &self.settings
    }

    /// Whether the interpreter is in configuration mode.
    pub fn mode_config(&self) -> (r: bool)
        ensures
            r == self@.mode_config,
    {
        self.mode_config
    }

    /// The events that bring the synthesizer in line with the stored
    /// settings of every channel.
    pub fn init(&self) -> (r: Vec<Event>)
        ensures
            r@ == init_upto(self@.settings.keyboards, self@.settings.keyboards.len()),
    {
        init(&self.settings)
    }

    /// Hands out the latest save request, if one is waiting.
    pub fn take_save(&mut self) -> (r: Option<crate::settings::SaveJob>)
        requires
            old(self)@.wf(),
        ensures
            match r {
                Some(j) => old(self)@.settings.queued == Some(j@),
                None => old(self)@.settings.queued is None,
            },
            final(self)@ == (CtrlView {
                settings: SettingsView { queued: None, ..old(self)@.settings },
                ..old(self)@
            }),
            final(self)@.wf(),
    {
        self.settings.take_save()
    }

    /// The most recently pushed scripted event, which is delivered before
    /// any new input is read.
    pub fn pop_pending(&mut self) -> (r: Option<Event>)
        ensures
            old(self)@.queue.len() == 0 ==> r is None && final(self)@ == old(self)@,
            old(self)@.queue.len() > 0 ==> r == Some(old(self)@.queue.last()) && final(self)@ == (
            CtrlView { queue: old(self)@.queue.drop_last(), ..old(self)@ }),
    {
        let r = self.event_queue.pop();
        proof {
            if old(self)@.queue.len() > 0 {
                assert(self@.queue =~= old(self)@.queue.drop_last());
            }
        }
        r
    }

    /// Fills missing channels' held state up to `chan` with "nothing held".
    fn grow_states(&mut self, chan: u8)
        requires
            old(self)@.wf(),
        ensures
            final(self)@ == (CtrlView { states: states_grown(old(self)@.states, chan), ..old(self)@ }),
            final(self)@.wf(),
            (chan as int) < final(self).kmctrler_states@.len(),
    {
        let ghost start = self.kmctrler_states@;
        let target: usize = chan as usize + 1;
        while self.kmctrler_states.len() < target
            invariant
                target == chan as nat + 1,
                start.len() <= target ==> self.kmctrler_states@.len() <= target,
                start.len() >= target ==> self.kmctrler_states@ == start,
                self.kmctrler_states@.len() >= start.len(),
                self.kmctrler_states@.subrange(0, start.len() as int) == start,
                forall|i: int|
                    start.len() <= i < self.kmctrler_states@.len() ==> (
                    #[trigger] self.kmctrler_states@[i])@ == idle_state(),
                start == old(self).kmctrler_states@,
                self.settings == old(self).settings,
                self.mode_config == old(self).mode_config,
                self.keydown_octave_table == old(self).keydown_octave_table,
                self.event_queue == old(self).event_queue,
            decreases target - self.kmctrler_states.len(),
        {
            self.kmctrler_states.push(State::new());
        }
        assert(self@.states =~= states_grown(old(self)@.states, chan));
    }

    /// Interprets one input edge from the device at rank `idx` (its channel
    /// is `idx` modulo 256). Returns the event to deliver, or `None` when the
    /// edge produced none.
    pub fn recv(&mut self, idx: usize, ev: &Edge) -> (r: Option<Event>)
        requires
            old(self)@.wf(),
            ev.wf(),
        ensures
            (final(self)@, r) == recv_step(old(self)@, idx, *ev),
            final(self)@.wf(),
    {
        let chan = idx as u8;
        self.grow_states(chan);
        let mut state = self.kmctrler_states[chan as usize];
        state.update(ev);
        if state.select() && state.start() {
            self.mode_config = !self.mode_config;
            state.reset_select_start();
            self.kmctrler_states.set(chan as usize, state);
            let no: i32 = if self.mode_config {
                1
            } else {
                0
            };
            let r = percussion(&mut self.event_queue, no);
            proof {
                assert(self@.states =~= states_grown(old(self)@.states, chan).update(
                    chan as int,
                    state@,
                ));
            }
            return Some(r);
        }
        self.kmctrler_states.set(chan as usize, state);
        let ghost c1 = self@;
        proof {
            assert(c1.states =~= states_grown(old(self)@.states, chan).update(chan as int, state@));
        }
        if self.mode_config {
            match config_mode_action(
                &mut self.settings,
                &mut self.event_queue,
                &state,
                chan,
                ev,
            ) {
                Ok(event) => return Some(event),
                Err(true) => return None,
                Err(false) => {},
            }
        } else {
            match normal_mode_action(&mut self.settings, &state, chan, ev) {
                Ok(event) => return Some(event),
                Err(true) => return None,
                Err(false) => {},
            }
        }
        common_action(&mut self.settings, &mut self.keydown_octave_table, chan, ev)
    }
}

} // verus!

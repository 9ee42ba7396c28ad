use kmsynth::kmctrler::{Event as Edge, Input};
use kmsynth::settings::{KeyboardSettings, SynthesizerSettings};
use kmsynth::synthctrler::{init, key_to_program_no, percussion, Event, SynthCtrler};

fn press(c: &mut SynthCtrler, idx: usize, input: Input) -> Option<Event> {
    c.recv(idx, &Edge::Press(input))
}

fn release(c: &mut SynthCtrler, idx: usize, input: Input) -> Option<Event> {
    c.recv(idx, &Edge::Release(input))
}

fn octave(c: &SynthCtrler, chan: usize) -> u8 {
    c.settings().keyboards()[chan].octave()
}

fn program(c: &SynthCtrler, chan: usize) -> u8 {
    c.settings().keyboards()[chan].program_no()
}

/// Switches to configuration mode and drains the cue.
fn enter_config(c: &mut SynthCtrler, idx: usize) {
    press(c, idx, Input::Select);
    assert_eq!(press(c, idx, Input::Start), Some(Event::Noteon(9, 42, 127)));
    release(c, idx, Input::Select);
    release(c, idx, Input::Start);
    while c.pop_pending().is_some() {}
    assert!(c.mode_config());
}

#[test]
fn momentary_octave_shift() {
    let mut c = SynthCtrler::new(SynthesizerSettings::new());
    assert_eq!(press(&mut c, 0, Input::WheelUp), None);
    assert_eq!(octave(&c, 0), 4);
    let job = c.take_save().expect("the shift is saved");
    assert_eq!(job.keyboards()[0].octave(), 4);
    assert_eq!(release(&mut c, 0, Input::WheelUp), None);
    assert_eq!(octave(&c, 0), 5);
    assert!(c.take_save().is_none());
}

#[test]
fn start_held_keeps_octave_shift() {
    let mut c = SynthCtrler::new(SynthesizerSettings::new());
    press(&mut c, 0, Input::Start);
    assert_eq!(press(&mut c, 0, Input::WheelDown), None);
    assert_eq!(octave(&c, 0), 6);
    assert_eq!(release(&mut c, 0, Input::WheelDown), None);
    assert_eq!(octave(&c, 0), 6);
}

#[test]
fn octave_stays_in_range() {
    let mut c = SynthCtrler::new(SynthesizerSettings::new());
    press(&mut c, 0, Input::Start);
    for _ in 0..12 {
        press(&mut c, 0, Input::WheelDown);
    }
    assert_eq!(octave(&c, 0), 9);
    for _ in 0..12 {
        press(&mut c, 0, Input::WheelUp);
    }
    assert_eq!(octave(&c, 0), 0);
}

#[test]
fn select_drives_modulation() {
    let mut c = SynthCtrler::new(SynthesizerSettings::new());
    assert_eq!(press(&mut c, 2, Input::Select), Some(Event::ModulationOn(2)));
    assert_eq!(release(&mut c, 2, Input::Select), Some(Event::ModulationOff(2)));
}

#[test]
fn keys_play_at_octave_of_press() {
    let mut c = SynthCtrler::new(SynthesizerSettings::new());
    assert_eq!(press(&mut c, 1, Input::Key(0)), Some(Event::Noteon(1, 60, 100)));
    press(&mut c, 1, Input::WheelUp);
    assert_eq!(octave(&c, 1), 4);
    assert_eq!(release(&mut c, 1, Input::Key(0)), Some(Event::Noteoff(1, 60)));
    assert_eq!(c.settings().keyboards().len(), 2);
}

#[test]
fn release_without_press_uses_octave_zero() {
    let mut c = SynthCtrler::new(SynthesizerSettings::new());
    assert_eq!(release(&mut c, 0, Input::Key(7)), Some(Event::Noteoff(0, 7)));
}

#[test]
fn mode_toggle_is_global() {
    let mut c = SynthCtrler::new(SynthesizerSettings::new());
    assert_eq!(press(&mut c, 0, Input::Select), Some(Event::ModulationOn(0)));
    assert_eq!(press(&mut c, 0, Input::Start), Some(Event::Noteon(9, 42, 127)));
    assert!(c.mode_config());
    assert_eq!(c.pop_pending(), Some(Event::Noteoff(9, 42)));
    assert_eq!(c.pop_pending(), Some(Event::Noteon(9, 42, 127)));
    assert_eq!(c.pop_pending(), Some(Event::Noteoff(9, 42)));
    assert_eq!(c.pop_pending(), None);
    assert_eq!(press(&mut c, 1, Input::Key(13)), Some(Event::ReverbOn(1)));
}

#[test]
fn mode_toggle_back_plays_performance_cue() {
    let mut c = SynthCtrler::new(SynthesizerSettings::new());
    enter_config(&mut c, 0);
    press(&mut c, 0, Input::Start);
    assert_eq!(press(&mut c, 0, Input::Select), Some(Event::Noteon(9, 36, 127)));
    assert!(!c.mode_config());
}

#[test]
fn program_chord_decode() {
    let mut keys = [false; 24];
    for k in 5..=11 {
        keys[k] = true;
    }
    assert_eq!(key_to_program_no(&keys), 126);
}

#[test]
fn program_chord_edge_values() {
    let mut keys = [false; 24];
    assert_eq!(key_to_program_no(&keys), 127);
    keys[11] = true;
    assert_eq!(key_to_program_no(&keys), 0);
    keys[11] = false;
    keys[5] = true;
    assert_eq!(key_to_program_no(&keys), 63);
    keys[0] = true;
    keys[23] = true;
    assert_eq!(key_to_program_no(&keys), 63);
}

#[test]
fn program_chord_in_config_mode() {
    let mut c = SynthCtrler::new(SynthesizerSettings::new());
    enter_config(&mut c, 0);
    press(&mut c, 0, Input::Key(1));
    while c.pop_pending().is_some() {}
    let mut last = None;
    for k in 5..=11 {
        last = press(&mut c, 0, Input::Key(k));
    }
    assert_eq!(last, Some(Event::ProgramChange(0, 126)));
    assert_eq!(program(&c, 0), 126);
    assert_eq!(c.pop_pending(), Some(Event::Noteon(0, 69, 100)));
    assert_eq!(c.pop_pending(), Some(Event::Noteoff(0, 69)));
    let job = c.take_save().expect("program change is saved");
    assert_eq!(job.keyboards()[0].program_no(), 126);
}

#[test]
fn program_wheel_wraps_around() {
    let mut c = SynthCtrler::new(SynthesizerSettings::new());
    enter_config(&mut c, 0);
    press(&mut c, 0, Input::Key(1));
    while c.pop_pending().is_some() {}
    assert_eq!(press(&mut c, 0, Input::WheelDown), Some(Event::ProgramChange(0, 127)));
    assert_eq!(c.pop_pending(), Some(Event::Noteon(0, 69, 100)));
    assert_eq!(c.pop_pending(), Some(Event::Noteoff(0, 69)));
    release(&mut c, 0, Input::WheelDown);
    assert_eq!(press(&mut c, 0, Input::WheelUp), Some(Event::ProgramChange(0, 0)));
    release(&mut c, 0, Input::WheelUp);
    assert_eq!(press(&mut c, 0, Input::WheelUp), Some(Event::ProgramChange(0, 1)));
}

#[test]
fn program_arpeggio() {
    let mut c = SynthCtrler::new(SynthesizerSettings::new());
    enter_config(&mut c, 0);
    // program 0: 1 in binary, one note on key 11
    assert_eq!(press(&mut c, 0, Input::Key(1)), Some(Event::Noteon(0, 71, 100)));
    assert_eq!(c.pop_pending(), Some(Event::Noteoff(0, 71)));
    assert_eq!(c.pop_pending(), None);
    release(&mut c, 0, Input::Key(1));
    // program 4: 5 = 101 in binary, keys 9 and 11, lowest key first
    press(&mut c, 0, Input::Key(1));
    while c.pop_pending().is_some() {}
    for _ in 0..4 {
        press(&mut c, 0, Input::WheelUp);
        release(&mut c, 0, Input::WheelUp);
    }
    while c.pop_pending().is_some() {}
    assert_eq!(program(&c, 0), 4);
    release(&mut c, 0, Input::Key(1));
    assert_eq!(press(&mut c, 0, Input::Key(1)), Some(Event::Noteon(0, 69, 100)));
    assert_eq!(c.pop_pending(), Some(Event::Noteoff(0, 69)));
    assert_eq!(c.pop_pending(), Some(Event::Noteon(0, 71, 100)));
    assert_eq!(c.pop_pending(), Some(Event::Noteoff(0, 71)));
    assert_eq!(c.pop_pending(), None);
}

#[test]
fn program_arpeggio_of_highest_program_is_silent() {
    let mut c = SynthCtrler::new(SynthesizerSettings::new());
    enter_config(&mut c, 0);
    press(&mut c, 0, Input::Key(1));
    while c.pop_pending().is_some() {}
    press(&mut c, 0, Input::WheelDown);
    while c.pop_pending().is_some() {}
    assert_eq!(program(&c, 0), 127);
    release(&mut c, 0, Input::Key(1));
    assert_eq!(press(&mut c, 0, Input::Key(1)), None);
    assert_eq!(c.pop_pending(), None);
}

#[test]
fn velocity_keys_set_program_velocity() {
    let mut c = SynthCtrler::new(SynthesizerSettings::new());
    enter_config(&mut c, 0);
    press(&mut c, 0, Input::Key(1));
    while c.pop_pending().is_some() {}
    assert_eq!(press(&mut c, 0, Input::Key(12)), None);
    assert_eq!(c.settings().keyboards()[0].velocity_per_program()[0], 73);
    assert_eq!(press(&mut c, 0, Input::Key(23)), None);
    assert_eq!(c.settings().keyboards()[0].velocity_per_program()[0], 127);
    assert_eq!(press(&mut c, 0, Input::Key(17)), None);
    assert_eq!(c.settings().keyboards()[0].velocity_per_program()[0], 100);
    assert_eq!(press(&mut c, 0, Input::Key(19)), None);
    assert_eq!(c.settings().keyboards()[0].velocity_per_program()[0], 109);
    assert!(c.take_save().is_some());
    // a key that is neither chord nor velocity key is consumed
    assert_eq!(press(&mut c, 0, Input::Key(2)), None);
    release(&mut c, 0, Input::Key(1));
    // back in performance mode, notes use the new velocity
    press(&mut c, 0, Input::Select);
    press(&mut c, 0, Input::Start);
    release(&mut c, 0, Input::Select);
    release(&mut c, 0, Input::Start);
    while c.pop_pending().is_some() {}
    assert_eq!(press(&mut c, 0, Input::Key(0)), Some(Event::Noteon(0, 60, 109)));
}

#[test]
fn tuning_with_start_held() {
    let mut c = SynthCtrler::new(SynthesizerSettings::new());
    enter_config(&mut c, 3);
    press(&mut c, 3, Input::Start);
    assert_eq!(press(&mut c, 3, Input::Key(14)), Some(Event::Tuning(2)));
    assert_eq!(press(&mut c, 3, Input::Key(0)), Some(Event::Tuning(-12)));
    assert_eq!(release(&mut c, 3, Input::Key(0)), None);
}

#[test]
fn reverb_and_chorus_toggles_play_arpeggios() {
    let mut c = SynthCtrler::new(SynthesizerSettings::new());
    enter_config(&mut c, 0);
    assert_eq!(press(&mut c, 0, Input::Key(13)), Some(Event::ReverbOn(0)));
    let mut cues = Vec::new();
    while let Some(e) = c.pop_pending() {
        cues.push(e);
    }
    assert_eq!(
        cues,
        vec![
            Event::Noteon(0, 72, 100),
            Event::Noteoff(0, 72),
            Event::Noteon(0, 76, 100),
            Event::Noteoff(0, 76),
            Event::Noteon(0, 79, 100),
            Event::Noteoff(0, 79),
        ]
    );
    assert!(c.settings().keyboards()[0].reverb());
    assert_eq!(press(&mut c, 0, Input::Key(13)), Some(Event::ReverbOff(0)));
    assert_eq!(c.pop_pending(), Some(Event::Noteon(0, 79, 100)));
    while c.pop_pending().is_some() {}
    assert_eq!(press(&mut c, 0, Input::Key(15)), Some(Event::ChorusOn(0)));
    assert!(c.settings().keyboards()[0].chorus());
    // other keys fall through and play
    while c.pop_pending().is_some() {}
    assert_eq!(press(&mut c, 0, Input::Key(0)), Some(Event::Noteon(0, 60, 100)));
}

#[test]
fn pending_noteoff_is_paced() {
    let mut q = Vec::new();
    let first = percussion(&mut q, 1);
    assert_eq!(first, Event::Noteon(9, 42, 127));
    assert!(!first.is_noteoff());
    assert_eq!(q.len(), 3);
    assert!(q[2].is_noteoff());
    assert_eq!(percussion(&mut Vec::new(), 0), Event::Noteon(9, 36, 127));
}

#[test]
fn init_events_follow_stored_settings() {
    let keyboards = vec![
        KeyboardSettings::with_fields(5, 10, true, false),
        KeyboardSettings::with_fields(3, 0, false, true),
    ];
    let settings = SynthesizerSettings::from_keyboards(keyboards);
    let events = init(&settings);
    assert_eq!(
        events,
        vec![
            Event::ProgramChange(0, 10),
            Event::ReverbOn(0),
            Event::ChorusOff(0),
            Event::ProgramChange(1, 0),
            Event::ReverbOff(1),
            Event::ChorusOn(1),
        ]
    );
    let c = SynthCtrler::new(settings);
    assert_eq!(c.init(), events);
    assert!(init(&SynthesizerSettings::new()).is_empty());
}

use kmsynth::settings::{KeyboardSettings, SynthesizerSettings};
use kmsynth::store::{keyboard_from_fields, render};

#[test]
fn debounce_two_requests_one_write() {
    let mut s = SynthesizerSettings::new();
    s.get_or_create_keyboard_mut(0).set_octave(3);
    s.queue_save();
    let first = s.take_save().expect("first request");
    s.get_or_create_keyboard_mut(0).set_octave(7);
    s.queue_save();
    let second = s.take_save().expect("second request");
    let latest = second.stamp();
    assert!(!first.is_current(latest));
    assert!(second.is_current(latest));
    assert_eq!(second.keyboards()[0].octave(), 7);
    assert_eq!(first.keyboards()[0].octave(), 3);
}

#[test]
fn later_request_replaces_waiting_one() {
    let mut s = SynthesizerSettings::new();
    s.get_or_create_keyboard_mut(1).set_reverb(true);
    s.queue_save();
    s.get_or_create_keyboard_mut(1).set_reverb(false);
    s.queue_save();
    let job = s.take_save().expect("a request");
    assert!(!job.keyboards()[1].reverb());
    assert!(s.take_save().is_none());
}

#[test]
fn channels_are_created_with_defaults() {
    let mut s = SynthesizerSettings::new();
    let k = s.get_or_create_keyboard(2);
    assert_eq!(k.octave(), 5);
    assert_eq!(k.program_no(), 0);
    assert!(!k.reverb() && !k.chorus());
    assert!(k.velocity_per_program().iter().all(|v| *v == 100));
    assert_eq!(s.keyboards().len(), 3);
    s.get_or_create_keyboard(0);
    assert_eq!(s.keyboards().len(), 3);
}

#[test]
fn fields_take_defaults() {
    let k = keyboard_from_fields(Some(3), Some(40), Some(true), None);
    assert_eq!((k.octave(), k.program_no(), k.reverb(), k.chorus()), (3, 40, true, false));
    let k = keyboard_from_fields(None, None, None, Some(true));
    assert_eq!((k.octave(), k.program_no(), k.reverb(), k.chorus()), (5, 0, false, true));
    let k = keyboard_from_fields(Some(12), Some(300), None, None);
    assert_eq!((k.octave(), k.program_no()), (5, 0));
    let k = keyboard_from_fields(Some(-1), Some(-5), None, None);
    assert_eq!((k.octave(), k.program_no()), (5, 0));
}

#[test]
fn load_reads_keyboard_tables() {
    let text = "[[keyboards]]\noctave = 3\nprogram_no = 12\nreverb = true\nchorus = false\n\n[[keyboards]]\nchorus = true\n";
    let s = SynthesizerSettings::load(text);
    let ks = s.keyboards();
    assert_eq!(ks.len(), 2);
    assert_eq!((ks[0].octave(), ks[0].program_no(), ks[0].reverb(), ks[0].chorus()), (3, 12, true, false));
    assert_eq!((ks[1].octave(), ks[1].program_no(), ks[1].reverb(), ks[1].chorus()), (5, 0, false, true));
    assert!(ks[0].velocity_per_program().iter().all(|v| *v == 100));
}

#[test]
fn load_of_missing_or_broken_file_is_empty() {
    assert!(SynthesizerSettings::load("").keyboards().is_empty());
    assert!(SynthesizerSettings::load("this is [[ not toml").keyboards().is_empty());
    assert!(SynthesizerSettings::load("keyboards = 3").keyboards().is_empty());
}

#[test]
fn render_then_load_round_trips() {
    let keyboards = vec![
        KeyboardSettings::with_fields(2, 77, true, true),
        KeyboardSettings::with_fields(9, 0, false, false),
    ];
    let text = render("", &keyboards);
    assert!(text.contains("program_no = 77"));
    let s = SynthesizerSettings::load(&text);
    let ks = s.keyboards();
    assert_eq!(ks.len(), 2);
    assert_eq!((ks[0].octave(), ks[0].program_no(), ks[0].reverb(), ks[0].chorus()), (2, 77, true, true));
    assert_eq!((ks[1].octave(), ks[1].program_no()), (9, 0));
}

#[test]
fn render_keeps_other_content_and_updates_in_place() {
    let existing = "title = \"stage\"\n\n[[keyboards]]\noctave = 1\nprogram_no = 5\nextra = 1\n";
    let keyboards = vec![KeyboardSettings::with_fields(4, 6, false, true)];
    let text = render(existing, &keyboards);
    assert!(text.contains("title = \"stage\""));
    assert!(text.contains("extra = 1"));
    let s = SynthesizerSettings::load(&text);
    assert_eq!(s.keyboards().len(), 1);
    assert_eq!(s.keyboards()[0].octave(), 4);
    assert_eq!(s.keyboards()[0].program_no(), 6);
}

#[test]
fn render_replaces_a_non_table_keyboards_entry() {
    let keyboards = vec![KeyboardSettings::with_fields(6, 1, false, false)];
    let text = render("keyboards = 3\n", &keyboards);
    let s = SynthesizerSettings::load(&text);
    assert_eq!(s.keyboards().len(), 1);
    assert_eq!(s.keyboards()[0].octave(), 6);
}

#[test]
fn render_keeps_tables_beyond_the_channels() {
    let existing = "[[keyboards]]\noctave = 1\n\n[[keyboards]]\noctave = 2\nprogram_no = 9\n\n[[keyboards]]\nreverb = true\n";
    let keyboards = vec![KeyboardSettings::with_fields(7, 3, false, false)];
    let text = render(existing, &keyboards);
    let s = SynthesizerSettings::load(&text);
    let ks = s.keyboards();
    assert_eq!(ks.len(), 3);
    assert_eq!((ks[0].octave(), ks[0].program_no()), (7, 3));
    assert_eq!((ks[1].octave(), ks[1].program_no()), (2, 9));
    assert!(ks[2].reverb());
}

#[test]
fn render_into_empty_document_writes_every_channel() {
    let keyboards = vec![
        KeyboardSettings::with_fields(0, 127, true, false),
        KeyboardSettings::with_fields(5, 0, false, false),
        KeyboardSettings::with_fields(9, 64, false, true),
    ];
    let text = render("not [[ toml", &keyboards);
    let s = SynthesizerSettings::load(&text);
    let ks = s.keyboards();
    assert_eq!(ks.len(), 3);
    assert_eq!((ks[0].octave(), ks[0].program_no(), ks[0].reverb()), (0, 127, true));
    assert_eq!((ks[2].octave(), ks[2].program_no(), ks[2].chorus()), (9, 64, true));
}

//! Per-channel configuration, and the trailing-debounce policy that decides
//! which requested saves are actually written.

use vstd::prelude::*;

verus! {

/// Octave of a channel that has never been configured.
pub const DEFAULT_OCTAVE: u8 = 5;

/// Highest octave a channel can be shifted to.
pub const MAX_OCTAVE: u8 = 9;

/// Highest program number.
pub const MAX_PROGRAM: u8 = 127;

/// Velocity of every program until it is adjusted.
pub const DEFAULT_VELOCITY: u8 = 100;

/// Configuration of one channel.
#[derive(Clone, Copy, Debug)]
pub struct KeyboardSettings {
    octave: u8,
    program_no: u8,
    velocity_per_program: [u8; 128],
    reverb: bool,
    chorus: bool,
}

/// The mathematical content of a `KeyboardSettings`.
pub ghost struct KeyboardView {
    pub octave: u8,
    pub program_no: u8,
    pub velocity: Seq<u8>,
    pub reverb: bool,
    pub chorus: bool,
}

impl View for KeyboardSettings {
    type V = KeyboardView;

    closed spec fn view(&self) -> KeyboardView {
        KeyboardView {
            octave: self.octave,
            program_no: self.program_no,
            velocity: self.velocity_per_program@,
            reverb: self.reverb,
            chorus: self.chorus,
        }
    }
}

impl KeyboardView {
    /// Octave and program number are in range, and there is one velocity per
    /// program.
    pub open spec fn wf(self) -> bool {
        &&& self.octave <= MAX_OCTAVE
        &&& self.program_no <= MAX_PROGRAM
        &&& self.velocity.len() == 128
    }

    /// Velocity of the selected program.
    pub open spec fn current_velocity(self) -> u8 {
        self.velocity[self.program_no as int]
    }
}

/// A channel that has never been configured.
pub open spec fn default_keyboard() -> KeyboardView {
    KeyboardView {
        octave: DEFAULT_OCTAVE,
        program_no: 0,
        velocity: Seq::new(128, |i: int| DEFAULT_VELOCITY),
        reverb: false,
        chorus: false,
    }
}

impl KeyboardSettings {
    /// A channel that has never been configured.
    pub fn new() -> (r: KeyboardSettings)
        ensures
            r@ == default_keyboard(),
    {
        let r = KeyboardSettings {
            octave: DEFAULT_OCTAVE,
            program_no: 0,
            velocity_per_program: [DEFAULT_VELOCITY; 128],
            reverb: false,
            chorus: false,
        };
        assert(r@.velocity =~= default_keyboard().velocity);
        r
    }

    /// Settings with the given fields and the default velocities.
    pub fn with_fields(octave: u8, program_no: u8, reverb: bool, chorus: bool) -> (r:
        KeyboardSettings)
        requires
            octave <= MAX_OCTAVE,
            program_no <= MAX_PROGRAM,
        ensures
            r@ == (KeyboardView { octave, program_no, reverb, chorus, ..default_keyboard() }),
    {
        let r = KeyboardSettings {
            octave,
            program_no,
            velocity_per_program: [DEFAULT_VELOCITY; 128],
            reverb,
            chorus,
        };
        assert(r@.velocity =~= default_keyboard().velocity);
        r
    }

    pub fn octave(&self) -> (r: u8)
        ensures
            r == self@.octave,
    {
        self.octave
    }

    pub fn program_no(&self) -> (r: u8)
        ensures
            r == self@.program_no,
    {
        self.program_no
    }

    pub fn reverb(&self) -> (r: bool)
        ensures
            r == self@.reverb,
    {
        self.reverb
    }

    pub fn chorus(&self) -> (r: bool)
        ensures
            r == self@.chorus,
    {
        self.chorus
    }

    pub fn velocity_per_program(&self) -> (r: &[u8; 128])
        ensures
            r@ == self@.velocity,
    {
        &self.velocity_per_program
    }

    /// Velocity of the selected program.
    pub fn current_velocity(&self) -> (r: u8)
        requires
            self@.wf(),
        ensures
            r == self@.current_velocity(),
    {
        self.velocity_per_program[self.program_no as usize]
    }

    pub fn set_octave(&mut self, octave: u8)
        requires
            octave <= MAX_OCTAVE,
        ensures
            final(self)@ == (KeyboardView { octave, ..old(self)@ }),
    {
        self.octave = octave;
    }

    pub fn set_program_no(&mut self, program_no: u8)
        requires
            program_no <= MAX_PROGRAM,
        ensures
            final(self)@ == (KeyboardView { program_no, ..old(self)@ }),
    {
        self.program_no = program_no;
    }

    pub fn set_reverb(&mut self, reverb: bool)
        ensures
            final(self)@ == (KeyboardView { reverb, ..old(self)@ }),
    {
        self.reverb = reverb;
    }

    pub fn set_chorus(&mut self, chorus: bool)
        ensures
            final(self)@ == (KeyboardView { chorus, ..old(self)@ }),
    {
        self.chorus = chorus;
    }

    /// Sets the velocity of one program.
    pub fn set_velocity(&mut self, program_no: u8, velocity: u8)
        requires
            program_no <= MAX_PROGRAM,
        ensures
            final(self)@ == (KeyboardView {
                velocity: old(self)@.velocity.update(program_no as int, velocity),
                ..old(self)@
            }),
    {
        self.velocity_per_program[program_no as usize] = velocity;
    }
}

impl Default for KeyboardSettings {
    fn default() -> (r: KeyboardSettings)
        ensures
            r@ == default_keyboard(),
    {
        KeyboardSettings::new()
    }
}

/// The views of a sequence of channel settings.
pub open spec fn keyboard_views(ks: Seq<KeyboardSettings>) -> Seq<KeyboardView> {
    ks.map_values(|k: KeyboardSettings| k@)
}

/// Every channel's settings are in range.
pub open spec fn all_wf(ks: Seq<KeyboardView>) -> bool {
    forall|i: int| 0 <= i < ks.len() ==> (#[trigger] ks[i]).wf()
}

/// The channel list after channel `idx` has been accessed: missing channels
/// up to `idx` are filled with defaults.
pub open spec fn grown(ks: Seq<KeyboardView>, idx: nat) -> Seq<KeyboardView> {
    if idx < ks.len() {
        ks
    } else {
        ks + Seq::new((idx + 1 - ks.len()) as nat, |i: int| default_keyboard())
    }
}

/// The stamp that follows `t`; stamps wrap around after `u64::MAX`.
pub open spec fn next_stamp(t: u64) -> u64 {
    if t == u64::MAX {
        0
    } else {
        (t + 1) as u64
    }
}

/// A snapshot of all channels that is waiting to be written.
#[derive(Debug)]
pub struct SaveJob {
    stamp: u64,
    keyboards: Vec<KeyboardSettings>,
}

pub ghost struct SaveJobView {
    pub stamp: u64,
    pub keyboards: Seq<KeyboardView>,
}

impl View for SaveJob {
    type V = SaveJobView;

    closed spec fn view(&self) -> SaveJobView {
        SaveJobView { stamp: self.stamp, keyboards: keyboard_views(self.keyboards@) }
    }
}

/// Whether a job stamped `stamp` is still the latest request once the
/// latest stamp is `latest`.
pub open spec fn is_current(stamp: u64, latest: u64) -> bool {
    stamp == latest
}

impl SaveJob {
    pub fn stamp(&self) -> (r: u64)
        ensures
            r == self@.stamp,
    {
        self.stamp
    }

    pub fn keyboards(&self) -> (r: &Vec<KeyboardSettings>)
        ensures
            keyboard_views(r@) == self@.keyboards,
    {
        &self.keyboards
    }

    /// Whether this job is still the latest request, given the stamp of the
    /// latest request. Only a current job is written; older ones are dropped.
    pub fn is_current(&self, latest: u64) -> (r: bool)
        ensures
            r == is_current(self@.stamp, latest),
    {
        self.stamp == latest
    }
}

/// In-memory configuration of all channels, with the latest save request.
#[derive(Debug)]
pub struct SynthesizerSettings {
    keyboards: Vec<KeyboardSettings>,
    last_modify_timestamp: u64,
    queued: Option<SaveJob>,
}

/// The mathematical content of a `SynthesizerSettings`.
pub ghost struct SettingsView {
    pub keyboards: Seq<KeyboardView>,
    /// Stamp of the latest save request.
    pub stamp: u64,
    /// The latest save request, until it is taken.
    pub queued: Option<SaveJobView>,
}

impl View for SynthesizerSettings {
    type V = SettingsView;

    closed spec fn view(&self) -> SettingsView {
        SettingsView {
            keyboards: keyboard_views(self.keyboards@),
            stamp: self.last_modify_timestamp,
            queued: match self.queued {
                Some(j) => Some(j@),
                None => None,
            },
        }
    }
}

impl SettingsView {
    pub open spec fn wf(self) -> bool {
        all_wf(self.keyboards)
    }

    /// The same settings after channel `idx` has been accessed.
    pub open spec fn grown(self, idx: u8) -> SettingsView {
        SettingsView { keyboards: grown(self.keyboards, idx as nat), ..self }
    }

    /// The same settings after a save has been requested: the request gets
    /// a new stamp and holds the channels as they are now.
    pub open spec fn save_requested(self) -> SettingsView {
        SettingsView {
            stamp: next_stamp(self.stamp),
            queued: Some(SaveJobView { stamp: next_stamp(self.stamp), keyboards: self.keyboards }),
            ..self
        }
    }

    /// The same settings with channel `idx` replaced.
    pub open spec fn with_keyboard(self, idx: u8, k: KeyboardView) -> SettingsView {
        SettingsView { keyboards: self.keyboards.update(idx as int, k), ..self }
    }
}

/// Writing back a channel's own settings changes nothing.
pub proof fn lemma_with_same_keyboard(s: SettingsView, idx: u8)
    requires
        (idx as int) < s.keyboards.len(),
    ensures
        s.with_keyboard(idx, s.keyboards[idx as int]) == s,
{
    assert(s.keyboards.update(idx as int, s.keyboards[idx as int]) =~= s.keyboards);
}

/// Accessing a channel makes it exist.
pub proof fn lemma_grown_len(s: SettingsView, idx: u8)
    ensures
        (idx as int) < s.grown(idx).keyboards.len(),
        s.grown(idx).grown(idx) == s.grown(idx),
{
}

/// Trailing debounce: when a second save is requested after a first one
/// (whatever changed in between), the first request is no longer current and
/// the second is, holding the channels as they were at the second request.
/// So of the two, exactly one is written, and it has the later state.
pub proof fn lemma_debounce_keeps_last(s: SettingsView, between: Seq<KeyboardView>)
    ensures
        ({
            let first = s.save_requested();
            let second = SettingsView { keyboards: between, ..first }.save_requested();
            &&& first.queued matches Some(j1) && !is_current(j1.stamp, second.stamp)
            &&& second.queued matches Some(j2) && is_current(j2.stamp, second.stamp)
                && j2.keyboards == between
        }),
{
}

impl SynthesizerSettings {
    /// No channel configured, no save requested.
    pub fn new() -> (r: SynthesizerSettings)
        ensures
            r@ == (SettingsView { keyboards: Seq::empty(), stamp: 0, queued: None }),
    {
        let r = SynthesizerSettings {
            keyboards: Vec::new(),
            last_modify_timestamp: 0,
            queued: None,
        };
        assert(r@.keyboards =~= Seq::empty());
        r
    }

    /// Settings that hold the given channels, with no save requested.
    pub fn from_keyboards(keyboards: Vec<KeyboardSettings>) -> (r: SynthesizerSettings)
        requires
            all_wf(keyboard_views(keyboards@)),
        ensures
            r@ == (SettingsView {
                keyboards: keyboard_views(keyboards@),
                stamp: 0,
                queued: None,
            }),
    {
        SynthesizerSettings { keyboards, last_modify_timestamp: 0, queued: None }
    }

    pub fn keyboards(&self) -> (r: &Vec<KeyboardSettings>)
        ensures
            keyboard_views(r@) == self@.keyboards,
    {
        &self.keyboards
    }

    /// Fills missing channels up to `idx` with defaults.
    fn grow_to(&mut self, idx: u8)
        ensures
            final(self)@ == old(self)@.grown(idx),
            final(self).keyboards@.len() == final(self)@.keyboards.len(),
            idx < final(self).keyboards@.len(),
    {
        let ghost start = self.keyboards@;
        let target: usize = idx as usize + 1;
        while self.keyboards.len() < target
            invariant
                target == idx as nat + 1,
                start.len() <= target ==> self.keyboards@.len() <= target,
                start.len() >= target ==> self.keyboards@ == start,
                self.keyboards@.len() >= start.len(),
                self.keyboards@.subrange(0, start.len() as int) == start,
                forall|i: int|
                    start.len() <= i < self.keyboards@.len() ==> (#[trigger] self.keyboards@[i])@
                        == default_keyboard(),
                self.last_modify_timestamp == old(self).last_modify_timestamp,
                self.queued == old(self).queued,
                start == old(self).keyboards@,
            decreases target - self.keyboards.len(),
        {
            self.keyboards.push(KeyboardSettings::new());
        }
        assert(keyboard_views(self.keyboards@) =~= grown(keyboard_views(start), idx as nat));
    }

    /// The settings of channel `idx`, created with defaults (together with
    /// every missing channel below it) on first access.
    pub fn get_or_create_keyboard(&mut self, idx: u8) -> (r: &KeyboardSettings)
        ensures
            final(self)@ == old(self)@.grown(idx),
            r@ == final(self)@.keyboards[idx as int],
    {
        self.grow_to(idx);
        assert(self@.keyboards[idx as int] == self.keyboards@[idx as int]@);
        &self.keyboards[idx as usize]
    }

    /// Mutable access to the settings of channel `idx`, created with defaults
    /// (together with every missing channel below it) on first access.
    pub fn get_or_create_keyboard_mut(&mut self, idx: u8) -> (r: &mut KeyboardSettings)
        ensures
            r@ == old(self)@.grown(idx).keyboards[idx as int],
            final(self)@ == old(self)@.grown(idx).with_keyboard(idx, final(r)@),
    {
        self.grow_to(idx);
        let ghost mid = self@;
        let r = &mut self.keyboards[idx as usize];
        proof {
            assert(keyboard_views(after_borrow(self.keyboards)@) =~= mid.keyboards.update(idx as int, (*final(r))@));
        }
        r
    }

    /// Requests that the channels, as they are now, be saved. A newer
    /// request supersedes this one.
    pub fn queue_save(&mut self)
        ensures
            final(self)@ == old(self)@.save_requested(),
    {
        let stamp = self.last_modify_timestamp.wrapping_add(1);
        let mut snapshot: Vec<KeyboardSettings> = Vec::new();
        let mut i: usize = 0;
        while i < self.keyboards.len()
            invariant
                i <= self.keyboards@.len(),
                snapshot@ == self.keyboards@.subrange(0, i as int),
            decreases self.keyboards.len() - i,
        {
            snapshot.push(self.keyboards[i]);
            i += 1;
        }
        assert(snapshot@ =~= self.keyboards@);
        self.last_modify_timestamp = stamp;
        self.queued = Some(SaveJob { stamp, keyboards: snapshot });
    }

    /// Hands out the latest save request, if one is waiting.
    pub fn take_save(&mut self) -> (r: Option<SaveJob>)
        ensures
            match r {
                Some(j) => old(self)@.queued == Some(j@),
                None => old(self)@.queued is None,
            },
            final(self)@ == (SettingsView { queued: None, ..old(self)@ }),
    {
        self.queued.take()
    }
}

impl Default for SynthesizerSettings {
    fn default() -> (r: SynthesizerSettings)
        ensures
            r@ == (SettingsView { keyboards: Seq::empty(), stamp: 0, queued: None }),
    {
        SynthesizerSettings::new()
    }
}

} // verus!

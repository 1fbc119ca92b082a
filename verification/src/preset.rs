//! Audio presets and announcement voices, and what the scheduler derives from them.
use vstd::prelude::*;

verus! {

/// What the ceremony plays.
#[derive(Clone, Copy, Debug, PartialEq, Eq, Structural)]
pub enum AudioPreset {
    VoiceSilenceBell,
    VoiceSilence,
    VoiceAnthem,
    VoiceMetronome,
    VoiceMetronomeAnthem,
    VoiceMetronomeEnding,
    BellSilenceBell,
    BellMetronomeBell,
    MetronomeOnly,
    Silence,
}

/// The recorded voice that reads the announcement.
#[derive(Clone, Copy, Debug, PartialEq, Eq, Structural)]
pub enum AnnouncementVoice {
    BohdanHdal,
    SoniaSotnyk,
    DaniaKhomutovskyi,
    RadioBg,
    AirAlert,
}

/// Presets that open with a spoken announcement (as the scheduler counts them).
pub open spec fn spec_preset_has_announcement(preset: AudioPreset) -> bool {
    match preset {
        AudioPreset::VoiceMetronome
        | AudioPreset::VoiceSilenceBell
        | AudioPreset::VoiceSilence
        | AudioPreset::VoiceMetronomeAnthem
        | AudioPreset::VoiceMetronomeEnding => true,
        _ => false,
    }
}

/// Presets that open with a bell.
pub open spec fn spec_preset_has_bell(preset: AudioPreset) -> bool {
    match preset {
        AudioPreset::BellSilenceBell | AudioPreset::BellMetronomeBell => true,
        _ => false,
    }
}

/// Presets whose announcement the ceremony times so that it ends at 09:00.
pub open spec fn spec_preset_has_timed_announcement(preset: AudioPreset) -> bool {
    match preset {
        AudioPreset::VoiceMetronome
        | AudioPreset::VoiceSilenceBell
        | AudioPreset::VoiceSilence
        | AudioPreset::VoiceMetronomeAnthem => true,
        _ => false,
    }
}

/// How long before 09:00 the ceremony must start so that its opening sound ends at 09:00.
pub open spec fn spec_compensation(preset: AudioPreset, announcement_secs: u64, bell_secs: u64) -> u64 {
    if spec_preset_has_announcement(preset) {
        announcement_secs
    } else if spec_preset_has_bell(preset) {
        bell_secs
    } else {
        0
    }
}

/// The position of a voice in the table of announcement durations.
pub open spec fn spec_voice_index(voice: AnnouncementVoice) -> int {
    match voice {
        AnnouncementVoice::BohdanHdal => 0,
        AnnouncementVoice::SoniaSotnyk => 1,
        AnnouncementVoice::DaniaKhomutovskyi => 2,
        AnnouncementVoice::RadioBg => 3,
        AnnouncementVoice::AirAlert => 4,
    }
}

/// Number of announcement voices.
pub const VOICE_COUNT: usize = 5;

pub fn preset_has_announcement(preset: AudioPreset) -> (r: bool)
    ensures
        r == spec_preset_has_announcement(preset),
{
    match preset {
        AudioPreset::VoiceMetronome
        | AudioPreset::VoiceSilenceBell
        | AudioPreset::VoiceSilence
        | AudioPreset::VoiceMetronomeAnthem
        | AudioPreset::VoiceMetronomeEnding => true,
        _ => false,
    }
}

pub fn preset_has_bell(preset: AudioPreset) -> (r: bool)
    ensures
        r == spec_preset_has_bell(preset),
{
    match preset {
        AudioPreset::BellSilenceBell | AudioPreset::BellMetronomeBell => true,
        _ => false,
    }
}

/// The lead time, in whole seconds, that the preset's opening sound needs before 09:00.
pub fn get_compensation_duration(preset: AudioPreset, announcement_secs: u64, bell_secs: u64) -> (r: u64)
    ensures
        r == spec_compensation(preset, announcement_secs, bell_secs),
{
    if preset_has_announcement(preset) {
        announcement_secs
    } else if preset_has_bell(preset) {
        bell_secs
    } else {
        0
    }
}

/// The announcement file the ceremony waits on before 09:00, for presets that have one.
pub fn get_announcement_filename(preset: AudioPreset) -> (r: Option<&'static str>)
    ensures
        r is Some <==> spec_preset_has_timed_announcement(preset),
        r matches Some(name) ==> name@ == "announcement.ogg"@,
{
    match preset {
        AudioPreset::VoiceMetronome
        | AudioPreset::VoiceSilenceBell
        | AudioPreset::VoiceSilence
        | AudioPreset::VoiceMetronomeAnthem => Some("announcement.ogg"),
        _ => None,
    }
}

/// The audio file that holds a voice's announcement.
pub fn voice_filename(voice: AnnouncementVoice) -> (r: &'static str)
    ensures
        voice == AnnouncementVoice::BohdanHdal ==> r@ == "announcement.ogg"@,
        voice == AnnouncementVoice::SoniaSotnyk ==> r@ == "announcement_sotnyk.ogg"@,
        voice == AnnouncementVoice::DaniaKhomutovskyi ==> r@ == "announcement_khomutovskyi.ogg"@,
        voice == AnnouncementVoice::RadioBg ==> r@ == "announcement_radio_bg.ogg"@,
        voice == AnnouncementVoice::AirAlert ==> r@ == "announcement_air_alert.ogg"@,
{
    match voice {
        AnnouncementVoice::BohdanHdal => "announcement.ogg",
        AnnouncementVoice::SoniaSotnyk => "announcement_sotnyk.ogg",
        AnnouncementVoice::DaniaKhomutovskyi => "announcement_khomutovskyi.ogg",
        AnnouncementVoice::RadioBg => "announcement_radio_bg.ogg",
        AnnouncementVoice::AirAlert => "announcement_air_alert.ogg",
    }
}

/// Position of a voice in the table of durations.
pub fn voice_index(voice: AnnouncementVoice) -> (r: usize)
    ensures
        r == spec_voice_index(voice),
        r < VOICE_COUNT,
{
    match voice {
        AnnouncementVoice::BohdanHdal => 0,
        AnnouncementVoice::SoniaSotnyk => 1,
        AnnouncementVoice::DaniaKhomutovskyi => 2,
        AnnouncementVoice::RadioBg => 3,
        AnnouncementVoice::AirAlert => 4,
    }
}

/// The voice at a position of the table of durations, in the order the scheduler loads them.
pub fn voice_at(index: usize) -> (r: AnnouncementVoice)
    requires
        index < VOICE_COUNT,
    ensures
        spec_voice_index(r) == index,
{
    if index == 0 {
        AnnouncementVoice::BohdanHdal
    } else if index == 1 {
        AnnouncementVoice::SoniaSotnyk
    } else if index == 2 {
        AnnouncementVoice::DaniaKhomutovskyi
    } else if index == 3 {
        AnnouncementVoice::RadioBg
    } else {
        AnnouncementVoice::AirAlert
    }
}

/// The lead time before 09:00 is the announcement's length for every preset
/// that opens with a spoken announcement (voice with silence and bell, voice
/// with silence, voice with metronome, voice with metronome and anthem, voice
/// with metronome and ending), the bell's length for the two bell presets, and
/// zero for the others (voice with anthem, metronome only, silence).
pub proof fn lemma_compensation_by_preset(preset: AudioPreset, announcement_secs: u64, bell_secs: u64)
    ensures
        (preset == AudioPreset::VoiceSilenceBell || preset == AudioPreset::VoiceSilence || preset
            == AudioPreset::VoiceMetronome || preset == AudioPreset::VoiceMetronomeAnthem || preset
            == AudioPreset::VoiceMetronomeEnding) ==> spec_compensation(preset, announcement_secs, bell_secs)
            == announcement_secs,
        (preset == AudioPreset::BellSilenceBell || preset == AudioPreset::BellMetronomeBell)
            ==> spec_compensation(preset, announcement_secs, bell_secs) == bell_secs,
        (preset == AudioPreset::VoiceAnthem || preset == AudioPreset::MetronomeOnly || preset
            == AudioPreset::Silence) ==> spec_compensation(preset, announcement_secs, bell_secs) == 0,
{
}

} // verus!

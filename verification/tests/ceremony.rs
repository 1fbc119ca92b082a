use minute_of_silence::ceremony::{
    calculate_timing_delay, should_use_precise_timing, CeremonyManager, CeremonySettings,
};
use minute_of_silence::clock::{CivilDate, TimeOfDay};
use minute_of_silence::preset::{get_announcement_filename, AudioPreset};

fn settings(preset: AudioPreset) -> CeremonySettings {
    CeremonySettings {
        pause_other_players: true,
        volume_priority: true,
        auto_unmute: true,
        volume: 80,
        preset,
    }
}

#[test]
fn start_marks_active_and_plans_calls() {
    let mut m = CeremonyManager::new();
    let plan = m.run_ceremony(&settings(AudioPreset::VoiceSilenceBell), CivilDate::new(10));
    assert!(plan.pause_players && plan.query_mute && plan.query_volume);
    assert!(m.ceremony_active);
    assert_eq!(m.last_activation, Some(CivilDate::new(10)));
}

#[test]
fn silence_preset_leaves_volume_and_mute_alone() {
    let mut m = CeremonyManager::new();
    let plan = m.run_ceremony(&settings(AudioPreset::Silence), CivilDate::new(10));
    assert!(plan.pause_players);
    assert!(!plan.query_mute);
    assert!(!plan.query_volume);
}

#[test]
fn finish_restores_saved_volume_and_mute() {
    let s = settings(AudioPreset::VoiceMetronome);
    let mut m = CeremonyManager::new();
    m.run_ceremony(&s, CivilDate::new(3));
    assert!(m.on_mute_state(Some(true)));
    assert_eq!(m.on_volume(Some(35), &s), Some(80));
    let fin = m.finish_ceremony(&s);
    assert!(fin.ended);
    assert_eq!(fin.restore_volume, Some(35));
    assert!(fin.restore_mute);
    assert_eq!(m.previous_volume, None);
    assert_eq!(m.was_muted, None);
    assert!(!m.ceremony_active);
    let again = m.finish_ceremony(&s);
    assert!(!again.ended);
    assert_eq!(again.restore_volume, None);
    assert!(!again.restore_mute);
}

#[test]
fn failed_queries_save_nothing() {
    let s = settings(AudioPreset::VoiceMetronome);
    let mut m = CeremonyManager::new();
    m.run_ceremony(&s, CivilDate::new(3));
    assert!(!m.on_mute_state(None));
    assert!(!m.on_mute_state(Some(false)));
    assert_eq!(m.on_volume(None, &s), None);
    let fin = m.finish_ceremony(&s);
    assert!(fin.ended);
    assert_eq!(fin.restore_volume, None);
    assert!(!fin.restore_mute);
}

#[test]
fn restoring_follows_settings_at_the_end() {
    let s = settings(AudioPreset::VoiceMetronome);
    let mut m = CeremonyManager::new();
    m.run_ceremony(&s, CivilDate::new(3));
    m.on_mute_state(Some(true));
    m.on_volume(Some(20), &s);
    let later = CeremonySettings { volume_priority: false, auto_unmute: false, ..s };
    let fin = m.finish_ceremony(&later);
    assert!(fin.ended);
    assert_eq!(fin.restore_volume, None);
    assert!(!fin.restore_mute);
    assert_eq!(m.previous_volume, Some(20));
    assert_eq!(m.was_muted, Some(true));
}

#[test]
fn finish_without_ceremony_does_nothing() {
    let mut m = CeremonyManager::new();
    let fin = m.finish_ceremony(&settings(AudioPreset::VoiceMetronome));
    assert!(!fin.ended);
    assert_eq!(m, CeremonyManager::new());
}

#[test]
fn precise_timing_only_right_after_nine_with_announcement() {
    let nine_02 = TimeOfDay::from_hms(9, 0, 2).unwrap();
    let nine_03 = TimeOfDay::from_hms(9, 0, 3).unwrap();
    assert!(should_use_precise_timing(&nine_02, AudioPreset::VoiceSilence));
    assert!(!should_use_precise_timing(&nine_03, AudioPreset::VoiceSilence));
    assert!(!should_use_precise_timing(&nine_02, AudioPreset::VoiceMetronomeEnding));
    assert!(!should_use_precise_timing(&nine_02, AudioPreset::BellSilenceBell));
}

#[test]
fn timing_delay_lands_announcement_on_nine() {
    let before = TimeOfDay::from_hms(8, 59, 30).unwrap();
    assert_eq!(calculate_timing_delay(&before, 12), 18);
    assert_eq!(calculate_timing_delay(&before, 40), 0);
    let with_nanos = TimeOfDay::from_secs_nanos(32_400 - 30, 1).unwrap();
    assert_eq!(calculate_timing_delay(&with_nanos, 12), 17);
    assert_eq!(calculate_timing_delay(&TimeOfDay::ceremony(), 0), 0);
    assert_eq!(get_announcement_filename(AudioPreset::VoiceMetronomeAnthem), Some("announcement.ogg"));
    assert_eq!(get_announcement_filename(AudioPreset::VoiceMetronomeEnding), None);
}

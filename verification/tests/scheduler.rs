use chrono::{Datelike, Timelike};
use minute_of_silence::clock::{
    synchronized_local_now, CivilDate, TimeOfDay, MAX_DAYS_FROM_CE, MIN_DAYS_FROM_CE,
    UNIX_EPOCH_DAYS_FROM_CE,
};
use minute_of_silence::preset::{
    get_compensation_duration, preset_has_announcement, preset_has_bell, voice_filename,
    AnnouncementVoice, AudioPreset,
};
use minute_of_silence::scheduler::{CeremonyScheduler, Observation, ScheduleSettings};

// 2024-01-01 was a Monday; chrono's num_days_from_ce for it is 738_886.
const MONDAY: i32 = 738_886;

fn t(h: u32, m: u32, s: u32) -> TimeOfDay {
    TimeOfDay::from_hms(h, m, s).unwrap()
}

fn settings() -> ScheduleSettings {
    ScheduleSettings {
        ceremony_enabled: true,
        weekdays_only: false,
        reminder_enabled: true,
        reminder_minutes_before: 5,
        late_start_grace_minutes: 1,
        preset: AudioPreset::VoiceSilenceBell,
        announcement_voice: AnnouncementVoice::BohdanHdal,
        skip_date: None,
    }
}

fn scheduler() -> CeremonyScheduler {
    CeremonyScheduler::new(Some(4), vec![Some(12), Some(20), None, Some(7), Some(9)])
}

fn obs(day: i32, now: TimeOfDay) -> Observation {
    Observation {
        today: CivilDate::new(day),
        now,
        ceremony_active: false,
        last_activation: None,
    }
}

#[test]
fn weekday_numbers_follow_the_calendar() {
    assert_eq!(CivilDate::new(1).number_from_monday(), 1);
    assert_eq!(CivilDate::new(MONDAY).number_from_monday(), 1);
    assert_eq!(CivilDate::new(MONDAY + 5).number_from_monday(), 6);
    assert_eq!(CivilDate::new(MONDAY + 6).number_from_monday(), 7);
    assert_eq!(CivilDate::new(0).number_from_monday(), 7);
    assert_eq!(CivilDate::new(-6).number_from_monday(), 1);
    assert!(CivilDate::new(MONDAY + 6).is_weekend());
    assert!(!CivilDate::new(MONDAY + 4).is_weekend());
}

#[test]
fn time_of_day_components_and_wrapping() {
    let x = TimeOfDay::from_hms(8, 59, 48).unwrap();
    assert_eq!((x.hour(), x.minute(), x.second()), (8, 59, 48));
    assert!(TimeOfDay::from_hms(24, 0, 0).is_none());
    let nine = TimeOfDay::ceremony();
    assert_eq!(nine.minus_seconds(12), x);
    assert_eq!(nine.minus_seconds(32_400 + 3_600), t(23, 0, 0));
    assert_eq!(nine.minus_seconds(-60), t(9, 1, 0));
    let a = TimeOfDay::from_secs_nanos(32_405, 500).unwrap();
    let b = TimeOfDay::from_secs_nanos(32_400, 600).unwrap();
    assert_eq!(a.whole_seconds_since(&b), 4);
    assert_eq!(b.whole_seconds_since(&a), -4);
}

#[test]
fn new_scheduler_loads_durations() {
    let s = scheduler();
    assert_eq!(s.get_default_duration(), 12);
    assert_eq!(s.voice_duration(AnnouncementVoice::DaniaKhomutovskyi), 0);
    assert_eq!(s.voice_duration(AnnouncementVoice::AirAlert), 9);
    assert_eq!(s.bell_duration, 4);
    assert_eq!(voice_filename(AnnouncementVoice::RadioBg), "announcement_radio_bg.ogg");
}

#[test]
fn compensation_follows_the_preset() {
    assert!(preset_has_announcement(AudioPreset::VoiceMetronomeEnding));
    assert!(!preset_has_announcement(AudioPreset::BellSilenceBell));
    assert!(preset_has_bell(AudioPreset::BellMetronomeBell));
    assert_eq!(get_compensation_duration(AudioPreset::VoiceSilence, 12, 4), 12);
    assert_eq!(get_compensation_duration(AudioPreset::BellSilenceBell, 12, 4), 4);
    assert_eq!(get_compensation_duration(AudioPreset::Silence, 12, 4), 0);
    assert_eq!(get_compensation_duration(AudioPreset::MetronomeOnly, 12, 4), 0);
}

#[test]
fn grace_window_is_inclusive() {
    let nine = TimeOfDay::ceremony();
    assert!(CeremonyScheduler::is_within_window(&nine, &nine, 0));
    assert!(CeremonyScheduler::is_within_window(&t(9, 1, 0), &nine, 1));
    let just_after = TimeOfDay::from_secs_nanos(32_460, 999_999_999).unwrap();
    assert!(CeremonyScheduler::is_within_window(&just_after, &nine, 1));
    assert!(!CeremonyScheduler::is_within_window(&t(9, 1, 1), &nine, 1));
    assert!(!CeremonyScheduler::is_within_window(&t(8, 59, 59), &nine, 5));
}

#[test]
fn trigger_opens_announcement_length_before_nine() {
    let s = scheduler();
    let st = settings();
    assert!(!s.should_trigger(&st, &obs(MONDAY, t(8, 59, 47))));
    assert!(s.should_trigger(&st, &obs(MONDAY, t(8, 59, 48))));
    assert!(s.should_trigger(&st, &obs(MONDAY, t(9, 0, 0))));
    assert!(s.should_trigger(&st, &obs(MONDAY, t(9, 1, 0))));
    assert!(!s.should_trigger(&st, &obs(MONDAY, t(9, 1, 1))));
}

#[test]
fn trigger_uses_the_bell_for_bell_presets() {
    let s = scheduler();
    let st = ScheduleSettings { preset: AudioPreset::BellSilenceBell, ..settings() };
    assert!(!s.should_trigger(&st, &obs(MONDAY, t(8, 59, 55))));
    assert!(s.should_trigger(&st, &obs(MONDAY, t(8, 59, 56))));
}

#[test]
fn trigger_respects_blocking_conditions() {
    let s = scheduler();
    let st = settings();
    let now = t(9, 0, 10);
    let mut o = obs(MONDAY, now);
    o.ceremony_active = true;
    assert!(!s.should_trigger(&st, &o));
    let mut o = obs(MONDAY, now);
    o.last_activation = Some(CivilDate::new(MONDAY));
    assert!(!s.should_trigger(&st, &o));
    let mut o = obs(MONDAY, now);
    o.last_activation = Some(CivilDate::new(MONDAY - 1));
    assert!(s.should_trigger(&st, &o));
    let skip = ScheduleSettings { skip_date: Some(CivilDate::new(MONDAY)), ..settings() };
    assert!(!s.should_trigger(&skip, &obs(MONDAY, now)));
    let weekdays = ScheduleSettings { weekdays_only: true, ..settings() };
    assert!(!s.should_trigger(&weekdays, &obs(MONDAY + 5, now)));
    assert!(s.should_trigger(&weekdays, &obs(MONDAY + 4, now)));
    let disabled = ScheduleSettings { ceremony_enabled: false, ..settings() };
    assert!(!s.should_trigger(&disabled, &obs(MONDAY, now)));
}

#[test]
fn reminder_fires_once_at_its_minute() {
    let mut s = scheduler();
    let st = settings();
    assert_eq!(s.reminder_due(&st, &obs(MONDAY, t(8, 54, 59))), None);
    let at = TimeOfDay::from_secs_nanos(8 * 3600 + 55 * 60, 250_000_000).unwrap();
    let first = s.tick(&st, &obs(MONDAY, at));
    assert_eq!(first.reminder, Some(5));
    assert!(!first.trigger);
    assert_eq!(s.last_reminded_date, Some(CivilDate::new(MONDAY)));
    let again = s.tick(&st, &obs(MONDAY, at));
    assert_eq!(again.reminder, None);
    let next_day = s.tick(&st, &obs(MONDAY + 1, at));
    assert_eq!(next_day.reminder, Some(5));
}

#[test]
fn immediate_reminder_fires_at_nine() {
    let s = scheduler();
    let st = ScheduleSettings { reminder_minutes_before: 0, ..settings() };
    assert_eq!(s.reminder_due(&st, &obs(MONDAY, t(9, 0, 0))), Some(0));
    assert_eq!(s.reminder_due(&st, &obs(MONDAY, t(9, 0, 1))), None);
    let off = ScheduleSettings { reminder_enabled: false, ..st };
    assert_eq!(s.reminder_due(&off, &obs(MONDAY, t(9, 0, 0))), None);
}

#[test]
fn hourly_resync_at_the_top_of_the_hour() {
    assert!(CeremonyScheduler::should_sync_ntp(&t(14, 0, 0)));
    assert!(!CeremonyScheduler::should_sync_ntp(&t(14, 0, 1)));
    assert!(!CeremonyScheduler::should_sync_ntp(&t(14, 1, 0)));
}

/// The local date and time as chrono computes them from the same reading.
fn chrono_local(utc_secs: i64, utc_nanos: u32, ntp_ms: Option<i64>, offset: i32) -> (i32, u32, u32) {
    let utc = chrono::DateTime::from_timestamp(utc_secs, utc_nanos).unwrap();
    let corrected = match ntp_ms {
        Some(ms) => utc + chrono::Duration::milliseconds(ms),
        None => utc,
    };
    let local = corrected.with_timezone(&chrono::FixedOffset::east_opt(offset).unwrap());
    (local.date_naive().num_days_from_ce(), local.time().num_seconds_from_midnight(), local.time().nanosecond())
}

#[test]
fn date_range_constants_match_the_clock_library() {
    assert_eq!(MIN_DAYS_FROM_CE, chrono::NaiveDate::MIN.num_days_from_ce());
    assert_eq!(MAX_DAYS_FROM_CE, chrono::NaiveDate::MAX.num_days_from_ce());
    assert_eq!(
        UNIX_EPOCH_DAYS_FROM_CE,
        chrono::NaiveDate::from_ymd_opt(1970, 1, 1).unwrap().num_days_from_ce()
    );
}

#[test]
fn synchronized_local_now_exact_values() {
    let (d, t0) = synchronized_local_now(0, 0, None, 0);
    assert_eq!(d, CivilDate::new(719_163));
    assert_eq!(t0, TimeOfDay::from_secs_nanos(0, 0).unwrap());
    let (d, t1) = synchronized_local_now(-1, 999_999_999, None, 0);
    assert_eq!(d, CivilDate::new(719_162));
    assert_eq!(t1, TimeOfDay::from_secs_nanos(86_399, 999_999_999).unwrap());
    // 2024-01-01T05:59:59.500Z, NTP says the clock is 600 ms slow, Kyiv winter time (+02:00)
    // gives 08:00:00.100 local.
    let (d, t2) = synchronized_local_now(1_704_088_799, 500_000_000, Some(600), 7_200);
    assert_eq!(d, CivilDate::new(MONDAY));
    assert_eq!(t2, TimeOfDay::from_secs_nanos(8 * 3600, 100_000_000).unwrap());
}

#[test]
fn synchronized_local_now_agrees_with_chrono() {
    let readings: [(i64, u32, Option<i64>, i32); 6] = [
        (1_711_954_800, 123, None, 10_800),
        (1_711_954_800, 999_999_999, Some(-1), -18_000),
        (-86_400 * 400, 5, Some(86_400_001), 3_600),
        (253_402_300_799, 0, Some(1_000), 86_399),
        (-62_135_596_800, 0, None, -86_399),
        (1_000, 0, Some(-5_000_000), 0),
    ];
    for (s, n, ntp, off) in readings {
        let (d, t) = synchronized_local_now(s, n, ntp, off);
        let (cd, cs, cn) = chrono_local(s, n, ntp, off);
        assert_eq!((d.days_from_ce, t.secs, t.nanos), (cd, cs, cn));
    }
}

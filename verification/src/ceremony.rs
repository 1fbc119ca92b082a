//! The ceremony's effects on the system and their undoing: which platform
//! calls a ceremony makes when it starts, what it remembers of the volume and
//! mute state it changes, and what it restores when it ends.
//!
//! The caller performs the platform calls; the manager decides them and keeps
//! the state between them.
use vstd::prelude::*;

use crate::clock::{whole_seconds_between, CivilDate, TimeOfDay, CEREMONY_SECS};
use crate::preset::{spec_preset_has_timed_announcement, AudioPreset};
use crate::scheduler::{CeremonyScheduler, Observation, ScheduleSettings};

verus! {

/// The settings a ceremony reads.
#[derive(Clone, Copy, Debug)]
pub struct CeremonySettings {
    pub pause_other_players: bool,
    pub volume_priority: bool,
    pub auto_unmute: bool,
    /// Volume, in percent, that the ceremony plays at.
    pub volume: u8,
    pub preset: AudioPreset,
}

/// The calls to make when a ceremony starts.
#[derive(Clone, Copy, Debug, PartialEq, Eq, Structural)]
pub struct StartPlan {
    /// Pause the other media players.
    pub pause_players: bool,
    /// Ask whether the output is muted, then report the answer to `on_mute_state`.
    pub query_mute: bool,
    /// Ask for the output volume, then report the answer to `on_volume`.
    pub query_volume: bool,
}

/// The calls to make when a ceremony ends.
#[derive(Clone, Copy, Debug, PartialEq, Eq, Structural)]
pub struct FinishPlan {
    /// The ceremony was running and has now ended; announce its end.
    pub ended: bool,
    /// Set the output volume back to this level.
    pub restore_volume: Option<u8>,
    /// Mute the output again.
    pub restore_mute: bool,
}

/// The ceremony's state: whether one is running, the date of the last one
/// started, and what was changed on the system and must be restored.
#[derive(Clone, Copy, Debug, PartialEq, Eq, Structural)]
pub struct CeremonyManager {
    pub ceremony_active: bool,
    pub last_activation: Option<CivilDate>,
    /// The volume found before the ceremony raised it.
    pub previous_volume: Option<u8>,
    /// `Some(true)` when the ceremony found the output muted and unmuted it.
    pub was_muted: Option<bool>,
}

/// Presets other than silence play sound and so may change volume and mute.
pub open spec fn plays_sound(preset: AudioPreset) -> bool {
    preset != AudioPreset::Silence
}

impl CeremonyManager {
    /// Starting a ceremony on `today`: the manager after it and the calls to make.
    pub open spec fn spec_run(self, s: CeremonySettings, today: CivilDate) -> (CeremonyManager, StartPlan) {
        (
            CeremonyManager { ceremony_active: true, last_activation: Some(today), ..self },
            StartPlan {
                pause_players: s.pause_other_players,
                query_mute: s.auto_unmute && plays_sound(s.preset),
                query_volume: s.volume_priority && plays_sound(s.preset),
            },
        )
    }

    /// Taking the answer to the mute query: the manager after it and whether to unmute.
    pub open spec fn spec_on_mute(self, muted: Option<bool>) -> (CeremonyManager, bool) {
        if muted == Some(true) {
            (CeremonyManager { was_muted: Some(true), ..self }, true)
        } else {
            (self, false)
        }
    }

    /// Taking the answer to the volume query: the manager after it and the level to set.
    pub open spec fn spec_on_volume(self, volume: Option<u8>, s: CeremonySettings) -> (
        CeremonyManager,
        Option<u8>,
    ) {
        match volume {
            Some(v) => (CeremonyManager { previous_volume: Some(v), ..self }, Some(s.volume)),
            None => (self, None),
        }
    }

    /// Ending the ceremony: the manager after it and what to restore.
    pub open spec fn spec_finish(self, s: CeremonySettings) -> (CeremonyManager, FinishPlan) {
        if !self.ceremony_active {
            (self, FinishPlan { ended: false, restore_volume: None, restore_mute: false })
        } else {
            let restore_volume = if s.volume_priority {
                self.previous_volume
            } else {
                None
            };
            let restore_mute = s.auto_unmute && self.was_muted == Some(true);
            (
                CeremonyManager {
                    ceremony_active: false,
                    last_activation: self.last_activation,
                    previous_volume: if restore_volume is Some {
                        None
                    } else {
                        self.previous_volume
                    },
                    was_muted: if restore_mute {
                        None
                    } else {
                        self.was_muted
                    },
                },
                FinishPlan { ended: true, restore_volume, restore_mute },
            )
        }
    }

    /// No ceremony has run yet and nothing is to be restored.
    pub fn new() -> (r: CeremonyManager)
        ensures
            !r.ceremony_active,
            r.last_activation is None,
            r.previous_volume is None,
            r.was_muted is None,
    {
        CeremonyManager {
            ceremony_active: false,
            last_activation: None,
            previous_volume: None,
            was_muted: None,
        }
    }

    /// Start a ceremony on `today`: mark it running and say which platform calls to make.
    pub fn run_ceremony(&mut self, s: &CeremonySettings, today: CivilDate) -> (r: StartPlan)
        ensures
            (*final(self), r) == old(self).spec_run(*s, today),
    {
        self.ceremony_active = true;
        self.last_activation = Some(today);
        let plays = match s.preset {
            AudioPreset::Silence => false,
            _ => true,
        };
        StartPlan {
            pause_players: s.pause_other_players,
            query_mute: s.auto_unmute && plays,
            query_volume: s.volume_priority && plays,
        }
    }

    /// Take the answer to the mute query (`None` when the query failed);
    /// returns whether to unmute the output now.
    pub fn on_mute_state(&mut self, muted: Option<bool>) -> (unmute: bool)
        ensures
            (*final(self), unmute) == old(self).spec_on_mute(muted),
    {
        match muted {
            Some(true) => {
                self.was_muted = Some(true);
                true
            },
            _ => false,
        }
    }

    /// Take the answer to the volume query (`None` when the query failed);
    /// returns the volume to set now, if any.
    pub fn on_volume(&mut self, volume: Option<u8>, s: &CeremonySettings) -> (set_to: Option<u8>)
        ensures
            (*final(self), set_to) == old(self).spec_on_volume(volume, *s),
    {
        match volume {
            Some(v) => {
                self.previous_volume = Some(v);
                Some(s.volume)
            },
            None => None,
        }
    }

    /// End the running ceremony, if any, and say what to restore.
    pub fn finish_ceremony(&mut self, s: &CeremonySettings) -> (r: FinishPlan)
        ensures
            (*final(self), r) == old(self).spec_finish(*s),
    {
        if !self.ceremony_active {
            return FinishPlan { ended: false, restore_volume: None, restore_mute: false };
        }
        self.ceremony_active = false;
        let mut restore_volume: Option<u8> = None;
        if s.volume_priority {
            if let Some(vol) = self.previous_volume {
                restore_volume = Some(vol);
                self.previous_volume = None;
            }
        }
        let mut restore_mute = false;
        if s.auto_unmute {
            if let Some(true) = self.was_muted {
                restore_mute = true;
                self.was_muted = None;
            }
        }
        FinishPlan { ended: true, restore_volume, restore_mute }
    }
}

/// The ceremony waits for a precise 09:00 start when it is started in the
/// first three seconds after 09:00 and its preset opens with a timed announcement.
pub open spec fn spec_precise_timing(now: TimeOfDay, preset: AudioPreset) -> bool {
    now.spec_hour() == 9 && now.spec_minute() == 0 && now.spec_second() <= 2
        && spec_preset_has_timed_announcement(preset)
}

/// Whole seconds from `now` until 09:00, or zero from 09:00 on.
pub open spec fn secs_until_nine(now: TimeOfDay) -> int {
    if now.before(TimeOfDay { secs: CEREMONY_SECS, nanos: 0 }) {
        whole_seconds_between(now, TimeOfDay { secs: CEREMONY_SECS, nanos: 0 })
    } else {
        0
    }
}

/// How long to wait before playing so that an announcement of
/// `announcement_secs` ends at 09:00.
pub open spec fn spec_timing_delay(now: TimeOfDay, announcement_secs: u64) -> int {
    if secs_until_nine(now) > announcement_secs {
        secs_until_nine(now) - announcement_secs
    } else {
        0
    }
}

pub fn should_use_precise_timing(now: &TimeOfDay, preset: AudioPreset) -> (r: bool)
    requires
        now.wf(),
    ensures
        r == spec_precise_timing(*now, preset),
{
    let is_close_to_9am = now.hour() == 9 && now.minute() == 0 && now.second() <= 2;
    let has_announcement = match preset {
        AudioPreset::VoiceMetronome
        | AudioPreset::VoiceSilenceBell
        | AudioPreset::VoiceSilence
        | AudioPreset::VoiceMetronomeAnthem => true,
        _ => false,
    };
    is_close_to_9am && has_announcement
}

/// Seconds to wait before playing, given the announcement's length in whole seconds.
pub fn calculate_timing_delay(now: &TimeOfDay, announcement_secs: u64) -> (r: u64)
    requires
        now.wf(),
    ensures
        r == spec_timing_delay(*now, announcement_secs),
{
    let target = TimeOfDay::ceremony();
    let seconds_until_9am: u64 = if now.is_before(&target) {
        target.whole_seconds_since(now) as u64
    } else {
        0
    };
    if seconds_until_9am > announcement_secs {
        seconds_until_9am - announcement_secs
    } else {
        0
    }
}

/// What a ceremony changes it gives back: when the output was muted and the
/// volume was read as `v`, ending the ceremony (with the same restoring
/// settings) mutes the output again and sets the volume back to `v`, and
/// nothing is left to restore.
pub proof fn lemma_finish_restores_what_start_changed(
    m: CeremonyManager,
    s: CeremonySettings,
    today: CivilDate,
    v: u8,
)
    requires
        s.auto_unmute,
        s.volume_priority,
        plays_sound(s.preset),
    ensures
        ({
            let (m1, plan) = m.spec_run(s, today);
            let (m2, unmute) = m1.spec_on_mute(Some(true));
            let (m3, set_to) = m2.spec_on_volume(Some(v), s);
            let (m4, fin) = m3.spec_finish(s);
            &&& plan.query_mute && plan.query_volume
            &&& unmute
            &&& set_to == Some(s.volume)
            &&& fin.ended
            &&& fin.restore_volume == Some(v)
            &&& fin.restore_mute
            &&& !m4.ceremony_active
            &&& m4.previous_volume is None
            &&& m4.was_muted is None
        }),
{
}

/// Ending a ceremony twice changes nothing the second time.
pub proof fn lemma_finish_twice_is_noop(m: CeremonyManager, s1: CeremonySettings, s2: CeremonySettings)
    ensures
        ({
            let (m1, _) = m.spec_finish(s1);
            let (m2, fin) = m1.spec_finish(s2);
            &&& m2 == m1
            &&& !fin.ended
            &&& fin.restore_volume is None
            &&& !fin.restore_mute
        }),
{
}

/// A silent ceremony leaves volume and mute alone.
pub proof fn lemma_silence_touches_nothing(m: CeremonyManager, s: CeremonySettings, today: CivilDate)
    requires
        s.preset == AudioPreset::Silence,
    ensures
        !m.spec_run(s, today).1.query_mute,
        !m.spec_run(s, today).1.query_volume,
{
}

/// A ceremony that found the output unmuted does not mute it when it ends,
/// unless an earlier ceremony's unmuting was never restored.
pub proof fn lemma_unmuted_output_stays_unmuted(
    m: CeremonyManager,
    s: CeremonySettings,
    today: CivilDate,
    volume: Option<u8>,
)
    requires
        m.was_muted != Some(true),
    ensures
        ({
            let (m1, _) = m.spec_run(s, today);
            let (m2, _) = m1.spec_on_mute(Some(false));
            let (m3, _) = m2.spec_on_volume(volume, s);
            !m3.spec_finish(s).1.restore_mute
        }),
{
}

/// The wait and the announcement together fill the time until 09:00: a
/// positive delay plus the announcement's length is exactly the number of
/// whole seconds left until 09:00, and there is no delay from 09:00 on.
pub proof fn lemma_announcement_lands_on_nine(now: TimeOfDay, announcement_secs: u64)
    requires
        now.wf(),
    ensures
        spec_timing_delay(now, announcement_secs) > 0 ==> spec_timing_delay(now, announcement_secs)
            + announcement_secs == secs_until_nine(now),
        !now.before(TimeOfDay { secs: CEREMONY_SECS, nanos: 0 }) ==> spec_timing_delay(
            now,
            announcement_secs,
        ) == 0,
        spec_timing_delay(now, announcement_secs) <= CEREMONY_SECS,
{
}

/// A ceremony started on a day is not started again that day: not while it
/// runs, and not after it has ended, whatever the settings.
pub proof fn lemma_started_ceremony_not_repeated(
    m: CeremonyManager,
    cs: CeremonySettings,
    today: CivilDate,
    finish_settings: CeremonySettings,
    sched: CeremonyScheduler,
    ss: ScheduleSettings,
    now: TimeOfDay,
)
    ensures
        ({
            let (running, _) = m.spec_run(cs, today);
            let (ended, _) = running.spec_finish(finish_settings);
            &&& !sched.spec_trigger(
                ss,
                Observation {
                    today,
                    now,
                    ceremony_active: running.ceremony_active,
                    last_activation: running.last_activation,
                },
            )
            &&& !sched.spec_trigger(
                ss,
                Observation {
                    today,
                    now,
                    ceremony_active: ended.ceremony_active,
                    last_activation: ended.last_activation,
                },
            )
        }),
{
}

/// What starting a ceremony asks for: pausing the players exactly when that
/// setting is on; the mute state is queried only with auto-unmute on and the
/// volume only with volume priority on, and neither for the silent preset;
/// with the setting on and a preset that plays sound, the query is made. The
/// ceremony is marked running on `today`, and what is remembered for restoring
/// is left as it was.
pub proof fn lemma_start_plan_follows_settings(m: CeremonyManager, s: CeremonySettings, today: CivilDate)
    ensures
        ({
            let (after, plan) = m.spec_run(s, today);
            &&& plan.pause_players == s.pause_other_players
            &&& !s.auto_unmute ==> !plan.query_mute
            &&& !s.volume_priority ==> !plan.query_volume
            &&& s.preset == AudioPreset::Silence ==> !plan.query_mute && !plan.query_volume
            &&& (s.auto_unmute && s.preset != AudioPreset::Silence) ==> plan.query_mute
            &&& (s.volume_priority && s.preset != AudioPreset::Silence) ==> plan.query_volume
            &&& after.ceremony_active
            &&& after.last_activation == Some(today)
            &&& after.previous_volume == m.previous_volume
            &&& after.was_muted == m.was_muted
        }),
{
}

} // verus!

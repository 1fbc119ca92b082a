//! The daily scheduler's decisions, taken once per tick: whether to
//! resynchronise the clock, whether to send the reminder, and whether to start
//! the ceremony.
use vstd::prelude::*;

use crate::clock::{
    weekday_number, whole_seconds_between, CivilDate, TimeOfDay, CEREMONY_SECS, SECS_PER_DAY,
};
use crate::preset::{
    get_compensation_duration, spec_compensation, spec_voice_index, voice_index, AnnouncementVoice,
    AudioPreset, VOICE_COUNT,
};

verus! {

/// Largest number of whole seconds a time span may hold in the clock library
/// that the scheduler's arithmetic follows (`i64::MAX / 1000`).
pub const MAX_SPAN_SECS: i64 = 9_223_372_036_854_775;

/// The settings the scheduler reads on every tick.
#[derive(Clone, Copy, Debug)]
pub struct ScheduleSettings {
    pub ceremony_enabled: bool,
    pub weekdays_only: bool,
    pub reminder_enabled: bool,
    pub reminder_minutes_before: u8,
    pub late_start_grace_minutes: u8,
    pub preset: AudioPreset,
    pub announcement_voice: AnnouncementVoice,
    pub skip_date: Option<CivilDate>,
}

/// What the scheduler observes at a tick: the (synchronised) local date and
/// time, and the ceremony's runtime state.
#[derive(Clone, Copy, Debug)]
pub struct Observation {
    pub today: CivilDate,
    pub now: TimeOfDay,
    pub ceremony_active: bool,
    pub last_activation: Option<CivilDate>,
}

/// What the caller must do after a tick.
#[derive(Clone, Copy, Debug, PartialEq, Eq, Structural)]
pub struct TickActions {
    /// Send the reminder notification, telling that many minutes before the ceremony.
    pub reminder: Option<u8>,
    /// Start the ceremony now.
    pub trigger: bool,
}

/// The scheduler: durations of the opening sounds, and the date of the last reminder sent.
#[derive(Debug)]
pub struct CeremonyScheduler {
    /// Whole seconds of each voice's announcement, indexed by `voice_index`.
    pub voice_durations: Vec<u64>,
    /// Whole seconds of the opening bell.
    pub bell_duration: u64,
    /// The date for which the reminder was already sent.
    pub last_reminded_date: Option<CivilDate>,
}

/// `day` is blocked by the weekdays-only setting.
pub open spec fn blocked_by_weekday(s: ScheduleSettings, day: CivilDate) -> bool {
    s.weekdays_only && weekday_number(day) > 5
}

/// Seconds after midnight at which the reminder fires.
pub open spec fn remind_secs(minutes_before: u8) -> int {
    CEREMONY_SECS - minutes_before * 60
}

/// `now` is at or after `target` by at most `grace_minutes` whole minutes.
pub open spec fn spec_within_window(now: TimeOfDay, target: TimeOfDay, grace_minutes: u8) -> bool {
    !now.before(target) && whole_seconds_between(target, now) <= grace_minutes * 60
}

/// Seconds after midnight at which the compensation window opens: 09:00 moved
/// back by `lead` seconds, on a clock that wraps around midnight.
pub open spec fn window_start_secs(lead: i64) -> int {
    (CEREMONY_SECS - lead) % (SECS_PER_DAY as int)
}

/// The minute-resolution instant 09:00 moved back by `lead` seconds.
pub open spec fn window_start(lead: i64) -> TimeOfDay {
    TimeOfDay { secs: window_start_secs(lead) as u32, nanos: 0 }
}

/// `now` lies in the compensation window `[09:00 - lead, 09:00)`.
pub open spec fn in_compensation_window(now: TimeOfDay, lead: i64) -> bool {
    !now.before(window_start(lead)) && now.before(TimeOfDay { secs: CEREMONY_SECS, nanos: 0 })
}

impl CeremonyScheduler {
    /// The table of durations has one entry per voice.
    pub open spec fn wf(&self) -> bool {
        self.voice_durations@.len() == VOICE_COUNT
    }

    /// The announcement length used for a voice.
    pub open spec fn spec_voice_duration(&self, voice: AnnouncementVoice) -> u64 {
        self.voice_durations@[spec_voice_index(voice)]
    }

    /// The lead time before 09:00 for the current settings.
    pub open spec fn spec_lead(&self, s: ScheduleSettings) -> u64 {
        spec_compensation(s.preset, self.spec_voice_duration(s.announcement_voice), self.bell_duration)
    }

    /// The reminder decision, taken before the trigger decision on a tick.
    pub open spec fn spec_reminder(&self, s: ScheduleSettings, obs: Observation) -> Option<u8> {
        if !s.reminder_enabled || !s.ceremony_enabled || blocked_by_weekday(s, obs.today)
            || s.skip_date == Some(obs.today) || obs.last_activation == Some(obs.today)
            || self.last_reminded_date == Some(obs.today) {
            None
        } else if obs.now.secs == remind_secs(s.reminder_minutes_before) {
            Some(s.reminder_minutes_before)
        } else {
            None
        }
    }

    /// The trigger decision.
    pub open spec fn spec_trigger(&self, s: ScheduleSettings, obs: Observation) -> bool {
        if !s.ceremony_enabled || blocked_by_weekday(s, obs.today) {
            false
        } else if obs.ceremony_active {
            false
        } else if obs.last_activation == Some(obs.today) || s.skip_date == Some(obs.today) {
            false
        } else {
            let lead = self.spec_lead(s) as i64;
            in_compensation_window(obs.now, lead) || spec_within_window(
                obs.now,
                TimeOfDay { secs: CEREMONY_SECS, nanos: 0 },
                s.late_start_grace_minutes,
            )
        }
    }

    /// Whether the trigger decision would reach the window check.
    pub open spec fn reaches_window_check(&self, s: ScheduleSettings, obs: Observation) -> bool {
        s.ceremony_enabled && !blocked_by_weekday(s, obs.today) && !obs.ceremony_active
            && obs.last_activation != Some(obs.today) && s.skip_date != Some(obs.today)
    }

    /// On the inputs where the window check runs, the lead time converts to a
    /// span the clock library accepts.
    pub open spec fn lead_in_range(&self, s: ScheduleSettings, obs: Observation) -> bool {
        self.reaches_window_check(s, obs) ==> -MAX_SPAN_SECS <= (self.spec_lead(s) as i64)
            <= MAX_SPAN_SECS
    }

    /// The scheduler after a tick.
    pub open spec fn spec_after_tick(&self, s: ScheduleSettings, obs: Observation) -> CeremonyScheduler {
        CeremonyScheduler {
            voice_durations: self.voice_durations,
            bell_duration: self.bell_duration,
            last_reminded_date: if self.spec_reminder(s, obs) is Some {
                Some(obs.today)
            } else {
                self.last_reminded_date
            },
        }
    }

    /// A scheduler from the measured lengths of the bell and of each voice's
    /// announcement (in `voice_index` order); a sound whose length could not be
    /// measured counts as zero seconds.
    pub fn new(bell_duration: Option<u64>, voice_durations: Vec<Option<u64>>) -> (r: CeremonyScheduler)
        requires
            voice_durations@.len() == VOICE_COUNT,
        ensures
            r.wf(),
            r.bell_duration == (match bell_duration {
                Some(d) => d,
                None => 0,
            }),
            forall|i: int|
                0 <= i < VOICE_COUNT ==> r.voice_durations@[i] == (match #[trigger] voice_durations@[i] {
                    Some(d) => d,
                    None => 0,
                }),
            r.last_reminded_date is None,
    {
        let mut table: Vec<u64> = Vec::new();
        let mut i: usize = 0;
        while i < VOICE_COUNT
            invariant
                i <= VOICE_COUNT,
                voice_durations@.len() == VOICE_COUNT,
                table@.len() == i,
                forall|j: int|
                    0 <= j < i ==> table@[j] == (match #[trigger] voice_durations@[j] {
                        Some(d) => d,
                        None => 0,
                    }),
            decreases VOICE_COUNT - i,
        {
            let d = match voice_durations[i] {
                Some(d) => d,
                None => 0,
            };
            table.push(d);
            i = i + 1;
        }
        let bell = match bell_duration {
            Some(d) => d,
            None => 0,
        };
        CeremonyScheduler { voice_durations: table, bell_duration: bell, last_reminded_date: None }
    }

    /// The length of the default voice's announcement.
    pub fn get_default_duration(&self) -> (r: u64)
        requires
            self.wf(),
        ensures
            r == self.spec_voice_duration(AnnouncementVoice::BohdanHdal),
    {
        self.voice_durations[0]
    }

    /// The length of a voice's announcement.
    pub fn voice_duration(&self, voice: AnnouncementVoice) -> (r: u64)
        requires
            self.wf(),
        ensures
            r == self.spec_voice_duration(voice),
    {
        self.voice_durations[voice_index(voice)]
    }

    /// `now` is at or after `target`, by at most `grace_minutes` minutes counted in whole seconds.
    pub fn is_within_window(now: &TimeOfDay, target: &TimeOfDay, grace_minutes: u8) -> (r: bool)
        requires
            now.wf(),
            target.wf(),
        ensures
            r == spec_within_window(*now, *target, grace_minutes),
    {
        if now.is_before(target) {
            return false;
        }
        let elapsed_secs = now.whole_seconds_since(target);
        elapsed_secs <= (grace_minutes as i64) * 60
    }

    /// Whether the clock should be resynchronised: at the top of every hour of
    /// the unsynchronised local clock.
    pub fn should_sync_ntp(local_now: &TimeOfDay) -> (r: bool)
        requires
            local_now.wf(),
        ensures
            r == (local_now.spec_minute() == 0 && local_now.spec_second() == 0),
    {
        local_now.minute() == 0 && local_now.second() == 0
    }

    /// Whether to send the reminder now, and with how many minutes of notice.
    pub fn reminder_due(&self, s: &ScheduleSettings, obs: &Observation) -> (r: Option<u8>)
        requires
            obs.now.wf(),
        ensures
            r == self.spec_reminder(*s, *obs),
    {
        let today = obs.today;
        let mins = s.reminder_minutes_before;
        if !s.reminder_enabled || !s.ceremony_enabled || (s.weekdays_only && today.is_weekend())
            || s.skip_date == Some(today) || obs.last_activation == Some(today)
            || self.last_reminded_date == Some(today) {
            None
        } else {
            let ceremony_time = TimeOfDay::ceremony();
            let remind_at = if mins == 0 {
                ceremony_time
            } else {
                ceremony_time.minus_seconds((mins as i64) * 60)
            };
            let fire = obs.now.hour() == remind_at.hour() && obs.now.minute() == remind_at.minute()
                && obs.now.second() == 0;
            proof {
                assert(remind_at.secs == remind_secs(mins)) by {
                    vstd::arithmetic::div_mod::lemma_small_mod(
                        (CEREMONY_SECS - mins * 60) as nat,
                        SECS_PER_DAY as nat,
                    );
                }
                assert(remind_at.spec_second() == 0) by {
                    lemma_secs_mod_60(mins as int);
                }
                lemma_hms_determine_secs(obs.now.secs as int, remind_at.secs as int);
            }
            if fire {
                Some(mins)
            } else {
                None
            }
        }
    }

    /// Whether to start the ceremony now.
    pub fn should_trigger(&self, s: &ScheduleSettings, obs: &Observation) -> (r: bool)
        requires
            self.wf(),
            obs.now.wf(),
            self.lead_in_range(*s, *obs),
        ensures
            r == self.spec_trigger(*s, *obs),
    {
        let today = obs.today;
        if !s.ceremony_enabled || (s.weekdays_only && today.is_weekend()) {
            false
        } else if !obs.ceremony_active {
            let grace_minutes = s.late_start_grace_minutes;
            let ceremony_time = TimeOfDay::ceremony();
            if obs.last_activation == Some(today) || s.skip_date == Some(today) {
                false
            } else {
                let voice_duration = self.voice_duration(s.announcement_voice);
                let compensation = get_compensation_duration(
                    s.preset,
                    voice_duration,
                    self.bell_duration,
                );
                let lead = compensation as i64;
                let window_start = ceremony_time.minus_seconds(lead);
                let in_compensation_window = !obs.now.is_before(&window_start)
                    && obs.now.is_before(&ceremony_time);
                let in_grace_window = Self::is_within_window(&obs.now, &ceremony_time, grace_minutes);
                in_compensation_window || in_grace_window
            }
        } else {
            false
        }
    }

    /// One tick of the scheduler loop: decide the reminder, then the trigger,
    /// and remember the date of a reminder sent.
    pub fn tick(&mut self, s: &ScheduleSettings, obs: &Observation) -> (r: TickActions)
        requires
            old(self).wf(),
            obs.now.wf(),
            old(self).lead_in_range(*s, *obs),
        ensures
            r.reminder == old(self).spec_reminder(*s, *obs),
            r.trigger == old(self).spec_trigger(*s, *obs),
            *final(self) == old(self).spec_after_tick(*s, *obs),
            final(self).wf(),
    {
        let reminder = self.reminder_due(s, obs);
        if reminder.is_some() {
            self.last_reminded_date = Some(obs.today);
        }
        let trigger = self.should_trigger(s, obs);
        TickActions { reminder, trigger }
    }
}

/// Once a ceremony has started on a day, the scheduler neither starts another
/// one nor sends the reminder on that day.
pub proof fn lemma_no_second_ceremony_same_day(
    sched: CeremonyScheduler,
    s: ScheduleSettings,
    obs: Observation,
)
    requires
        obs.last_activation == Some(obs.today),
    ensures
        !sched.spec_trigger(s, obs),
        sched.spec_reminder(s, obs) is None,
{
}

/// While a ceremony is running, no other ceremony is started.
pub proof fn lemma_active_ceremony_not_restarted(
    sched: CeremonyScheduler,
    s: ScheduleSettings,
    obs: Observation,
)
    requires
        obs.ceremony_active,
    ensures
        !sched.spec_trigger(s, obs),
{
}

/// The reminder is sent when it is due: with the reminder and the ceremony
/// enabled, on a day that is not skipped, not a weekend day under the
/// weekdays-only setting, with no ceremony started and no reminder sent yet
/// that day, at the whole second that lies the chosen number of minutes
/// before 09:00, the reminder goes out with that number of minutes.
pub proof fn lemma_reminder_due_is_sent(sched: CeremonyScheduler, s: ScheduleSettings, obs: Observation)
    requires
        s.reminder_enabled,
        s.ceremony_enabled,
        !(s.weekdays_only && weekday_number(obs.today) > 5),
        s.skip_date != Some(obs.today),
        obs.last_activation != Some(obs.today),
        sched.last_reminded_date != Some(obs.today),
        obs.now.secs == 9 * 3600 - s.reminder_minutes_before * 60,
    ensures
        sched.spec_reminder(s, obs) == Some(s.reminder_minutes_before),
{
}

/// The reminder is sent at most once per day: after a tick that sends it, no
/// later tick on the same date sends it again, whatever the settings then are.
pub proof fn lemma_reminder_once_per_day(
    sched: CeremonyScheduler,
    s1: ScheduleSettings,
    obs1: Observation,
    s2: ScheduleSettings,
    obs2: Observation,
)
    requires
        sched.spec_reminder(s1, obs1) is Some,
        obs2.today == obs1.today,
    ensures
        sched.spec_after_tick(s1, obs1).spec_reminder(s2, obs2) is None,
{
}

/// The reminder comes exactly `reminder_minutes_before` minutes before 09:00
/// (at 09:00 itself for zero minutes), telling that many minutes.
pub proof fn lemma_reminder_timing(sched: CeremonyScheduler, s: ScheduleSettings, obs: Observation)
    requires
        sched.spec_reminder(s, obs) is Some,
    ensures
        obs.now.secs == CEREMONY_SECS - s.reminder_minutes_before * 60,
        sched.spec_reminder(s, obs) == Some(s.reminder_minutes_before),
{
}

/// On the skipped date there is neither a reminder nor a ceremony.
pub proof fn lemma_skipped_day_is_quiet(sched: CeremonyScheduler, s: ScheduleSettings, obs: Observation)
    requires
        s.skip_date == Some(obs.today),
    ensures
        !sched.spec_trigger(s, obs),
        sched.spec_reminder(s, obs) is None,
{
}

/// With "weekdays only" set, Saturdays and Sundays have neither a reminder nor a ceremony.
pub proof fn lemma_weekend_is_quiet(sched: CeremonyScheduler, s: ScheduleSettings, obs: Observation)
    requires
        s.weekdays_only,
        weekday_number(obs.today) > 5,
    ensures
        !sched.spec_trigger(s, obs),
        sched.spec_reminder(s, obs) is None,
{
}

/// With the ceremony disabled there is neither a reminder nor a ceremony.
pub proof fn lemma_disabled_is_quiet(sched: CeremonyScheduler, s: ScheduleSettings, obs: Observation)
    requires
        !s.ceremony_enabled,
    ensures
        !sched.spec_trigger(s, obs),
        sched.spec_reminder(s, obs) is None,
{
}

/// A late start still holds the ceremony: from 09:00 until the grace window of
/// `late_start_grace_minutes` minutes has passed, an eligible tick starts it.
pub proof fn lemma_late_start_triggers(sched: CeremonyScheduler, s: ScheduleSettings, obs: Observation)
    requires
        obs.now.wf(),
        sched.reaches_window_check(s, obs),
        CEREMONY_SECS <= obs.now.secs <= CEREMONY_SECS + s.late_start_grace_minutes * 60,
    ensures
        sched.spec_trigger(s, obs),
{
}

/// The ceremony starts early by exactly the length of its opening sound, so
/// that the announcement ends at 09:00: every eligible tick in
/// `[09:00 - lead, 09:00)` starts it.
pub proof fn lemma_opening_sound_ends_at_nine(
    sched: CeremonyScheduler,
    s: ScheduleSettings,
    obs: Observation,
)
    requires
        obs.now.wf(),
        sched.reaches_window_check(s, obs),
        sched.spec_lead(s) <= CEREMONY_SECS,
        CEREMONY_SECS - sched.spec_lead(s) <= obs.now.secs < CEREMONY_SECS,
    ensures
        sched.spec_trigger(s, obs),
{
    let lead = sched.spec_lead(s) as i64;
    assert(lead == sched.spec_lead(s));
    vstd::arithmetic::div_mod::lemma_small_mod((CEREMONY_SECS - lead) as nat, SECS_PER_DAY as nat);
}

/// The ceremony only starts near 09:00: no earlier than the opening sound's
/// length before it, and no later than the grace window after it.
pub proof fn lemma_trigger_only_near_nine(sched: CeremonyScheduler, s: ScheduleSettings, obs: Observation)
    requires
        obs.now.wf(),
        sched.spec_lead(s) <= CEREMONY_SECS,
        sched.spec_trigger(s, obs),
    ensures
        CEREMONY_SECS - sched.spec_lead(s) <= obs.now.secs <= CEREMONY_SECS
            + s.late_start_grace_minutes * 60,
{
    let lead = sched.spec_lead(s) as i64;
    assert(lead == sched.spec_lead(s));
    vstd::arithmetic::div_mod::lemma_small_mod((CEREMONY_SECS - lead) as nat, SECS_PER_DAY as nat);
}

/// A longer grace window never cancels a start that a shorter one allows.
pub proof fn lemma_grace_window_monotone(
    sched: CeremonyScheduler,
    s: ScheduleSettings,
    obs: Observation,
    longer_grace: u8,
)
    requires
        s.late_start_grace_minutes <= longer_grace,
        sched.spec_trigger(s, obs),
    ensures
        sched.spec_trigger(ScheduleSettings { late_start_grace_minutes: longer_grace, ..s }, obs),
{
}

/// The text of the reminder notification.
#[derive(Clone, Copy, Debug, PartialEq, Eq, Structural)]
pub enum ReminderText {
    /// The ceremony starts now.
    StartsNow,
    /// The ceremony starts in this many minutes.
    StartsIn(u8),
}

/// The reminder's text for a reminder sent `minutes_before` the ceremony.
pub fn reminder_text(minutes_before: u8) -> (r: ReminderText)
    ensures
        r == (if minutes_before == 0 {
            ReminderText::StartsNow
        } else {
            ReminderText::StartsIn(minutes_before)
        }),
{
    if minutes_before == 0 {
        ReminderText::StartsNow
    } else {
        ReminderText::StartsIn(minutes_before)
    }
}

/// A multiple of 60 seconds has no seconds within its minute.
proof fn lemma_secs_mod_60(m: int)
    requires
        0 <= m <= 255,
    ensures
        (CEREMONY_SECS - m * 60) % 60 == 0,
{
    vstd::arithmetic::div_mod::lemma_mod_multiples_vanish(540 - m, 0, 60);
    assert(60 * (540 - m) + 0 == CEREMONY_SECS - m * 60);
}

/// Two times of day with equal hour, minute and second have equal seconds after midnight.
proof fn lemma_hms_determine_secs(a: int, b: int)
    requires
        0 <= a,
        0 <= b,
    ensures
        (a / 3600 == b / 3600 && (a % 3600) / 60 == (b % 3600) / 60 && a % 60 == b % 60)
            <==> a == b,
{
    lemma_hms_decompose(a);
    lemma_hms_decompose(b);
}

proof fn lemma_hms_decompose(a: int)
    requires
        0 <= a,
    ensures
        a == 3600 * (a / 3600) + 60 * ((a % 3600) / 60) + a % 60,
{
    vstd::arithmetic::div_mod::lemma_fundamental_div_mod(a, 3600);
    vstd::arithmetic::div_mod::lemma_fundamental_div_mod(a % 3600, 60);
    assert((a % 3600) % 60 == a % 60) by {
        vstd::arithmetic::div_mod::lemma_mod_mod(a, 60, 60);
    }
}

} // verus!

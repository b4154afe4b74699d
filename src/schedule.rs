//! The daily reminder: when it is due, and that it goes out at most once a day.
use crate::date::{day_index, start_of_day, SECONDS_PER_DAY, SECONDS_PER_HOUR};
use vstd::prelude::*;

verus! {

/// Instants far enough from the ends of `i64` that a day can be added or taken.
pub open spec fn instant_in_range(t: int) -> bool {
    i64::MIN + 2 * SECONDS_PER_DAY <= t <= i64::MAX - 2 * SECONDS_PER_DAY
}

/// Whether instant `t` lies far enough from the ends of `i64` for the schedule.
pub fn is_instant_in_range(t: i64) -> (r: bool)
    ensures
        r == instant_in_range(t as int),
{
    i64::MIN + 2 * SECONDS_PER_DAY <= t && t <= i64::MAX - 2 * SECONDS_PER_DAY
}

/// When the next reminder is due, and on which UTC day one last went out.
#[derive(Clone, Copy, Debug, PartialEq, Eq, Structural)]
pub struct ReminderSchedule {
    /// The instant from which the next reminder is due.
    pub next_fire: i64,
    /// Index of the UTC day on which the reminder was last sent (or counted
    /// as sent), if any.
    pub last_fired_day: Option<i64>,
}

impl ReminderSchedule {
    /// Well-formed: a day can still be added to the next reminder instant.
    pub open spec fn wf(self) -> bool {
        i64::MIN <= self.next_fire <= i64::MAX - SECONDS_PER_DAY
    }

    /// Whether the reminder already went out on the UTC day holding `now`.
    pub open spec fn fired_on_day_of(self, now: int) -> bool {
        self.last_fired_day == Some(day_index(now) as i64)
    }

    /// The first reminder instant of the UTC day holding `now`.
    pub open spec fn first_fire(now: int, hour: int) -> int {
        start_of_day(now) + hour * SECONDS_PER_HOUR
    }

    /// The schedule set up at `now`: today's reminder hour if still ahead,
    /// else today counts as reminded and tomorrow's reminder hour is next.
    pub open spec fn initial(now: int, hour: int) -> ReminderSchedule {
        let at = Self::first_fire(now, hour);
        if now < at {
            ReminderSchedule { next_fire: at as i64, last_fired_day: None }
        } else {
            ReminderSchedule {
                next_fire: (at + SECONDS_PER_DAY) as i64,
                last_fired_day: Some(day_index(now) as i64),
            }
        }
    }

    /// Whether a tick at `now` sends the reminder.
    pub open spec fn due(self, now: int) -> bool {
        !self.fired_on_day_of(now) && now >= self.next_fire
    }

    /// The schedule after a tick at `now`, and whether that tick sent the reminder.
    pub open spec fn step(self, now: int) -> (ReminderSchedule, bool) {
        if self.due(now) {
            (
                ReminderSchedule {
                    next_fire: (self.next_fire + SECONDS_PER_DAY) as i64,
                    last_fired_day: Some(day_index(now) as i64),
                },
                true,
            )
        } else {
            (self, false)
        }
    }

    /// Sets up the schedule at start-up, at instant `now`, for reminders at
    /// `hour` o'clock UTC.
    pub fn new(now: i64, hour: i64) -> (r: ReminderSchedule)
        requires
            0 <= hour <= 23,
            instant_in_range(now as int),
        ensures
            r == Self::initial(now as int, hour as int),
            r.wf(),
    {
        let rem = now.checked_rem_euclid(SECONDS_PER_DAY).unwrap();
        let today = now - rem;
        let at = today + hour * SECONDS_PER_HOUR;
        if now < at {
            ReminderSchedule { next_fire: at, last_fired_day: None }
        } else {
            let day = now.checked_div_euclid(SECONDS_PER_DAY).unwrap();
            ReminderSchedule { next_fire: at + SECONDS_PER_DAY, last_fired_day: Some(day) }
        }
    }

    /// Whether the reminder went out already on the UTC day holding `now`.
    pub fn fired_today(&self, now: i64) -> (r: bool)
        ensures
            r == self.fired_on_day_of(now as int),
    {
        let day = now.checked_div_euclid(SECONDS_PER_DAY).unwrap();
        match self.last_fired_day {
            Some(d) => d == day,
            None => false,
        }
    }

    /// One tick of the control loop at instant `now`: returns whether the
    /// reminder is to be sent now. When it is, the next one is due exactly one
    /// day after the one just sent, and today counts as reminded.
    pub fn tick(&mut self, now: i64) -> (fire: bool)
        requires
            old(self).wf(),
            instant_in_range(now as int),
        ensures
            (*final(self), fire) == old(self).step(now as int),
            fire == old(self).due(now as int),
            fire ==> final(self).next_fire == old(self).next_fire + SECONDS_PER_DAY,
            final(self).wf(),
    {
        if !self.fired_today(now) && now >= self.next_fire {
            let day = now.checked_div_euclid(SECONDS_PER_DAY).unwrap();
            self.next_fire = self.next_fire + SECONDS_PER_DAY;
            self.last_fired_day = Some(day);
            true
        } else {
            false
        }
    }
}

/// Runs the schedule through ticks at the instants `times`, in order: the
/// schedule after them and how many reminders they sent.
pub open spec fn run(s: ReminderSchedule, times: Seq<int>) -> (ReminderSchedule, nat)
    decreases times.len(),
{
    if times.len() == 0 {
        (s, 0)
    } else {
        let (s1, fired) = s.step(times[0]);
        let (s2, n) = run(s1, times.drop_first());
        (s2, if fired { n + 1 } else { n })
    }
}

/// The reminder goes out at most once per UTC day: however many ticks fall on
/// one UTC day, in order of time, at most one of them sends it.
pub proof fn lemma_at_most_once_per_day(s: ReminderSchedule, times: Seq<int>)
    requires
        forall|i: int| 0 <= i < times.len() ==> instant_in_range(#[trigger] times[i]),
        forall|i: int, j: int|
            0 <= i < j < times.len() ==> day_index(#[trigger] times[i]) == day_index(
                #[trigger] times[j],
            ),
    ensures
        run(s, times).1 <= 1,
    decreases times.len(),
{
    if times.len() > 0 {
        let (s1, fired) = s.step(times[0]);
        let rest = times.drop_first();
        assert forall|i: int| 0 <= i < rest.len() implies instant_in_range(#[trigger] rest[i]) by {
            assert(rest[i] == times[i + 1]);
        }
        assert forall|i: int, j: int| 0 <= i < j < rest.len() implies day_index(
            #[trigger] rest[i],
        ) == day_index(#[trigger] rest[j]) by {
            assert(rest[i] == times[i + 1]);
            assert(rest[j] == times[j + 1]);
        }
        lemma_at_most_once_per_day(s1, rest);
        if fired {
            lemma_no_fire_after_firing_today(s1, rest, day_index(times[0]));
        }
    }
}

/// A reminder goes out only once its instant has come, and the next one no
/// sooner than exactly one day after that instant and on another UTC day:
/// a tick at `n1` that sends the reminder due at `T` moves the schedule to
/// `T` plus one day, and a later tick at `n2` sends again only if `n2` has
/// reached that instant and falls on another UTC day than `n1`.
pub proof fn lemma_next_reminder_a_day_later(s: ReminderSchedule, n1: int, n2: int)
    requires
        s.wf(),
        instant_in_range(n1),
        instant_in_range(n2),
        n1 <= n2,
        s.step(n1).1,
    ensures
        n1 >= s.next_fire,
        s.step(n1).0.next_fire == s.next_fire + SECONDS_PER_DAY,
        s.step(n1).0.step(n2).1 ==> n2 >= s.next_fire + SECONDS_PER_DAY && day_index(n2)
            != day_index(n1),
{
}

/// Once the reminder has gone out on a day, no tick on that day sends it again.
proof fn lemma_no_fire_after_firing_today(s: ReminderSchedule, times: Seq<int>, day: int)
    requires
        s.last_fired_day == Some(day as i64),
        forall|i: int| 0 <= i < times.len() ==> instant_in_range(#[trigger] times[i]),
        forall|i: int| 0 <= i < times.len() ==> day_index(#[trigger] times[i]) == day,
    ensures
        run(s, times).1 == 0,
    decreases times.len(),
{
    if times.len() > 0 {
        let rest = times.drop_first();
        assert(!s.due(times[0]));
        assert forall|i: int| 0 <= i < rest.len() implies day_index(#[trigger] rest[i]) == day by {
            assert(rest[i] == times[i + 1]);
        }
        assert forall|i: int| 0 <= i < rest.len() implies instant_in_range(#[trigger] rest[i]) by {
            assert(rest[i] == times[i + 1]);
        }
        lemma_no_fire_after_firing_today(s, rest, day);
    }
}

} // verus!

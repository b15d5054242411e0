//! The elapsed-time normalizer: one pass over the parsed entries, turning
//! each wall-clock reading into the duration elapsed since the first
//! entry, with a day added whenever the clock reading decreases between
//! consecutive entries.

use vstd::prelude::*;
use crate::clock::TimeOfDay;
use crate::line::ElapsedEntry;
use crate::line::TimestampedEntry;

verus! {

/// Every reading lies on the clock: at least zero, below one day.
pub open spec fn valid_times(times: Seq<int>) -> bool {
    forall|i: int| 0 <= i < times.len() ==> 0 <= #[trigger] times[i] < 86400
}

/// The day counter after entry `i` has been processed: one day is added
/// for every strict decrease between consecutive readings up to `i`,
/// never more, never retroactively.
pub open spec fn days_after(times: Seq<int>, i: int) -> int
    decreases i,
{
    if i <= 0 {
        0
    } else {
        days_after(times, i - 1) + if times[i] < times[i - 1] {
            1int
        } else {
            0int
        }
    }
}

/// The elapsed duration emitted for entry `i`: whole days plus the
/// time-of-day difference from the first reading.
pub open spec fn duration_at(times: Seq<int>, i: int) -> int {
    days_after(times, i) * 86400 + times[i] - times[0]
}

/// The clock readings of a sequence of entries, in seconds since
/// midnight.
pub open spec fn times_of(entries: Seq<TimestampedEntry>) -> Seq<int> {
    Seq::new(entries.len(), |i: int| entries[i].time.spec_seconds())
}

/// The scan state of one normalization pass: the first reading, the
/// reading of the entry immediately prior to the one being processed, and
/// the day counter. Created fresh per pass, mutated once per entry.
pub struct NormalizerState {
    pub first_time: Option<TimeOfDay>,
    pub previous_time: Option<TimeOfDay>,
    pub days_elapsed: u32,
}

impl NormalizerState {
    /// Well-formed state: the two readings are set together, each is a
    /// valid clock reading, and the elapsed duration of the previous
    /// entry is non-negative (the day compensation has kept up with
    /// every rollover seen so far).
    pub open spec fn wf(self) -> bool {
        &&& self.first_time is Some <==> self.previous_time is Some
        &&& (self.first_time matches Some(f) ==> f.wf())
        &&& (self.previous_time matches Some(p) ==> p.wf())
        &&& (self.first_time is Some ==> self.days_elapsed * 86400
            + self.previous_time->Some_0.spec_seconds() - self.first_time->Some_0.spec_seconds()
            >= 0)
    }

    /// The state at the start of a pass: no entry seen, no day elapsed.
    pub fn new() -> (s: Self)
        ensures
            s.first_time is None,
            s.previous_time is None,
            s.days_elapsed == 0,
            s.wf(),
    {
        NormalizerState { first_time: None, previous_time: None, days_elapsed: 0 }
    }

    /// Process one entry. The first entry fixes `first_time` and is
    /// emitted with duration zero; every later entry adds a day to the
    /// counter exactly when its reading is strictly below the previous
    /// one, and is emitted with duration `days_elapsed` full days plus
    /// the time-of-day difference from the first reading. The payload is
    /// passed through unchanged.
    pub fn step(&mut self, entry: TimestampedEntry) -> (r: ElapsedEntry)
        requires
            old(self).wf(),
            entry.time.wf(),
            old(self).days_elapsed < 0xFFFF_FFFFu32,
        ensures
            final(self).wf(),
            r.transcription@ == entry.transcription@,
            final(self).previous_time == Some(entry.time),
            old(self).first_time is None ==> {
                &&& final(self).first_time == Some(entry.time)
                &&& final(self).days_elapsed == old(self).days_elapsed
                &&& r.seconds == 0
            },
            old(self).first_time is Some ==> {
                &&& final(self).first_time == old(self).first_time
                &&& final(self).days_elapsed == old(self).days_elapsed + (
                if entry.time.spec_seconds() < old(self).previous_time->Some_0.spec_seconds() {
                    1int
                } else {
                    0int
                })
                &&& r.seconds == final(self).days_elapsed * 86400 + entry.time.spec_seconds()
                    - old(self).first_time->Some_0.spec_seconds()
            },
    {
        match self.first_time {
            None => {
                self.first_time = Some(entry.time);
                self.previous_time = Some(entry.time);
                ElapsedEntry { seconds: 0, transcription: entry.transcription }
            },
            Some(first) => {
                let prev = self.previous_time.unwrap();
                let entry_secs = entry.time.seconds_since_midnight();
                let prev_secs = prev.seconds_since_midnight();
                if entry_secs < prev_secs {
                    self.days_elapsed = self.days_elapsed + 1;
                }
                let seconds = time_elapsed(first, self.days_elapsed, entry.time);
                self.previous_time = Some(entry.time);
                ElapsedEntry { seconds, transcription: entry.transcription }
            },
        }
    }
}

/// The elapsed duration, in whole seconds: `days_elapsed` full days plus
/// the difference between the current and the first clock reading. The
/// day compensation must already make the result non-negative.
pub fn time_elapsed(first_time: TimeOfDay, days_elapsed: u32, current_time: TimeOfDay) -> (r: u64)
    requires
        first_time.wf(),
        current_time.wf(),
        days_elapsed * 86400 + current_time.spec_seconds() - first_time.spec_seconds() >= 0,
    ensures
        r == days_elapsed * 86400 + current_time.spec_seconds() - first_time.spec_seconds(),
{
    let days: u64 = days_elapsed as u64 * 86400;
    let current: u64 = current_time.seconds_since_midnight() as u64;
    let first: u64 = first_time.seconds_since_midnight() as u64;
    days + current - first
}

/// Normalize a whole pass: each entry's reading becomes the elapsed
/// duration since the first entry, payloads unchanged. The first emitted
/// duration is exactly zero.
pub fn normalize(entries: Vec<TimestampedEntry>) -> (r: Vec<ElapsedEntry>)
    requires
        forall|i: int| 0 <= i < entries@.len() ==> (#[trigger] entries@[i]).time.wf(),
        entries@.len() <= 0xFFFF_FFFF,
    ensures
        r@.len() == entries@.len(),
        forall|i: int|
            0 <= i < r@.len() ==> (#[trigger] r@[i]).seconds == duration_at(times_of(entries@), i),
        forall|i: int|
            0 <= i < r@.len() ==> (#[trigger] r@[i]).transcription@ == entries@[i].transcription@,
        entries@.len() > 0 ==> r@[0].seconds == 0,
        forall|i: int, j: int|
            0 <= i <= j < r@.len() ==> (#[trigger] r@[i]).seconds <= (#[trigger] r@[j]).seconds,
{
    let ghost times = times_of(entries@);
    let mut out: Vec<ElapsedEntry> = Vec::new();
    let mut state = NormalizerState::new();
    let n = entries.len();
    let mut i: usize = 0;
    while i < n
        invariant
            n == entries@.len(),
            n <= 0xFFFF_FFFF,
            times == times_of(entries@),
            forall|k: int| 0 <= k < n ==> (#[trigger] entries@[k]).time.wf(),
            i <= n,
            out@.len() == i,
            state.wf(),
            i == 0 ==> state.first_time is None && state.days_elapsed == 0,
            i >= 1 ==> state.first_time == Some(entries@[0].time),
            i >= 1 ==> state.previous_time == Some(entries@[i - 1].time),
            i >= 1 ==> state.days_elapsed == days_after(times, i - 1),
            i >= 1 ==> state.days_elapsed <= i - 1,
            forall|k: int| 0 <= k < i ==> (#[trigger] out@[k]).seconds == duration_at(times, k),
            forall|k: int|
                0 <= k < i ==> (#[trigger] out@[k]).transcription@ == entries@[k].transcription@,
        decreases n - i,
    {
        let time = entries[i].time;
        let text = entries[i].transcription.clone();
        let emitted = state.step(TimestampedEntry { time, transcription: text });
        proof {
            assert(times[i as int] == entries@[i as int].time.spec_seconds());
            if i >= 1 {
                assert(times[i as int - 1] == entries@[i as int - 1].time.spec_seconds());
                assert(days_after(times, i as int) == days_after(times, i as int - 1) + (
                if times[i as int] < times[i as int - 1] {
                    1int
                } else {
                    0int
                }));
            }
        }
        out.push(emitted);
        i = i + 1;
    }
    proof {
        assert(valid_times(times)) by {
            assert forall|k: int| 0 <= k < times.len() implies 0 <= #[trigger] times[k]
                < 86400 by {
                assert(entries@[k].time.wf());
            }
        }
        assert forall|a: int, b: int|
            0 <= a <= b < out@.len() implies (#[trigger] out@[a]).seconds
            <= (#[trigger] out@[b]).seconds by {
            lemma_durations_monotonic(times, a, b);
        }
    }
    out
}

/// For every sequence of readings, the duration emitted for the first
/// entry is exactly zero.
pub proof fn lemma_first_duration_zero(times: Seq<int>)
    ensures
        duration_at(times, 0) == 0,
{
}

/// The day counter grows by one exactly when the reading strictly
/// decreases between consecutive entries — never more, never
/// retroactively — and it never decreases across the pass.
pub proof fn lemma_days_step(times: Seq<int>, i: int)
    requires
        1 <= i,
    ensures
        days_after(times, i) == days_after(times, i - 1) + (if times[i] < times[i - 1] {
            1int
        } else {
            0int
        }),
        days_after(times, i) >= days_after(times, i - 1),
{
}

/// The day counter is monotonically non-decreasing across the pass.
pub proof fn lemma_days_monotonic(times: Seq<int>, i: int, j: int)
    requires
        0 <= i <= j,
    ensures
        days_after(times, i) <= days_after(times, j),
    decreases j - i,
{
    if i < j {
        lemma_days_monotonic(times, i, j - 1);
    }
}

/// Emitted durations are monotonically non-decreasing in value. This
/// holds of the computed durations before display formatting; the
/// rendered string may appear to reset, since display wraps modulo 24
/// hours.
pub proof fn lemma_durations_monotonic(times: Seq<int>, i: int, j: int)
    requires
        valid_times(times),
        0 <= i <= j < times.len(),
    ensures
        duration_at(times, i) <= duration_at(times, j),
    decreases j - i,
{
    if i < j {
        lemma_durations_monotonic(times, i, j - 1);
        if times[j] < times[j - 1] {
            assert(days_after(times, j) == days_after(times, j - 1) + 1);
        } else {
            assert(days_after(times, j) == days_after(times, j - 1));
        }
    }
}

/// Every emitted duration is non-negative: the day compensation makes
/// the result non-negative for any valid input sequence.
pub proof fn lemma_duration_nonneg(times: Seq<int>, i: int)
    requires
        valid_times(times),
        0 <= i < times.len(),
    ensures
        duration_at(times, i) >= 0,
{
    lemma_first_duration_zero(times);
    lemma_durations_monotonic(times, 0, i);
}

} // verus!

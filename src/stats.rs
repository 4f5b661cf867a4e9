//! Usage statistics: totals, a streak of consecutive days, and per-day
//! figures for the last 30 days. A day is its number counted from the
//! common era; audio time is in milliseconds.

use vstd::prelude::*;
use chrono::Datelike;

verus! {

/// Errors of the statistics store.
pub enum StatsError {
    IoError(String),
    SerdeError(String),
}

#[derive(Clone, Copy)]
pub struct DailyStats {
    pub day: i32,
    pub transcriptions: u64,
    pub words: u64,
    pub audio_ms: u64,
}

pub struct LocalStats {
    pub total_transcriptions: u64,
    pub total_words: u64,
    pub total_audio_ms: u64,
    pub streak_days: u32,
    pub last_used_day: Option<i32>,
    pub daily_history: Vec<DailyStats>,
}

/// Days of per-day figures kept.
pub const HISTORY_DAYS: usize = 30;

impl Default for LocalStats {
    fn default() -> (r: Self)
        ensures
            r.total_transcriptions == 0,
            r.total_words == 0,
            r.total_audio_ms == 0,
            r.streak_days == 0,
            r.last_used_day is None,
            r.daily_history@.len() == 0,
    {
        LocalStats {
            total_transcriptions: 0,
            total_words: 0,
            total_audio_ms: 0,
            streak_days: 0,
            last_used_day: None,
            daily_history: Vec::new(),
        }
    }
}

/// Relies on `chrono::Local::now`, `DateTime::date_naive` and
/// `Datelike::num_days_from_ce`: today's local day number; nothing is
/// promised of its value.
#[verifier::external_body]
fn today_day_number() -> (r: i32) {
    chrono::Local::now().date_naive().num_days_from_ce()
}

/// Whether `last` is the day before `today`.
pub fn is_yesterday(last: i32, today: i32) -> (r: bool)
    ensures
        r == (today - last == 1),
{
    (today as i64) - (last as i64) == 1
}

/// The streak after using the application on `today`: unchanged on the same
/// day, one more on the next day, otherwise a new streak of one.
pub open spec fn next_streak(last: Option<i32>, streak: u32, today: i32) -> int {
    match last {
        Some(l) => if l == today {
            streak as int
        } else if today - l == 1 {
            if streak == u32::MAX { streak as int } else { streak + 1 }
        } else {
            1
        },
        None => 1,
    }
}

/// `a + b`, saturating at `u64::MAX`.
pub open spec fn sat(a: u64, b: int) -> u64 {
    if a + b > u64::MAX {
        u64::MAX
    } else {
        (a + b) as u64
    }
}

/// Whether the days are in strictly decreasing order.
pub open spec fn newest_first(h: Seq<DailyStats>) -> bool {
    forall|i: int, j: int| 0 <= i < j < h.len() ==> h[i].day > h[j].day
}

/// Position of the entry for `day`, or -1.
pub open spec fn day_index(h: Seq<DailyStats>, day: i32) -> int
    decreases h.len(),
{
    if h.len() == 0 {
        -1
    } else if h.last().day == day {
        h.len() - 1
    } else {
        day_index(h.drop_last(), day)
    }
}

/// Index of the most recent day among `h[from..]`.
fn latest_from(h: &Vec<DailyStats>, from: usize) -> (r: usize)
    requires
        from < h@.len(),
    ensures
        from <= r < h@.len(),
        forall|k: int| from <= k < h@.len() ==> h@[k].day <= h@[r as int].day,
{
    let n = h.len();
    let mut best = from;
    let mut i = from + 1;
    while i < h.len()
        invariant
            from <= best < h@.len(),
            from < i <= h@.len(),
            forall|k: int| from <= k < i ==> h@[k].day <= h@[best as int].day,
        decreases h@.len() - i,
    {
        if h[i].day > h[best].day {
            best = i;
        }
        i = i + 1;
    }
    best
}

/// Keep the `HISTORY_DAYS` most recent days, newest first (days are
/// distinct).
fn keep_latest(h: &mut Vec<DailyStats>)
    requires
        forall|i: int, j: int| 0 <= i < j < old(h)@.len() ==> old(h)@[i].day != old(h)@[j].day,
    ensures
        final(h)@.len() == vstd::math::min(old(h)@.len() as int, HISTORY_DAYS as int),
        newest_first(final(h)@),
        forall|i: int| 0 <= i < final(h)@.len() ==> old(h)@.contains(#[trigger] final(h)@[i]),
{
    let n = h.len();
    let goal = if n < HISTORY_DAYS {
        n
    } else {
        HISTORY_DAYS
    };
    let ghost orig = h@;
    let mut k: usize = 0;
    while k < goal
        invariant
            n == h@.len(),
            n == orig.len(),
            goal <= n,
            k <= goal,
            h@.to_multiset() == orig.to_multiset(),
            forall|i: int, j: int| 0 <= i < j < n ==> h@[i].day != h@[j].day,
            forall|i: int, j: int| 0 <= i < j < k ==> h@[i].day > h@[j].day,
            forall|i: int, j: int| 0 <= i < k <= j < n ==> h@[i].day > h@[j].day,
        decreases goal - k,
    {
        let b = latest_from(h, k);
        let a = h[k];
        let c = h[b];
        let ghost before = h@;
        h[k] = c;
        h[b] = a;
        proof {
            assert(h@ =~= before.update(k as int, c).update(b as int, a));
            lemma_swap_multiset(before, k as int, b as int);
        }
        k = k + 1;
    }
    proof {
        assert forall|i: int| 0 <= i < goal implies orig.contains(#[trigger] h@[i]) by {
            h@.to_multiset_ensures();
            orig.to_multiset_ensures();
            assert(h@.to_multiset().count(h@[i]) > 0);
        }
    }
    h.truncate(goal);
}

proof fn lemma_swap_multiset(s: Seq<DailyStats>, a: int, b: int)
    requires
        0 <= a < s.len(),
        0 <= b < s.len(),
    ensures
        s.update(a, s[b]).update(b, s[a]).to_multiset() == s.to_multiset(),
{
    let t = s.update(a, s[b]);
    vstd::seq_lib::to_multiset_update(s, a, s[b]);
    vstd::seq_lib::to_multiset_update(t, b, s[a]);
    assert(t[b] == s[b]);
    s.to_multiset_ensures();
    assert(s.to_multiset().count(s[a]) > 0);
    assert(s.to_multiset().insert(s[b]).remove(s[a]).insert(s[a]).remove(s[b]) =~= s.to_multiset());
}


/// Days are distinct.
pub open spec fn distinct_days(h: Seq<DailyStats>) -> bool {
    forall|i: int, j: int| 0 <= i < j < h.len() ==> h[i].day != h[j].day
}

impl LocalStats {
    pub open spec fn wf(&self) -> bool {
        distinct_days(self.daily_history@)
    }
}

/// A day's figures with one more transcription.
pub open spec fn bumped(d: DailyStats, words: u32, ms: u32) -> DailyStats {
    DailyStats {
        day: d.day,
        transcriptions: sat(d.transcriptions, 1),
        words: sat(d.words, words as int),
        audio_ms: sat(d.audio_ms, ms as int),
    }
}

/// The per-day figures after a transcription on `today`, before trimming to
/// `HISTORY_DAYS`.
pub open spec fn history_after(h: Seq<DailyStats>, today: i32, words: u32, ms: u32) -> Seq<
    DailyStats,
> {
    if exists|i: int| 0 <= i < h.len() && h[i].day == today {
        let i = choose|i: int| 0 <= i < h.len() && h[i].day == today;
        h.update(i, bumped(h[i], words, ms))
    } else {
        h.push(
            DailyStats { day: today, transcriptions: 1, words: words as u64, audio_ms: ms as u64 },
        )
    }
}

/// Record a transcription made on `today`.
pub fn record_on_day(stats: &mut LocalStats, today: i32, word_count: u32, duration_ms: u32)
    requires
        old(stats).wf(),
    ensures
        final(stats).wf(),
        final(stats).total_transcriptions == sat(old(stats).total_transcriptions, 1),
        final(stats).total_words == sat(old(stats).total_words, word_count as int),
        final(stats).total_audio_ms == sat(old(stats).total_audio_ms, duration_ms as int),
        final(stats).streak_days == next_streak(
            old(stats).last_used_day,
            old(stats).streak_days,
            today,
        ),
        final(stats).last_used_day == Some(today),
        ({
            let u = history_after(old(stats).daily_history@, today, word_count, duration_ms);
            if u.len() <= HISTORY_DAYS {
                final(stats).daily_history@ == u
            } else {
                &&& final(stats).daily_history@.len() == HISTORY_DAYS
                &&& newest_first(final(stats).daily_history@)
                &&& forall|k: int|
                    0 <= k < HISTORY_DAYS ==> u.contains(#[trigger] final(stats).daily_history@[k])
            }
        }),
{
    stats.total_transcriptions = stats.total_transcriptions.saturating_add(1);
    stats.total_words = stats.total_words.saturating_add(word_count as u64);
    stats.total_audio_ms = stats.total_audio_ms.saturating_add(duration_ms as u64);
    stats.streak_days = match stats.last_used_day {
        Some(l) => {
            if l == today {
                stats.streak_days
            } else if is_yesterday(l, today) {
                stats.streak_days.saturating_add(1)
            } else {
                1
            }
        },
        None => 1,
    };
    stats.last_used_day = Some(today);
    let ghost h0 = stats.daily_history@;
    let mut i: usize = 0;
    while i < stats.daily_history.len()
        invariant
            stats.daily_history@ == h0,
            i <= h0.len(),
            forall|k: int| 0 <= k < i ==> h0[k].day != today,
        ensures
            stats.daily_history@ == h0,
            i <= h0.len(),
            i < h0.len() ==> h0[i as int].day == today,
            forall|k: int| 0 <= k < i ==> h0[k].day != today,
        decreases h0.len() - i,
    {
        if stats.daily_history[i].day == today {
            break;
        }
        i = i + 1;
    }
    if i < stats.daily_history.len() {
        let d = stats.daily_history[i];
        let nd = DailyStats {
            day: d.day,
            transcriptions: d.transcriptions.saturating_add(1),
            words: d.words.saturating_add(word_count as u64),
            audio_ms: d.audio_ms.saturating_add(duration_ms as u64),
        };
        stats.daily_history[i] = nd;
        proof {
            let c = choose|j: int| 0 <= j < h0.len() && h0[j].day == today;
            assert(h0[i as int].day == today);
            assert(c == i);
            assert(stats.daily_history@ =~= history_after(h0, today, word_count, duration_ms));
        }
    } else {
        stats.daily_history.push(
            DailyStats {
                day: today,
                transcriptions: 1,
                words: word_count as u64,
                audio_ms: duration_ms as u64,
            },
        );
    }
    let ghost u = stats.daily_history@;
    assert(u == history_after(h0, today, word_count, duration_ms));
    assert(distinct_days(u));
    if stats.daily_history.len() > HISTORY_DAYS {
        keep_latest(&mut stats.daily_history);
    }
}

/// Record a transcription made now.
pub fn record_transcription(stats: &mut LocalStats, word_count: u32, duration_ms: u32)
    requires
        old(stats).wf(),
    ensures
        final(stats).wf(),
        final(stats).total_transcriptions == sat(old(stats).total_transcriptions, 1),
        final(stats).total_words == sat(old(stats).total_words, word_count as int),
        final(stats).total_audio_ms == sat(old(stats).total_audio_ms, duration_ms as int),
        final(stats).last_used_day is Some,
{
    let today = today_day_number();
    record_on_day(stats, today, word_count, duration_ms);
}

/// The statistics as shown on `today`: a streak whose last day is neither
/// today nor yesterday reads as broken (zero).
pub fn get_stats(stats: &LocalStats, today: i32) -> (r: LocalStats)
    ensures
        r.total_transcriptions == stats.total_transcriptions,
        r.total_words == stats.total_words,
        r.total_audio_ms == stats.total_audio_ms,
        r.last_used_day == stats.last_used_day,
        r.daily_history@ == stats.daily_history@,
        r.streak_days == match stats.last_used_day {
            Some(l) => if l != today && today - l != 1 {
                0
            } else {
                stats.streak_days
            },
            None => stats.streak_days,
        },
{
    let streak = match stats.last_used_day {
        Some(l) => {
            if l != today && !is_yesterday(l, today) {
                0
            } else {
                stats.streak_days
            }
        },
        None => stats.streak_days,
    };
    let mut history: Vec<DailyStats> = Vec::new();
    let mut i: usize = 0;
    while i < stats.daily_history.len()
        invariant
            i <= stats.daily_history@.len(),
            history@ == stats.daily_history@.subrange(0, i as int),
        decreases stats.daily_history@.len() - i,
    {
        history.push(stats.daily_history[i]);
        assert(history@ =~= stats.daily_history@.subrange(0, i + 1));
        i = i + 1;
    }
    assert(stats.daily_history@.subrange(0, stats.daily_history@.len() as int) =~= stats.daily_history@);
    LocalStats {
        total_transcriptions: stats.total_transcriptions,
        total_words: stats.total_words,
        total_audio_ms: stats.total_audio_ms,
        streak_days: streak,
        last_used_day: stats.last_used_day,
        daily_history: history,
    }
}

} // verus!

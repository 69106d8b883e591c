//! The progress clock of the play bar: the messages it takes, what it
//! shows, how often it polls, and the `m:ss` rendering of durations.
use vstd::prelude::*;
use crate::text::{decimal, push_decimal, push_padded_decimal, string_from_chars, zero_pad};

verus! {

/// Messages to the progress clock.
#[derive(Clone, Copy, Debug, PartialEq, Eq, Structural)]
pub enum Timer {
    /// A track started: follow the player's clock.
    Start,
    /// Playback paused: stop following, keep the position.
    Pause,
    /// Playback stopped: stop following, back to the start.
    Stop,
    /// The slider was released at this position: move there and seek.
    SeekTo(u64),
    /// The slider is being dragged over this position: move there.
    SetTime(u64),
}

/// What the caller has to do with the player's clock after a message.
#[derive(Clone, Copy, Debug, PartialEq, Eq, Structural)]
pub enum ClockEffect {
    Nothing,
    /// Set the player's clock to this position.
    Sync(u64),
    /// Set the player's clock to this position and seek the sink there.
    SyncAndSeek(u64),
}

/// The state of the progress clock: whether it follows the player, the
/// position shown and the length of the track, in milliseconds.
#[derive(Clone, Copy, Debug, PartialEq, Eq, Structural)]
pub struct Clock {
    pub running: bool,
    pub position: u64,
    pub total: u64,
}

/// The clock after a message, and what the caller has to do.
pub open spec fn clock_step(c: Clock, msg: Timer) -> (Clock, ClockEffect) {
    match msg {
        Timer::Start => (Clock { running: true, ..c }, ClockEffect::Nothing),
        Timer::Pause => (Clock { running: false, ..c }, ClockEffect::Nothing),
        Timer::Stop => (Clock { running: false, position: 0, ..c }, ClockEffect::Nothing),
        Timer::SetTime(t) => (Clock { position: t, ..c }, ClockEffect::Sync(t)),
        Timer::SeekTo(t) => (Clock { position: t, ..c }, ClockEffect::SyncAndSeek(t)),
    }
}

/// `m:ss`: whole minutes, then the seconds within the minute on two digits.
pub open spec fn clock_text(ms: nat) -> Seq<char> {
    decimal(ms / 1000 / 60) + seq![':'] + zero_pad(decimal(ms / 1000 % 60), 2)
}

/// The sum of the whole minutes of each duration.
pub open spec fn minutes_sum(durations: Seq<u64>) -> nat
    decreases durations.len(),
{
    if durations.len() == 0 {
        0
    } else {
        minutes_sum(durations.drop_last()) + (durations.last() / 1000 / 60) as nat
    }
}

impl Clock {
    /// A stopped clock at zero, of a track of unknown length.
    pub fn new() -> (c: Clock)
        ensures
            c == (Clock { running: false, position: 0, total: 0 }),
    {
        Clock { running: false, position: 0, total: 0 }
    }

    /// Handles one message.
    pub fn handle(&mut self, msg: Timer) -> (effect: ClockEffect)
        ensures
            (*final(self), effect) == clock_step(*old(self), msg),
    {
        match msg {
            Timer::Start => {
                self.running = true;
                ClockEffect::Nothing
            },
            Timer::Pause => {
                self.running = false;
                ClockEffect::Nothing
            },
            Timer::Stop => {
                self.running = false;
                self.position = 0;
                ClockEffect::Nothing
            },
            Timer::SetTime(t) => {
                self.position = t;
                ClockEffect::Sync(t)
            },
            Timer::SeekTo(t) => {
                self.position = t;
                ClockEffect::SyncAndSeek(t)
            },
        }
    }

    /// One poll of the player's clock: while running, the shown position and
    /// length follow the player; otherwise nothing changes. Returns whether
    /// the clock followed.
    pub fn tick(&mut self, current: u64, total: u64) -> (followed: bool)
        ensures
            followed == old(self).running,
            *final(self) == (if old(self).running {
                Clock { running: true, position: current, total: total }
            } else {
                *old(self)
            }),
    {
        if self.running {
            self.total = total;
            self.position = current;
            true
        } else {
            false
        }
    }

    /// How long to wait before the next poll: a tenth of a second while
    /// running, half a second otherwise.
    pub fn poll_delay_millis(&self) -> (ms: u64)
        ensures
            ms == (if self.running {
                100u64
            } else {
                500u64
            }),
    {
        if self.running {
            100
        } else {
            500
        }
    }

    /// Whether the play bar shows the times: only once the track length is
    /// known.
    pub fn shows_times(&self) -> (r: bool)
        ensures
            r == (self.total != 0),
    {
        self.total != 0
    }
}

/// Renders a duration in milliseconds as `m:ss`.
pub fn format_clock(ms: u64) -> (s: String)
    ensures
        s@ == clock_text(ms as nat),
{
    let mut out: Vec<char> = Vec::new();
    push_decimal(ms / 1000 / 60, &mut out);
    out.push(':');
    push_padded_decimal(ms / 1000 % 60, 2, &mut out);
    assert(out@ =~= clock_text(ms as nat));
    string_from_chars(&out)
}

/// The total of the whole minutes of each song, as shown for an album.
pub fn album_minutes(durations: &Vec<u64>) -> (total: u64)
    requires
        minutes_sum(durations@) <= u64::MAX,
    ensures
        total == minutes_sum(durations@),
{
    let mut total: u64 = 0;
    let mut i: usize = 0;
    while i < durations.len()
        invariant
            i <= durations@.len(),
            total == minutes_sum(durations@.subrange(0, i as int)),
            minutes_sum(durations@) <= u64::MAX,
        decreases durations@.len() - i,
    {
        proof {
            let pre = durations@.subrange(0, i + 1);
            assert(pre.drop_last() =~= durations@.subrange(0, i as int));
            lemma_minutes_sum_prefix(durations@, i + 1);
        }
        total = total + durations[i] / 1000 / 60;
        i = i + 1;
    }
    assert(durations@.subrange(0, durations@.len() as int) =~= durations@);
    total
}

/// The sum over a prefix is at most the sum over the whole.
pub proof fn lemma_minutes_sum_prefix(s: Seq<u64>, k: int)
    requires
        0 <= k <= s.len(),
    ensures
        minutes_sum(s.subrange(0, k)) <= minutes_sum(s),
    decreases s.len(),
{
    if k < s.len() {
        assert(s.drop_last().subrange(0, k) =~= s.subrange(0, k));
        lemma_minutes_sum_prefix(s.drop_last(), k);
    } else {
        assert(s.subrange(0, k) =~= s);
    }
}

/// Whether the whole minutes of the songs add up within a `u64`, so that
/// `album_minutes` can run.
pub fn album_minutes_fit(durations: &Vec<u64>) -> (r: bool)
    ensures
        r == (minutes_sum(durations@) <= u64::MAX),
{
    let mut total: u64 = 0;
    let mut i: usize = 0;
    while i < durations.len()
        invariant
            i <= durations@.len(),
            total == minutes_sum(durations@.subrange(0, i as int)),
        decreases durations@.len() - i,
    {
        proof {
            assert(durations@.subrange(0, i + 1).drop_last() =~= durations@.subrange(0, i as int));
        }
        let m = durations[i] / 1000 / 60;
        if m > u64::MAX - total {
            proof {
                lemma_minutes_sum_prefix(durations@, i + 1);
            }
            return false;
        }
        total = total + m;
        i = i + 1;
    }
    assert(durations@.subrange(0, durations@.len() as int) =~= durations@);
    true
}

/// Whether a lyric line spanning `[start, end)` is the line sung at `now`.
pub fn is_current_line(start: u64, end: u64, now: u64) -> (r: bool)
    ensures
        r == (start <= now && now < end),
{
    start <= now && now < end
}

/// `Stop` always brings the clock back to a stopped zero, keeping the
/// length; `Pause` then `Start` resumes at the same position; a seek moves
/// the position and leaves running and length alone.
pub proof fn law_clock_messages(c: Clock, t: u64)
    ensures
        clock_step(c, Timer::Stop).0 == (Clock { running: false, position: 0, total: c.total }),
        clock_step(clock_step(c, Timer::Pause).0, Timer::Start).0 == (Clock {
            running: true,
            ..c
        }),
        clock_step(c, Timer::SeekTo(t)).0 == (Clock { position: t, ..c }),
        clock_step(c, Timer::SetTime(t)).0 == clock_step(c, Timer::SeekTo(t)).0,
{
}

/// `Start` leaves the clock following the player whatever it did before,
/// and keeps the position and length; a second `Start` changes nothing.
/// `Pause` and `Stop` leave it not following; only `Stop` resets the
/// position. The slider messages move the position and nothing else, and
/// only the released slider seeks.
pub proof fn law_clock_each_message(c: Clock, t: u64)
    ensures
        clock_step(c, Timer::Start).0.running,
        clock_step(c, Timer::Start).0.position == c.position,
        clock_step(c, Timer::Start).0.total == c.total,
        clock_step(clock_step(c, Timer::Start).0, Timer::Start) == clock_step(c, Timer::Start),
        !clock_step(c, Timer::Pause).0.running,
        clock_step(c, Timer::Pause).0.position == c.position,
        clock_step(c, Timer::Pause).0.total == c.total,
        !clock_step(c, Timer::Stop).0.running,
        clock_step(c, Timer::Stop).0.position == 0,
        clock_step(c, Timer::Stop).0.total == c.total,
        clock_step(c, Timer::SetTime(t)).0.running == c.running,
        clock_step(c, Timer::SetTime(t)).0.position == t,
        clock_step(c, Timer::SetTime(t)).0.total == c.total,
        clock_step(c, Timer::SeekTo(t)).0.running == c.running,
        clock_step(c, Timer::SeekTo(t)).0.position == t,
        clock_step(c, Timer::SeekTo(t)).0.total == c.total,
        clock_step(c, Timer::Start).1 == ClockEffect::Nothing,
        clock_step(c, Timer::Pause).1 == ClockEffect::Nothing,
        clock_step(c, Timer::Stop).1 == ClockEffect::Nothing,
        clock_step(c, Timer::SetTime(t)).1 == ClockEffect::Sync(t),
        clock_step(c, Timer::SeekTo(t)).1 == ClockEffect::SyncAndSeek(t),
{
}

/// The seconds of a rendered duration are always two digits below sixty.
pub proof fn law_clock_seconds_two_digits(ms: nat)
    ensures
        zero_pad(decimal(ms / 1000 % 60), 2).len() == 2,
{
    let s = ms / 1000 % 60;
    if s >= 10 {
        assert(decimal(s) == decimal(s / 10).push(crate::text::digit_char((s % 10) as int)));
        assert(decimal(s / 10).len() == 1);
    }
}

} // verus!

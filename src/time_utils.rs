use vstd::prelude::*;

verus! {

/// At time `now_ms`, at least `duration_ms` have passed since `start_time_ms`.
pub open spec fn elapsed_spec(start_time_ms: u64, duration_ms: u32, now_ms: u64) -> bool {
    now_ms as int >= start_time_ms as int + duration_ms as int
}

/// Whether `duration_ms` have elapsed since `start_time_ms`, the uptime clock
/// reading `now_ms`.
pub fn has_elapsed(start_time_ms: u64, duration_ms: u32, now_ms: u64) -> (r: bool)
    ensures
        r == elapsed_spec(start_time_ms, duration_ms, now_ms),
{
    now_ms >= start_time_ms && now_ms - start_time_ms >= duration_ms as u64
}

/// Converts milliseconds to scheduler ticks at `tick_rate_hz` ticks per
/// second, rounding down.
pub fn ms_to_ticks(ms: u32, tick_rate_hz: u32) -> (r: u32)
    requires
        ms * tick_rate_hz <= u32::MAX,
    ensures
        r == (ms * tick_rate_hz) as nat / 1000,
{
    ms * tick_rate_hz / 1000
}

/// Converts scheduler ticks at `tick_rate_hz` ticks per second to
/// milliseconds, rounding down.
pub fn ticks_to_ms(ticks: u32, tick_rate_hz: u32) -> (r: u32)
    requires
        tick_rate_hz > 0,
        ticks * 1000 <= u32::MAX,
    ensures
        r == (ticks * 1000) as nat / tick_rate_hz as nat,
{
    ticks * 1000 / tick_rate_hz
}

/// Decimal digits of `n`, most significant first, with no leading zero
/// (`0` is written as one digit).
pub open spec fn decimal(n: nat) -> Seq<char>
    decreases n,
{
    if n < 10 {
        seq![digit_char(n)]
    } else {
        decimal(n / 10) + seq![digit_char(n % 10)]
    }
}

pub open spec fn digit_char(d: nat) -> char {
    if d == 0 { '0' }
    else if d == 1 { '1' }
    else if d == 2 { '2' }
    else if d == 3 { '3' }
    else if d == 4 { '4' }
    else if d == 5 { '5' }
    else if d == 6 { '6' }
    else if d == 7 { '7' }
    else if d == 8 { '8' }
    else { '9' }
}

/// `n` in decimal, padded with a leading zero to at least two digits.
pub open spec fn two_digit(n: nat) -> Seq<char> {
    if n < 10 {
        seq!['0'] + decimal(n)
    } else {
        decimal(n)
    }
}

/// An uptime in seconds as `HH:MM:SS`; the hours take more digits when needed.
pub open spec fn uptime_text(uptime_s: nat) -> Seq<char> {
    two_digit(uptime_s / 3600) + seq![':'] + two_digit((uptime_s % 3600) / 60) + seq![':']
        + two_digit(uptime_s % 60)
}

/// The one-character text of the decimal digit `d`.
fn digit_text(d: u64) -> (r: &'static str)
    requires
        d < 10,
    ensures
        r@ == seq![digit_char(d as nat)],
{
    if d == 0 {
        proof {
            reveal_strlit("0");
        }
        "0"
    } else if d == 1 {
        proof {
            reveal_strlit("1");
        }
        "1"
    } else if d == 2 {
        proof {
            reveal_strlit("2");
        }
        "2"
    } else if d == 3 {
        proof {
            reveal_strlit("3");
        }
        "3"
    } else if d == 4 {
        proof {
            reveal_strlit("4");
        }
        "4"
    } else if d == 5 {
        proof {
            reveal_strlit("5");
        }
        "5"
    } else if d == 6 {
        proof {
            reveal_strlit("6");
        }
        "6"
    } else if d == 7 {
        proof {
            reveal_strlit("7");
        }
        "7"
    } else if d == 8 {
        proof {
            reveal_strlit("8");
        }
        "8"
    } else {
        proof {
            reveal_strlit("9");
        }
        "9"
    }
}

/// Appends `n` in decimal to `text`.
fn append_decimal(text: &mut String, n: u64)
    ensures
        final(text)@ == old(text)@ + decimal(n as nat),
    decreases n,
{
    if n >= 10 {
        append_decimal(text, n / 10);
    }
    text.append(digit_text(n % 10));
    proof {
        if n >= 10 {
            assert(decimal(n as nat) == decimal((n / 10) as nat) + seq![digit_char((n % 10) as nat)]);
        }
    }
}

/// Appends `n` in decimal to `text`, padded with a leading zero to at least
/// two digits.
fn append_two_digit(text: &mut String, n: u64)
    ensures
        final(text)@ == old(text)@ + two_digit(n as nat),
{
    if n < 10 {
        proof {
            reveal_strlit("0");
        }
        text.append("0");
    }
    append_decimal(text, n);
}

/// Formats an uptime given in seconds as `HH:MM:SS`.
pub fn format_uptime(uptime_s: u64) -> (r: String)
    ensures
        r@ == uptime_text(uptime_s as nat),
{
    let hours = uptime_s / 3600;
    let minutes = (uptime_s % 3600) / 60;
    let seconds = uptime_s % 60;
    let mut text = String::new();
    let sep: &str = ":";
    proof {
        reveal_strlit(":");
    }
    append_two_digit(&mut text, hours);
    text.append(sep);
    append_two_digit(&mut text, minutes);
    text.append(sep);
    append_two_digit(&mut text, seconds);
    text
}

/// A countdown started at an uptime reading, expiring `duration_ms` later.
pub struct Timer {
    start_time: u64,
    duration_ms: u32,
}

/// Milliseconds of a countdown left at `now_ms`, floored at zero. A reading
/// before the start counts as no time elapsed.
pub open spec fn remaining_spec(start_time_ms: u64, duration_ms: u32, now_ms: u64) -> u32 {
    let elapsed = if now_ms >= start_time_ms { now_ms - start_time_ms } else { 0 };
    if elapsed >= duration_ms {
        0
    } else {
        (duration_ms - elapsed) as u32
    }
}

impl Timer {
    pub closed spec fn start(&self) -> u64 {
        self.start_time
    }

    pub closed spec fn duration(&self) -> u32 {
        self.duration_ms
    }

    pub open spec fn expired_at(&self, now_ms: u64) -> bool {
        elapsed_spec(self.start(), self.duration(), now_ms)
    }

    pub open spec fn remaining_at(&self, now_ms: u64) -> u32 {
        remaining_spec(self.start(), self.duration(), now_ms)
    }

    /// A timer of `duration_ms` started at uptime `now_ms`.
    pub fn new(duration_ms: u32, now_ms: u64) -> (r: Self)
        ensures
            r.start() == now_ms,
            r.duration() == duration_ms,
    {
        Timer { start_time: now_ms, duration_ms }
    }

    /// Whether the duration has passed at uptime `now_ms`.
    pub fn has_expired(&self, now_ms: u64) -> (r: bool)
        ensures
            r == self.expired_at(now_ms),
    {
        has_elapsed(self.start_time, self.duration_ms, now_ms)
    }

    /// Milliseconds left at uptime `now_ms`, zero once expired.
    pub fn remaining_ms(&self, now_ms: u64) -> (r: u32)
        ensures
            r == self.remaining_at(now_ms),
    {
        let elapsed: u64 = if now_ms >= self.start_time {
            now_ms - self.start_time
        } else {
            0
        };
        if elapsed >= self.duration_ms as u64 {
            0
        } else {
            self.duration_ms - elapsed as u32
        }
    }

    /// Restarts the countdown at uptime `now_ms`, keeping the duration.
    pub fn reset(&mut self, now_ms: u64)
        ensures
            final(self).start() == now_ms,
            final(self).duration() == old(self).duration(),
    {
        self.start_time = now_ms;
    }

    /// Restarts the countdown at uptime `now_ms` with a new duration.
    pub fn reset_with_duration(&mut self, duration_ms: u32, now_ms: u64)
        ensures
            final(self).start() == now_ms,
            final(self).duration() == duration_ms,
    {
        self.duration_ms = duration_ms;
        self.start_time = now_ms;
    }

    /// Duration the timer was set to.
    pub fn duration_ms(&self) -> (r: u32)
        ensures
            r == self.duration(),
    {
        self.duration_ms
    }
}

/// With the clock going forward and no reset in between, the time left
/// never grows, and once the timer has expired it stays at zero.
pub proof fn lemma_timer_monotonic(t: Timer, earlier_ms: u64, later_ms: u64)
    requires
        earlier_ms <= later_ms,
    ensures
        t.remaining_at(later_ms) <= t.remaining_at(earlier_ms),
        t.expired_at(earlier_ms) ==> t.expired_at(later_ms) && t.remaining_at(later_ms) == 0,
{
}

} // verus!

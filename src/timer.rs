use vstd::prelude::*;

verus! {

/// The limit of a new timer: twenty seconds, in nanoseconds.
pub const DEFAULT_LIMIT_NANOS: u64 = 20_000_000_000;

/// The total of the durations `s`.
pub open spec fn sum(s: Seq<u64>) -> nat
    decreases s.len(),
{
    if s.len() == 0 {
        0
    } else {
        sum(s.drop_last()) + s.last() as nat
    }
}

/// The later of two instants.
pub open spec fn later(a: u64, b: u64) -> u64 {
    if a >= b {
        a
    } else {
        b
    }
}

/// The state of a timer, as values. Instants and durations are nanoseconds
/// of a monotonic clock.
pub struct TimerModel {
    /// Where the open run segment started.
    pub t0: u64,
    /// The last instant seen while running.
    pub t1: u64,
    /// The lengths of the closed run segments.
    pub time: Seq<u64>,
    /// Whether the open segment is running.
    pub starting: bool,
    /// The limit of the elapsed time.
    pub duration_max: u64,
    /// The elapsed time.
    pub elapsed_time: nat,
}

/// The length of the open segment, zero when stopped.
pub open spec fn open_len(t: TimerModel) -> nat {
    if t.starting {
        (t.t1 - t.t0) as nat
    } else {
        0
    }
}

/// The elapsed time of `t`: the closed segments plus the open one.
pub open spec fn elapsed(t: TimerModel) -> nat {
    sum(t.time) + open_len(t)
}

/// The instants are ordered, the closed segments fit before the open one
/// (or before the last instant, when stopped), and the elapsed time is up
/// to date.
pub open spec fn timer_wf(t: TimerModel) -> bool {
    &&& t.t0 <= t.t1
    &&& if t.starting {
        sum(t.time) <= t.t0
    } else {
        sum(t.time) <= t.t1
    }
    &&& t.elapsed_time == elapsed(t)
}

/// An event of the timer, as values.
pub enum TimerEvent {
    /// Start over at instant `now`.
    Reset(u64),
    /// Set the limit to `max` at instant `now`.
    SliderChanged { max: u64, now: u64 },
    /// The clock reads `now`.
    Tick(u64),
}

/// The state after closing the open segment.
pub open spec fn closed(t: TimerModel) -> TimerModel {
    TimerModel { time: t.time.push((t.t1 - t.t0) as u64), starting: false, ..t }
}

/// The state after event `e`. An instant before the last one seen is read as
/// the last one seen.
pub open spec fn timer_step(t: TimerModel, e: TimerEvent) -> TimerModel {
    match e {
        TimerEvent::Reset(now) => {
            let n = later(now, t.t1);
            TimerModel { t0: n, t1: n, time: Seq::empty(), starting: true, elapsed_time: 0, ..t }
        },
        TimerEvent::SliderChanged { max, now } => {
            let u = TimerModel { duration_max: max, ..t };
            if t.starting && t.elapsed_time >= max {
                closed(u)
            } else if !t.starting && t.elapsed_time < max {
                let n = later(now, t.t1);
                TimerModel { t0: n, t1: n, starting: true, ..u }
            } else {
                u
            }
        },
        TimerEvent::Tick(now) => {
            if t.starting {
                let u = TimerModel { t1: later(now, t.t1), ..t };
                let e = elapsed(u);
                if e >= t.duration_max {
                    TimerModel { elapsed_time: e, ..closed(u) }
                } else {
                    TimerModel { elapsed_time: e, ..u }
                }
            } else {
                t
            }
        },
    }
}

proof fn lemma_sum_push(s: Seq<u64>, x: u64)
    ensures
        sum(s.push(x)) == sum(s) + x,
{
    assert(s.push(x).drop_last() =~= s);
}

proof fn lemma_sum_prefix(s: Seq<u64>, i: int)
    requires
        0 <= i <= s.len(),
    ensures
        sum(s.take(i)) <= sum(s),
    decreases s.len(),
{
    if i < s.len() {
        assert(s.take(i) =~= s.drop_last().take(i));
        lemma_sum_prefix(s.drop_last(), i);
    } else {
        assert(s.take(i) =~= s);
    }
}

/// Every event keeps the timer well formed.
pub proof fn lemma_step_wf(t: TimerModel, e: TimerEvent)
    requires
        timer_wf(t),
    ensures
        timer_wf(timer_step(t, e)),
{
    lemma_sum_push(t.time, (t.t1 - t.t0) as u64);
    if let TimerEvent::Tick(now) = e {
        let u = TimerModel { t1: later(now, t.t1), ..t };
        lemma_sum_push(u.time, (u.t1 - u.t0) as u64);
    }
}

/// A tick at which the elapsed time reaches the limit stops a running timer;
/// one below the limit leaves it running. Either way the elapsed time becomes
/// the closed segments plus the open segment up to the tick.
pub proof fn lemma_tick_against_limit(t: TimerModel, now: u64)
    requires
        timer_wf(t),
        t.starting,
        now >= t.t1,
    ensures
        ({
            let u = timer_step(t, TimerEvent::Tick(now));
            &&& u.elapsed_time == sum(t.time) + (now - t.t0)
            &&& u.starting <==> u.elapsed_time < t.duration_max
            &&& timer_wf(u)
        }),
{
    lemma_step_wf(t, TimerEvent::Tick(now));
}

/// Raising the limit above the elapsed time of a stopped timer resumes it
/// where it stopped: the elapsed time is kept, and the next tick adds the
/// time since the resumption to it.
pub proof fn lemma_resume_keeps_elapsed(t: TimerModel, max: u64, now: u64, next: u64)
    requires
        timer_wf(t),
        !t.starting,
        t.elapsed_time < max,
    ensures
        ({
            let u = timer_step(t, TimerEvent::SliderChanged { max, now });
            &&& u.starting
            &&& u.elapsed_time == t.elapsed_time
            &&& u.time == t.time
            &&& u.t0 == later(now, t.t1)
            &&& next >= u.t0 ==> timer_step(u, TimerEvent::Tick(next)).elapsed_time
                == t.elapsed_time + (next - u.t0)
        }),
{
}

/// The total of the durations `time`.
pub fn total_nanos(time: &Vec<u64>) -> (r: u64)
    requires
        sum(time@) <= u64::MAX,
    ensures
        r == sum(time@),
{
    let mut r: u64 = 0;
    let mut i: usize = 0;
    assert(time@.take(0) =~= Seq::<u64>::empty());
    while i < time.len()
        invariant
            i <= time@.len(),
            sum(time@) <= u64::MAX,
            r == sum(time@.take(i as int)),
        decreases time@.len() - i,
    {
        proof {
            assert(time@.take(i + 1) =~= time@.take(i as int).push(time@[i as int]));
            lemma_sum_push(time@.take(i as int), time@[i as int]);
            lemma_sum_prefix(time@, i + 1);
        }
        r = r + time[i];
        i = i + 1;
    }
    assert(time@.take(i as int) =~= time@);
    r
}

/// Events of the timer. Each carries the instant at which it happened, in
/// nanoseconds of a monotonic clock.
#[derive(Debug, Clone, Copy)]
pub enum Message {
    Reset(u64),
    SliderChanged { max: u64, now: u64 },
    Tick(u64),
}

impl View for Message {
    type V = TimerEvent;

    open spec fn view(&self) -> TimerEvent {
        match *self {
            Message::Reset(now) => TimerEvent::Reset(now),
            Message::SliderChanged { max, now } => TimerEvent::SliderChanged { max, now },
            Message::Tick(now) => TimerEvent::Tick(now),
        }
    }
}

/// A timer that runs until its elapsed time reaches a limit.
///
/// The running time is kept as closed segments in `time` and, while
/// `starting`, an open segment from `t0` to the last tick `t1`; raising the
/// limit above the elapsed time resumes a stopped timer.
#[derive(Debug, Clone)]
pub struct Timer {
    pub t0: u64,
    pub t1: u64,
    pub time: Vec<u64>,
    pub starting: bool,
    pub duration_max: u64,
    pub elapsed_time: u64,
}

impl View for Timer {
    type V = TimerModel;

    open spec fn view(&self) -> TimerModel {
        TimerModel {
            t0: self.t0,
            t1: self.t1,
            time: self.time@,
            starting: self.starting,
            duration_max: self.duration_max,
            elapsed_time: self.elapsed_time as nat,
        }
    }
}

impl Timer {
    /// The invariant of the timer.
    pub open spec fn wf(&self) -> bool {
        timer_wf(self@)
    }

    /// A running timer started at `now`, with the default limit.
    pub fn new(now: u64) -> (r: Timer)
        ensures
            r.wf(),
            r.t0 == now,
            r.t1 == now,
            r@.time.len() == 0,
            r.starting,
            r.duration_max == DEFAULT_LIMIT_NANOS,
            r.elapsed_time == 0,
    {
        let r = Timer {
            t0: now,
            t1: now,
            time: Vec::new(),
            starting: true,
            duration_max: DEFAULT_LIMIT_NANOS,
            elapsed_time: 0,
        };
        assert(r@.time =~= Seq::<u64>::empty());
        r
    }

    /// The title of the window.
    pub fn title(&self) -> (r: String)
        ensures
            r@ == "Timer"@,
    {
        String::from_str("Timer")
    }

    /// Applies one event.
    ///
    /// `Reset` starts over at its instant. `SliderChanged` sets the limit,
    /// stops a running timer whose elapsed time has reached it, and resumes a
    /// stopped one whose elapsed time is below it. `Tick` extends the open
    /// segment to its instant and stops the timer once the elapsed time
    /// reaches the limit.
    pub fn update(&mut self, message: Message)
        requires
            old(self).wf(),
        ensures
            final(self).wf(),
            final(self)@ == timer_step(old(self)@, message@),
    {
        let ghost t = self@;
        proof {
            lemma_step_wf(t, message@);
            lemma_sum_push(t.time, (t.t1 - t.t0) as u64);
        }
        match message {
            Message::Reset(now) => {
                self.time.clear();
                let n = if now >= self.t1 {
                    now
                } else {
                    self.t1
                };
                self.t0 = n;
                self.t1 = n;
                self.starting = true;
                self.elapsed_time = 0;
                assert(self@.time =~= Seq::<u64>::empty());
            },
            Message::SliderChanged { max, now } => {
                self.duration_max = max;
                if self.starting && self.elapsed_time >= max {
                    self.starting = false;
                    self.time.push(self.t1 - self.t0);
                } else if !self.starting && self.elapsed_time < max {
                    let n = if now >= self.t1 {
                        now
                    } else {
                        self.t1
                    };
                    self.t0 = n;
                    self.t1 = n;
                    self.starting = true;
                }
            },
            Message::Tick(now) => {
                if self.starting {
                    if now > self.t1 {
                        self.t1 = now;
                    }
                    let e = total_nanos(&self.time) + (self.t1 - self.t0);
                    if e >= self.duration_max {
                        self.starting = false;
                        self.time.push(self.t1 - self.t0);
                    }
                    self.elapsed_time = e;
                }
            },
        }
    }
}

} // verus!

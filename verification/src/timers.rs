//! Timer subsystem: four 16-bit timers per processor. A timer is either
//! regular — clocked by a prescaled fraction of the global cycle rate, its
//! live counter derived on demand from the elapsed-cycle delta — or count-up,
//! advancing exactly once per overflow of the next-lower timer and never from
//! a scheduled event of its own.

use vstd::prelude::*;

use crate::scheduler::{spec_has_kind, Event, Scheduler};

verus! {

/// Timer control word: prescaler select, count-up mode, interrupt enable,
/// start flag.
#[derive(Clone, Copy, PartialEq, Eq, Structural, Debug)]
pub struct TMCNT {
    pub prescaler: u8,
    pub count_up: bool,
    pub irq: bool,
    pub start: bool,
}

impl TMCNT {
    pub open spec fn wf(self) -> bool {
        self.prescaler < 4
    }

    pub fn new() -> (r: TMCNT)
        ensures
            r == (TMCNT { prescaler: 0u8, count_up: false, irq: false, start: false }),
    {
        TMCNT { prescaler: 0, count_up: false, irq: false, start: false }
    }

    /// The control word packed back into its register byte: the high byte
    /// reads as zero.
    pub open spec fn spec_read(self, byte: usize) -> u8 {
        if byte == 0 {
            (((if self.start {
                0x80u8
            } else {
                0u8
            }) | (if self.irq {
                0x40u8
            } else {
                0u8
            })) | (if self.count_up {
                0x4u8
            } else {
                0u8
            })) | self.prescaler
        } else {
            0u8
        }
    }

    pub fn read(&self, byte: usize) -> (r: u8)
        requires
            byte < 2,
        ensures
            r == self.spec_read(byte),
    {
        if byte == 0 {
            (if self.start {
                0x80u8
            } else {
                0
            }) | (if self.irq {
                0x40u8
            } else {
                0
            }) | (if self.count_up {
                0x4u8
            } else {
                0
            }) | self.prescaler
        } else {
            0
        }
    }

    /// The control word after a write to its low register byte; the high
    /// byte holds nothing.
    pub open spec fn spec_written(self, byte: usize, value: u8) -> TMCNT {
        if byte == 0 {
            TMCNT {
                start: value & 0x80 != 0,
                irq: value & 0x40 != 0,
                count_up: value & 0x4 != 0,
                prescaler: value & 0x3,
            }
        } else {
            self
        }
    }

    pub fn write(&mut self, byte: usize, value: u8)
        requires
            byte < 2,
        ensures
            *final(self) == old(self).spec_written(byte, value),
            old(self).wf() ==> final(self).wf(),
    {
        if byte == 0 {
            self.start = value & 0x80 != 0;
            self.irq = value & 0x40 != 0;
            self.count_up = value & 0x4 != 0;
            self.prescaler = value & 0x3;
            proof {
                assert(value & 0x3 < 4) by (bit_vector);
            }
        }
    }
}

/// The prescaler divisors, selected by the two prescaler bits.
pub open spec fn spec_prescaler_period(p: u8) -> int {
    if p == 0 {
        1
    } else if p == 1 {
        64
    } else if p == 2 {
        256
    } else {
        1024
    }
}

pub fn prescaler_period(p: u8) -> (r: usize)
    ensures
        r == spec_prescaler_period(p),
        1 <= r <= 1024,
{
    if p == 0 {
        1
    } else if p == 1 {
        64
    } else if p == 2 {
        256
    } else {
        1024
    }
}

/// The interrupt-request bit raised when timer `index` overflows.
pub open spec fn spec_timer_interrupt(index: usize) -> u32 {
    if index == 0 {
        0x8
    } else if index == 1 {
        0x10
    } else if index == 2 {
        0x20
    } else {
        0x40
    }
}

pub fn timer_interrupt(index: usize) -> (r: u32)
    ensures
        r == spec_timer_interrupt(index),
{
    if index == 0 {
        0x8
    } else if index == 1 {
        0x10
    } else if index == 2 {
        0x20
    } else {
        0x40
    }
}

/// One timer instance: its reload value, control word, and the derived
/// timing state of its current run. The live counter of a running regular
/// timer is not stored; it is derived from the elapsed cycles.
#[derive(Clone, Copy, PartialEq, Eq, Structural, Debug)]
pub struct Timer {
    /// Whether the timer belongs to the second processor's block.
    pub is_nds9: bool,
    /// Value the counter restarts from after an overflow or a start.
    pub reload: u16,
    /// Control word.
    pub cnt: TMCNT,
    /// Position of this timer inside its block; cascade feeds timer `i+1`.
    pub index: usize,
    /// Interrupt-request bit raised on overflow when enabled.
    pub interrupt: u32,
    /// Stored counter: live for count-up or stopped timers, the base of the
    /// derivation for running regular timers.
    pub counter: u16,
    /// Cycle at which the current run started.
    pub start_cycle: usize,
    /// Cycles from the start until the first counter tick (prescaler phase
    /// plus the one-cycle start latency).
    pub time_till_first_clock: usize,
    /// Cycles from the first tick until overflow.
    pub timer_len: usize,
}

impl Timer {
    pub open spec fn wf(self) -> bool {
        &&& self.cnt.wf()
        &&& self.index < 4
        &&& self.time_till_first_clock <= 1024
        &&& self.timer_len <= 1024 * 0xFFFF
    }

    /// The scheduled-overflow event kind of this timer.
    pub open spec fn spec_event(self) -> Event {
        Event::TimerOverflow(self.is_nds9, self.index)
    }

    /// The counter a running regular timer has reached at `global_cycle`,
    /// derived from the elapsed cycles: the stored base, plus one for the
    /// first tick once it has passed, plus one per full prescaler period
    /// after it.
    pub open spec fn spec_derived_counter(self, global_cycle: usize) -> int {
        let passed = global_cycle - self.start_cycle;
        if passed >= self.time_till_first_clock {
            self.counter + 1 + (passed - self.time_till_first_clock) / spec_prescaler_period(
                self.cnt.prescaler,
            )
        } else {
            self.counter as int
        }
    }

    /// A read at `global_cycle` is in range while the derivation fits the
    /// 16-bit counter; the overflow event fires before it stops fitting.
    pub open spec fn counter_in_range(self, global_cycle: usize) -> bool {
        &&& global_cycle >= self.start_cycle
        &&& self.spec_derived_counter(global_cycle) <= 0xFFFF
    }

    pub fn new(is_nds9: bool, index: usize, interrupt: u32) -> (r: Timer)
        ensures
            r == Timer::spec_new(is_nds9, index, interrupt),
            index < 4 ==> r.wf(),
    {
        Timer {
            is_nds9,
            reload: 0,
            cnt: TMCNT::new(),
            index,
            interrupt,
            counter: 0,
            start_cycle: 0,
            time_till_first_clock: 0,
            timer_len: 0,
        }
    }

    /// The state of a freshly constructed timer: stopped, all zero.
    pub open spec fn spec_new(is_nds9: bool, index: usize, interrupt: u32) -> Timer {
        Timer {
            is_nds9,
            reload: 0,
            cnt: TMCNT { prescaler: 0u8, count_up: false, irq: false, start: false },
            index,
            interrupt,
            counter: 0,
            start_cycle: 0,
            time_till_first_clock: 0,
            timer_len: 0,
        }
    }

    /// One cascade tick of a count-up timer: while started, the counter
    /// advances by one; on wrap-around it restarts from the reload value and
    /// reports the overflow. A stopped timer ignores the tick.
    pub fn clock(&mut self) -> (overflowed: bool)
        requires
            old(self).cnt.count_up,
        ensures
            !old(self).cnt.start ==> *final(self) == *old(self) && !overflowed,
            old(self).cnt.start && old(self).counter == 0xFFFF ==> *final(self) == (Timer {
                counter: old(self).reload,
                ..*old(self)
            }) && overflowed,
            old(self).cnt.start && old(self).counter < 0xFFFF ==> *final(self) == (Timer {
                counter: (old(self).counter + 1) as u16,
                ..*old(self)
            }) && !overflowed,
    {
        if self.cnt.start {
            if self.counter == 0xFFFF {
                self.counter = self.reload;
                return true;
            } else {
                self.counter = self.counter + 1;
            }
        }
        false
    }

    /// The derived counter at `global_cycle`, for a running regular timer.
    fn calc_counter(&self, global_cycle: usize) -> (r: u16)
        requires
            self.wf(),
            self.counter_in_range(global_cycle),
        ensures
            r == self.spec_derived_counter(global_cycle),
    {
        let cycles_passed: usize = global_cycle - self.start_cycle;
        if cycles_passed >= self.time_till_first_clock {
            let cycles_passed: usize = cycles_passed - self.time_till_first_clock;
            let counter_change: usize = cycles_passed / prescaler_period(self.cnt.prescaler);
            self.counter + 1 + (counter_change as u16)
        } else {
            self.counter
        }
    }

    /// Copies the reload value into the counter.
    pub fn reload(&mut self)
        ensures
            *final(self) == (Timer { counter: old(self).reload, ..*old(self) }),
    {
        self.counter = self.reload;
    }

    /// Starts a run `delay` cycles from now: records the start cycle, sets
    /// the phase until the first tick (one extra cycle of start latency,
    /// synchronized to the global prescaler grid) and the run length until
    /// overflow — counted from the stored counter, so a run resumed mid-way
    /// (after a control write banked the derived value) completes from where
    /// it stood, not a full period from the reload value — and schedules,
    /// inserting or replacing, this timer's overflow event at the cycle the
    /// run completes.
    pub fn create_event(&mut self, scheduler: &mut Scheduler, delay: usize)
        requires
            old(self).wf(),
            old(scheduler).wf(),
            old(scheduler).cycle + delay + 0x800_0000 <= usize::MAX,
        ensures
            final(self).start_cycle == old(scheduler).cycle + delay,
            final(self).time_till_first_clock == spec_prescaler_period(old(self).cnt.prescaler) - (
            final(self).start_cycle + 1) % spec_prescaler_period(old(self).cnt.prescaler),
            final(self).timer_len == spec_prescaler_period(old(self).cnt.prescaler) * (0x10000 - old(self).counter - 1),
            *final(self) == (Timer {
                start_cycle: final(self).start_cycle,
                time_till_first_clock: final(self).time_till_first_clock,
                timer_len: final(self).timer_len,
                ..*old(self)
            }),
            final(self).wf(),
            final(scheduler).cycle == old(scheduler).cycle,
            final(scheduler).wf(),
            spec_has_kind(final(scheduler).events@, old(self).spec_event()),
            !spec_has_kind(old(scheduler).events@, old(self).spec_event()) ==> final(scheduler).events@ == old(scheduler).events@.push(
                (
                    old(self).spec_event(),
                    (final(self).start_cycle + final(self).time_till_first_clock + final(self).timer_len) as usize,
                ),
            ),
            spec_has_kind(old(scheduler).events@, old(self).spec_event()) ==> (exists|i: int|
                0 <= i < old(scheduler).events@.len() && old(scheduler).events@[i].0 == old(self).spec_event() && final(scheduler).events@ == old(scheduler).events@.remove(i).push(
                    (
                        old(self).spec_event(),
                        (final(self).start_cycle + final(self).time_till_first_clock + final(self).timer_len) as usize,
                    ),
                )),
    {
        self.start_cycle = scheduler.cycle + delay;
        // Synchronizes the prescaler to the global cycle, with one extra
        // cycle of start latency.
        let prescaler = prescaler_period(self.cnt.prescaler);
        self.time_till_first_clock = prescaler - (self.start_cycle + 1) % prescaler;
        proof {
            let ghost r = self.counter as int;
            assert(prescaler * (0x10000 - r - 1) <= 1024 * 0xFFFF) by (nonlinear_arith)
                requires
                    1 <= prescaler <= 1024,
                    0 <= 0x10000 - r - 1 <= 0xFFFF,
            ;
        }
        self.timer_len = prescaler * (0x10000 - self.counter as usize - 1);
        scheduler.schedule(
            Event::TimerOverflow(self.is_nds9, self.index),
            delay + self.time_till_first_clock + self.timer_len,
        );
    }

    pub fn is_count_up(&self) -> (r: bool)
        ensures
            r == self.cnt.count_up,
    {
        self.cnt.count_up
    }

    /// The counter value a read at `global_cycle` returns: the stored value
    /// for count-up or stopped timers, the live derivation for a running
    /// regular timer.
    pub open spec fn spec_counter_at(self, global_cycle: usize) -> int {
        if self.cnt.count_up || !self.cnt.start {
            self.counter as int
        } else {
            self.spec_derived_counter(global_cycle)
        }
    }

    /// The value one register byte reads back at `global_cycle`.
    pub open spec fn spec_read_byte(self, global_cycle: usize, byte: usize) -> u8 {
        if byte == 0 {
            self.spec_counter_at(global_cycle) as u16 as u8
        } else if byte == 1 {
            (self.spec_counter_at(global_cycle) as u16 >> 8) as u8
        } else {
            self.cnt.spec_read((byte - 2) as usize)
        }
    }

    /// Reads one of the four register bytes: counter low/high, then the
    /// control word's two bytes. A running regular timer's counter is
    /// derived live from the cycle of the read.
    pub fn read(&self, scheduler: &Scheduler, byte: usize) -> (r: u8)
        requires
            self.wf(),
            byte < 4,
            byte < 2 && !self.cnt.count_up && self.cnt.start ==> self.counter_in_range(
                scheduler.cycle,
            ),
        ensures
            r == self.spec_read_byte(scheduler.cycle, byte),
    {
        let global_cycle = scheduler.cycle;
        if byte < 2 {
            let counter = if self.is_count_up() || !self.cnt.start {
                self.counter
            } else {
                self.calc_counter(global_cycle)
            };
            if byte == 0 {
                #[verifier::truncate] (counter as u8)
            } else {
                (counter >> 8) as u8
            }
        } else {
            self.cnt.read(byte - 2)
        }
    }

    /// The stored counter after a control-byte write: a freshly started
    /// timer restarts from the reload value; a running regular timer first
    /// banks its live derived value, so a prescaler change carries the
    /// counter over correctly; otherwise the stored value stays.
    pub open spec fn spec_counter_after_ctl(self, global_cycle: usize, value: u8) -> u16 {
        let started = self.cnt.spec_written(0, value).start;
        if !self.cnt.start && started {
            self.reload
        } else if !self.cnt.count_up && self.cnt.start {
            self.spec_derived_counter(global_cycle) as u16
        } else {
            self.counter
        }
    }

    /// How one register-byte write relates the timer and scheduler before it
    /// (`pre`, `pre_s`) to the state after it (`post`, `post_s`). A reload
    /// byte only replaces its half of the reload value; the upper control
    /// byte holds nothing; a control write stores the new control word,
    /// banks the counter as `spec_counter_after_ctl` says, cancels this
    /// timer's pending overflow event, and — exactly when the new word is a
    /// running regular timer — starts a run from the banked counter (a full
    /// period from the reload value only when the start bit rises) and
    /// schedules the overflow at the cycle that run completes, so a mid-run
    /// prescaler change is reflected correctly in the derived counter.
    pub open spec fn write_rel(
        pre: Timer,
        pre_s: Scheduler,
        post: Timer,
        post_s: Scheduler,
        byte: usize,
        value: u8,
    ) -> bool {
        let restart = !pre.cnt.spec_written(0, value).count_up && pre.cnt.spec_written(
            0,
            value,
        ).start;
        let trigger = post.start_cycle + post.time_till_first_clock + post.timer_len;
        &&& post_s.cycle == pre_s.cycle
        &&& (byte == 0 ==> post == (Timer {
            reload: (pre.reload & 0xFF00) | (value as u16),
            ..pre
        }) && post_s == pre_s)
        &&& (byte == 1 ==> post == (Timer {
            reload: (pre.reload & 0x00FF) | ((value as u16) << 8),
            ..pre
        }) && post_s == pre_s)
        &&& (byte == 3 ==> post == pre && post_s == pre_s)
        &&& (byte == 2 ==> {
            &&& post.cnt == pre.cnt.spec_written(0, value)
            &&& post.reload == pre.reload
            &&& post.is_nds9 == pre.is_nds9
            &&& post.index == pre.index
            &&& post.interrupt == pre.interrupt
            &&& post.counter == pre.spec_counter_after_ctl(pre_s.cycle, value)
        })
        &&& (byte == 2 && !restart ==> {
            &&& post.start_cycle == pre.start_cycle
            &&& post.time_till_first_clock == pre.time_till_first_clock
            &&& post.timer_len == pre.timer_len
            &&& !spec_has_kind(post_s.events@, pre.spec_event())
            &&& (!spec_has_kind(pre_s.events@, pre.spec_event()) ==> post_s.events
                == pre_s.events)
            &&& (spec_has_kind(pre_s.events@, pre.spec_event()) ==> (exists|i: int|
                0 <= i < pre_s.events@.len() && pre_s.events@[i].0 == pre.spec_event()
                    && post_s.events@ == pre_s.events@.remove(i)))
        })
        &&& (byte == 2 && restart ==> {
            &&& post.start_cycle == pre_s.cycle + (if !pre.cnt.start {
                1int
            } else {
                0int
            })
            &&& post.time_till_first_clock == spec_prescaler_period((value & 0x3) as u8) - (
            post.start_cycle + 1) % spec_prescaler_period((value & 0x3) as u8)
            &&& post.timer_len == spec_prescaler_period((value & 0x3) as u8) * (0x10000
                - pre.spec_counter_after_ctl(pre_s.cycle, value) - 1)
            &&& (!spec_has_kind(pre_s.events@, pre.spec_event()) ==> post_s.events@
                == pre_s.events@.push((pre.spec_event(), trigger as usize)))
            &&& (spec_has_kind(pre_s.events@, pre.spec_event()) ==> (exists|i: int|
                0 <= i < pre_s.events@.len() && pre_s.events@[i].0 == pre.spec_event()
                    && post_s.events@ == pre_s.events@.remove(i).push(
                    (pre.spec_event(), trigger as usize),
                )))
        })
    }

    /// Writes one of the four register bytes: reload low/high, then the
    /// control word. A control write cancels the pending overflow event,
    /// banks the live counter of a running regular timer, stores the new
    /// control word, and then — for a regular timer left running — starts a
    /// fresh run: with one cycle of start latency from the reload value when
    /// the start bit rises, from the banked counter at once when it was
    /// already set. A count-up timer whose start bit rises copies the reload
    /// value and schedules nothing.
    pub fn write(&mut self, scheduler: &mut Scheduler, byte: usize, value: u8)
        requires
            old(self).wf(),
            old(scheduler).wf(),
            byte < 4,
            byte == 2 && !old(self).cnt.count_up && old(self).cnt.start ==> old(self).counter_in_range(old(scheduler).cycle),
            old(scheduler).cycle + 0x800_0001 <= usize::MAX,
        ensures
            final(self).wf(),
            final(scheduler).wf(),
            final(self).is_nds9 == old(self).is_nds9,
            final(self).index == old(self).index,
            final(self).interrupt == old(self).interrupt,
            Timer::write_rel(
                *old(self),
                *old(scheduler),
                *final(self),
                *final(scheduler),
                byte,
                value,
            ),
    {
        let global_cycle = scheduler.cycle;
        if byte == 0 {
            self.reload = self.reload & 0xFF00 | (value as u16);
        } else if byte == 1 {
            self.reload = self.reload & 0x00FF | ((value as u16) << 8);
        } else if byte == 2 {
            scheduler.remove(Event::TimerOverflow(self.is_nds9, self.index));
            let prev_start = self.cnt.start;
            if !self.is_count_up() && self.cnt.start {
                self.counter = self.calc_counter(global_cycle);
            }
            self.cnt.write(0, value);
            if !self.is_count_up() {
                if !prev_start && self.cnt.start {
                    self.reload();
                    self.create_event(scheduler, 1);
                } else if self.cnt.start {
                    self.create_event(scheduler, 0);
                }
            } else {
                if !prev_start && self.cnt.start {
                    self.counter = self.reload;
                }
            }
        }
    }
}

/// The four index-linked timers of one processor.
pub struct Timers {
    pub timers: Vec<Timer>,
}

impl Timers {
    pub open spec fn wf(self) -> bool {
        &&& self.timers@.len() == 4
        &&& (forall|i: int|
            0 <= i < 4 ==> (#[trigger] self.timers@[i]).wf() && self.timers@[i].index == i
                && self.timers@[i].interrupt == spec_timer_interrupt(i as usize))
        &&& (forall|i: int| 0 <= i < 4 ==> (#[trigger] self.timers@[i]).is_nds9 == self.is_nds9())
    }

    /// Which processor's block this is: taken from its first timer.
    pub open spec fn is_nds9(self) -> bool {
        self.timers@[0].is_nds9
    }

    pub fn new(is_nds9: bool) -> (r: Timers)
        ensures
            r.wf(),
            r.is_nds9() == is_nds9,
            forall|i: int|
                0 <= i < 4 ==> r.timers@[i] == Timer::spec_new(
                    is_nds9,
                    i as usize,
                    spec_timer_interrupt(i as usize),
                ),
    {
        let mut v: Vec<Timer> = Vec::new();
        v.push(Timer::new(is_nds9, 0, timer_interrupt(0)));
        v.push(Timer::new(is_nds9, 1, timer_interrupt(1)));
        v.push(Timer::new(is_nds9, 2, timer_interrupt(2)));
        v.push(Timer::new(is_nds9, 3, timer_interrupt(3)));
        Timers { timers: v }
    }

    /// A copy of timer `i`.
    pub fn get(&self, i: usize) -> (r: Timer)
        requires
            i < self.timers@.len(),
        ensures
            r == self.timers@[i as int],
    {
        self.timers[i]
    }

    /// Replaces timer `i`.
    pub fn put(&mut self, i: usize, t: Timer)
        requires
            i < old(self).timers@.len(),
        ensures
            final(self).timers@ == old(self).timers@.update(i as int, t),
    {
        self.timers[i] = t;
    }
}

/// A count-up timer after one cascade tick (`Timer::clock`).
pub open spec fn spec_clocked(t: Timer) -> Timer {
    if !t.cnt.start {
        t
    } else if t.counter == 0xFFFF {
        Timer { counter: t.reload, ..t }
    } else {
        Timer { counter: (t.counter + 1) as u16, ..t }
    }
}

/// Whether one cascade tick makes the timer wrap around.
pub open spec fn spec_clock_overflows(t: Timer) -> bool {
    t.cnt.start && t.counter == 0xFFFF
}

/// A count-up timer after `n` cascade ticks.
pub open spec fn spec_clocked_n(t: Timer, n: nat) -> Timer
    decreases n,
{
    if n == 0 {
        t
    } else {
        spec_clocked(spec_clocked_n(t, (n - 1) as nat))
    }
}

/// Count-up cascade law: a started count-up timer never reaches overflow
/// from a scheduled event — a control write that leaves it counting up
/// schedules nothing, as `Timer::write_rel` states — and under cascade ticks
/// alone its counter reaches overflow only on tick number
/// 0x10000 minus the reload value: until then the derived counter is the
/// reload plus the tick count, and on that tick it returns to the reload.
pub proof fn lemma_count_up_cascade(t: Timer, n: nat)
    requires
        t.cnt.count_up,
        t.cnt.start,
        t.counter == t.reload,
        n <= 0x10000 - t.reload,
    ensures
        n < 0x10000 - t.reload ==> spec_clocked_n(t, n).counter == t.reload + n,
        n == 0x10000 - t.reload ==> spec_clocked_n(t, n).counter == t.reload,
        spec_clocked_n(t, n).cnt == t.cnt,
        spec_clocked_n(t, n).reload == t.reload,
        n > 0 ==> (spec_clock_overflows(spec_clocked_n(t, (n - 1) as nat)) <==> n == 0x10000
            - t.reload),
    decreases n,
{
    if n > 0 {
        lemma_count_up_cascade(t, (n - 1) as nat);
    }
}

/// The position of the pending entry of kind `ev`; meaningful only while
/// one exists, and unique under the scheduler's invariant.
pub open spec fn spec_index_of_kind(s: Seq<(Event, usize)>, ev: Event) -> int {
    choose|i: int| 0 <= i < s.len() && s[i].0 == ev
}

/// The pending set after inserting-or-replacing the event of kind `ev` with
/// trigger cycle `trigger`.
pub open spec fn spec_insert_event(
    s: Seq<(Event, usize)>,
    ev: Event,
    trigger: usize,
) -> Seq<(Event, usize)> {
    if spec_has_kind(s, ev) {
        s.remove(spec_index_of_kind(s, ev)).push((ev, trigger))
    } else {
        s.push((ev, trigger))
    }
}

/// A regular timer right after its overflow fires: the counter restarts from
/// the reload value and a fresh run begins at the current cycle.
pub open spec fn spec_restarted(t: Timer, cycle: usize) -> Timer {
    let period = spec_prescaler_period(t.cnt.prescaler);
    Timer {
        counter: t.reload,
        start_cycle: cycle,
        time_till_first_clock: (period - (cycle + 1) % period) as usize,
        timer_len: (period * (0x10000 - t.reload - 1)) as usize,
        ..t
    }
}

/// What handling the overflow of timer `num` makes of one timer block, its
/// interrupt-request line and the pending events, at cycle `cycle`: the
/// timer's interrupt is raised when enabled; the next-indexed timer, when in
/// count-up mode, receives one cascade tick, and its own overflow is handled
/// the same way when the tick wraps it around; finally a regular timer
/// restarts its run and its next overflow is scheduled a full period ahead —
/// a count-up timer never reaches overflow from a scheduled event.
pub open spec fn spec_overflow(
    t: Seq<Timer>,
    irq: u32,
    ev: Seq<(Event, usize)>,
    cycle: usize,
    num: usize,
) -> (Seq<Timer>, u32, Seq<(Event, usize)>)
    decreases 4 - num,
{
    if num >= 4 {
        (t, irq, ev)
    } else {
        let t0 = t[num as int];
        let irq1 = if t0.cnt.irq {
            irq | t0.interrupt
        } else {
            irq
        };
        let cascade = num + 1 < 4 && t[num as int + 1].cnt.count_up;
        let tick_t = if cascade {
            t.update(num as int + 1, spec_clocked(t[num as int + 1]))
        } else {
            t
        };
        let mid = if cascade && spec_clock_overflows(t[num as int + 1]) {
            spec_overflow(tick_t, irq1, ev, cycle, (num + 1) as usize)
        } else {
            (tick_t, irq1, ev)
        };
        let tm = mid.0[num as int];
        if !tm.cnt.count_up {
            let rt = spec_restarted(tm, cycle);
            (
                mid.0.update(num as int, rt),
                mid.1,
                spec_insert_event(
                    mid.2,
                    tm.spec_event(),
                    (rt.start_cycle + rt.time_till_first_clock + rt.timer_len) as usize,
                ),
            )
        } else {
            mid
        }
    }
}

/// Handles the overflow of timer `num` of one block, as `spec_overflow`
/// describes.
pub fn overflow_block(timers: &mut Timers, irq: &mut u32, scheduler: &mut Scheduler, num: usize)
    requires
        old(timers).wf(),
        old(scheduler).wf(),
        num < 4,
        old(scheduler).cycle + 0x800_0000 <= usize::MAX,
    ensures
        final(timers).wf(),
        final(scheduler).wf(),
        final(timers).is_nds9() == old(timers).is_nds9(),
        final(scheduler).cycle == old(scheduler).cycle,
        (final(timers).timers@, *final(irq), final(scheduler).events@) == spec_overflow(
            old(timers).timers@,
            *old(irq),
            old(scheduler).events@,
            old(scheduler).cycle,
            num,
        ),
    decreases 4 - num,
{
    let ghost pre_t = timers.timers@;
    let ghost target = spec_overflow(pre_t, *irq, scheduler.events@, scheduler.cycle, num);
    let t = timers.get(num);
    if t.cnt.irq {
        *irq = *irq | t.interrupt;
    }
    // Cascade: the next-indexed timer advances once per overflow of this
    // one, never from its own prescaler.
    if num + 1 < 4 {
        let mut t1 = timers.get(num + 1);
        if t1.is_count_up() {
            let over = t1.clock();
            timers.put(num + 1, t1);
            proof {
                assert(timers.timers@ =~= pre_t.update(
                    num as int + 1,
                    spec_clocked(pre_t[num as int + 1]),
                ));
            }
            if over {
                overflow_block(timers, irq, scheduler, num + 1);
            }
        }
    }
    let ghost mid = (timers.timers@, *irq, scheduler.events@);
    if !timers.get(num).is_count_up() {
        let mut tm = timers.get(num);
        tm.reload();
        tm.create_event(scheduler, 0);
        timers.put(num, tm);
        proof {
            let rt = spec_restarted(mid.0[num as int], scheduler.cycle);
            assert(timers.timers@ =~= mid.0.update(num as int, rt));
            lemma_insert_event_agrees(
                mid.2,
                scheduler.events@,
                mid.0[num as int].spec_event(),
                (rt.start_cycle + rt.time_till_first_clock + rt.timer_len) as usize,
            );
        }
    }
    proof {
        assert((timers.timers@, *irq, scheduler.events@) == target);
    }
}

/// Under the uniqueness invariant, replacing the entry of one kind lands on
/// `spec_insert_event`, whichever matching slot was removed.
proof fn lemma_insert_event_agrees(
    pre: Seq<(Event, usize)>,
    post: Seq<(Event, usize)>,
    ev: Event,
    trigger: usize,
)
    requires
        forall|i: int, j: int| 0 <= i < j < pre.len() ==> pre[i].0 != pre[j].0,
        !spec_has_kind(pre, ev) ==> post == pre.push((ev, trigger)),
        spec_has_kind(pre, ev) ==> (exists|i: int|
            0 <= i < pre.len() && pre[i].0 == ev && post == pre.remove(i).push((ev, trigger))),
    ensures
        post == spec_insert_event(pre, ev, trigger),
{
    if spec_has_kind(pre, ev) {
        let i = choose|i: int|
            0 <= i < pre.len() && pre[i].0 == ev && post == pre.remove(i).push((ev, trigger));
        let j = spec_index_of_kind(pre, ev);
        assert(0 <= j < pre.len() && pre[j].0 == ev);
        assert(i == j);
    }
}

} // verus!

//! The backlight dimmer.
//!
//! The backlight has sixteen positions on a ring. The only thing the hardware
//! can do is step one position down per low-to-high pulse, wrapping from the
//! bottom back to the top. Its level cannot be read back, so the level recorded
//! here is the only record of where the hardware stands.
use vstd::prelude::*;

verus! {

/// The brightest level; 0 is off.
pub const MAX_LEVEL: u8 = 16;

/// Number of positions on the decrement ring.
pub const RING_SIZE: u8 = 16;

/// Wait after raising the line and after each pulse, in microseconds.
pub const PULSE_SETTLE_US: u32 = 30;

/// Wait after a whole transition, in milliseconds.
pub const SETTLE_MS: u32 = 3;

/// One thing to do on the backlight control line.
#[derive(Clone, Copy, Debug, PartialEq, Eq, Structural)]
pub enum PinStep {
    High,
    Low,
    WaitUs(u32),
    WaitMs(u32),
}

/// Why a brightness request was refused.
#[derive(Clone, Copy, Debug, PartialEq, Eq, Structural)]
pub enum DimmerError {
    /// The requested level is above `MAX_LEVEL`.
    InvalidLevel,
    /// A transition has been handed out and not yet completed.
    Busy,
    /// There is no transition to complete.
    Idle,
}

/// The abstract dimmer state: the recorded level, and the target of the
/// transition that is in flight, if any.
pub ghost struct DimmerState {
    pub level: int,
    pub pending: Option<int>,
}

pub open spec fn valid_level(l: int) -> bool {
    0 <= l <= MAX_LEVEL as int
}

/// Pulses needed to go from `current` down the ring to `target`.
///
/// Holding the line low switches the backlight off, and it comes back at the
/// top of the ring on the next activation. Level 0 and level 16 are the same
/// ring position, so a change out of the off state counts its pulses from the
/// top without any further bookkeeping.
pub open spec fn pulses_spec(current: int, target: int) -> int {
    (current - target) % (RING_SIZE as int)
}

/// One decrement pulse: low, high, settle.
pub open spec fn pulse() -> Seq<PinStep> {
    seq![PinStep::Low, PinStep::High, PinStep::WaitUs(PULSE_SETTLE_US)]
}

/// `n` decrement pulses in a row.
pub open spec fn pulse_train(n: nat) -> Seq<PinStep>
    decreases n,
{
    if n == 0 {
        Seq::empty()
    } else {
        pulse_train((n - 1) as nat) + pulse()
    }
}

/// The steps that move the backlight from `current` to `target`.
pub open spec fn plan_spec(current: int, target: int) -> Seq<PinStep> {
    if target == 0 {
        seq![PinStep::Low, PinStep::WaitMs(SETTLE_MS)]
    } else {
        seq![PinStep::High, PinStep::WaitUs(PULSE_SETTLE_US)]
            + pulse_train(pulses_spec(current, target) as nat)
            + seq![PinStep::WaitMs(SETTLE_MS)]
    }
}

/// The error that `begin` reports, if any.
pub open spec fn begin_error(s: DimmerState, target: int) -> Option<DimmerError> {
    if !valid_level(target) {
        Some(DimmerError::InvalidLevel)
    } else if s.pending.is_some() {
        Some(DimmerError::Busy)
    } else {
        None
    }
}

/// The state after `begin`.
pub open spec fn begin_state(s: DimmerState, target: int) -> DimmerState {
    if begin_error(s, target).is_some() {
        s
    } else {
        DimmerState { level: s.level, pending: Some(target) }
    }
}

/// The state after `finish`: the target is recorded only if the steps were
/// all carried out.
pub open spec fn finish_state(s: DimmerState, succeeded: bool) -> DimmerState {
    match s.pending {
        Some(t) => DimmerState { level: if succeeded { t } else { s.level }, pending: None },
        None => s,
    }
}

/// A whole brightness change that the hardware carried out.
pub open spec fn set_level_state(s: DimmerState, target: int) -> DimmerState {
    finish_state(begin_state(s, target), true)
}

pub open spec fn idle(level: int) -> DimmerState {
    DimmerState { level, pending: None }
}

/// The next level down the ring; below 1 comes the top of the ring.
pub open spec fn next_lower_spec(level: int) -> int {
    if level <= 1 {
        MAX_LEVEL as int
    } else {
        level - 1
    }
}

/// The recorded level after `n` successive one-step-down changes from `level`.
pub open spec fn sweep(level: int, n: nat) -> int
    decreases n,
{
    if n == 0 {
        level
    } else {
        sweep(set_level_state(idle(level), next_lower_spec(level)).level, (n - 1) as nat)
    }
}

/// Number of pulses to go from `current` to a nonzero `target`.
pub fn pulses(current: u8, target: u8) -> (r: u8)
    requires
        current <= MAX_LEVEL,
        1 <= target <= MAX_LEVEL,
    ensures
        r as int == pulses_spec(current as int, target as int),
        r < RING_SIZE,
{
    if current >= target {
        (current - target) % RING_SIZE
    } else {
        RING_SIZE - (target - current)
    }
}

/// The pin steps that move the backlight from `current` to `target`.
pub fn plan(current: u8, target: u8) -> (r: Vec<PinStep>)
    requires
        current <= MAX_LEVEL,
        target <= MAX_LEVEL,
    ensures
        r@ == plan_spec(current as int, target as int),
{
    let mut steps: Vec<PinStep> = Vec::new();
    if target == 0 {
        steps.push(PinStep::Low);
        steps.push(PinStep::WaitMs(SETTLE_MS));
        return steps;
    }
    let n = pulses(current, target);
    steps.push(PinStep::High);
    steps.push(PinStep::WaitUs(PULSE_SETTLE_US));
    let head: Ghost<Seq<PinStep>> = Ghost(steps@);
    proof {
        assert(head@ =~= seq![PinStep::High, PinStep::WaitUs(PULSE_SETTLE_US)]);
        assert(steps@ =~= head@ + pulse_train(0));
    }
    let mut i: u8 = 0;
    while i < n
        invariant
            i <= n,
            steps@ == head@ + pulse_train(i as nat),
            head@ == seq![PinStep::High, PinStep::WaitUs(PULSE_SETTLE_US)],
        decreases n - i,
    {
        steps.push(PinStep::Low);
        steps.push(PinStep::High);
        steps.push(PinStep::WaitUs(PULSE_SETTLE_US));
        proof {
            assert(pulse_train((i + 1) as nat) == pulse_train(i as nat) + pulse());
            assert(steps@ =~= head@ + pulse_train((i + 1) as nat));
        }
        i = i + 1;
    }
    steps.push(PinStep::WaitMs(SETTLE_MS));
    steps
}

/// The next level down the ring, as a brightness sweep visits them.
pub fn next_lower(level: u8) -> (r: u8)
    requires
        level <= MAX_LEVEL,
    ensures
        r as int == next_lower_spec(level as int),
        1 <= r <= MAX_LEVEL,
{
    if level <= 1 {
        MAX_LEVEL
    } else {
        level - 1
    }
}

/// The owner of the recorded brightness level.
///
/// A change is handed out by `begin` as a list of pin steps and recorded by
/// `finish` once the steps have run; while one is in flight no other starts.
pub struct Dimmer {
    level: u8,
    pending: Option<u8>,
}

impl View for Dimmer {
    type V = DimmerState;

    closed spec fn view(&self) -> DimmerState {
        DimmerState {
            level: self.level as int,
            pending: match self.pending {
                Some(t) => Some(t as int),
                None => None,
            },
        }
    }
}

impl Dimmer {
    pub open spec fn wf(&self) -> bool {
        &&& valid_level(self@.level)
        &&& match self@.pending {
            Some(t) => valid_level(t),
            None => true,
        }
    }

    /// A dimmer that assumes the hardware stands at `initial`.
    pub fn new(initial: u8) -> (r: Dimmer)
        requires
            initial <= MAX_LEVEL,
        ensures
            r.wf(),
            r@ == idle(initial as int),
    {
        Dimmer { level: initial, pending: None }
    }

    /// The recorded level.
    pub fn level(&self) -> (r: u8)
        ensures
            r as int == self@.level,
    {
        self.level
    }

    /// Whether a transition is in flight.
    pub fn is_busy(&self) -> (r: bool)
        ensures
            r == self@.pending.is_some(),
    {
        self.pending.is_some()
    }

    /// Starts a change to `target` and returns the steps to perform.
    ///
    /// Refused, with nothing changed, if `target` is out of range or another
    /// change is in flight.
    pub fn begin(&mut self, target: u8) -> (r: Result<Vec<PinStep>, DimmerError>)
        requires
            old(self).wf(),
        ensures
            final(self).wf(),
            final(self)@ == begin_state(old(self)@, target as int),
            match r {
                Ok(steps) => begin_error(old(self)@, target as int).is_none() && steps@ == plan_spec(
                    old(self)@.level,
                    target as int,
                ),
                Err(e) => begin_error(old(self)@, target as int) == Some(e),
            },
    {
        if target > MAX_LEVEL {
            return Err(DimmerError::InvalidLevel);
        }
        if self.pending.is_some() {
            return Err(DimmerError::Busy);
        }
        let steps = plan(self.level, target);
        self.pending = Some(target);
        Ok(steps)
    }

    /// Completes the change in flight: its target becomes the recorded level
    /// if every step succeeded, and the level is left as it was otherwise.
    pub fn finish(&mut self, succeeded: bool) -> (r: Result<(), DimmerError>)
        requires
            old(self).wf(),
        ensures
            final(self).wf(),
            final(self)@ == finish_state(old(self)@, succeeded),
            r is Err <==> old(self)@.pending is None,
            r is Err ==> r == Err::<(), DimmerError>(DimmerError::Idle),
    {
        match self.pending {
            Some(t) => {
                if succeeded {
                    self.level = t;
                }
                self.pending = None;
                Ok(())
            },
            None => Err(DimmerError::Idle),
        }
    }
}

/// From any level `a`, a change to a nonzero level `b` takes `(a - b) mod 16`
/// pulses, each a low-high transition, and leaves `b` as the recorded level.
pub proof fn lemma_set_level_lands_on_target(a: int, b: int)
    requires
        valid_level(a),
        valid_level(b),
        b != 0,
    ensures
        pulses_spec(a, b) == (a - b) % 16,
        0 <= pulses_spec(a, b) < 16,
        plan_spec(a, b) == seq![PinStep::High, PinStep::WaitUs(PULSE_SETTLE_US)] + pulse_train(
            pulses_spec(a, b) as nat,
        ) + seq![PinStep::WaitMs(SETTLE_MS)],
        set_level_state(idle(a), b) == idle(b),
{
}

/// Sixteen changes, each one step down the ring, bring the recorded level back
/// to where it started, and each of them takes exactly one pulse.
pub proof fn lemma_sweep_closes_ring(a: int)
    requires
        1 <= a <= MAX_LEVEL as int,
    ensures
        sweep(a, 16) == a,
        forall|l: int|
            1 <= l <= MAX_LEVEL as int ==> #[trigger] pulses_spec(l, next_lower_spec(l)) == 1,
{
    lemma_sweep_steps(a, 16);
}

proof fn lemma_sweep_steps(a: int, n: nat)
    requires
        1 <= a <= MAX_LEVEL as int,
        n <= 16,
    ensures
        sweep(a, n) == if n < a {
            a - n
        } else {
            a - n + 16
        },
    decreases n,
{
    if n > 0 {
        let next = next_lower_spec(a);
        assert(set_level_state(idle(a), next).level == next);
        lemma_sweep_steps(next, (n - 1) as nat);
    }
}

/// Switching off always records level 0, from any level, and takes one settle
/// delay with the line held low and no pulse at all.
pub proof fn lemma_switch_off(a: int)
    requires
        valid_level(a),
    ensures
        set_level_state(idle(a), 0) == idle(0),
        plan_spec(a, 0) == seq![PinStep::Low, PinStep::WaitMs(SETTLE_MS)],
{
}

} // verus!

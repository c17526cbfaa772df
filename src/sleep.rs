use vstd::prelude::*;

verus! {

/// Configuration parameters for putting workers to sleep while they don't
/// have any tasks to execute. All periods are in milliseconds.
#[derive(Clone, Copy, Debug, PartialEq, Eq, Structural)]
pub struct SleepParams {
    /// the current sleep period
    pub sleep_period: u64,
    /// the maximum period a worker is allowed to sleep; after this value is
    /// reached, `sleep_period` is not increased anymore
    pub max_sleep_period: u64,
    /// the initial value of `sleep_period`
    pub min_sleep_period: u64,
    /// the step that `sleep_period` is increased by on every empty poll
    pub sleep_step: u64,
}

/// The period after one idle increase: one step more, never above the maximum.
pub open spec fn increased_period(current: nat, max: nat, step: nat) -> nat {
    if current < max {
        if current + step <= max { current + step } else { max }
    } else {
        current
    }
}

/// The period after `k` consecutive idle increases.
pub open spec fn period_after(current: nat, max: nat, step: nat, k: nat) -> nat
    decreases k,
{
    if k == 0 {
        current
    } else {
        increased_period(period_after(current, max, step, (k - 1) as nat), max, step)
    }
}

impl SleepParams {
    /// The bounds `min <= current <= max` and a positive step.
    pub open spec fn wf(&self) -> bool {
        &&& self.min_sleep_period <= self.sleep_period
        &&& self.sleep_period <= self.max_sleep_period
        &&& self.sleep_step > 0
    }

    /// Builds the parameters; `None` when the bounds or the step are invalid.
    pub fn new(sleep_period: u64, max_sleep_period: u64, min_sleep_period: u64, sleep_step: u64) -> (r: Option<
        SleepParams,
    >)
        ensures
            r matches Some(p) ==> p.wf() && p.sleep_period == sleep_period && p.max_sleep_period
                == max_sleep_period && p.min_sleep_period == min_sleep_period && p.sleep_step
                == sleep_step,
            r is None <==> !(min_sleep_period <= sleep_period && sleep_period <= max_sleep_period
                && sleep_step > 0),
    {
        if min_sleep_period <= sleep_period && sleep_period <= max_sleep_period && sleep_step > 0 {
            Some(SleepParams { sleep_period, max_sleep_period, min_sleep_period, sleep_step })
        } else {
            None
        }
    }

    /// Resets `sleep_period` to `min_sleep_period` if it differs from it.
    pub fn maybe_reset_sleep_period(&mut self)
        ensures
            final(self).sleep_period == old(self).min_sleep_period,
            final(self).min_sleep_period == old(self).min_sleep_period,
            final(self).max_sleep_period == old(self).max_sleep_period,
            final(self).sleep_step == old(self).sleep_step,
            old(self).min_sleep_period <= old(self).max_sleep_period && old(self).sleep_step > 0
                ==> final(self).wf(),
    {
        if self.sleep_period != self.min_sleep_period {
            self.sleep_period = self.min_sleep_period;
        }
    }

    /// Increases `sleep_period` by `sleep_step`, capped at `max_sleep_period`,
    /// if the maximum is not reached yet.
    pub fn maybe_increase_sleep_period(&mut self)
        ensures
            final(self).sleep_period == increased_period(
                old(self).sleep_period as nat,
                old(self).max_sleep_period as nat,
                old(self).sleep_step as nat,
            ),
            final(self).min_sleep_period == old(self).min_sleep_period,
            final(self).max_sleep_period == old(self).max_sleep_period,
            final(self).sleep_step == old(self).sleep_step,
            old(self).wf() ==> final(self).wf(),
    {
        if self.sleep_period < self.max_sleep_period {
            if self.sleep_step <= self.max_sleep_period - self.sleep_period {
                self.sleep_period = self.sleep_period + self.sleep_step;
            } else {
                self.sleep_period = self.max_sleep_period;
            }
        }
    }
}

impl Default for SleepParams {
    /// Five seconds at first, growing by five seconds up to fifteen.
    fn default() -> (r: SleepParams)
        ensures
            r.sleep_period == 5000 && r.max_sleep_period == 15000 && r.min_sleep_period == 5000
                && r.sleep_step == 5000,
            r.wf(),
    {
        SleepParams {
            sleep_period: 5000,
            max_sleep_period: 15000,
            min_sleep_period: 5000,
            sleep_step: 5000,
        }
    }
}

/// Idle backoff is linear and bounded: starting from the minimum, after `k`
/// consecutive empty polls the period is `min + k * step`, capped at `max`.
pub proof fn lemma_idle_backoff(min: nat, max: nat, step: nat, k: nat)
    requires
        min <= max,
        step > 0,
    ensures
        period_after(min, max, step, k) == if min + k * step <= max {
            min + k * step
        } else {
            max
        },
    decreases k,
{
    if k > 0 {
        lemma_idle_backoff(min, max, step, (k - 1) as nat);
        assert((min + (k - 1) * step) + step == min + k * step) by (nonlinear_arith);
        assert(min + (k - 1) * step <= min + k * step) by (nonlinear_arith)
            requires step > 0, k > 0;
    } else {
        assert(k * step == 0) by (nonlinear_arith) requires k == 0;
    }
}

/// Any number of empty polls keeps well-formed parameters within their bounds.
pub proof fn lemma_backoff_bounded(p: SleepParams, k: nat)
    requires
        p.wf(),
    ensures
        period_after(p.sleep_period as nat, p.max_sleep_period as nat, p.sleep_step as nat, k)
            <= p.max_sleep_period,
        period_after(p.sleep_period as nat, p.max_sleep_period as nat, p.sleep_step as nat, k)
            >= p.min_sleep_period,
    decreases k,
{
    if k > 0 {
        lemma_backoff_bounded(p, (k - 1) as nat);
    }
}

} // verus!

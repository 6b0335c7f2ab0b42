//! Pressure-following amplitude envelope with a hysteresis gate.
use vstd::prelude::*;

use crate::config::{PRESSURE_GATE_OFF_Q15, PRESSURE_GATE_ON_Q15};

verus! {

/// Per-sample increment of the default 1 ms slew at 44.1 kHz (32768 / 44.1 samples).
pub const ENVELOPE_DEFAULT_INC: i32 = 743;

/// Whether the envelope is sounding.
#[derive(Clone, Copy, Debug, PartialEq, Eq, Structural)]
pub enum EnvState {
    Idle,
    Active,
}

/// Whether the pressure passes: an idle envelope opens above the on threshold, an active one
/// stays open above the lower off threshold.
pub open spec fn gate_open(idle: bool, input: int) -> bool {
    if idle {
        input > PRESSURE_GATE_ON_Q15
    } else {
        input > PRESSURE_GATE_OFF_Q15
    }
}

/// The level the envelope moves toward: the pressure while it passes, else zero.
pub open spec fn env_target(idle: bool, input: int) -> int {
    if gate_open(idle, input) {
        input
    } else {
        0
    }
}

/// The level after one sample: a step of at most `attack` up or `release` down toward the
/// target, never past it, and never below zero.
pub open spec fn env_next_level(idle: bool, level: int, attack: int, release: int, input: int) -> int {
    let target = env_target(idle, input);
    let moved = if target > level {
        if level + attack < target {
            level + attack
        } else {
            target
        }
    } else if target < level {
        if level - release > target {
            level - release
        } else {
            target
        }
    } else {
        level
    };
    if moved <= 0 {
        0
    } else {
        moved
    }
}

/// The level after `k` samples at a constant pressure, starting from `level`.
pub open spec fn env_level_after(level: int, attack: int, release: int, input: int, k: nat) -> int
    decreases k,
{
    if k == 0 {
        level
    } else {
        let l = env_level_after(level, attack, release, input, (k - 1) as nat);
        env_next_level(l == 0, l, attack, release, input)
    }
}

/// The level after one sample for each pressure of `ps` in turn, starting from `level`
/// (the envelope being idle exactly when its level is zero).
pub open spec fn env_level_after_inputs(level: int, attack: int, release: int, ps: Seq<int>) -> int
    decreases ps.len(),
{
    if ps.len() == 0 {
        level
    } else {
        let l = env_level_after_inputs(level, attack, release, ps.drop_last());
        env_next_level(l == 0, l, attack, release, ps.last())
    }
}

/// Amplitude envelope driven by pressure, in Q15.
pub struct Envelope {
    state: EnvState,
    level_q15: i32,
    attack_inc: i32,
    release_inc: i32,
}

impl Envelope {
    /// Current level.
    pub closed spec fn level(&self) -> int {
        self.level_q15 as int
    }

    /// Rise per sample while below the target.
    pub closed spec fn attack_inc(&self) -> int {
        self.attack_inc as int
    }

    /// Fall per sample while above the target.
    pub closed spec fn release_inc(&self) -> int {
        self.release_inc as int
    }

    /// Whether the state is idle.
    pub closed spec fn idle(&self) -> bool {
        self.state == EnvState::Idle
    }

    /// The level stays in [0, 32767], the envelope is idle exactly when the level is zero,
    /// and the increments lie in [0, 32768].
    pub closed spec fn wf(&self) -> bool {
        &&& 0 <= self.level_q15 <= 32767
        &&& (self.state == EnvState::Idle <==> self.level_q15 == 0)
        &&& 0 <= self.attack_inc <= 32768
        &&& 0 <= self.release_inc <= 32768
    }

    /// The well-formedness, stated over the public view.
    pub proof fn lemma_wf(&self)
        requires
            self.wf(),
        ensures
            0 <= self.level() <= 32767,
            self.idle() <==> self.level() == 0,
            0 <= self.attack_inc() <= 32768,
            0 <= self.release_inc() <= 32768,
    {
    }

    /// A silent envelope with the default 1 ms slew both ways.
    pub fn new() -> (e: Self)
        ensures
            e.wf(),
            e.idle(),
            e.level() == 0,
            e.attack_inc() == ENVELOPE_DEFAULT_INC,
            e.release_inc() == ENVELOPE_DEFAULT_INC,
    {
        Self {
            state: EnvState::Idle,
            level_q15: 0,
            attack_inc: ENVELOPE_DEFAULT_INC,
            release_inc: ENVELOPE_DEFAULT_INC,
        }
    }

    /// Sets the rise per sample (32768 divided by the attack time in samples).
    pub fn set_attack_increment(&mut self, inc: i32)
        requires
            old(self).wf(),
            0 <= inc <= 32768,
        ensures
            final(self).wf(),
            final(self).attack_inc() == inc,
            final(self).release_inc() == old(self).release_inc(),
            final(self).level() == old(self).level(),
            final(self).idle() == old(self).idle(),
    {
        self.attack_inc = inc;
    }

    /// Sets the fall per sample (32768 divided by the release time in samples).
    pub fn set_release_increment(&mut self, inc: i32)
        requires
            old(self).wf(),
            0 <= inc <= 32768,
        ensures
            final(self).wf(),
            final(self).release_inc() == inc,
            final(self).attack_inc() == old(self).attack_inc(),
            final(self).level() == old(self).level(),
            final(self).idle() == old(self).idle(),
    {
        self.release_inc = inc;
    }

    /// Advances one sample toward the gated pressure and returns the new level.
    pub fn process(&mut self, pressure_q15: i16) -> (out: i16)
        requires
            old(self).wf(),
        ensures
            final(self).wf(),
            out == final(self).level(),
            out == env_next_level(
                old(self).idle(),
                old(self).level(),
                old(self).attack_inc(),
                old(self).release_inc(),
                pressure_q15 as int,
            ),
            0 <= out <= 32767,
            final(self).idle() <==> out == 0,
            final(self).attack_inc() == old(self).attack_inc(),
            final(self).release_inc() == old(self).release_inc(),
    {
        let input = pressure_q15 as i32;
        let is_gate_open = match self.state {
            EnvState::Idle => input > PRESSURE_GATE_ON_Q15 as i32,
            EnvState::Active => input > PRESSURE_GATE_OFF_Q15 as i32,
        };
        let target = if is_gate_open {
            input
        } else {
            0
        };
        if target > self.level_q15 {
            self.level_q15 = (self.level_q15 + self.attack_inc).min(target);
        } else if target < self.level_q15 {
            self.level_q15 = (self.level_q15 - self.release_inc).max(target);
        }
        if self.level_q15 <= 0 {
            self.level_q15 = 0;
            self.state = EnvState::Idle;
        } else {
            self.state = EnvState::Active;
        }
        self.level_q15 as i16
    }

    /// Whether the envelope is silent.
    pub fn is_idle(&self) -> (b: bool)
        ensures
            b == self.idle(),
    {
        self.state == EnvState::Idle
    }
}

impl Default for Envelope {
    fn default() -> (e: Self)
        ensures
            e.wf(),
            e.idle(),
            e.level() == 0,
            e.attack_inc() == ENVELOPE_DEFAULT_INC,
            e.release_inc() == ENVELOPE_DEFAULT_INC,
    {
        Self::new()
    }
}

/// One sample moves the level toward the target and never past it, by at most the attack
/// increment up and the release increment down, and keeps it in [0, 32767].
pub proof fn lemma_step_toward_target(idle: bool, level: int, attack: int, release: int, input: i16)
    requires
        0 <= level <= 32767,
        0 <= attack,
        0 <= release,
    ensures
        ({
            let t = env_target(idle, input as int);
            let n = env_next_level(idle, level, attack, release, input as int);
            &&& 0 <= n <= 32767
            &&& (level <= t ==> level <= n <= t)
            &&& (t <= level ==> t <= n <= level)
            &&& n - level <= attack
            &&& level - n <= release
        }),
{
}

/// Hysteresis: a silent envelope stays silent until the pressure exceeds the on threshold,
/// while a sounding one keeps following any pressure above the lower off threshold.
pub proof fn lemma_gate_hysteresis(level: int, attack: int, release: int, input: i16)
    requires
        0 <= level <= 32767,
        0 <= attack,
        0 <= release,
    ensures
        input <= PRESSURE_GATE_ON_Q15 ==> env_next_level(true, 0, attack, release, input as int) == 0,
        input > PRESSURE_GATE_OFF_Q15 ==> env_target(false, input as int) == input,
        input <= PRESSURE_GATE_OFF_Q15 ==> env_target(false, input as int) == 0 && env_target(
            true,
            input as int,
        ) == 0,
        input > PRESSURE_GATE_ON_Q15 ==> env_target(true, input as int) == input,
{
}

/// Release: once the pressure is at or below the off threshold, the level falls by the
/// release increment each sample until it reaches zero.
pub proof fn lemma_release_to_silence(level: int, attack: int, release: int, input: i16, k: nat)
    requires
        0 <= level <= 32767,
        0 <= attack,
        0 < release,
        input <= PRESSURE_GATE_OFF_Q15,
    ensures
        env_level_after(level, attack, release, input as int, k) == if level - k * release > 0 {
            level - k * release
        } else {
            0
        },
        k * release >= level ==> env_level_after(level, attack, release, input as int, k) == 0,
    decreases k,
{
    if k > 0 {
        lemma_release_to_silence(level, attack, release, input, (k - 1) as nat);
        assert((k - 1) * release + release == k * release) by (nonlinear_arith);
    } else {
        assert(0 * release == 0) by (nonlinear_arith);
    }
}

/// Attack: while the pressure stays above the on threshold, the level moves toward the
/// pressure by the attack increment (or down by the release increment) each sample and
/// then holds it.
pub proof fn lemma_follow_pressure(level: int, attack: int, release: int, input: i16, k: nat)
    requires
        0 <= level <= 32767,
        0 < attack,
        0 < release,
        input > PRESSURE_GATE_ON_Q15,
    ensures
        level <= input ==> env_level_after(level, attack, release, input as int, k) == if level + k
            * attack < input {
            level + k * attack
        } else {
            input as int
        },
        input <= level ==> env_level_after(level, attack, release, input as int, k) == if level - k
            * release > input {
            level - k * release
        } else {
            input as int
        },
        k * attack >= input - level && k * release >= level - input ==> env_level_after(
            level,
            attack,
            release,
            input as int,
            k,
        ) == input,
    decreases k,
{
    if k > 0 {
        lemma_follow_pressure(level, attack, release, input, (k - 1) as nat);
        assert((k - 1) * attack + attack == k * attack) by (nonlinear_arith);
        assert((k - 1) * release + release == k * release) by (nonlinear_arith);
        let l = env_level_after(level, attack, release, input as int, (k - 1) as nat);
        assert(env_target(l == 0, input as int) == input);
        assert(env_level_after(level, attack, release, input as int, k) == env_next_level(
            l == 0,
            l,
            attack,
            release,
            input as int,
        ));
    } else {
        assert(0 * attack == 0 && 0 * release == 0) by (nonlinear_arith);
    }
}

/// Release under any pressures at or below the off threshold, changing or not: each sample
/// lowers the level by the release increment, or to zero if less is left, so silence comes
/// within level / release samples (rounded up).
pub proof fn lemma_release_under_low_pressures(level: int, attack: int, release: int, ps: Seq<int>)
    requires
        0 <= level <= 32767,
        0 <= attack,
        0 < release,
        forall|i: int| 0 <= i < ps.len() ==> #[trigger] ps[i] <= PRESSURE_GATE_OFF_Q15,
    ensures
        env_level_after_inputs(level, attack, release, ps) == if level - ps.len() * release > 0 {
            level - ps.len() * release
        } else {
            0
        },
        ps.len() * release >= level ==> env_level_after_inputs(level, attack, release, ps) == 0,
    decreases ps.len(),
{
    let k = ps.len();
    if k > 0 {
        let q = ps.drop_last();
        assert forall|i: int| 0 <= i < q.len() implies #[trigger] q[i] <= PRESSURE_GATE_OFF_Q15 by {
            assert(q[i] == ps[i]);
        }
        lemma_release_under_low_pressures(level, attack, release, q);
        assert((k - 1) * release + release == k * release) by (nonlinear_arith);
        assert(ps.last() == ps[k - 1]);
    } else {
        assert(0 * release == 0) by (nonlinear_arith);
    }
}

} // verus!

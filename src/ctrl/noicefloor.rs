use vstd::prelude::*;

use crate::stack::Rssi;

verus! {

/// Length of the averaging window of the noise-floor estimator.
pub const AVERAGE_WINDOW: usize = 8;

/// `a / b` rounded toward zero, as Rust's integer division does.
pub open spec fn div_toward_zero(a: int, b: int) -> int
    recommends
        b > 0,
{
    if a >= 0 {
        a / b
    } else {
        -((-a) / b)
    }
}

/// One update of the estimate `v` with the sample `s`:
/// `(v * W - v + s) / W`, with division toward zero.
pub open spec fn floor_step(v: int, s: int) -> int {
    div_toward_zero(v * AVERAGE_WINDOW - v + s, AVERAGE_WINDOW as int)
}

/// Exponentially weighted moving average of the RSSI on one channel.
#[derive(Clone, Copy)]
pub struct NoiceFloor {
    value: Rssi,
    average_window: usize,
}

impl NoiceFloor {
    pub closed spec fn spec_value(&self) -> int {
        self.value as int
    }

    pub closed spec fn wf(&self) -> bool {
        self.average_window == AVERAGE_WINDOW
    }

    pub fn new(initial_value: Rssi) -> (r: Self)
        ensures
            r.wf(),
            r.spec_value() == initial_value,
    {
        Self { value: initial_value, average_window: AVERAGE_WINDOW }
    }

    pub fn value(&self) -> (r: Rssi)
        ensures
            r == self.spec_value(),
    {
        self.value
    }

    /// Folds one RSSI sample into the estimate.
    pub fn add(&mut self, rssi: Rssi)
        requires
            old(self).wf(),
        ensures
            final(self).wf(),
            final(self).spec_value() == floor_step(old(self).spec_value(), rssi as int),
    {
        let w = self.average_window as i64;
        let accumulated: i64 = self.value as i64 * w - self.value as i64 + rssi as i64;
        let next: i64 = if accumulated >= 0 {
            accumulated / w
        } else {
            -((-accumulated) / w)
        };
        proof {
            lemma_step_bounds(self.value as int, rssi as int);
        }
        self.value = next as Rssi;
    }
}

/// The update stays between the old estimate and the sample.
pub proof fn lemma_step_bounds(v: int, s: int)
    ensures
        v <= s ==> v <= floor_step(v, s) <= s,
        s <= v ==> s <= floor_step(v, s) <= v,
{
    let acc = 7 * v + s;
    if acc >= 0 {
        assert(8 * v <= acc ==> v <= acc / 8) by (nonlinear_arith)
            requires acc >= 0;
        assert(acc <= 8 * s ==> acc / 8 <= s) by (nonlinear_arith)
            requires acc >= 0;
        assert(8 * s <= acc ==> s <= acc / 8) by (nonlinear_arith)
            requires acc >= 0;
        assert(acc <= 8 * v ==> acc / 8 <= v) by (nonlinear_arith)
            requires acc >= 0;
    } else {
        let n = -acc;
        assert(n <= -8 * v ==> n / 8 <= -v) by (nonlinear_arith)
            requires n > 0;
        assert(-8 * s <= n ==> -s <= n / 8) by (nonlinear_arith)
            requires n > 0;
        assert(n <= -8 * s ==> n / 8 <= -s) by (nonlinear_arith)
            requires n > 0;
        assert(-8 * v <= n ==> -v <= n / 8) by (nonlinear_arith)
            requires n > 0;
    }
}

/// The estimator settles on a constant input and follows its input
/// monotonically: a sample equal to the estimate leaves it unchanged, and a
/// larger sample never gives a smaller estimate.
pub proof fn lemma_floor_monotone(v: int, s1: int, s2: int)
    requires
        s1 <= s2,
    ensures
        floor_step(v, v) == v,
        floor_step(v, s1) <= floor_step(v, s2),
{
    let a1 = 7 * v + s1;
    let a2 = 7 * v + s2;
    assert(8 * v - v + v == 8 * v);
    vstd::arithmetic::div_mod::lemma_fundamental_div_mod_converse(8 * v, 8, v, 0);
    if v < 0 {
        vstd::arithmetic::div_mod::lemma_fundamental_div_mod_converse(-8 * v, 8, -v, 0);
    }
    if a1 >= 0 {
        vstd::arithmetic::div_mod::lemma_div_is_ordered(a1, a2, 8);
    } else if a2 >= 0 {
        assert((-a1) / 8 >= 0) by {
            vstd::arithmetic::div_mod::lemma_div_pos_is_pos(-a1, 8);
        }
        assert(a2 / 8 >= 0) by {
            vstd::arithmetic::div_mod::lemma_div_pos_is_pos(a2, 8);
        }
    } else {
        vstd::arithmetic::div_mod::lemma_div_is_ordered(-a2, -a1, 8);
    }
}

} // verus!

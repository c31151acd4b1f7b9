use vstd::prelude::*;

use crate::rat::Rat;

verus! {

/// A discrete single-axis PID controller with a fixed control-loop period
/// of 1/50 time units and an anti-windup clamp on the integral accumulator
/// sized inversely to the integral gain.
#[derive(Clone, Copy, PartialEq, Eq, Structural, Debug)]
pub struct PID {
    /// Proportional gain.
    pub p: Rat,
    /// Integral gain.
    pub i: Rat,
    /// Derivative gain.
    pub d: Rat,
    /// The value the controller steers toward.
    pub setpoint: Rat,
    /// The error of the previous step; starts at zero.
    pub prev_err: Rat,
    /// The clamped integral accumulator; starts at zero.
    pub tot_err: Rat,
}

/// The fixed control-loop period, 1/50 of a time unit.
pub open spec fn period() -> Rat {
    Rat { num: 1, den: 50 }
}

/// The reciprocal of the period: steps per time unit.
pub open spec fn steps_per_unit() -> Rat {
    Rat { num: 50, den: 1 }
}

impl PID {
    /// Every stored rational keeps a positive denominator.
    pub open spec fn wf(self) -> bool {
        self.p.wf() && self.i.wf() && self.d.wf() && self.setpoint.wf() && self.prev_err.wf()
            && self.tot_err.wf()
    }

    /// The new integral accumulator for error `pos_err`: unchanged when the
    /// integral gain is zero, otherwise advanced by `pos_err * period` and
    /// clamped to `[-1/i, 1/i]`.  `None` when an exact intermediate does
    /// not fit.
    pub open spec fn integral_spec(st: PID, pos_err: Rat) -> Option<Rat> {
        if st.i.n() == 0 {
            Some(st.tot_err)
        } else {
            match Rat::mul_spec(pos_err, period()) {
                None => None,
                Some(gain) => match Rat::add_spec(st.tot_err, gain) {
                    None => None,
                    Some(a) => match Rat::recip_spec(st.i) {
                        None => None,
                        Some(hi) => match Rat::neg_spec(hi) {
                            None => None,
                            Some(lo) => Some(
                                if Rat::lt_spec(a, lo) {
                                    lo
                                } else if Rat::lt_spec(hi, a) {
                                    hi
                                } else {
                                    a
                                },
                            ),
                        },
                    },
                },
            }
        }
    }

    /// The controller output `p*err + i*tot_err + d*derivative`, summed
    /// left to right.  `None` when an exact intermediate does not fit.
    pub open spec fn output_spec(st: PID, pos_err: Rat, verr: Rat) -> Option<Rat> {
        match Rat::mul_spec(st.p, pos_err) {
            None => None,
            Some(tp) => match Rat::mul_spec(st.i, st.tot_err) {
                None => None,
                Some(ti) => match Rat::mul_spec(st.d, verr) {
                    None => None,
                    Some(td) => match Rat::add_spec(tp, ti) {
                        None => None,
                        Some(s) => Rat::add_spec(s, td),
                    },
                },
            },
        }
    }

    /// One full step on measurement `m`: the error is `setpoint - m`, the
    /// derivative is the error change over one period, the previous error
    /// and the clamped integral accumulator are updated, and the output is
    /// the gain-weighted sum.  `None` when an exact intermediate does not
    /// fit; the state is then unchanged.
    pub open spec fn step_spec(st: PID, m: Rat) -> Option<(PID, Rat)> {
        match Rat::sub_spec(st.setpoint, m) {
            None => None,
            Some(pos_err) => match Rat::sub_spec(pos_err, st.prev_err) {
                None => None,
                Some(de) => match Rat::mul_spec(de, steps_per_unit()) {
                    None => None,
                    Some(verr) => match PID::integral_spec(st, pos_err) {
                        None => None,
                        Some(tot2) => {
                            let st2 = PID { prev_err: pos_err, tot_err: tot2, ..st };
                            match PID::output_spec(st2, pos_err, verr) {
                                None => None,
                                Some(out) => Some((st2, out)),
                            }
                        },
                    },
                },
            },
        }
    }

    /// A controller with the given gains, setpoint zero, and no history.
    pub fn new(p: Rat, i: Rat, d: Rat) -> (r: PID)
        requires
            p.wf(),
            i.wf(),
            d.wf(),
        ensures
            r.wf(),
            r.p == p,
            r.i == i,
            r.d == d,
            r.setpoint == (Rat { num: 0, den: 1 }),
            r.prev_err == (Rat { num: 0, den: 1 }),
            r.tot_err == (Rat { num: 0, den: 1 }),
    {
        PID {
            p,
            i,
            d,
            setpoint: Rat::zero(),
            prev_err: Rat::zero(),
            tot_err: Rat::zero(),
        }
    }

    /// One PID step on measurement `m`, exactly as `step_spec` says: the
    /// output is returned and the history fields advance, or `None` comes
    /// back, the state unchanged, when an exact intermediate does not fit.
    pub fn calculate(&mut self, m: Rat) -> (r: Option<Rat>)
        requires
            old(self).wf(),
            m.wf(),
        ensures
            match PID::step_spec(*old(self), m) {
                Some(sr) => *final(self) == sr.0 && r == Some(sr.1) && sr.0.wf() && sr.1.wf(),
                None => *final(self) == *old(self) && r is None,
            },
    {
        let pos_err = match self.setpoint.checked_sub(m) {
            Some(v) => v,
            None => {
                return None;
            },
        };
        let de = match pos_err.checked_sub(self.prev_err) {
            Some(v) => v,
            None => {
                return None;
            },
        };
        let verr = match de.checked_mul(Rat { num: 50, den: 1 }) {
            Some(v) => v,
            None => {
                return None;
            },
        };
        let tot2 = if self.i.is_zero() {
            self.tot_err
        } else {
            let gain = match pos_err.checked_mul(Rat { num: 1, den: 50 }) {
                Some(v) => v,
                None => {
                    return None;
                },
            };
            let a = match self.tot_err.checked_add(gain) {
                Some(v) => v,
                None => {
                    return None;
                },
            };
            let hi = match self.i.checked_recip() {
                Some(v) => v,
                None => {
                    return None;
                },
            };
            let lo = match hi.checked_neg() {
                Some(v) => v,
                None => {
                    return None;
                },
            };
            if a.lt(lo) {
                lo
            } else if hi.lt(a) {
                hi
            } else {
                a
            }
        };
        let tp = match self.p.checked_mul(pos_err) {
            Some(v) => v,
            None => {
                return None;
            },
        };
        let ti = match self.i.checked_mul(tot2) {
            Some(v) => v,
            None => {
                return None;
            },
        };
        let td = match self.d.checked_mul(verr) {
            Some(v) => v,
            None => {
                return None;
            },
        };
        let s = match tp.checked_add(ti) {
            Some(v) => v,
            None => {
                return None;
            },
        };
        let out = match s.checked_add(td) {
            Some(v) => v,
            None => {
                return None;
            },
        };
        self.prev_err = pos_err;
        self.tot_err = tot2;
        Some(out)
    }
}

} // verus!

//! Optimizers: update a parameter's value from its gradient.

use vstd::prelude::*;

use crate::autograd::{Parameter, ParameterModel};
use crate::tensor::TensorModel;

verus! {

/// `v - lr * g`, elementwise and wrapping.
pub open spec fn descend(v: Seq<i64>, g: Seq<i64>, lr: i64) -> Seq<i64> {
    Seq::new(v.len(), |i: int| v[i].wrapping_sub(lr.wrapping_mul(g[i])))
}

/// The next velocity: `momentum * vel + g` elementwise and wrapping, or `g`
/// where there is no velocity yet.
pub open spec fn next_velocity(vel: Option<Seq<i64>>, g: Seq<i64>, momentum: i64) -> Seq<i64> {
    match vel {
        None => g,
        Some(v) => Seq::new(g.len(), |i: int| momentum.wrapping_mul(v[i]).wrapping_add(g[i])),
    }
}

/// Stochastic gradient descent, with momentum where one is given.
#[derive(Clone, Copy, Debug, PartialEq, Eq, Structural)]
pub struct Sgd {
    momentum: Option<i64>,
}

impl Sgd {
    /// Plain gradient descent, which keeps no state.
    pub fn new() -> (r: Sgd)
        ensures
            r.momentum_spec() is None,
    {
        Sgd { momentum: None }
    }

    /// Gradient descent with momentum `momentum`, which keeps a velocity per parameter.
    pub fn with_momentum(momentum: i64) -> (r: Sgd)
        ensures
            r.momentum_spec() == Some(momentum),
    {
        Sgd { momentum: Some(momentum) }
    }

    pub closed spec fn momentum_spec(self) -> Option<i64> {
        self.momentum
    }

    /// What a parameter holds after an update with rate `lr`.
    pub open spec fn updated(self, p: ParameterModel, lr: i64) -> ParameterModel {
        let g = p.grad->Some_0;
        match self.momentum_spec() {
            None => ParameterModel {
                value: TensorModel { shape: p.value.shape, data: descend(p.value.data, g, lr) },
                ..p
            },
            Some(m) => {
                let vel = next_velocity(p.velocity, g, m);
                ParameterModel {
                    value: TensorModel { shape: p.value.shape, data: descend(p.value.data, vel, lr) },
                    velocity: Some(vel),
                    ..p
                }
            },
        }
    }

    /// Updates `param` with learning rate `lr` and returns true; where the
    /// parameter has no gradient (no backward pass reached it), changes
    /// nothing and returns false.
    pub fn update(&self, lr: i64, param: &mut Parameter) -> (r: bool)
        requires
            old(param)@.wf(),
        ensures
            r == old(param)@.grad is Some,
            r ==> final(param)@ == self.updated(old(param)@, lr),
            !r ==> final(param)@ == old(param)@,
            final(param)@.wf(),
    {
        let g = match param.grad() {
            Some(g) => g,
            None => {
                return false;
            },
        };
        let vel = match self.momentum {
            None => param.velocity(),
            Some(m) => {
                let v = match param.velocity() {
                    None => g.clone(),
                    Some(v) => {
                        let mut out: Vec<i64> = Vec::new();
                        let mut i: usize = 0;
                        while i < g.len()
                            invariant
                                i <= g@.len() == v@.len(),
                                out@ == next_velocity(Some(v@), g@, m).subrange(0, i as int),
                            decreases g@.len() - i,
                        {
                            out.push(m.wrapping_mul(v[i]).wrapping_add(g[i]));
                            i += 1;
                            proof {
                                assert(out@ =~= next_velocity(Some(v@), g@, m).subrange(
                                    0,
                                    i as int,
                                ));
                            }
                        }
                        proof {
                            assert(out@ =~= next_velocity(Some(v@), g@, m));
                        }
                        out
                    },
                };
                Some(v)
            },
        };
        let step = match (&vel, self.momentum) {
            (Some(v), Some(_)) => v.clone(),
            _ => g.clone(),
        };
        let value = param.value().as_slice();
        let mut data: Vec<i64> = Vec::new();
        let mut i: usize = 0;
        while i < value.len()
            invariant
                i <= value@.len() == step@.len(),
                data@ == descend(value@, step@, lr).subrange(0, i as int),
            decreases value@.len() - i,
        {
            data.push(value[i].wrapping_sub(lr.wrapping_mul(step[i])));
            i += 1;
            proof {
                assert(data@ =~= descend(value@, step@, lr).subrange(0, i as int));
            }
        }
        proof {
            assert(data@ =~= descend(value@, step@, lr));
        }
        param.set_value_and_velocity(data, vel);
        true
    }
}

} // verus!

//! Per-spring state carried between steps: the remembered damping axis and
//! the tear accumulated under overload.
use vstd::prelude::*;
use crate::fixed::{real_of, Real, SCALE};
use crate::kinematic::Kinematic;
use crate::spring::{Spring, SpringInstant};

verus! {

/// Fatigue of a spring: sustained overload accumulates tear, lighter loads
/// heal it, and the spring breaks once the tear reaches 1.
///
/// The steps are applied once per evaluation, so they depend on the rate
/// at which the spring is evaluated.
#[derive(Clone, Copy, Debug, PartialEq, Eq, Structural)]
pub struct SpringBreak {
    /// Accumulated tear, kept within `[0, 1]`.
    pub tear: Real,
    /// Impulse length from which the spring tears.
    pub tear_force: Real,
    /// Tear added by an evaluation at or above `tear_force`.
    pub tear_step: Real,
    /// Tear removed by an evaluation below `tear_force`.
    pub heal_step: Real,
}

/// The outcome of evaluating a spring.
#[derive(Clone, Copy, Debug, PartialEq, Eq, Structural)]
pub enum SpringResult<K> {
    /// The impulse to apply.
    Impulse(K),
    /// The spring broke on this step; the impulse it computed is carried.
    Broke(K),
}

/// A spring with the state it keeps between evaluations.
#[derive(Clone, Copy, Debug, PartialEq, Eq, Structural)]
pub struct SpringState<K> {
    /// The unit vector of the previous evaluation's displacement; `None`
    /// before the first evaluation.
    pub last_unit_vector: Option<K>,
    /// Tear bookkeeping, where the spring can break.
    pub breaking: Option<SpringBreak>,
    pub spring: Spring,
}

pub open spec fn unit_interval(r: Real) -> bool {
    0 <= r.val() <= SCALE
}

impl SpringBreak {
    pub open spec fn wf(self) -> bool {
        &&& unit_interval(self.tear)
        &&& self.tear_force.val() >= 0
        &&& unit_interval(self.tear_step)
        &&& unit_interval(self.heal_step)
    }

    /// The tear after an evaluation whose impulse has length `magnitude`.
    pub open spec fn spec_next_tear(self, magnitude: Real) -> Real {
        let t = if magnitude.val() >= self.tear_force.val() {
            self.tear.spec_add(self.tear_step)
        } else {
            self.tear.spec_sub(self.heal_step)
        };
        t.spec_clamp(real_of(0), real_of(SCALE as int))
    }

    pub open spec fn spec_after(self, magnitude: Real) -> SpringBreak {
        SpringBreak { tear: self.spec_next_tear(magnitude), ..self }
    }

    /// The bookkeeping after evaluations with the given impulse lengths,
    /// in order.
    pub open spec fn spec_after_all(self, magnitudes: Seq<Real>) -> SpringBreak
        decreases magnitudes.len(),
    {
        if magnitudes.len() == 0 {
            self
        } else {
            self.spec_after(magnitudes[0]).spec_after_all(magnitudes.drop_first())
        }
    }

    /// The tear stays within `[0, 1]`; on well-formed bookkeeping it rises
    /// only under a load at or above `tear_force` and falls only under a
    /// lighter one.
    pub proof fn lemma_update(self, magnitude: Real)
        ensures
            unit_interval(self.spec_next_tear(magnitude)),
            self.wf() ==> self.spec_after(magnitude).wf(),
            self.wf() && self.spec_next_tear(magnitude).val() > self.tear.val() ==> magnitude.val()
                >= self.tear_force.val(),
            self.wf() && self.spec_next_tear(magnitude).val() < self.tear.val() ==> magnitude.val()
                < self.tear_force.val(),
    {
    }

    /// Over any sequence of impulse lengths, every intermediate tear stays
    /// within `[0, 1]` and moves only in the direction the load calls for.
    pub proof fn lemma_tear_sequence(self, magnitudes: Seq<Real>, i: int)
        requires
            self.wf(),
            0 <= i < magnitudes.len(),
        ensures
            self.spec_after_all(magnitudes.take(i)).wf(),
            self.spec_after_all(magnitudes.take(i + 1)).wf(),
            ({
                let before = self.spec_after_all(magnitudes.take(i)).tear.val();
                let after = self.spec_after_all(magnitudes.take(i + 1)).tear.val();
                &&& after > before ==> magnitudes[i].val() >= self.tear_force.val()
                &&& after < before ==> magnitudes[i].val() < self.tear_force.val()
            }),
        decreases i,
    {
        let first = self.spec_after(magnitudes[0]);
        self.lemma_update(magnitudes[0]);
        let rest = magnitudes.drop_first();
        assert(magnitudes.take(i + 1)[0] == magnitudes[0]);
        assert(magnitudes.take(i + 1).drop_first() =~= rest.take(i));
        assert(self.spec_after_all(magnitudes.take(i + 1)) == first.spec_after_all(rest.take(i)));
        if i > 0 {
            assert(magnitudes.take(i)[0] == magnitudes[0]);
            assert(magnitudes.take(i).drop_first() =~= rest.take(i - 1));
            assert(self.spec_after_all(magnitudes.take(i)) == first.spec_after_all(rest.take(i - 1)));
            first.lemma_tear_sequence(rest, i - 1);
            assert(rest[i - 1] == magnitudes[i]);
        } else {
            assert(magnitudes.take(0) =~= Seq::<Real>::empty());
            assert(rest.take(0) =~= Seq::<Real>::empty());
        }
    }

    /// Records an evaluation whose impulse has length `magnitude`, and tells
    /// whether the spring is now broken.
    pub fn impulse(&mut self, magnitude: Real) -> (broken: bool)
        ensures
            *final(self) == old(self).spec_after(magnitude),
            broken == (final(self).tear.val() >= SCALE),
            unit_interval(final(self).tear),
            old(self).wf() ==> final(self).wf(),
            old(self).wf() && final(self).tear.val() > old(self).tear.val() ==> magnitude.val()
                >= old(self).tear_force.val(),
            old(self).wf() && final(self).tear.val() < old(self).tear.val() ==> magnitude.val()
                < old(self).tear_force.val(),
    {
        proof {
            self.lemma_update(magnitude);
        }
        let t = if magnitude.micros >= self.tear_force.micros {
            self.tear.add(self.tear_step)
        } else {
            self.tear.sub(self.heal_step)
        };
        self.tear = t.clamp(Real::zero(), Real::one());
        self.tear.micros >= SCALE
    }
}

impl Default for SpringBreak {
    fn default() -> (r: SpringBreak)
        ensures
            r == (SpringBreak {
                tear: real_of(0),
                tear_force: real_of(SCALE as int),
                tear_step: real_of(10_000),
                heal_step: real_of(10_000),
            }),
    {
        SpringBreak {
            tear: Real::zero(),
            tear_force: Real::one(),
            tear_step: Real::from_micros(10_000),
            heal_step: Real::from_micros(10_000),
        }
    }
}

impl<K: Kinematic> SpringState<K> {
    /// A spring that has not been evaluated yet and cannot break.
    pub fn new(spring: Spring) -> (r: SpringState<K>)
        ensures
            r == (SpringState::<K> { last_unit_vector: None, breaking: None, spring }),
    {
        SpringState { last_unit_vector: None, breaking: None, spring }
    }

    /// The result of an evaluation that computed `impulse` and left the
    /// break bookkeeping as `after`.
    pub open spec fn spec_result(after: Option<SpringBreak>, impulse: K) -> SpringResult<K> {
        match after {
            Some(b) if b.tear.val() >= SCALE => SpringResult::Broke(impulse),
            _ => SpringResult::Impulse(impulse),
        }
    }

    /// Evaluates the spring for one step: computes the impulse, remembers
    /// the displacement's unit vector for the next step's damping, and
    /// feeds the impulse's length to the break bookkeeping.
    pub fn impulse(&mut self, timestep: Real, instant: SpringInstant<K>) -> (r: SpringResult<K>)
        requires
            timestep.val() > 0,
        ensures
            ({
                let (imp, unit) = old(self).spring.spec_impulse(
                    timestep,
                    instant,
                    old(self).last_unit_vector,
                );
                &&& final(self).spring == old(self).spring
                &&& final(self).last_unit_vector == Some(unit)
                &&& final(self).breaking == match old(self).breaking {
                    Some(b) => Some(
                        SpringBreak { tear: b.spec_next_tear(imp.spec_length()), ..b },
                    ),
                    None => None,
                }
                &&& r == Self::spec_result(final(self).breaking, imp)
            }),
    {
        let (imp, unit) = self.spring.impulse(timestep, instant, self.last_unit_vector);
        self.last_unit_vector = Some(unit);
        match self.breaking {
            Some(b) => {
                let mut b = b;
                let broken = b.impulse(imp.length());
                self.breaking = Some(b);
                if broken {
                    SpringResult::Broke(imp)
                } else {
                    SpringResult::Impulse(imp)
                }
            },
            None => SpringResult::Impulse(imp),
        }
    }
}

} // verus!

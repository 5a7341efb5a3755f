use vstd::prelude::*;

verus! {

/// Hit points: a current amount that never exceeds the maximum.
#[derive(Copy, Clone, PartialEq, Eq, Structural, Debug)]
pub struct HealthPoints {
    pub(crate) current: u32,
    pub(crate) maximum: u32,
}

/// Anything that has hit points, loses them to damage and may regain them.
pub trait Health: Sized {
    /// The entity's hit points.
    spec fn spec_health(&self) -> HealthPoints;

    /// Whether restoring health has any effect on this kind of entity.
    spec fn can_heal(&self) -> bool;

    /// The same entity with its hit points replaced by `h`.
    spec fn with_health(&self, h: HealthPoints) -> Self;

    fn health(&self) -> (r: HealthPoints)
        ensures
            r == self.spec_health(),
    ;

    fn restore_health(&mut self, amount: HealthPoints) -> (r: HealthPoints)
        ensures
            old(self).can_heal() ==> *final(self) == old(self).with_health(
                old(self).spec_health().plus(amount),
            ),
            !old(self).can_heal() ==> *final(self) == *old(self),
            r == final(self).spec_health(),
    ;

    fn take_damage(&mut self, amount: HealthPoints) -> (r: HealthPoints)
        ensures
            *final(self) == old(self).with_health(old(self).spec_health().minus(amount)),
            r == final(self).spec_health(),
    ;
}

impl HealthPoints {
    #[verifier::type_invariant]
    spec fn bounded(self) -> bool {
        self.current <= self.maximum
    }

    pub open(crate) spec fn spec_current(self) -> nat {
        self.current as nat
    }

    pub open(crate) spec fn spec_maximum(self) -> nat {
        self.maximum as nat
    }

    /// These hit points after `damage` is dealt: the current amount drops by
    /// `damage`'s current amount, but not below zero.
    pub open(crate) spec fn minus(self, damage: HealthPoints) -> HealthPoints {
        HealthPoints {
            current: if damage.current > self.current {
                0u32
            } else {
                (self.current - damage.current) as u32
            },
            maximum: self.maximum,
        }
    }

    /// These hit points after `gain` is restored: the current amount rises by
    /// `gain`'s current amount, but not above the maximum.
    pub open(crate) spec fn plus(self, gain: HealthPoints) -> HealthPoints {
        HealthPoints {
            current: if self.current + gain.current > self.maximum {
                self.maximum
            } else {
                (self.current + gain.current) as u32
            },
            maximum: self.maximum,
        }
    }

    /// These hit points after `total` damage in all, dealt in any number of
    /// blows: the current amount drops by `total`, but not below zero.
    pub open(crate) spec fn drained_by(self, total: nat) -> HealthPoints {
        HealthPoints {
            current: if total >= self.current {
                0u32
            } else {
                (self.current - total) as u32
            },
            maximum: self.maximum,
        }
    }

    /// Full health of `amount` points.
    pub fn new(amount: u32) -> (r: Self)
        ensures
            r.spec_current() == amount,
            r.spec_maximum() == amount,
    {
        HealthPoints { current: amount, maximum: amount }
    }

    pub fn current(&self) -> (r: u32)
        ensures
            r == self.spec_current(),
            r <= self.spec_maximum(),
    {
        proof {
            use_type_invariant(self);
        }
        self.current
    }

    pub fn maximum(&self) -> (r: u32)
        ensures
            r == self.spec_maximum(),
    {
        self.maximum
    }

    pub fn empty(&self) -> (r: bool)
        ensures
            r <==> self.spec_current() == 0,
    {
        self.current == 0u32
    }

    pub fn full(&self) -> (r: bool)
        ensures
            r <==> self.spec_current() == self.spec_maximum(),
    {
        self.current == self.maximum
    }
}

impl core::ops::Add for HealthPoints {
    type Output = Self;

    fn add(self, other: Self) -> (r: Self) {
        proof {
            use_type_invariant(&self);
        }
        let sum: u64 = self.current as u64 + other.current as u64;
        let current: u32 = if sum > self.maximum as u64 {
            self.maximum
        } else {
            sum as u32
        };
        HealthPoints { current, maximum: self.maximum }
    }
}

impl vstd::std_specs::ops::AddSpecImpl for HealthPoints {
    open spec fn obeys_add_spec() -> bool {
        true
    }

    open spec fn add_req(self, rhs: HealthPoints) -> bool {
        true
    }

    open spec fn add_spec(self, rhs: HealthPoints) -> HealthPoints {
        self.plus(rhs)
    }
}

impl core::ops::Sub for HealthPoints {
    type Output = Self;

    fn sub(self, other: Self) -> (r: Self) {
        proof {
            use_type_invariant(&self);
        }
        let new_amount: u32 = if other.current > self.current {
            0u32
        } else {
            self.current - other.current
        };
        HealthPoints { current: new_amount, maximum: self.maximum }
    }
}

impl vstd::std_specs::ops::SubSpecImpl for HealthPoints {
    open spec fn obeys_sub_spec() -> bool {
        true
    }

    open spec fn sub_req(self, rhs: HealthPoints) -> bool {
        true
    }

    open spec fn sub_spec(self, rhs: HealthPoints) -> HealthPoints {
        self.minus(rhs)
    }
}

/// Taking damage lowers the current amount by the damage, floored at zero, and
/// leaves the maximum as it was.
pub proof fn lemma_damage_floors_at_zero(hp: HealthPoints, damage: HealthPoints)
    ensures
        hp.minus(damage).spec_current() == (if hp.spec_current() >= damage.spec_current() {
            hp.spec_current() - damage.spec_current()
        } else {
            0
        }),
        hp.minus(damage).spec_maximum() == hp.spec_maximum(),
{
}

/// Restoring health raises the current amount by the gain, capped at the
/// maximum, and leaves the maximum as it was.
pub proof fn lemma_restore_caps_at_maximum(hp: HealthPoints, gain: HealthPoints)
    ensures
        hp.plus(gain).spec_current() == (if hp.spec_current() + gain.spec_current()
            <= hp.spec_maximum() {
            hp.spec_current() + gain.spec_current()
        } else {
            hp.spec_maximum()
        }),
        hp.plus(gain).spec_maximum() == hp.spec_maximum(),
{
}

} // verus!

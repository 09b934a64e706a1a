//! The tunable constants of movement, and the choice among them that a
//! movement step makes between ground and air.

use vstd::prelude::*;

verus! {

/// The constants of movement, as bit patterns of single-precision numbers.
#[derive(Clone, Copy, Debug, PartialEq, Eq, Structural)]
pub struct PhysicsConfig {
    pub ground_speed: u32,
    pub air_speed: u32,
    pub ground_accel: u32,
    pub air_accel: u32,
    pub ground_friction: u32,
    pub air_friction: u32,
    pub gravity: u32,
    pub jump_height: u32,
}

/// The constants that one movement step works with.
#[derive(Clone, Copy, Debug, PartialEq, Eq, Structural)]
pub struct MoveTerms {
    /// The friction coefficient.
    pub friction: u32,
    /// The acceleration rate.
    pub accel: u32,
    /// The speed that input may ask for.
    pub wish_speed: u32,
}

impl PhysicsConfig {
    /// Ground speed 3, air speed 0.5, ground acceleration 10, air
    /// acceleration 1, ground friction 5, no air friction, gravity 12, jump
    /// height 0.5.
    pub open spec fn spec_standard() -> PhysicsConfig {
        PhysicsConfig {
            ground_speed: 0x4040_0000,
            air_speed: 0x3F00_0000,
            ground_accel: 0x4120_0000,
            air_accel: 0x3F80_0000,
            ground_friction: 0x40A0_0000,
            air_friction: 0,
            gravity: 0x4140_0000,
            jump_height: 0x3F00_0000,
        }
    }

    /// The constants that a step works with: those of the ground for a
    /// grounded avatar, those of the air for an airborne one.
    pub open spec fn spec_terms(&self, grounded: bool) -> MoveTerms {
        if grounded {
            MoveTerms {
                friction: self.ground_friction,
                accel: self.ground_accel,
                wish_speed: self.ground_speed,
            }
        } else {
            MoveTerms {
                friction: self.air_friction,
                accel: self.air_accel,
                wish_speed: self.air_speed,
            }
        }
    }

    /// The constants that a step works with.
    #[verifier::when_used_as_spec(spec_terms)]
    pub fn terms(&self, grounded: bool) -> (terms: MoveTerms)
        ensures
            terms == self.spec_terms(grounded),
    {
        if grounded {
            MoveTerms {
                friction: self.ground_friction,
                accel: self.ground_accel,
                wish_speed: self.ground_speed,
            }
        } else {
            MoveTerms {
                friction: self.air_friction,
                accel: self.air_accel,
                wish_speed: self.air_speed,
            }
        }
    }
}

impl Default for PhysicsConfig {
    fn default() -> (config: PhysicsConfig)
        ensures
            config == PhysicsConfig::spec_standard(),
    {
        PhysicsConfig {
            ground_speed: 0x4040_0000,
            air_speed: 0x3F00_0000,
            ground_accel: 0x4120_0000,
            air_accel: 0x3F80_0000,
            ground_friction: 0x40A0_0000,
            air_friction: 0,
            gravity: 0x4140_0000,
            jump_height: 0x3F00_0000,
        }
    }
}

} // verus!

//! The settings of a simulation: how fast animals may go and turn, how near
//! food must be to be eaten, and how long a generation lives.

use vstd::prelude::*;
use crate::angle::HALF_PI;
use crate::scalar::Scalar;

verus! {

/// How many steps a generation lives by default before it is replaced.
pub const GENERATION_LENGTH: usize = 2500;

/// The least speed of an animal by default, 0.001 of the width of the world
/// per step.
pub const SPEED_MIN: Scalar = 4294967;

/// The greatest speed of an animal by default, 0.005.
pub const SPEED_MAX: Scalar = 21474836;

/// The greatest change of speed in one step by default, 0.2.
pub const SPEED_ACCEL: Scalar = 858993459;

/// The greatest change of heading in one step by default, half of pi.
pub const ROTATION_ACCEL: Scalar = HALF_PI;

/// How near food must be to be eaten by default, 0.013.
pub const EAT_RANGE: Scalar = 55834574;

/// The settings of a simulation.
#[derive(Clone, Copy, Debug)]
pub struct Config {
    /// How many steps a generation lives before it is replaced.
    pub generation_length: usize,
    /// The least speed of an animal.
    pub speed_min: Scalar,
    /// The greatest speed of an animal.
    pub speed_max: Scalar,
    /// The greatest change of speed in one step, either way.
    pub speed_accel: Scalar,
    /// The greatest change of heading in one step, either way.
    pub rotation_accel: Scalar,
    /// How near food must be to be eaten.
    pub eat_range: Scalar,
}

/// The default settings.
pub open spec fn default_config() -> Config {
    Config {
        generation_length: GENERATION_LENGTH,
        speed_min: SPEED_MIN,
        speed_max: SPEED_MAX,
        speed_accel: SPEED_ACCEL,
        rotation_accel: ROTATION_ACCEL,
        eat_range: EAT_RANGE,
    }
}

impl Config {
    /// The least speed is not above the greatest, the two limits of change are
    /// not negative, and the age of a generation can be counted.
    pub open spec fn wf(self) -> bool {
        &&& self.generation_length < usize::MAX
        &&& self.speed_min <= self.speed_max
        &&& self.speed_accel >= 0
        &&& self.rotation_accel >= 0
    }

    /// These settings, or nothing where they contradict themselves.
    pub fn new(
        generation_length: usize,
        speed_min: Scalar,
        speed_max: Scalar,
        speed_accel: Scalar,
        rotation_accel: Scalar,
        eat_range: Scalar,
    ) -> (r: Option<Config>)
        ensures
            r is Some <==> (Config {
                generation_length,
                speed_min,
                speed_max,
                speed_accel,
                rotation_accel,
                eat_range,
            }).wf(),
            r matches Some(config) ==> config == (Config {
                generation_length,
                speed_min,
                speed_max,
                speed_accel,
                rotation_accel,
                eat_range,
            }),
    {
        if generation_length < usize::MAX && speed_min <= speed_max && speed_accel >= 0
            && rotation_accel >= 0 {
            Some(
                Config {
                    generation_length,
                    speed_min,
                    speed_max,
                    speed_accel,
                    rotation_accel,
                    eat_range,
                },
            )
        } else {
            None
        }
    }
}

impl Default for Config {
    fn default() -> (config: Config)
        ensures
            config == default_config(),
            config.wf(),
    {
        Config {
            generation_length: GENERATION_LENGTH,
            speed_min: SPEED_MIN,
            speed_max: SPEED_MAX,
            speed_accel: SPEED_ACCEL,
            rotation_accel: ROTATION_ACCEL,
            eat_range: EAT_RANGE,
        }
    }
}

} // verus!

//! Position-based dynamics on fixed-point numbers.
//!
//! The crate holds the solver core of a virtual-reality engine in two
//! instances. The first is a full-body inverse kinematics rig: each tick it
//! takes the tracked frames of the headset and of the two controllers, plans
//! where the feet stand, and relaxes the pose of twenty-five landmarks toward
//! the ball joints and collarbones of the skeleton, with the driven landmarks
//! held where tracking and the stance put them. The second is the substep of
//! a particle system: forces, prediction, and velocities taken from where
//! the particles really went, around the resolvers that the caller brings.
//!
//! Numbers are fixed-point: an `i64` that counts billionths. Every stored
//! coordinate lies in the box of a thousand units around the origin, and a
//! value that would leave the box is brought back to its boundary. Every
//! stored orientation is a unit quaternion up to the rounding of one
//! rescaling. With that, no routine can overflow, and each one states the
//! integers that it computes.
//!
//! - [`fixed`], [`vec3`], [`quat`], [`frame`]: scalars, vectors, orientations
//!   and rigid frames.
//! - [`landmark`], [`pose`]: the closed set of landmarks and the table of
//!   their frames.
//! - [`constraint`], [`solver`], [`convergence`]: the two constraints, their
//!   projection, the Gauss-Seidel passes, and what is proved of them.
//! - [`driver`], [`locomotion`], [`rig`], [`ik`]: the driven frames, the
//!   stance, the anatomy, and the tick that puts them together.
//! - [`particles`]: the substep of a particle system.
//! - [`bits`], [`asteroid`]: the step to the next float, and the
//!   demonstration program.

pub mod asteroid;
pub mod bits;
pub mod constraint;
pub mod convergence;
pub mod driver;
pub mod fixed;
pub mod frame;
pub mod ik;
pub mod landmark;
pub mod locomotion;
pub mod particles;
pub mod pose;
pub mod quat;
pub mod rig;
pub mod solver;
pub mod vec3;

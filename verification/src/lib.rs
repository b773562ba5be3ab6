//! Control and estimation core of a line-following robot with a four-element
//! line sensor.
//!
//! All quantities are exact integers: a steering error is counted in quarters,
//! momentum in millionths, wheel commands in fractions of full power.  The
//! surrounding program converts at the edge, where it talks to the robot.

pub mod lap;
pub mod lerp;
pub mod mixer;
pub mod momentum;
pub mod phase;
pub mod segment;
pub mod sensor;

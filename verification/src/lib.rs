//! 2D drawings of physical objects for 128×64 SSD1306 OLED screens: an
//! industrial robotic arm, a pendulum, a piston, a spring–mass system, a
//! compass and gears.
//!
//! Each object computes the list of [`shape::Shape`]s it paints — pixels,
//! lines, circle outlines and filled disks — in painting order, with exact
//! specifications; a graphics back end executes the list.  Directions that
//! depend on angles are taken as offsets already rounded to whole pixels.
pub mod shape;
pub mod draw_utils;
pub mod robotic_arm;
pub mod pendulum;
pub mod spring_mass;
pub mod compass;
pub mod gear;
pub mod piston;

pub use robotic_arm::RoboticArm;
pub use robotic_arm::Facing;
pub use pendulum::Pendulum;
pub use spring_mass::SpringMass;
pub use compass::Compass;
pub use gear::Gear;
pub use piston::Piston;

//! Verified core of Chalkydri, a vision coprocessor for robots.
//!
//! The modules hold the decisions of the program: what is asked of a camera and how its frames
//! become RGB ([`cameras`], [`frame`]), how a camera is calibrated ([`calibration`]), how requests
//! to the web server are answered ([`api`], and [`request`] for those that calibrate), where the configuration comes from ([`config`]) and
//! how the robot is reached ([`net`], with [`decimal`]). Reading, waiting and sending is left to
//! the program around them.

pub mod api;
pub mod calibration;
pub mod cameras;
pub mod config;
pub mod decimal;
pub mod frame;
pub mod net;
pub mod request;

//! Automation engine for a desktop pointer clicker: where to click, when to
//! click, how to find a target picture on the screen, and the state machine
//! of the click loop. Everything here works on plain integers so that each
//! rule can be stated and proved; times are whole milliseconds, weights are
//! millionths and match scores are squared correlations in parts per 10^12.

pub mod animations;
pub mod config;
pub mod correlation;
pub mod error;
pub mod image_recognition;
pub mod input;
pub mod mouse;
pub mod movement;
pub mod pick;
pub mod picture;
pub mod profiles;
pub mod rng;
pub mod status;
pub mod targets;
pub mod timing;
pub mod ui;
pub mod worker;

//! Client-side core for a text-based UDP quadcopter protocol: command
//! construction and validation, reply classification, and a dead-reckoned
//! pose model used to aim the onboard camera.
//!
//! Positions are tracked in integer millimeters and headings in whole
//! degrees, so the navigation arithmetic is exact and machine-checked.
//! All socket work (UDP exchange, the telemetry listener thread) lives in
//! the unverified front end, which feeds replies back into this crate as
//! plain text.

pub mod commands;
pub mod link;
pub mod nav;
pub mod tello;
pub mod text;

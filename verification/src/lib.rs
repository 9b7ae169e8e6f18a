//! Fleet simulation for a transit map.
//!
//! Vehicles travel along routes, which are chains of waypoints, and turn round
//! at either end. On every animation frame each vehicle moves on by its speed
//! and its position on the map is worked out anew.
//!
//! All quantities are fixed-point integers: coordinates are in micro-degrees,
//! and progress along a segment is in millionths of the segment.
//!
//! The library decides; the host acts. Random draws, frame requests and the
//! map are the host's: it hands the library what it drew and what the browser
//! answered, and is told what to show and whether to ask for another frame.
//!
//! - [`geometry`]: waypoints and interpolation between them
//! - [`walk`]: the walk along a chain of waypoints that turns round at the ends
//! - [`vehicle`]: vehicles and the movement of one vehicle in a tick
//! - [`route`]: routes, the built-in sample routes, routes from transit data
//! - [`fleet`]: putting vehicles on routes
//! - [`state`]: the state of a simulation
//! - [`engine`]: what happens on an animation frame
//! - [`control`]: start, pause or resume, reset
//! - [`sampling`]: picking one frame in many for a report
//! - [`data`]: stations, platforms and line geometry
//! - [`map_helpers`]: colours and stations of the lines
//! - [`stations`]: stations at the ends of lines
//! - [`text`]: the order of text

pub mod control;
pub mod data;
pub mod engine;
pub mod fleet;
pub mod geometry;
pub mod map_helpers;
pub mod route;
pub mod sampling;
pub mod state;
pub mod stations;
pub mod text;
pub mod vehicle;
pub mod walk;

//! The command-line half of `thingino-dfu`: what its options mean, what a run does in which
//! order, and what it says.
//!
//! The options become a [`plan`](plan::Plan), the [`images`] it needs are read, and the plan is
//! run, on the bus of this machine ([`run`]) or through a daemon ([`remote`]). Nothing here
//! touches a device, a socket or a file. A run is a session that says what to do next and takes
//! what came of it, and the program around it does the rest.
mod text;
pub mod model;
pub mod plan;
pub mod cli;
pub mod exit;
pub mod list;
pub mod target;
pub mod render;
pub mod remote;
pub mod run;
pub mod wait;
pub mod logging;
pub mod banner;
pub mod loaders;
pub mod images;
pub mod alt;

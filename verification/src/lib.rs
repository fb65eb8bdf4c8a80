//! The decisions of an operating system installer: what to install to a disk, where to get it,
//! what to keep of the disk, and what to do when something fails.
//!
//! Nothing here touches a disk or the network. [`install`] says which call to make next and
//! takes in what came of it, and the other modules say how the larger calls are made up.

pub mod bootfs;
pub mod busy;
pub mod call;
pub mod config;
pub mod disk;
pub mod error;
pub mod filters;
pub mod firstboot;
pub mod globs;
pub mod ignition;
pub mod install;
pub mod location;
pub mod network;
pub mod notice;
pub mod number;
pub mod plan;
pub mod platform;
pub mod runs;
pub mod text;

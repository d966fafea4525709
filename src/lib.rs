//! Provisioning and supervision of ephemeral test networks made of many
//! instances of a node binary: the network description, its planning into
//! named instances with ports, the configuration documents and key
//! containers written for them, the lifecycle decisions of the supervisor
//! and the consolidated status view.
pub mod builder;
pub mod crypto;
pub mod dirs;
pub mod document;
pub mod materialize;
pub mod naming;
pub mod paths;
pub mod planner;
pub mod ports;
pub mod status;
pub mod supervisor;
pub mod text;
pub mod toolchain;
pub mod web;

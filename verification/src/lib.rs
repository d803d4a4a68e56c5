//! Topology controller for virtual CAN networks.
//!
//! The crate keeps the in-memory model of networks, endpoints and the mesh of
//! gateway rules that links them. It never touches the host itself: every
//! operation comes as a pair, one function that lists the host commands to
//! run and one that records what the host confirmed.

pub mod api;
pub mod endpoint;
pub mod error;
pub mod host;
pub mod json;
pub mod manager;
pub mod mesh;
pub mod naming;
pub mod network;
pub mod options;
pub mod registry;
pub mod rules;
pub mod text;
pub mod theorems;


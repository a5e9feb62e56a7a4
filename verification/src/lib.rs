//! A device group: a registry of the devices of a group (their specs and
//! shared file systems), the peer-to-peer file transfer protocol between
//! them, the logging filter of the group server and the decisions of the
//! command-line client.

pub mod cli;
pub mod device;
pub mod device_manager;
pub mod ids;
pub mod logger;
pub mod network;
pub mod text;

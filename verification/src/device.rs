//! The records a device publishes to its group: its spec and the file
//! system it shares.

use vstd::prelude::*;
use crate::text::{decimal, decimal_text};

verus! {

/// What a device tells its group about itself: where it can be reached and
/// what it runs.
#[derive(Clone, Debug)]
pub struct DeviceSpec {
    pub ip: String,
    pub os: String,
    pub os_version: String,
    pub listen_port: String,
}

impl DeviceSpec {
    /// The spec a device registers for itself: its address is left empty
    /// (the group server fills it in), and the port its file-transfer
    /// listener is bound to is written in decimal.
    pub fn local(os: String, os_version: String, listen_port: u16) -> (spec: DeviceSpec)
        ensures
            spec.ip@ == Seq::<char>::empty(),
            spec.os@ == os@,
            spec.os_version@ == os_version@,
            spec.listen_port@ == decimal_text(listen_port as nat),
    {
        DeviceSpec { ip: String::new(), os, os_version, listen_port: decimal(listen_port as u64) }
    }
}

/// The part of a device's disk that it shares with its group: a root
/// directory and the paths found under it.
#[derive(Clone, Debug)]
pub struct FileSystem {
    pub root: String,
    pub entries: Vec<String>,
}

impl FileSystem {
    /// A file system rooted at `root` whose entries have not been collected yet.
    pub fn new(root: String) -> (fs: FileSystem)
        ensures
            fs.root@ == root@,
            fs.entries@.len() == 0,
    {
        FileSystem { root, entries: Vec::new() }
    }
}

} // verus!

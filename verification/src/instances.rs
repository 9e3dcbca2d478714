//! Processes: what is started, and what becomes of its output.
use vstd::prelude::*;

use crate::keymap::{KeyMap, KeySet};
use crate::paths::FilePath;

verus! {

/// What is needed to start a process.
pub struct InstanceSpec {
    pub id: String,
    pub version: String,
    pub cwd: FilePath,
    /// Seen from the working directory.
    pub program: String,
    pub args: Vec<String>,
    pub env: KeyMap<String>,
}

/// The keys of the servers whose output is dropped from the logs.
pub type SilenceRegistry = KeySet;

/// How long a process that was asked to end may take, in seconds.
pub const STOP_GRACE_SECS: u64 = 30;

/// How many lines a follower of a log may lag behind.
pub const LOG_BROADCAST_CAP: usize = 256;

/// The permission bits of a file, with execution allowed to all.
pub fn executable_mode(mode: u32) -> (r: u32)
    ensures
        r == mode | 0o111,
{
    mode | 0o111
}

/// Making a file executable sets the three execution bits and leaves every
/// other bit as it was; doing it again changes nothing.
pub proof fn law_executable_mode(mode: u32)
    ensures
        (mode | 0o111) & 0o111 == 0o111,
        (mode | 0o111) & !0o111u32 == mode & !0o111u32,
        (mode | 0o111) | 0o111 == mode | 0o111,
{
    assert((mode | 0o111) & 0o111 == 0o111) by (bit_vector);
    assert((mode | 0o111) & !0o111u32 == mode & !0o111u32) by (bit_vector);
    assert((mode | 0o111) | 0o111 == mode | 0o111) by (bit_vector);
}

/// The process id to signal, where it is one that the kernel can have given.
pub fn signal_target(pid: u32) -> (r: Option<i32>)
    ensures
        r == if pid <= i32::MAX {
            Some(pid as i32)
        } else {
            None
        },
{
    if pid <= 0x7fff_ffff {
        Some(pid as i32)
    } else {
        None
    }
}

/// How a line of output is logged.
#[derive(Debug, Clone, Copy, PartialEq, Eq, Structural)]
pub enum LineLevel {
    Info,
    Warn,
}

/// Where a line of output goes: always to those who follow the log, and to the
/// daemon's own log unless the server is silenced.
pub fn line_level(silenced: &SilenceRegistry, id: &str, is_stderr: bool) -> (r: Option<LineLevel>)
    ensures
        r == if silenced@.contains(id@) {
            None
        } else if is_stderr {
            Some(LineLevel::Warn)
        } else {
            Some(LineLevel::Info)
        },
{
    if silenced.contains(id) {
        None
    } else if is_stderr {
        Some(LineLevel::Warn)
    } else {
        Some(LineLevel::Info)
    }
}

} // verus!

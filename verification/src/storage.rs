//! The duplicate scan of the storage optimizer: at most one scan runs at a
//! time, a scan can be cancelled, and its ids and group ids are derived
//! from the time it started.

use vstd::prelude::*;

use crate::digest::{decimal, decimal_string};
use crate::error::AppError;
use crate::text::concat_str;

verus! {

/// Whether a duplicate scan runs, and whether it was asked to stop.
#[derive(Debug)]
pub struct DupScanState {
    pub is_running: bool,
    pub cancel_flag: bool,
}

/// The message that refuses a second concurrent scan.
pub open spec fn already_running_message() -> Seq<char> {
    "Duplicate scan already running"@
}

impl DupScanState {
    /// No scan runs and none was cancelled.
    pub fn new() -> (r: Self)
        ensures
            !r.is_running,
            !r.cancel_flag,
    {
        DupScanState { is_running: false, cancel_flag: false }
    }

    /// Claims the scanner; refused while another scan runs.
    pub fn try_start(&mut self) -> (r: Result<(), AppError>)
        ensures
            old(self).is_running ==> (r matches Err(AppError::Validation(m)) && m@ == already_running_message())
                && *final(self) == *old(self),
            !old(self).is_running ==> r is Ok && final(self).is_running && final(self).cancel_flag == old(self).cancel_flag,
    {
        if self.is_running {
            Err(AppError::Validation(String::from_str("Duplicate scan already running")))
        } else {
            self.is_running = true;
            Ok(())
        }
    }

    /// Clears a previous cancellation.
    pub fn reset_cancel(&mut self)
        ensures
            !final(self).cancel_flag,
            final(self).is_running == old(self).is_running,
    {
        self.cancel_flag = false;
    }

    /// Asks the running scan to stop.
    pub fn cancel(&mut self)
        ensures
            final(self).cancel_flag,
            final(self).is_running == old(self).is_running,
    {
        self.cancel_flag = true;
    }

    /// Releases the scanner when a scan ends, however it ends.
    pub fn finish(&mut self)
        ensures
            !final(self).is_running,
            final(self).cancel_flag == old(self).cancel_flag,
    {
        self.is_running = false;
    }
}

impl Default for DupScanState {
    fn default() -> (r: Self)
        ensures
            !r.is_running,
            !r.cancel_flag,
    {
        Self::new()
    }
}

/// The id of a scan started `millis` ms after the Unix epoch.
pub open spec fn scan_id_of(millis: u128) -> Seq<char> {
    "dup_scan_"@ + decimal(millis as nat)
}

pub fn dup_scan_build_scan_id(millis: u128) -> (r: String)
    ensures
        r@ == scan_id_of(millis),
{
    let n = decimal_string(millis);
    concat_str("dup_scan_", n.as_str())
}

/// A group id qualified by the scan that found it: `scan:group`.
pub fn scoped_group_id(scan_id: &str, group_id: &str) -> (r: String)
    ensures
        r@ == scan_id@ + ":"@ + group_id@,
{
    let head = concat_str(scan_id, ":");
    concat_str(head.as_str(), group_id)
}

pub open spec fn missing_root_message(root: Seq<char>) -> Seq<char> {
    "Mods path does not exist: "@ + root
}

pub open spec fn not_a_directory_message(root: Seq<char>) -> Seq<char> {
    "Mods path is not a directory: "@ + root
}

/// A scan needs an existing mods directory.
pub fn check_scan_root(mods_root: &str, exists: bool, is_dir: bool) -> (r: Result<(), AppError>)
    ensures
        !exists ==> (r matches Err(AppError::NotFound(m)) && m@ == missing_root_message(mods_root@)),
        exists && !is_dir ==> (r matches Err(AppError::Validation(m)) && m@ == not_a_directory_message(mods_root@)),
        exists && is_dir ==> r is Ok,
{
    if !exists {
        return Err(AppError::NotFound(concat_str("Mods path does not exist: ", mods_root)));
    }
    if !is_dir {
        return Err(AppError::Validation(concat_str("Mods path is not a directory: ", mods_root)));
    }
    Ok(())
}

/// The progress label of the final hashing step.
pub fn hashing_label(total: u128) -> (r: String)
    ensures
        r@ == "Hashing "@ + decimal(total as nat) + "/"@ + decimal(total as nat),
{
    let n = decimal_string(total);
    let a = concat_str("Hashing ", n.as_str());
    let b = concat_str(a.as_str(), "/");
    concat_str(b.as_str(), n.as_str())
}

} // verus!

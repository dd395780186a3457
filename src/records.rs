use vstd::prelude::*;

verus! {

/// What is known of an installed kernel.
pub struct KernelInfo {
    pub version: String,
    pub release: String,
    pub arch: String,
    pub path: String,
}

/// A kernel that may be removed, with its files under the boot directory and their total size.
pub struct KernelToClean {
    pub version: String,
    pub files: Vec<String>,
    pub size: u64,
    pub in_use: bool,
}

/// A backup of the GRUB settings file: where it is, its size in bytes and its modification
/// time in seconds since the Unix epoch.
pub struct BackupInfo {
    pub path: String,
    pub size: u64,
    pub modified: u64,
}

/// The outcome of a dry run of the GRUB configuration generator.
pub struct ValidationResult {
    pub valid: bool,
    pub errors: Vec<String>,
    pub warnings: Vec<String>,
    pub output: String,
}

/// One recorded boot: the kernel, how long the boot took in milliseconds, and when it was.
pub struct BootTimeEntry {
    pub kernel_version: String,
    pub boot_time_ms: u64,
    pub timestamp: String,
}

} // verus!

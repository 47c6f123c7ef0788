//! What is decided before the filesystem is mounted.

use vstd::prelude::*;

verus! {

/// What has to be done to the mount point before mounting.
#[derive(Clone, Copy, Debug, PartialEq, Eq, Structural)]
pub enum Preparation {
    /// There is no such directory yet: create it.
    CreateDirectory,
    /// The directory is there and may still carry a dead mount of an
    /// earlier run: try to unmount it.
    UnmountStale,
}

/// Decides how the mount point is prepared.
pub fn preparation(mount_point_exists: bool) -> (step: Preparation)
    ensures
        step == (if mount_point_exists {
            Preparation::UnmountStale
        } else {
            Preparation::CreateDirectory
        }),
{
    if mount_point_exists {
        Preparation::UnmountStale
    } else {
        Preparation::CreateDirectory
    }
}

/// The options of the mount: read-only, and named so that diagnostic tools
/// can tell whose mount it is.
pub fn mount_options() -> (options: Vec<&'static str>)
    ensures
        options@.len() == 4,
        options@[0]@ == "-o"@,
        options@[1]@ == "ro"@,
        options@[2]@ == "-o"@,
        options@[3]@ == "fsname=plevy"@,
{
    let mut options: Vec<&'static str> = Vec::new();
    options.push("-o");
    options.push("ro");
    options.push("-o");
    options.push("fsname=plevy");
    options
}

} // verus!

//! What a live initramfs (busybox-based, for the live environment) holds.

use vstd::prelude::*;

verus! {

/// Path of the busybox binary.
pub const BUSYBOX_BINARY: &'static str = "bin/busybox";

/// Path of the init script.
pub const INIT_PATH: &'static str = "init";

/// Expected first line of the init script.
pub const INIT_SHEBANG: &'static str = "#!/bin/sh";

/// Permissions of the init script (it must be executable).
pub const INIT_PERMS: u32 = 0o755;

/// Directories of the live initramfs.
pub fn dirs() -> (r: Vec<&'static str>)
    ensures
        r@.map_values(|s: &str| s@) == seq![
            "bin"@,
            "dev"@,
            "proc"@,
            "sys"@,
            "tmp"@,
            "mnt"@,
            "lib/modules"@,
            "rootfs"@,
            "overlay"@,
            "newroot"@,
            "live-overlay"@,
        ],
{
    let r = vec![
        "bin",
        "dev",
        "proc",
        "sys",
        "tmp",
        "mnt",
        "lib/modules",
        "rootfs",
        "overlay",
        "newroot",
        "live-overlay",
    ];
    assert(r@.map_values(|s: &str| s@) =~= seq![
        "bin"@,
        "dev"@,
        "proc"@,
        "sys"@,
        "tmp"@,
        "mnt"@,
        "lib/modules"@,
        "rootfs"@,
        "overlay"@,
        "newroot"@,
        "live-overlay"@,
    ]);
    r
}


/// Busybox applets, each a symlink to busybox: the commands that the init script runs.
pub fn applets() -> (r: Vec<&'static str>)
    ensures
        r@.map_values(|s: &str| s@) == seq![
            "sh"@,
            "mount"@,
            "umount"@,
            "mkdir"@,
            "cat"@,
            "ls"@,
            "ln"@,
            "rm"@,
            "cp"@,
            "mv"@,
            "chmod"@,
            "chown"@,
            "mknod"@,
            "find"@,
            "echo"@,
            "grep"@,
            "sed"@,
            "head"@,
            "test"@,
            "["@,
            "sleep"@,
            "insmod"@,
            "modprobe"@,
            "losetup"@,
            "mount.loop"@,
            "xz"@,
            "gunzip"@,
            "switch_root"@,
        ],
{
    let r = vec![
        "sh",
        "mount",
        "umount",
        "mkdir",
        "cat",
        "ls",
        "ln",
        "rm",
        "cp",
        "mv",
        "chmod",
        "chown",
        "mknod",
        "find",
        "echo",
        "grep",
        "sed",
        "head",
        "test",
        "[",
        "sleep",
        "insmod",
        "modprobe",
        "losetup",
        "mount.loop",
        "xz",
        "gunzip",
        "switch_root",
    ];
    assert(r@.map_values(|s: &str| s@) =~= seq![
        "sh"@,
        "mount"@,
        "umount"@,
        "mkdir"@,
        "cat"@,
        "ls"@,
        "ln"@,
        "rm"@,
        "cp"@,
        "mv"@,
        "chmod"@,
        "chown"@,
        "mknod"@,
        "find"@,
        "echo"@,
        "grep"@,
        "sed"@,
        "head"@,
        "test"@,
        "["@,
        "sleep"@,
        "insmod"@,
        "modprobe"@,
        "losetup"@,
        "mount.loop"@,
        "xz"@,
        "gunzip"@,
        "switch_root"@,
    ]);
    r
}

} // verus!

//! What a live ISO image holds: boot files, the root filesystem image, the
//! unified kernel images and the volume label.

use vstd::prelude::*;

verus! {

/// Directory of the live root filesystem overlay.
pub const OVERLAY_DIR: &'static str = "live/overlay";

/// The systemd-boot loader configuration file.
pub const LOADER_CONF: &'static str = "loader.conf";

/// Expected volume label, used to find the boot device (`root=LABEL=...`).
pub const VOLUME_ID: &'static str = "LEVITATEOS";

/// Directories of the ISO.
pub fn dirs() -> (r: Vec<&'static str>)
    ensures
        r@.map_values(|s: &str| s@) == seq![
            "boot"@,
            "live"@,
            "EFI"@,
            "EFI/BOOT"@,
            "EFI/Linux"@,
            "loader"@,
            "boot/uki"@,
        ],
{
    let r = vec![
        "boot",
        "live",
        "EFI",
        "EFI/BOOT",
        "EFI/Linux",
        "loader",
        "boot/uki",
    ];
    assert(r@.map_values(|s: &str| s@) =~= seq![
        "boot"@,
        "live"@,
        "EFI"@,
        "EFI/BOOT"@,
        "EFI/Linux"@,
        "loader"@,
        "boot/uki"@,
    ]);
    r
}

/// Boot files: the kernel and the two initramfs images.
pub fn boot_files() -> (r: Vec<&'static str>)
    ensures
        r@.map_values(|s: &str| s@) == seq![
            "boot/vmlinuz"@,
            "boot/initramfs-live.img"@,
            "boot/initramfs-installed.img"@,
        ],
{
    let r = vec![
        "boot/vmlinuz",
        "boot/initramfs-live.img",
        "boot/initramfs-installed.img",
    ];
    assert(r@.map_values(|s: &str| s@) =~= seq![
        "boot/vmlinuz"@,
        "boot/initramfs-live.img"@,
        "boot/initramfs-installed.img"@,
    ]);
    r
}

/// The root filesystem image.
pub fn rootfs_files() -> (r: Vec<&'static str>)
    ensures
        r@.map_values(|s: &str| s@) == seq![
            "live/filesystem.erofs"@,
        ],
{
    let r = vec![
        "live/filesystem.erofs",
    ];
    assert(r@.map_values(|s: &str| s@) =~= seq![
        "live/filesystem.erofs"@,
    ]);
    r
}

/// Unified kernel images for booting the ISO, under `EFI/Linux`.
pub fn live_ukis() -> (r: Vec<&'static str>)
    ensures
        r@.map_values(|s: &str| s@) == seq![
            "levitateos-live.efi"@,
            "levitateos-emergency.efi"@,
            "levitateos-debug.efi"@,
        ],
{
    let r = vec![
        "levitateos-live.efi",
        "levitateos-emergency.efi",
        "levitateos-debug.efi",
    ];
    assert(r@.map_values(|s: &str| s@) =~= seq![
        "levitateos-live.efi"@,
        "levitateos-emergency.efi"@,
        "levitateos-debug.efi"@,
    ]);
    r
}

/// Unified kernel images built for installed systems.
pub fn installed_ukis() -> (r: Vec<&'static str>)
    ensures
        r@.map_values(|s: &str| s@) == seq![
            "boot/uki/levitateos.efi"@,
            "boot/uki/levitateos-recovery.efi"@,
        ],
{
    let r = vec![
        "boot/uki/levitateos.efi",
        "boot/uki/levitateos-recovery.efi",
    ];
    assert(r@.map_values(|s: &str| s@) =~= seq![
        "boot/uki/levitateos.efi"@,
        "boot/uki/levitateos-recovery.efi"@,
    ]);
    r
}

} // verus!

use fsdbg::checklist::auth_audit::{
    critical_auth_binaries, critical_etc_files, critical_pam_configs, critical_pam_modules,
    critical_security_files, recommended_pam_modules, recommended_security_files,
};
use fsdbg::checklist::iso::{boot_files, dirs as iso_dirs, installed_ukis, live_ukis, VOLUME_ID};
use fsdbg::checklist::live_initramfs::{applets, dirs as live_dirs};
use fsdbg::checklist::rootfs::critical_license_packages;

#[test]
fn test_critical_binaries_include_unix_chkpwd() {
    assert!(
        critical_auth_binaries()
            .iter()
            .any(|(p, _)| p.contains("unix_chkpwd")),
        "unix_chkpwd MUST be in critical binaries - pam_unix.so hardcodes the path"
    );
}

#[test]
fn test_critical_binaries_include_essentials() {
    let required = ["passwd", "sudo", "su", "login", "agetty"];
    for bin in required {
        assert!(
            critical_auth_binaries().iter().any(|(p, _)| p.contains(bin)),
            "Missing critical binary: {}",
            bin
        );
    }
}

#[test]
fn test_critical_pam_modules_include_core() {
    let required = ["pam_unix.so", "pam_permit.so", "pam_deny.so", "pam_systemd.so"];
    for module in required {
        assert!(
            critical_pam_modules().iter().any(|(m, _)| *m == module),
            "Missing critical PAM module: {}",
            module
        );
    }
}

#[test]
fn test_critical_pam_configs_include_essentials() {
    let required = [
        "etc/pam.d/system-auth",
        "etc/pam.d/login",
        "etc/pam.d/sshd",
        "etc/pam.d/sudo",
        "etc/pam.d/su",
        "etc/pam.d/passwd",
        "etc/pam.d/other",
    ];
    for config in required {
        assert!(
            critical_pam_configs().iter().any(|(c, _)| *c == config),
            "Missing critical PAM config: {}",
            config
        );
    }
}

#[test]
fn test_critical_etc_files_include_auth_databases() {
    let required = ["etc/passwd", "etc/shadow", "etc/group", "etc/gshadow"];
    for file in required {
        assert!(
            critical_etc_files().iter().any(|(f, _)| *f == file),
            "Missing critical /etc file: {}",
            file
        );
    }
}

#[test]
fn test_critical_etc_files_include_login_defs() {
    assert!(
        critical_etc_files()
            .iter()
            .any(|(f, _)| *f == "etc/login.defs"),
        "login.defs MUST be checked - contains password hashing algorithm"
    );
}

#[test]
fn test_critical_security_files_include_faillock() {
    assert!(
        critical_security_files()
            .iter()
            .any(|(f, _)| f.contains("faillock")),
        "faillock.conf MUST be checked - account lockout policy"
    );
}

#[test]
fn test_recommended_files_include_securetty() {
    assert!(
        recommended_security_files()
            .iter()
            .any(|(f, _)| f.contains("securetty")),
        "securetty should be recommended for root terminal restriction"
    );
}

#[test]
fn test_recommended_pam_modules_include_hardening() {
    let hardening_modules = [
        "pam_faillock.so",
        "pam_pwquality.so",
        "pam_wheel.so",
        "pam_securetty.so",
    ];
    for module in hardening_modules {
        assert!(
            recommended_pam_modules().iter().any(|(m, _)| *m == module),
            "Missing recommended hardening module: {}",
            module
        );
    }
}

#[test]
fn test_pam_other_is_critical() {
    assert!(
        critical_pam_configs()
            .iter()
            .any(|(c, _)| *c == "etc/pam.d/other"),
        "etc/pam.d/other is CRITICAL - fallback for unknown services"
    );
}

#[test]
fn test_nsswitch_is_critical() {
    assert!(
        critical_etc_files()
            .iter()
            .any(|(f, _)| *f == "etc/nsswitch.conf"),
        "nsswitch.conf is CRITICAL - passwd/group resolution"
    );
}

#[test]
fn test_shells_file_is_critical() {
    assert!(
        critical_etc_files()
            .iter()
            .any(|(f, _)| *f == "etc/shells"),
        "/etc/shells is CRITICAL - valid shell list"
    );
}

#[test]
fn test_dirs_match_distro_spec() {
    let dirs = iso_dirs();
    assert!(dirs.contains(&"boot"));
    assert!(dirs.contains(&"live"));
    assert!(dirs.contains(&"EFI"));
    assert!(dirs.contains(&"EFI/BOOT"));
    assert!(dirs.contains(&"EFI/Linux"));
    assert!(dirs.contains(&"loader"));
    assert!(dirs.contains(&"boot/uki"));
}

#[test]
fn test_boot_files_present() {
    let files = boot_files();
    assert!(!files.is_empty(), "BOOT_FILES must not be empty");
    assert!(
        files.iter().any(|p| p.contains("vmlinuz")),
        "BOOT_FILES must contain kernel"
    );
    assert!(
        files.iter().any(|p| p.contains("initramfs")),
        "BOOT_FILES must contain initramfs"
    );
}

#[test]
fn test_live_ukis_present() {
    let ukis = live_ukis();
    assert!(ukis.contains(&"levitateos-live.efi"));
    assert!(ukis.contains(&"levitateos-emergency.efi"));
    assert!(ukis.contains(&"levitateos-debug.efi"));
}

#[test]
fn test_installed_ukis_present() {
    let ukis = installed_ukis();
    assert!(ukis.contains(&"boot/uki/levitateos.efi"));
    assert!(ukis.contains(&"boot/uki/levitateos-recovery.efi"));
}

#[test]
fn test_volume_label() {
    assert_eq!(VOLUME_ID, "LEVITATEOS");
}

#[test]
fn test_dirs_match_recinit() {
    let dirs = live_dirs();
    assert!(dirs.contains(&"bin"));
    assert!(dirs.contains(&"dev"));
    assert!(dirs.contains(&"proc"));
    assert!(dirs.contains(&"sys"));
    assert!(dirs.contains(&"tmp"));
    assert!(dirs.contains(&"mnt"));
    assert!(dirs.contains(&"lib/modules"));
    assert!(dirs.contains(&"rootfs"));
    assert!(dirs.contains(&"overlay"));
    assert!(dirs.contains(&"newroot"));
    assert!(dirs.contains(&"live-overlay"));
}

#[test]
fn test_applets_match_recinit() {
    let applets = applets();
    assert!(applets.contains(&"sh"));
    assert!(applets.contains(&"mount"));
    assert!(applets.contains(&"switch_root"));
    assert!(applets.contains(&"insmod"));
    assert!(applets.contains(&"modprobe"));
    assert!(applets.contains(&"losetup"));
}

#[test]
fn test_critical_license_packages_defined() {
    let packages = critical_license_packages();
    assert!(packages.contains(&"glibc"));
    assert!(packages.contains(&"bash"));
    assert!(packages.contains(&"systemd"));
    assert!(packages.contains(&"coreutils"));
    assert!(packages.contains(&"kernel"));
    assert!(packages.contains(&"linux-firmware"));
}

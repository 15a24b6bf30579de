use fsdbg::checklist::qcow2::{
    account_summary, boot_entry_fields, fstab_summary, machine_id_state, root_password_state,
    MachineId, RootPassword,
};
use fsdbg::checklist::{CheckCategory, CheckResult, ChecklistType, VerificationReport};
use fsdbg::{detect_format_from, ArchiveFormat, ErrorCode, FsdbgError};

#[test]
fn report_counts() {
    let mut report = VerificationReport::new("Test");
    assert!(report.is_success());
    report.add(CheckResult::pass("usr/bin/a", CheckCategory::Binary));
    report.add(CheckResult::fail("etc/x", CheckCategory::EtcFile, "missing"));
    report.add(CheckResult::pass("usr/bin/b", CheckCategory::Binary));
    assert_eq!(report.total(), 3);
    assert_eq!(report.passed(), 2);
    assert_eq!(report.failed(), 1);
    assert!(!report.is_success());
    assert_eq!(report.artifact_type, "Test");
    assert_eq!(report.results[1].message.as_deref(), Some("missing"));
}

#[test]
fn report_groups_by_category_in_order() {
    let mut report = VerificationReport::new("Test");
    report.add(CheckResult::pass("lic", CheckCategory::License));
    report.add(CheckResult::pass("a", CheckCategory::Binary));
    report.add(CheckResult::fail("u", CheckCategory::Unit, "m"));
    report.add(CheckResult::pass("b", CheckCategory::Binary));
    let groups = report.by_category();
    assert_eq!(groups.len(), 3);
    assert_eq!(groups[0].0, CheckCategory::Binary);
    let items: Vec<&str> = groups[0].1.iter().map(|r| r.item.as_str()).collect();
    assert_eq!(items, vec!["a", "b"]);
    assert_eq!(groups[1].0, CheckCategory::Unit);
    assert_eq!(groups[2].0, CheckCategory::License);
    assert_eq!(CheckCategory::Forbidden.label(), "FORBIDDEN (must NOT exist)");
}

#[test]
fn checklist_names() {
    assert_eq!(ChecklistType::from_str("Install"), Some(ChecklistType::InstallInitramfs));
    assert_eq!(ChecklistType::from_str("LIVE-INITRAMFS"), Some(ChecklistType::LiveInitramfs));
    assert_eq!(ChecklistType::from_str("root"), Some(ChecklistType::Rootfs));
    assert_eq!(ChecklistType::from_str("iso"), Some(ChecklistType::Iso));
    assert_eq!(ChecklistType::from_str("auth_audit"), Some(ChecklistType::AuthAudit));
    assert_eq!(ChecklistType::from_str("VM"), Some(ChecklistType::Qcow2));
    assert_eq!(ChecklistType::from_str("floppy"), None);
    assert_eq!(ChecklistType::from_lowercase("ISO"), None);
    assert_eq!(ChecklistType::Iso.name(), "Live ISO");
    assert_eq!(ChecklistType::AuthAudit.name(), "Authentication Audit");
}

#[test]
fn error_constructors() {
    let e = FsdbgError::file_not_found("/tmp/x.img");
    assert_eq!(e.code, ErrorCode::FileNotFound);
    assert_eq!(e.message, "File not found: /tmp/x.img");
    assert_eq!(e.path.as_deref(), Some("/tmp/x.img"));
    assert_eq!(e.describe(), "[E001] File not found: /tmp/x.img (/tmp/x.img)");
    let e = FsdbgError::symlink_broken("a", "b");
    assert_eq!(e.message, "Broken symlink: a -> b");
    assert_eq!(e.describe(), "[E003] Broken symlink: a -> b");
    let e = FsdbgError::external_tool_failed("isoinfo", "boom");
    assert_eq!(e.message, "isoinfo failed: boom");
    assert_eq!(FsdbgError::missing_required("x").message, "Missing required: x");
    assert_eq!(FsdbgError::unsupported_format("zip").message, "Unsupported format: zip");
    assert_eq!(FsdbgError::invalid_format("bad").code, ErrorCode::InvalidFormat);
    let e = FsdbgError::new(ErrorCode::ParseError, "p").with_path("q");
    assert_eq!(e.path.as_deref(), Some("q"));
    assert_eq!(ErrorCode::UnexpectedEndOfStream.code_str(), "E011");
}

#[test]
fn formats_are_detected() {
    assert_eq!(detect_format_from(&[0x1f, 0x8b, 0], None, None), Some(ArchiveFormat::CpioGzip));
    assert_eq!(detect_format_from(b"070701000", None, None), Some(ArchiveFormat::Cpio));
    assert_eq!(detect_format_from(b"070702000", Some("iso"), None), Some(ArchiveFormat::Cpio));
    let mut erofs = vec![0u8; 1028];
    erofs[1024..].copy_from_slice(&[0xe2, 0xe1, 0xf5, 0xe0]);
    assert_eq!(detect_format_from(&erofs, None, None), Some(ArchiveFormat::Erofs));
    assert_eq!(detect_format_from(&[0u8; 8], Some("iso"), Some(b"CD001")), Some(ArchiveFormat::Iso));
    assert_eq!(detect_format_from(&[0u8; 8], Some("iso"), Some(b"XXXXX")), Some(ArchiveFormat::Iso));
    assert_eq!(detect_format_from(&[0u8; 8], Some("img"), None), Some(ArchiveFormat::Cpio));
    assert_eq!(detect_format_from(&[0u8; 8], Some("erofs"), None), Some(ArchiveFormat::Erofs));
    assert_eq!(detect_format_from(&[0u8; 8], Some("tar"), None), None);
    assert_eq!(ArchiveFormat::Iso.description(), "ISO 9660");
}

#[test]
fn root_password_states() {
    assert_eq!(root_password_state("bin:*:1::\nroot::19000:0:99999:7:::\n"), RootPassword::Empty);
    assert_eq!(root_password_state("root:!:19000::::::\n"), RootPassword::Locked);
    assert_eq!(root_password_state("root:*:19000::::::\r\n"), RootPassword::Locked);
    assert_eq!(root_password_state("root:$6$abc$def:19000::::::"), RootPassword::Hashed);
    assert_eq!(root_password_state("root:\r\n"), RootPassword::Empty);
    assert_eq!(root_password_state("daemon:*:1::\n"), RootPassword::NoEntry);
    assert_eq!(root_password_state(""), RootPassword::NoEntry);
}

#[test]
fn account_summaries() {
    let passwd = "root:x:0:0:root:/root:/bin/bash\n\n  \nnobody:x:65534:65534::/:/sbin/nologin\n";
    let s = account_summary(passwd, "nobody:");
    assert!(s.has_root);
    assert!(s.has_other);
    assert_eq!(s.entries, 2);
    let group = "wheel:x:10:\n";
    let g = account_summary(group, "wheel:");
    assert!(!g.has_root);
    assert!(g.has_other);
    assert_eq!(g.entries, 1);
}

#[test]
fn fstab_summaries() {
    let fstab = "# comment\nUUID=1 / ext4 defaults 0 1\n\n  #UUID=3 /home ext4\nUUID=2 /boot vfat defaults 0 2\r\n";
    let s = fstab_summary(fstab);
    assert_eq!(s.entries, 2);
    assert!(s.has_root);
    assert!(s.has_boot);
    let t = fstab_summary("tmpfs /tmp tmpfs defaults 0 0\n#x /\n");
    assert_eq!(t.entries, 1);
    assert!(!t.has_root);
    assert!(!t.has_boot);
}

#[test]
fn boot_entry_fields_are_read() {
    let entry = "title LevitateOS\r\nlinux /vmlinuz-6.1\ninitrd  /initramfs-6.1.img \noptions root=LABEL=x rw\n";
    let f = boot_entry_fields(entry);
    assert!(f.has_title && f.has_linux && f.has_initrd && f.has_options);
    assert_eq!(f.linux.as_deref(), Some("/vmlinuz-6.1"));
    assert_eq!(f.initrd.as_deref(), Some("/initramfs-6.1.img"));
    assert!(f.options_has_root);
    let g = boot_entry_fields("title x\noptions quiet\n");
    assert!(!g.has_linux);
    assert!(g.linux.is_none());
    assert!(!g.options_has_root);
}

#[test]
fn machine_id_states() {
    assert_eq!(machine_id_state(""), MachineId::Empty);
    assert_eq!(machine_id_state(" \n"), MachineId::Empty);
    assert_eq!(machine_id_state("uninitialized\n"), MachineId::Uninitialized);
    assert_eq!(
        machine_id_state("0123456789abcdef\n"),
        MachineId::Assigned("0123456789abcdef".to_string())
    );
}

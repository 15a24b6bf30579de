use std::io::Write;
use fsdbg::cpio::{align_padding, decode_header, CpioEntry, CpioReader, FileType};
use fsdbg::checklist::rootfs::{critical_license_packages, verify_licenses};
use fsdbg::checklist::{CheckCategory, VerificationReport};
use fsdbg::ErrorCode;

/// One `newc` record: header, NUL-ended name, content, and the padding that
/// follows each.
fn record(name: &str, mode: u32, content: &[u8]) -> Vec<u8> {
    let namesize = name.len() + 1;
    let mut out = Vec::new();
    out.extend_from_slice(b"070701");
    let fields = [
        0u32, // ino
        mode,
        0,
        0,
        1,
        0,
        content.len() as u32,
        0,
        0,
        0,
        0,
        namesize as u32,
        0, // check
    ];
    for f in fields {
        out.extend_from_slice(format!("{:08x}", f).as_bytes());
    }
    out.extend_from_slice(name.as_bytes());
    out.push(0);
    while out.len() % 4 != 0 {
        out.push(0);
    }
    out.extend_from_slice(content);
    while out.len() % 4 != 0 {
        out.push(0);
    }
    out
}

fn trailer() -> Vec<u8> {
    record("TRAILER!!!", 0, b"")
}

fn archive(records: &[Vec<u8>]) -> Vec<u8> {
    let mut out = Vec::new();
    for r in records {
        out.extend_from_slice(r);
    }
    out.extend_from_slice(&trailer());
    out
}

fn sample() -> Vec<u8> {
    archive(&[
        record(".", 0o040755, b""),
        record("a", 0o040755, b""),
        record("a/b", 0o040755, b""),
        record("a/b/file", 0o100644, b"hello"),
        record("a/c", 0o100600, b"x"),
        record("a/b/link", 0o120777, b"../c"),
        record("a/b/abs", 0o120777, b"/a/b/file"),
        record("a/b/dangling", 0o120777, b"missing-file"),
        record("./usr/bin/ls", 0o100755, b"12345678"),
    ])
}

#[test]
fn test_mode_string() {
    let entry = CpioEntry {
        path: "test".to_string(),
        size: 0,
        mode: 0o100755,
        file_type: FileType::Regular,
        link_target: None,
        uid: 0,
        gid: 0,
        nlink: 1,
        mtime: 0,
        dev_major: 0,
        dev_minor: 0,
        rdev_major: 0,
        rdev_minor: 0,
    };
    assert_eq!(entry.mode_string(), "-rwxr-xr-x");
}

#[test]
fn test_normalize_path() {
    assert_eq!(CpioReader::normalize_path("./foo/bar"), "foo/bar");
    assert_eq!(CpioReader::normalize_path("/foo/bar"), "foo/bar");
    assert_eq!(CpioReader::normalize_path("foo/bar"), "foo/bar");
}

#[test]
fn normalize_is_idempotent_on_examples() {
    for p in ["./a/b", "a/b", "/a/b", "//a", "./", "", "./.a", "/./a"] {
        let once = CpioReader::normalize_path(p);
        if !once.starts_with("./") {
            assert_eq!(CpioReader::normalize_path(&once), once);
        }
    }
    assert_eq!(CpioReader::normalize_path("./a/b"), "a/b");
    assert_eq!(CpioReader::normalize_path("/a/b"), "a/b");
}

#[test]
fn normalize_strips_one_dot_slash_only() {
    assert_eq!(CpioReader::normalize_path("././a"), "./a");
    assert_eq!(CpioReader::normalize_path(".//a"), "a");
    assert_eq!(CpioReader::normalize_path("./"), "");
}

#[test]
fn mode_string_special_bits() {
    let mut entry = CpioEntry {
        path: "d".to_string(),
        size: 0,
        mode: 0o041777,
        file_type: FileType::Directory,
        link_target: None,
        uid: 0,
        gid: 0,
        nlink: 2,
        mtime: 0,
        dev_major: 0,
        dev_minor: 0,
        rdev_major: 0,
        rdev_minor: 0,
    };
    assert_eq!(entry.mode_string(), "drwxrwxrwt");
    entry.mode = 0o106644;
    entry.file_type = FileType::Regular;
    assert_eq!(entry.mode_string(), "-rwSr-Sr--");
    assert_eq!(entry.permissions(), 0o6644);
}

#[test]
fn alignment_padding_values() {
    assert_eq!(align_padding(110 + 2), 0);
    assert_eq!(align_padding(110 + 4), 2);
    assert_eq!(align_padding(5), 3);
    assert_eq!(align_padding(0), 0);
    for len in 0u64..64 {
        let p = align_padding(len);
        assert!(p < 4);
        assert_eq!((len + p) % 4, 0);
    }
}

#[test]
fn file_type_from_mode() {
    assert_eq!(FileType::from_mode(0o100644), FileType::Regular);
    assert_eq!(FileType::from_mode(0o040755), FileType::Directory);
    assert_eq!(FileType::from_mode(0o120777), FileType::Symlink);
    assert_eq!(FileType::from_mode(0o020644), FileType::CharDevice);
    assert_eq!(FileType::from_mode(0o060644), FileType::BlockDevice);
    assert_eq!(FileType::from_mode(0o010644), FileType::Fifo);
    assert_eq!(FileType::from_mode(0o140644), FileType::Socket);
    assert_eq!(FileType::from_mode(0o000644), FileType::Unknown);
}

#[test]
fn decode_header_fields() {
    let rec = record("abc", 0o100644, b"hello");
    let h = decode_header(&rec[..110]).unwrap();
    assert_eq!(h.mode, 0o100644);
    assert_eq!(h.nlink, 1);
    assert_eq!(h.filesize, 5);
    assert_eq!(h.namesize, 4);
}

#[test]
fn decode_header_rejects_non_hex_field() {
    let mut rec = record("abc", 0o100644, b"hello");
    rec[60] = b'g';
    let e = decode_header(&rec[..110]).unwrap_err();
    assert_eq!(e.code, ErrorCode::InvalidFormat);
    assert!(e.message.contains("filesize"));
}

#[test]
fn decode_counts_records() {
    let reader = CpioReader::parse_cpio(&sample()).unwrap();
    assert_eq!(reader.entries().len(), 9);
    assert_eq!(reader.entries()[3].path, "a/b/file");
    assert_eq!(reader.entries()[3].size, 5);
}

#[test]
fn trailer_only_stream_is_empty_index() {
    let reader = CpioReader::parse_cpio(&trailer()).unwrap();
    assert_eq!(reader.entries().len(), 0);
    assert!(!reader.path_exists("TRAILER!!!"));
}

#[test]
fn truncated_stream_fails() {
    let data = sample();
    let short = &data[..data.len() - trailer().len() - 2];
    let e = CpioReader::parse_cpio(short).err().unwrap();
    assert_eq!(e.code, ErrorCode::UnexpectedEndOfStream);
}

#[test]
fn stream_without_trailer_fails() {
    let data = record("a", 0o100644, b"abc");
    let e = CpioReader::parse_cpio(&data).err().unwrap();
    assert_eq!(e.code, ErrorCode::UnexpectedEndOfStream);
    let e = CpioReader::parse_cpio(&[]).err().unwrap();
    assert_eq!(e.code, ErrorCode::UnexpectedEndOfStream);
}

#[test]
fn bad_magic_fails() {
    let mut data = sample();
    data[..6].copy_from_slice(b"XXXXXX");
    let e = CpioReader::parse_cpio(&data).err().unwrap();
    assert_eq!(e.code, ErrorCode::InvalidFormat);
}

#[test]
fn second_magic_is_accepted() {
    let mut data = sample();
    data[5] = b'2';
    assert!(CpioReader::parse_cpio(&data).is_ok());
}

#[test]
fn lookups_normalize_paths() {
    let reader = CpioReader::parse_cpio(&sample()).unwrap();
    assert!(reader.path_exists("a/b/file"));
    assert!(reader.path_exists("/a/b/file"));
    assert!(reader.path_exists("./a/b/file"));
    assert!(reader.path_exists("usr/bin/ls"));
    assert!(!reader.path_exists("a/b/missing"));
    assert!(!reader.path_exists(""));
    assert!(!reader.path_exists("/"));
    assert!(!reader.path_exists("./"));
    let e = reader.get("/usr/bin/ls").unwrap();
    assert_eq!(e.path, "./usr/bin/ls");
    assert_eq!(e.size, 8);
    assert!(reader.get("nothing").is_none());
}

#[test]
fn later_duplicate_wins() {
    let data = archive(&[
        record("etc/x", 0o100644, b"one"),
        record("./etc/x", 0o100600, b"second"),
    ]);
    let reader = CpioReader::parse_cpio(&data).unwrap();
    assert_eq!(reader.entries().len(), 2);
    assert_eq!(reader.get("etc/x").unwrap().size, 6);
}

#[test]
fn filtered_listings() {
    let reader = CpioReader::parse_cpio(&sample()).unwrap();
    let files: Vec<&str> = reader.files().iter().map(|e| e.path.as_str()).collect();
    assert_eq!(files, vec!["a/b/file", "a/c", "./usr/bin/ls"]);
    assert_eq!(reader.directories().len(), 3);
    assert_eq!(reader.symlinks().len(), 3);
    assert!(reader.symlinks().iter().all(|e| e.is_symlink() && e.link_target.is_some()));
    assert!(reader.files().iter().all(|e| e.is_file() && e.link_target.is_none()));
    assert!(reader.directories().iter().all(|e| e.is_dir()));
}

#[test]
fn stats_count_types() {
    let reader = CpioReader::parse_cpio(&sample()).unwrap();
    let stats = reader.stats();
    assert_eq!(stats.files, 3);
    assert_eq!(stats.directories, 3);
    assert_eq!(stats.symlinks, 3);
    assert_eq!(stats.other, 0);
    assert_eq!(stats.total_size, 5 + 1 + 8);
}

#[test]
fn symlink_resolution_absolute() {
    let reader = CpioReader::parse_cpio(&trailer()).unwrap();
    assert_eq!(reader.resolve_symlink_target("a/b/link", "/x/y"), "x/y");
    assert_eq!(reader.resolve_symlink_target("a/b/link", "//x/y"), "/x/y");
    assert_eq!(reader.resolve_symlink_target("a/b/link", "/"), "");
}

#[test]
fn symlink_resolution_relative_with_parent() {
    let reader = CpioReader::parse_cpio(&trailer()).unwrap();
    assert_eq!(reader.resolve_symlink_target("a/b/link", "../c"), "a/c");
    assert_eq!(reader.resolve_symlink_target("a/b/link", "./d/./e"), "a/b/d/e");
    assert_eq!(reader.resolve_symlink_target("link", "x"), "x");
    assert_eq!(reader.resolve_symlink_target("a/link", "../../../x"), "x");
    assert_eq!(reader.resolve_symlink_target("a/b/link", "c//d/"), "a/b/c/d");
}

#[test]
fn symlink_targets_checked_in_archive() {
    let reader = CpioReader::parse_cpio(&sample()).unwrap();
    let link = reader.get("a/b/link").unwrap();
    assert_eq!(link.link_target.as_deref(), Some("../c"));
    assert!(reader.symlink_target_exists(link));
    assert!(reader.symlink_target_exists(reader.get("a/b/abs").unwrap()));
    assert!(!reader.symlink_target_exists(reader.get("a/b/file").unwrap()));
}

#[test]
fn dangling_symlink_detected() {
    let reader = CpioReader::parse_cpio(&sample()).unwrap();
    let link = reader.get("a/b/dangling").unwrap();
    assert_eq!(link.link_target.as_deref(), Some("missing-file"));
    assert!(!reader.symlink_target_exists(link));
}

#[test]
fn gzip_image_is_decompressed() {
    let plain = sample();
    let mut enc = flate2::write::GzEncoder::new(Vec::new(), flate2::Compression::default());
    enc.write_all(&plain).unwrap();
    let gz = enc.finish().unwrap();
    let reader = CpioReader::from_bytes(&gz).unwrap();
    assert_eq!(reader.entries().len(), 9);
    assert!(reader.path_exists("a/c"));
    let plain_reader = CpioReader::from_bytes(&plain).unwrap();
    assert_eq!(plain_reader.entries().len(), 9);
}

#[test]
fn corrupt_gzip_is_io_error() {
    let data = [0x1fu8, 0x8b, 0, 1, 2, 3, 4, 5];
    let e = CpioReader::from_bytes(&data).err().unwrap();
    assert_eq!(e.code, ErrorCode::IoError);
}

#[test]
fn lossy_names_are_kept() {
    let mut rec = record("ab", 0o100644, b"");
    rec[111] = 0xff;
    let data = archive(&[rec]);
    let reader = CpioReader::parse_cpio(&data).unwrap();
    assert_eq!(reader.entries()[0].path, "a\u{fffd}");
}

#[test]
fn license_check_reports_missing_packages() {
    let data = archive(&[
        record("usr/share/licenses", 0o040755, b""),
        record("usr/share/licenses/bash", 0o040755, b""),
        record("usr/share/licenses/bash/COPYING", 0o100644, b"gpl"),
        record("usr/share/licenses/glibc/LICENSES", 0o100644, b"lgpl"),
        record("usr/share/licenses/extra/x", 0o100644, b""),
    ]);
    let reader = CpioReader::parse_cpio(&data).unwrap();
    let mut report = VerificationReport::new("Rootfs");
    verify_licenses(&reader, &mut report);
    let n = critical_license_packages().len();
    assert_eq!(report.total(), n + 1);
    assert_eq!(report.results[0].item, "usr/share/licenses/glibc/");
    assert!(report.results[0].passed);
    assert_eq!(report.results[1].item, "usr/share/licenses/bash/");
    assert!(report.results[1].passed);
    assert!(!report.results[2].passed);
    assert_eq!(report.results[2].message.as_deref(), Some("Missing license (legal compliance)"));
    assert_eq!(report.results[n].item, "3 package licenses found");
    assert!(report.results.iter().all(|r| r.category == CheckCategory::License));
}

#[test]
fn license_check_without_license_directory() {
    let reader = CpioReader::parse_cpio(&sample()).unwrap();
    let mut report = VerificationReport::new("Rootfs");
    verify_licenses(&reader, &mut report);
    assert_eq!(report.total(), 1);
    assert_eq!(report.results[0].item, "usr/share/licenses/");
    assert!(!report.is_success());
}

#[test]
fn lookups_on_a_larger_archive() {
    let mut records = Vec::new();
    for i in 0..300 {
        records.push(record(&format!("./dir{}/file{}", i % 7, i), 0o100644, b"x"));
    }
    records.push(record("dir3/file3", 0o100600, b"later"));
    let reader = CpioReader::parse_cpio(&archive(&records)).unwrap();
    assert_eq!(reader.entries().len(), 301);
    for i in 0..300 {
        assert!(reader.path_exists(&format!("/dir{}/file{}", i % 7, i)));
        assert!(!reader.path_exists(&format!("dir{}/file{}", (i + 1) % 7, i)));
    }
    assert_eq!(reader.get("dir3/file3").unwrap().size, 5);
    assert_eq!(reader.get("dir4/file4").unwrap().size, 1);
}

use fsdbg::erofs::{parse_erofs_info, ErofsReader};
use fsdbg::iso::{parse_iso_info, IsoReader};

const DUMP: &str = "\
drwxr-xr-x   2 root root    4096 Jan  1 00:00 /usr
-rw-r--r--   1 root root     123 Jan  1 00:00 /usr/file name.txt
lrwxrwxrwx   1 root root       7 Jan  1 00:00 /bin -> usr/bin

  /etc/
/etc/hostname
-rwxr-xr-x   1 root root     abc Jan  1 00:00 /usr/odd
";

#[test]
fn erofs_listing_is_parsed() {
    let entries = ErofsReader::parse_dump_output(DUMP).unwrap();
    assert_eq!(entries.len(), 6);
    assert_eq!(entries[0].path, "/usr");
    assert!(entries[0].is_dir);
    assert_eq!(entries[0].mode, "drwxr-xr-x");
    assert_eq!(entries[1].path, "/usr/file name.txt");
    assert_eq!(entries[1].size, 123);
    assert_eq!(entries[2].path, "/bin");
    assert!(entries[2].is_symlink);
    assert_eq!(entries[2].link_target.as_deref(), Some("usr/bin"));
    assert_eq!(entries[3].path, "/etc/");
    assert!(entries[3].is_dir);
    assert_eq!(entries[3].mode, "");
    assert_eq!(entries[4].path, "/etc/hostname");
    assert!(!entries[4].is_dir);
    assert_eq!(entries[5].size, 0);
}

#[test]
fn erofs_reader_queries() {
    let reader = ErofsReader::from_entries(ErofsReader::parse_dump_output(DUMP).unwrap());
    assert!(reader.path_exists("usr/file name.txt"));
    assert!(reader.path_exists("//bin"));
    assert!(!reader.path_exists("usr/missing"));
    let stats = reader.stats();
    assert_eq!(stats.directories, 2);
    assert_eq!(stats.symlinks, 1);
    assert_eq!(stats.files, 3);
    assert_eq!(stats.total_size, 123);
    let links: Vec<&str> = reader.symlinks().iter().map(|e| e.path.as_str()).collect();
    assert_eq!(links, vec!["/bin"]);
    assert_eq!(reader.entries().len(), 6);
}

#[test]
fn erofs_info_is_parsed() {
    let out = "Filesystem magic number: 0xE0F5E1E2\n\
Filesystem total blocks: 12345\n\
Filesystem inode count: 678\n\
Filesystem UUID: 1234-abcd\n";
    let info = parse_erofs_info(out).unwrap();
    assert_eq!(info.uuid.as_deref(), Some("1234-abcd"));
    assert_eq!(info.total_blocks, 12345);
    assert_eq!(info.inode_count, 678);
    let empty = parse_erofs_info("").unwrap();
    assert!(empty.uuid.is_none());
    assert_eq!(empty.total_blocks, 0);
}

const LISTING: &str = "\
Directory listing of /
drwxr-xr-x   1    0    0            2048 Jan 27 2026 [     37 02]  .
drwxr-xr-x   1    0    0            2048 Jan 27 2026 [     37 02]  ..
drwxr-xr-x   1    0    0            2048 Jan 27 2026 [     38 02]  boot
lrwxrwxrwx   1    0    0               0 Jan 27 2026 [      0 00]  link -> boot/vmlinuz

Directory listing of /boot/
----------------------------------------
-rw-r--r--   1    0    0        12345678 Jan 27 2026 [     40 00]  vmlinuz
-rw-r--r--   1    0    0             100 Jan 27 2026 [     41 00]  my file
";

#[test]
fn iso_listing_is_parsed() {
    let entries = IsoReader::parse_isoinfo_output(LISTING).unwrap();
    let paths: Vec<&str> = entries.iter().map(|e| e.path.as_str()).collect();
    assert_eq!(paths, vec!["/boot", "/link", "/boot/vmlinuz", "/boot/my file"]);
    assert!(entries[0].is_dir);
    assert!(entries[1].is_symlink);
    assert_eq!(entries[1].link_target.as_deref(), Some("boot/vmlinuz"));
    assert_eq!(entries[2].size, 12345678);
}

#[test]
fn iso_reader_queries() {
    let entries = IsoReader::parse_isoinfo_output(LISTING).unwrap();
    let reader = IsoReader::from_parts(entries, Some("LEVITATEOS".to_string()));
    assert_eq!(reader.volume_id(), Some("LEVITATEOS"));
    assert!(reader.path_exists("boot/vmlinuz"));
    assert!(reader.path_exists("/boot"));
    assert!(!reader.path_exists("boot/"));
    let stats = reader.stats();
    assert_eq!(stats.directories, 1);
    assert_eq!(stats.symlinks, 1);
    assert_eq!(stats.files, 2);
    assert_eq!(stats.total_size, 12345678 + 100);
    assert_eq!(reader.symlinks().len(), 1);
}

#[test]
fn iso_volume_id_from_output() {
    let out = "CD-ROM is in ISO 9660 format\nSystem id: LINUX\nVolume id: LEVITATEOS  \n";
    assert_eq!(IsoReader::volume_id_from_output(out), "LEVITATEOS");
    assert_eq!(IsoReader::volume_id_from_output("nothing here"), "");
}

#[test]
fn iso_info_is_parsed() {
    let out = "CD-ROM is in ISO 9660 format\n\
System id: LINUX\n\
Volume id: LEVITATEOS\n\
Volume size is: 123456 blocks\n\
Logical block size is: 2048\n\
El Torito VD version 1 found, boot catalog is in sector 42\n\
Rock Ridge signatures version 1 found\n\
Rock Ridge extensions: YES\n";
    let info = parse_iso_info(out).unwrap();
    assert_eq!(info.volume_id.as_deref(), Some("LEVITATEOS"));
    assert_eq!(info.system_id.as_deref(), Some("LINUX"));
    assert_eq!(info.volume_size, 123456);
    assert_eq!(info.block_size, 2048);
    assert!(info.rock_ridge);
    assert!(info.el_torito);
    let odd = parse_iso_info("Logical block size is: big\n").unwrap();
    assert_eq!(odd.block_size, 2048);
    assert!(!odd.rock_ridge);
}

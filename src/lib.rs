//! Inspection of boot and install archive images: a verified decoder for
//! `newc` CPIO streams, an index of the decoded entries, the lexical
//! resolution of symlink targets inside an archive, and the recognition of
//! image formats from their leading bytes.

pub mod checklist;
pub mod cpio;
pub mod erofs;
pub mod error;
pub mod iso;
pub mod path;
mod text;

pub use error::{ErrorCode, FsdbgError};

use vstd::prelude::*;
use crate::text::str_eq;

verus! {

/// Archive formats that the tool reads.
#[derive(Clone, Copy, Debug, PartialEq, Eq, Structural)]
pub enum ArchiveFormat {
    /// CPIO archive, gzip-compressed.
    CpioGzip,
    /// CPIO archive, uncompressed.
    Cpio,
    /// EROFS filesystem image.
    Erofs,
    /// ISO 9660 image.
    Iso,
}

pub open spec fn format_description(f: ArchiveFormat) -> Seq<char> {
    match f {
        ArchiveFormat::CpioGzip => "CPIO (gzip compressed)"@,
        ArchiveFormat::Cpio => "CPIO (uncompressed)"@,
        ArchiveFormat::Erofs => "EROFS"@,
        ArchiveFormat::Iso => "ISO 9660"@,
    }
}

impl ArchiveFormat {
    /// A description of the format, as reports print it.
    pub fn description(&self) -> (r: &'static str)
        ensures
            r@ == format_description(*self),
    {
        match self {
            ArchiveFormat::CpioGzip => "CPIO (gzip compressed)",
            ArchiveFormat::Cpio => "CPIO (uncompressed)",
            ArchiveFormat::Erofs => "EROFS",
            ArchiveFormat::Iso => "ISO 9660",
        }
    }
}

/// Whether `head` begins with the gzip magic `1f 8b`.
pub open spec fn has_gzip_magic(head: Seq<u8>) -> bool {
    head.len() >= 2 && head[0] == 0x1f && head[1] == 0x8b
}

/// Whether `head` begins with a `newc` CPIO magic, `070701` or `070702`.
pub open spec fn has_cpio_magic(head: Seq<u8>) -> bool {
    head.len() >= 6 && cpio::magic_ok(head.subrange(0, 6))
}

/// Whether `id` is `CD001`, the identifier of an ISO 9660 volume descriptor.
pub open spec fn is_iso_id(id: Seq<u8>) -> bool {
    id == seq![0x43u8, 0x44, 0x30, 0x30, 0x31]
}

/// Whether `head` holds the EROFS superblock magic `0xe0f5e1e2`
/// (little-endian) at offset 1024.
pub open spec fn has_erofs_magic(head: Seq<u8>) -> bool {
    head.len() >= 1028 && head[1024] == 0xe2 && head[1025] == 0xe1 && head[1026] == 0xf5
        && head[1027] == 0xe0
}

/// The format of an image from its first bytes `head` (up to 1028 of
/// them), its file name extension `ext`, and, for a `.iso` file, the five
/// bytes at offset `0x8001`. Magic numbers decide before the extension.
pub open spec fn format_of(head: Seq<u8>, ext: Option<Seq<char>>, iso_id: Option<Seq<u8>>) -> Option<
    ArchiveFormat,
> {
    if has_gzip_magic(head) {
        Some(ArchiveFormat::CpioGzip)
    } else if has_cpio_magic(head) {
        Some(ArchiveFormat::Cpio)
    } else if ext == Some("iso"@) && (iso_id matches Some(id) && is_iso_id(id)) {
        Some(ArchiveFormat::Iso)
    } else if has_erofs_magic(head) {
        Some(ArchiveFormat::Erofs)
    } else if ext == Some("img"@) || ext == Some("cpio"@) {
        Some(ArchiveFormat::Cpio)
    } else if ext == Some("erofs"@) {
        Some(ArchiveFormat::Erofs)
    } else if ext == Some("iso"@) {
        Some(ArchiveFormat::Iso)
    } else {
        None
    }
}

fn ext_is(ext: Option<&str>, name: &str) -> (r: bool)
    ensures
        r == (match ext {
            Some(e) => e@ == name@,
            None => false,
        }),
{
    match ext {
        Some(e) => str_eq(e, name),
        None => false,
    }
}

/// Recognizes the format of an image (see [`format_of`]); `None` where
/// neither a magic number nor the extension tells.
pub fn detect_format_from(head: &[u8], ext: Option<&str>, iso_id: Option<&[u8]>) -> (r: Option<
    ArchiveFormat,
>)
    ensures
        r == format_of(
            head@,
            match ext {
                Some(e) => Some(e@),
                None => None,
            },
            match iso_id {
                Some(id) => Some(id@),
                None => None,
            },
        ),
{
    let n = head.len();
    if n >= 2 && head[0] == 0x1f && head[1] == 0x8b {
        return Some(ArchiveFormat::CpioGzip);
    }
    if n >= 6 && head[0] == 0x30 && head[1] == 0x37 && head[2] == 0x30 && head[3] == 0x37
        && head[4] == 0x30 && (head[5] == 0x31 || head[5] == 0x32) {
        return Some(ArchiveFormat::Cpio);
    }
    if n >= 6 {
        assert(!cpio::magic_ok(head@.subrange(0, 6)));
    }
    let is_iso_ext = ext_is(ext, "iso");
    if is_iso_ext {
        if let Some(id) = iso_id {
            if id.len() == 5 && id[0] == 0x43 && id[1] == 0x44 && id[2] == 0x30 && id[3] == 0x30
                && id[4] == 0x31 {
                assert(id@ =~= seq![0x43u8, 0x44, 0x30, 0x30, 0x31]);
                return Some(ArchiveFormat::Iso);
            }
        }
    }
    if n >= 1028 && head[1024] == 0xe2 && head[1025] == 0xe1 && head[1026] == 0xf5 && head[1027]
        == 0xe0 {
        return Some(ArchiveFormat::Erofs);
    }
    if ext_is(ext, "img") || ext_is(ext, "cpio") {
        Some(ArchiveFormat::Cpio)
    } else if ext_is(ext, "erofs") {
        Some(ArchiveFormat::Erofs)
    } else if is_iso_ext {
        Some(ArchiveFormat::Iso)
    } else {
        None
    }
}

} // verus!

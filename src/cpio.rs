//! Reader for `newc` CPIO archives, the format of Linux initial ramdisks.
//!
//! A stream is a run of records, each a 110-byte ASCII header, a NUL-ended
//! name and the content, with zero padding after the name and after the
//! content up to a multiple of four bytes. The stream ends at the record
//! named `TRAILER!!!`.

use vstd::prelude::*;
use vstd::string::*;
use std::collections::HashMap;
use crate::error::{ErrorCode, FsdbgError};
use crate::text::chars_of;
use crate::path::{normalize, resolve, resolve_target};
use crate::path::normalize_path;
use crate::text::{concat2, push_char};

verus! {

/// Length of a record header in bytes.
pub const HEADER_LEN: usize = 110;

/// Bytes of zero padding that bring a length of `len` bytes up to the next
/// multiple of four.
pub open spec fn pad4(len: int) -> int {
    (4 - len % 4) % 4
}

/// The padding that follows a header and name, or a file's content, in the
/// stream: the smallest `p` with `0 <= p < 4` and `len + p` a multiple of four.
pub fn align_padding(len: u64) -> (p: u64)
    ensures
        p as int == pad4(len as int),
        p < 4,
        (len as int + p as int) % 4 == 0,
{
    (4 - len % 4) % 4
}

// ---------------------------------------------------------------------------
// Header fields
// ---------------------------------------------------------------------------

pub open spec fn is_hex_digit(b: u8) -> bool {
    (0x30 <= b <= 0x39) || (0x61 <= b <= 0x66) || (0x41 <= b <= 0x46)
}

pub open spec fn hex_digit_value(b: u8) -> nat {
    if 0x30 <= b <= 0x39 {
        (b - 0x30) as nat
    } else if 0x61 <= b <= 0x66 {
        (b - 0x61 + 10) as nat
    } else {
        (b - 0x41 + 10) as nat
    }
}

pub open spec fn all_hex(s: Seq<u8>) -> bool {
    forall|i: int| 0 <= i < s.len() ==> is_hex_digit(#[trigger] s[i])
}

/// The number that the hexadecimal digits `s` spell, most significant first.
pub open spec fn hex_value(s: Seq<u8>) -> nat
    decreases s.len(),
{
    if s.len() == 0 {
        0
    } else {
        hex_value(s.drop_last()) * 16 + hex_digit_value(s.last())
    }
}

pub open spec fn pow16(n: nat) -> nat
    decreases n,
{
    if n == 0 {
        1
    } else {
        16 * pow16((n - 1) as nat)
    }
}

proof fn lemma_hex_value_bound(s: Seq<u8>)
    requires
        all_hex(s),
    ensures
        hex_value(s) < pow16(s.len()),
    decreases s.len(),
{
    if s.len() > 0 {
        let t = s.drop_last();
        assert(all_hex(t)) by {
            assert forall|i: int| 0 <= i < t.len() implies is_hex_digit(#[trigger] t[i]) by {
                assert(t[i] == s[i]);
            }
        }
        lemma_hex_value_bound(t);
        assert(is_hex_digit(s[s.len() - 1]));
        let a = hex_value(t);
        let d = hex_digit_value(s.last());
        let p = pow16(t.len());
        assert(d < 16);
        assert(a * 16 + d < 16 * p) by (nonlinear_arith)
            requires
                a < p,
                d < 16,
        ;
    }
}

/// The `i`-th numeric field of a header (`0` is `mode`, `10` is `namesize`):
/// eight characters from offset `14 + 8 * i`, after the magic and the inode
/// number.
pub open spec fn field(h: Seq<u8>, i: int) -> Seq<u8> {
    h.subrange(14 + 8 * i, 22 + 8 * i)
}

pub open spec fn field_value(h: Seq<u8>, i: int) -> u32 {
    hex_value(field(h, i)) as u32
}

/// Whether the six bytes of `m` are `070701` or `070702`.
pub open spec fn magic_ok(m: Seq<u8>) -> bool {
    m.len() == 6 && m[0] == 0x30 && m[1] == 0x37 && m[2] == 0x30 && m[3] == 0x37 && m[4] == 0x30
        && (m[5] == 0x31 || m[5] == 0x32)
}

/// A header that decodes: a recognized magic and eleven hexadecimal fields.
pub open spec fn header_valid(h: Seq<u8>) -> bool {
    h.len() >= HEADER_LEN && magic_ok(h.subrange(0, 6)) && forall|i: int|
        0 <= i < 11 ==> all_hex(#[trigger] field(h, i))
}

/// The numeric fields of one record header.
#[derive(Clone, Copy, Debug, PartialEq, Eq, Structural)]
pub struct CpioHeader {
    pub mode: u32,
    pub uid: u32,
    pub gid: u32,
    pub nlink: u32,
    pub mtime: u32,
    pub filesize: u32,
    pub dev_major: u32,
    pub dev_minor: u32,
    pub rdev_major: u32,
    pub rdev_minor: u32,
    pub namesize: u32,
}

/// The fields that the header bytes `h` spell.
pub open spec fn header_of(h: Seq<u8>) -> CpioHeader {
    CpioHeader {
        mode: field_value(h, 0),
        uid: field_value(h, 1),
        gid: field_value(h, 2),
        nlink: field_value(h, 3),
        mtime: field_value(h, 4),
        filesize: field_value(h, 5),
        dev_major: field_value(h, 6),
        dev_minor: field_value(h, 7),
        rdev_major: field_value(h, 8),
        rdev_minor: field_value(h, 9),
        namesize: field_value(h, 10),
    }
}

/// The eight hexadecimal characters at `h[start..start + 8]` as a number,
/// or `None` where one of them is not a hexadecimal digit.
fn parse_hex8(h: &[u8], start: usize) -> (r: Option<u32>)
    requires
        start + 8 <= h@.len(),
    ensures
        r matches Some(v) ==> all_hex(h@.subrange(start as int, start + 8)) && v as nat
            == hex_value(h@.subrange(start as int, start + 8)),
        r is None ==> !all_hex(h@.subrange(start as int, start + 8)),
{
    let ghost s = h@.subrange(start as int, start + 8);
    let n = h.len();
    let mut acc: u64 = 0;
    let mut k: usize = 0;
    assert(s.subrange(0, 0) =~= Seq::<u8>::empty());
    while k < 8
        invariant
            start + 8 <= h@.len(),
            n == h@.len(),
            s == h@.subrange(start as int, start + 8),
            k <= 8,
            all_hex(s.subrange(0, k as int)),
            acc as nat == hex_value(s.subrange(0, k as int)),
            acc < pow16(k as nat),
        decreases 8 - k,
    {
        let b = h[start + k];
        assert(b == s[k as int]);
        let d: u64;
        if 0x30 <= b && b <= 0x39 {
            d = (b - 0x30) as u64;
        } else if 0x61 <= b && b <= 0x66 {
            d = (b - 0x61 + 10) as u64;
        } else if 0x41 <= b && b <= 0x46 {
            d = (b - 0x41 + 10) as u64;
        } else {
            assert(!is_hex_digit(s[k as int]));
            return None;
        }
        let ghost t = s.subrange(0, k + 1);
        assert(t.drop_last() =~= s.subrange(0, k as int));
        assert(all_hex(t)) by {
            assert forall|i: int| 0 <= i < t.len() implies is_hex_digit(#[trigger] t[i]) by {
                if i < k {
                    assert(t[i] == s.subrange(0, k as int)[i]);
                }
            }
        }
        proof {
            lemma_hex_value_bound(t);
            lemma_pow16_8();
            assert(pow16((k + 1) as nat) == 16 * pow16(k as nat));
            if k < 7 {
                lemma_pow16_mono((k + 1) as nat, 8);
            }
        }
        acc = acc * 16 + d;
        k = k + 1;
    }
    proof {
        assert(s.subrange(0, 8) =~= s);
        lemma_pow16_8();
    }
    Some(acc as u32)
}

proof fn lemma_pow16_8()
    ensures
        pow16(8) == 0x1_0000_0000,
{
    reveal_with_fuel(pow16, 9);
}

proof fn lemma_pow16_mono(a: nat, b: nat)
    requires
        a <= b,
    ensures
        pow16(a) <= pow16(b),
    decreases b - a,
{
    if a < b {
        lemma_pow16_mono(a, (b - 1) as nat);
        assert(pow16(b) == 16 * pow16((b - 1) as nat));
    }
}

/// The name of header field `i`, for error messages.
fn field_name(i: usize) -> &'static str {
    match i {
        0 => "mode",
        1 => "uid",
        2 => "gid",
        3 => "nlink",
        4 => "mtime",
        5 => "filesize",
        6 => "devmajor",
        7 => "devminor",
        8 => "rdevmajor",
        9 => "rdevminor",
        _ => "namesize",
    }
}

/// Decodes one record header. Fails with `InvalidFormat` where the magic is
/// neither `070701` nor `070702`, or a numeric field is not hexadecimal; the
/// message names the field.
pub fn decode_header(header: &[u8]) -> (r: Result<CpioHeader, FsdbgError>)
    requires
        header@.len() == HEADER_LEN,
    ensures
        r matches Ok(h) ==> header_valid(header@) && h == header_of(header@),
        r matches Err(e) ==> !header_valid(header@) && e.code == ErrorCode::InvalidFormat,
{
    if !(header[0] == 0x30 && header[1] == 0x37 && header[2] == 0x30 && header[3] == 0x37
        && header[4] == 0x30 && (header[5] == 0x31 || header[5] == 0x32)) {
        assert(!magic_ok(header@.subrange(0, 6)));
        return Err(FsdbgError::invalid_format("Invalid CPIO magic: expected 070701/070702"));
    }
    assert(magic_ok(header@.subrange(0, 6)));
    let mut vals: Vec<u32> = Vec::new();
    let mut i: usize = 0;
    while i < 11
        invariant
            header@.len() == HEADER_LEN,
            i <= 11,
            vals@.len() == i,
            forall|j: int| 0 <= j < i ==> all_hex(#[trigger] field(header@, j)),
            forall|j: int| 0 <= j < i ==> vals@[j] as nat == hex_value(#[trigger] field(header@, j)),
        decreases 11 - i,
    {
        match parse_hex8(header, 14 + 8 * i) {
            Some(v) => {
                vals.push(v);
            },
            None => {
                assert(field(header@, i as int) == header@.subrange(14 + 8 * i, 14 + 8 * i + 8));
                assert(!all_hex(field(header@, i as int)));
                let message = concat2("Invalid hex in CPIO header field: ", field_name(i));
                return Err(FsdbgError::invalid_format(message.as_str()));
            },
        }
        i = i + 1;
    }
    Ok(
        CpioHeader {
            mode: vals[0],
            uid: vals[1],
            gid: vals[2],
            nlink: vals[3],
            mtime: vals[4],
            filesize: vals[5],
            dev_major: vals[6],
            dev_minor: vals[7],
            rdev_major: vals[8],
            rdev_minor: vals[9],
            namesize: vals[10],
        },
    )
}

// ---------------------------------------------------------------------------
// Entries
// ---------------------------------------------------------------------------

/// File type, from the type bits of a mode.
#[derive(Clone, Copy, Debug, PartialEq, Eq, Structural)]
pub enum FileType {
    Regular,
    Directory,
    Symlink,
    CharDevice,
    BlockDevice,
    Fifo,
    Socket,
    Unknown,
}

/// The file type that the type bits (`mode & 0o170000`) of `mode` give.
pub open spec fn file_type_of(mode: u32) -> FileType {
    let t = mode & 0o170000u32;
    if t == 0o100000u32 {
        FileType::Regular
    } else if t == 0o040000u32 {
        FileType::Directory
    } else if t == 0o120000u32 {
        FileType::Symlink
    } else if t == 0o020000u32 {
        FileType::CharDevice
    } else if t == 0o060000u32 {
        FileType::BlockDevice
    } else if t == 0o010000u32 {
        FileType::Fifo
    } else if t == 0o140000u32 {
        FileType::Socket
    } else {
        FileType::Unknown
    }
}

impl FileType {
    pub fn from_mode(mode: u32) -> (r: Self)
        ensures
            r == file_type_of(mode),
    {
        let t = mode & 0o170000u32;
        if t == 0o100000u32 {
            FileType::Regular
        } else if t == 0o040000u32 {
            FileType::Directory
        } else if t == 0o120000u32 {
            FileType::Symlink
        } else if t == 0o020000u32 {
            FileType::CharDevice
        } else if t == 0o060000u32 {
            FileType::BlockDevice
        } else if t == 0o010000u32 {
            FileType::Fifo
        } else if t == 0o140000u32 {
            FileType::Socket
        } else {
            FileType::Unknown
        }
    }
}

/// One entry of an archive.
#[derive(Clone, Debug)]
pub struct CpioEntry {
    pub path: String,
    pub size: u64,
    pub mode: u32,
    pub file_type: FileType,
    pub link_target: Option<String>,
    pub uid: u32,
    pub gid: u32,
    pub nlink: u32,
    pub mtime: u32,
    pub dev_major: u32,
    pub dev_minor: u32,
    pub rdev_major: u32,
    pub rdev_minor: u32,
}

/// The value of a [`CpioEntry`], its strings as character sequences.
pub struct EntryModel {
    pub path: Seq<char>,
    pub size: u64,
    pub mode: u32,
    pub file_type: FileType,
    pub link_target: Option<Seq<char>>,
    pub uid: u32,
    pub gid: u32,
    pub nlink: u32,
    pub mtime: u32,
    pub dev_major: u32,
    pub dev_minor: u32,
    pub rdev_major: u32,
    pub rdev_minor: u32,
}

impl View for CpioEntry {
    type V = EntryModel;

    open spec fn view(&self) -> EntryModel {
        EntryModel {
            path: self.path@,
            size: self.size,
            mode: self.mode,
            file_type: self.file_type,
            link_target: match self.link_target {
                Some(t) => Some(t@),
                None => None,
            },
            uid: self.uid,
            gid: self.gid,
            nlink: self.nlink,
            mtime: self.mtime,
            dev_major: self.dev_major,
            dev_minor: self.dev_minor,
            rdev_major: self.rdev_major,
            rdev_minor: self.rdev_minor,
        }
    }
}

impl EntryModel {
    /// The type comes from the mode alone, and a target is recorded exactly
    /// for a symlink.
    pub open spec fn wf(self) -> bool {
        &&& self.file_type == file_type_of(self.mode)
        &&& (self.link_target is Some <==> self.file_type == FileType::Symlink)
    }
}

/// The characters of an `ls -l` mode column for a file type and permission
/// bits.
pub open spec fn type_char(t: FileType) -> char {
    match t {
        FileType::Directory => 'd',
        FileType::Symlink => 'l',
        FileType::CharDevice => 'c',
        FileType::BlockDevice => 'b',
        FileType::Fifo => 'p',
        FileType::Socket => 's',
        _ => '-',
    }
}

pub open spec fn bit_char(perms: u32, bit: u32, c: char) -> char {
    if perms & bit != 0 {
        c
    } else {
        '-'
    }
}

/// The execute column: `x` where the execute bit is set, and where the
/// special bit (set-id or sticky) is set too, `lower` with execute and
/// `upper` without.
pub open spec fn exec_char(perms: u32, x: u32, special: u32, lower: char, upper: char) -> char {
    if perms & special != 0 {
        if perms & x != 0 {
            lower
        } else {
            upper
        }
    } else if perms & x != 0 {
        'x'
    } else {
        '-'
    }
}

pub open spec fn mode_text(t: FileType, perms: u32) -> Seq<char> {
    seq![
        type_char(t),
        bit_char(perms, 0o400, 'r'),
        bit_char(perms, 0o200, 'w'),
        exec_char(perms, 0o100, 0o4000, 's', 'S'),
        bit_char(perms, 0o040, 'r'),
        bit_char(perms, 0o020, 'w'),
        exec_char(perms, 0o010, 0o2000, 's', 'S'),
        bit_char(perms, 0o004, 'r'),
        bit_char(perms, 0o002, 'w'),
        exec_char(perms, 0o001, 0o1000, 't', 'T'),
    ]
}

fn bit_char_exec(perms: u32, bit: u32, c: char) -> (r: char)
    ensures
        r == bit_char(perms, bit, c),
{
    if perms & bit != 0 {
        c
    } else {
        '-'
    }
}

fn exec_char_exec(perms: u32, x: u32, special: u32, lower: char, upper: char) -> (r: char)
    ensures
        r == exec_char(perms, x, special, lower, upper),
{
    if perms & special != 0 {
        if perms & x != 0 {
            lower
        } else {
            upper
        }
    } else if perms & x != 0 {
        'x'
    } else {
        '-'
    }
}

impl CpioEntry {
    pub fn is_dir(&self) -> (r: bool)
        ensures
            r == (self.file_type == FileType::Directory),
    {
        self.file_type == FileType::Directory
    }

    pub fn is_file(&self) -> (r: bool)
        ensures
            r == (self.file_type == FileType::Regular),
    {
        self.file_type == FileType::Regular
    }

    pub fn is_symlink(&self) -> (r: bool)
        ensures
            r == (self.file_type == FileType::Symlink),
    {
        self.file_type == FileType::Symlink
    }

    /// The permission bits: the low twelve bits of the mode.
    pub fn permissions(&self) -> (r: u32)
        ensures
            r == self.mode & 0o7777,
    {
        self.mode & 0o7777
    }

    /// The mode as `ls -l` prints it, such as `drwxr-xr-x`.
    pub fn mode_string(&self) -> (r: String)
        ensures
            r@ == mode_text(self.file_type, self.mode & 0o7777),
    {
        let perms = self.permissions();
        let mut s = String::new();
        let t = match self.file_type {
            FileType::Directory => 'd',
            FileType::Symlink => 'l',
            FileType::CharDevice => 'c',
            FileType::BlockDevice => 'b',
            FileType::Fifo => 'p',
            FileType::Socket => 's',
            _ => '-',
        };
        push_char(&mut s, t);
        push_char(&mut s, bit_char_exec(perms, 0o400, 'r'));
        push_char(&mut s, bit_char_exec(perms, 0o200, 'w'));
        push_char(&mut s, exec_char_exec(perms, 0o100, 0o4000, 's', 'S'));
        push_char(&mut s, bit_char_exec(perms, 0o040, 'r'));
        push_char(&mut s, bit_char_exec(perms, 0o020, 'w'));
        push_char(&mut s, exec_char_exec(perms, 0o010, 0o2000, 's', 'S'));
        push_char(&mut s, bit_char_exec(perms, 0o004, 'r'));
        push_char(&mut s, bit_char_exec(perms, 0o002, 'w'));
        push_char(&mut s, exec_char_exec(perms, 0o001, 0o1000, 't', 'T'));
        assert(s@ =~= mode_text(self.file_type, perms));
        s
    }
}

// ---------------------------------------------------------------------------
// Outside functions
// ---------------------------------------------------------------------------

/// The text that `String::from_utf8_lossy` makes of the bytes `b`.
pub uninterp spec fn lossy_utf8(b: Seq<u8>) -> Seq<char>;

/// Relies on `String::from_utf8_lossy`: the bytes as text, each invalid
/// sequence replaced by U+FFFD; the text depends on the bytes alone.
#[verifier::external_body]
fn lossy_string(b: &[u8]) -> (r: String)
    ensures
        r@ == lossy_utf8(b@),
{
    String::from_utf8_lossy(b).into_owned()
}

/// `std::io::Error`, the error that flate2's decoder reports; opaque here.
#[verifier::external_type_specification]
#[verifier::external_body]
pub struct ExIoError(std::io::Error);

/// What flate2's gzip decoder yields for the bytes `b`: the decompressed
/// first member, or `None` where `b` is not a valid gzip stream.
pub uninterp spec fn gunzip(b: Seq<u8>) -> Option<Seq<u8>>;

/// Relies on `flate2::read::GzDecoder`, read to the end over the bytes `b`:
/// the decompressed data or an I/O error, depending on the bytes alone.
#[verifier::external_body]
fn gunzip_bytes(b: &[u8]) -> (r: Result<Vec<u8>, std::io::Error>)
    ensures
        r matches Ok(v) ==> gunzip(b@) == Some(v@),
        r is Err ==> gunzip(b@) is None,
{
    let mut out = Vec::new();
    match std::io::Read::read_to_end(&mut flate2::read::GzDecoder::new(b), &mut out) {
        Ok(_) => Ok(out),
        Err(e) => Err(e),
    }
}

// ---------------------------------------------------------------------------
// The stream
// ---------------------------------------------------------------------------

/// `TRAILER!!!`, the name of the record that ends a stream.
pub open spec fn trailer_name() -> Seq<u8> {
    seq![0x54u8, 0x52, 0x41, 0x49, 0x4c, 0x45, 0x52, 0x21, 0x21, 0x21]
}

/// Length of the name without its closing NUL.
pub open spec fn name_len(h: CpioHeader) -> int {
    if h.namesize > 0 {
        h.namesize - 1
    } else {
        0
    }
}

/// Offset of the content of a record whose header starts at `pos`: after
/// the header, the name and the padding that aligns the two.
pub open spec fn content_start(pos: int, h: CpioHeader) -> int {
    pos + HEADER_LEN as int + h.namesize + pad4(HEADER_LEN as int + h.namesize)
}

/// Offset just past a record whose header starts at `pos`.
pub open spec fn record_end(pos: int, h: CpioHeader) -> int {
    content_start(pos, h) + h.filesize + pad4(h.filesize as int)
}

/// The entry that a record with header `h`, name `name` (without its NUL)
/// and content `content` stands for.
pub open spec fn entry_of(h: CpioHeader, name: Seq<u8>, content: Seq<u8>) -> EntryModel {
    EntryModel {
        path: lossy_utf8(name),
        size: h.filesize as u64,
        mode: h.mode,
        file_type: file_type_of(h.mode),
        link_target: if file_type_of(h.mode) == FileType::Symlink {
            Some(lossy_utf8(content))
        } else {
            None
        },
        uid: h.uid,
        gid: h.gid,
        nlink: h.nlink,
        mtime: h.mtime,
        dev_major: h.dev_major,
        dev_minor: h.dev_minor,
        rdev_major: h.rdev_major,
        rdev_minor: h.rdev_minor,
    }
}

/// The entries of the records from offset `pos` on, up to the trailer, or
/// the error that the first bad record gives: `InvalidFormat` for a header
/// that does not decode, `UnexpectedEndOfStream` where the data ends before
/// a header, name, content or padding does (also where it ends before any
/// trailer).
pub open spec fn decode_from(data: Seq<u8>, pos: int) -> Result<Seq<EntryModel>, ErrorCode>
    decreases data.len() - pos,
{
    if pos < 0 || pos + HEADER_LEN as int > data.len() {
        Err(ErrorCode::UnexpectedEndOfStream)
    } else if !header_valid(data.subrange(pos, pos + HEADER_LEN as int)) {
        Err(ErrorCode::InvalidFormat)
    } else {
        let h = header_of(data.subrange(pos, pos + HEADER_LEN as int));
        let cs = content_start(pos, h);
        let name = data.subrange(pos + HEADER_LEN as int, pos + HEADER_LEN as int + name_len(h));
        if cs > data.len() {
            Err(ErrorCode::UnexpectedEndOfStream)
        } else if name == trailer_name() {
            Ok(Seq::empty())
        } else if record_end(pos, h) > data.len() {
            Err(ErrorCode::UnexpectedEndOfStream)
        } else {
            match decode_from(data, record_end(pos, h)) {
                Ok(rest) => Ok(
                    seq![entry_of(h, name, data.subrange(cs, cs + h.filesize))] + rest,
                ),
                Err(e) => Err(e),
            }
        }
    }
}

/// The entries of a whole stream, or the error that ends its decoding.
pub open spec fn decode(data: Seq<u8>) -> Result<Seq<EntryModel>, ErrorCode> {
    decode_from(data, 0)
}

/// `s` in front of the entries of `r`; an error stays as it is.
pub open spec fn prepend(s: Seq<EntryModel>, r: Result<Seq<EntryModel>, ErrorCode>) -> Result<
    Seq<EntryModel>,
    ErrorCode,
> {
    match r {
        Ok(t) => Ok(s + t),
        Err(e) => Err(e),
    }
}

/// Whether `name` is `TRAILER!!!`.
fn is_trailer(name: &[u8]) -> (r: bool)
    ensures
        r == (name@ == trailer_name()),
{
    if name.len() != 10 {
        return false;
    }
    let r = name[0] == 0x54 && name[1] == 0x52 && name[2] == 0x41 && name[3] == 0x49 && name[4]
        == 0x4c && name[5] == 0x45 && name[6] == 0x52 && name[7] == 0x21 && name[8] == 0x21
        && name[9] == 0x21;
    assert(r ==> name@ =~= trailer_name());
    r
}

fn end_of_stream() -> (e: FsdbgError)
    ensures
        e.code == ErrorCode::UnexpectedEndOfStream,
{
    FsdbgError::new(ErrorCode::UnexpectedEndOfStream, "Unexpected end of CPIO stream")
}

// ---------------------------------------------------------------------------
// The reader
// ---------------------------------------------------------------------------

/// Whether some entry is stored under `key`; the empty key names none.
pub open spec fn index_contains(es: Seq<EntryModel>, key: Seq<char>) -> bool {
    key.len() > 0 && exists|i: int| #[trigger] stored_at(es, key, i)
}

/// Whether `es[i]` is stored under `key`.
pub open spec fn stored_at(es: Seq<EntryModel>, key: Seq<char>, i: int) -> bool {
    0 <= i < es.len() && normalize(es[i].path) == key
}

/// Whether `es[i]` is the last entry stored under `key`, the one that a
/// lookup of `key` finds.
pub open spec fn is_last_match(es: Seq<EntryModel>, key: Seq<char>, i: int) -> bool {
    &&& 0 <= i < es.len()
    &&& normalize(es[i].path) == key
    &&& forall|j: int| i < j < es.len() ==> normalize(#[trigger] es[j].path) != key
}

/// The entries of `es` of type `t`, in order.
pub open spec fn of_kind(es: Seq<EntryModel>, t: FileType) -> Seq<EntryModel>
    decreases es.len(),
{
    if es.len() == 0 {
        Seq::empty()
    } else if es.last().file_type == t {
        of_kind(es.drop_last(), t).push(es.last())
    } else {
        of_kind(es.drop_last(), t)
    }
}

/// The summed sizes of the regular files of `es`.
pub open spec fn regular_size_total(es: Seq<EntryModel>) -> int
    decreases es.len(),
{
    if es.len() == 0 {
        0
    } else {
        regular_size_total(es.drop_last()) + if es.last().file_type == FileType::Regular {
            es.last().size as int
        } else {
            0
        }
    }
}

/// Modulus of [`key_hash`], a prime below 2^31.
pub const HASH_MODULUS: u64 = 2147483647;

/// The bucket that a lookup key falls in: a polynomial hash of its
/// characters.
pub open spec fn key_hash(s: Seq<char>) -> u64
    decreases s.len(),
{
    if s.len() == 0 {
        0
    } else {
        ((key_hash(s.drop_last()) as int * 31 + s.last() as u32 as int) % HASH_MODULUS as int) as u64
    }
}

proof fn lemma_key_hash_bound(s: Seq<char>)
    ensures
        key_hash(s) < HASH_MODULUS,
    decreases s.len(),
{
    if s.len() > 0 {
        lemma_key_hash_bound(s.drop_last());
    }
}

/// The bucket of `key` (see [`key_hash`]).
fn hash_of(key: &str) -> (h: u64)
    ensures
        h == key_hash(key@),
{
    let chars = chars_of(key);
    let mut h: u64 = 0;
    let mut i: usize = 0;
    assert(chars@.subrange(0, 0) =~= Seq::<char>::empty());
    while i < chars.len()
        invariant
            i <= chars@.len(),
            h == key_hash(chars@.subrange(0, i as int)),
            h < HASH_MODULUS,
        decreases chars.len() - i,
    {
        assert(chars@.subrange(0, i + 1).drop_last() =~= chars@.subrange(0, i as int));
        let c = chars[i] as u32 as u64;
        h = (h * 31 + c) % HASH_MODULUS;
        i = i + 1;
    }
    assert(chars@.subrange(0, i as int) =~= key@);
    h
}

/// The indices in bucket `h` of `m`; none where it has no such bucket.
pub open spec fn bucket_of(m: Map<u64, Vec<usize>>, h: u64) -> Seq<usize> {
    if m.contains_key(h) {
        m[h]@
    } else {
        Seq::empty()
    }
}

/// `buckets` with `i` added to the bucket `h`.
fn add_to_bucket(buckets: &mut HashMap<u64, Vec<usize>>, h: u64, i: usize)
    ensures
        final(buckets)@.contains_key(h),
        final(buckets)@[h]@ == bucket_of(old(buckets)@, h).push(i),
        forall|k: u64|
            k != h ==> (#[trigger] final(buckets)@.contains_key(k) == old(buckets)@.contains_key(k))
                && (old(buckets)@.contains_key(k) ==> final(buckets)@[k] == old(buckets)@[k]),
{
    broadcast use vstd::std_specs::hash::group_hash_axioms;

    let mut b: Vec<usize> = match buckets.get(&h) {
        Some(v) => v.clone(),
        None => Vec::new(),
    };
    b.push(i);
    buckets.insert(h, b);
}

/// Whether the bucket `b` holds the index `i`.
pub open spec fn holds_index(b: Seq<usize>, i: int) -> bool {
    exists|k: int| 0 <= k < b.len() && b[k] as int == i
}

/// Whether index `i` is in the bucket of its key `keys[i]`.
pub open spec fn in_bucket(buckets: Map<u64, Vec<usize>>, keys: Seq<String>, i: int) -> bool {
    holds_index(bucket_of(buckets, key_hash(keys[i]@)), i)
}

/// Every index of `keys` is in the bucket of its key.
pub open spec fn index_complete(buckets: Map<u64, Vec<usize>>, keys: Seq<String>) -> bool {
    forall|i: int| 0 <= i < keys.len() ==> #[trigger] in_bucket(buckets, keys, i)
}

/// Every index in a bucket is below `n`.
pub open spec fn index_bounded(buckets: Map<u64, Vec<usize>>, n: int) -> bool {
    forall|h: u64, j: int|
        0 <= j < bucket_of(buckets, h).len() ==> (#[trigger] bucket_of(buckets, h)[j] as int) < n
}

/// Adding the index of a new key to its bucket keeps the buckets complete
/// and bounded.
proof fn lemma_index_push(
    ob: Map<u64, Vec<usize>>,
    nb: Map<u64, Vec<usize>>,
    keys: Seq<String>,
    key: String,
)
    requires
        index_complete(ob, keys),
        index_bounded(ob, keys.len() as int),
        keys.len() <= usize::MAX,
        nb.contains_key(key_hash(key@)),
        nb[key_hash(key@)]@ == bucket_of(ob, key_hash(key@)).push(keys.len() as usize),
        forall|k: u64|
            k != key_hash(key@) ==> (#[trigger] nb.contains_key(k) == ob.contains_key(k)) && (
            ob.contains_key(k) ==> nb[k] == ob[k]),
    ensures
        index_complete(nb, keys.push(key)),
        index_bounded(nb, keys.len() as int + 1),
{
    let h = key_hash(key@);
    let nk = keys.push(key);
    assert forall|i: int| 0 <= i < nk.len() implies #[trigger] in_bucket(nb, nk, i) by {
        if i < keys.len() {
            assert(nk[i] == keys[i]);
            assert(in_bucket(ob, keys, i));
            let hi = key_hash(keys[i]@);
            let ob_b = bucket_of(ob, hi);
            let k = choose|k: int| 0 <= k < ob_b.len() && ob_b[k] as int == i;
            if hi == h {
                assert(bucket_of(nb, hi)[k] as int == i);
            } else {
                assert(bucket_of(nb, hi) == ob_b);
            }
        } else {
            assert(nk[i] == key);
            assert(bucket_of(nb, h)[bucket_of(ob, h).len() as int] as int == keys.len());
        }
    }
    assert forall|g: u64, j: int| 0 <= j < bucket_of(nb, g).len() implies (#[trigger] bucket_of(
        nb,
        g,
    )[j] as int) < keys.len() + 1 by {
        if g == h {
            if j < bucket_of(ob, h).len() {
                assert(bucket_of(nb, g)[j] == bucket_of(ob, h)[j]);
            }
        } else {
            assert(bucket_of(nb, g) == bucket_of(ob, g));
        }
    }
}

/// The decoded entries of one archive, in archive order, with a lookup by
/// normalized path.
pub struct CpioReader {
    entries: Vec<CpioEntry>,
    /// `keys[i]` is the normalized path of `entries[i]`.
    keys: Vec<String>,
    /// For each value of [`key_hash`], the indices of the keys with it.
    buckets: HashMap<u64, Vec<usize>>,
}

impl View for CpioReader {
    type V = Seq<EntryModel>;

    closed spec fn view(&self) -> Seq<EntryModel> {
        self.entries@.map_values(|e: CpioEntry| e@)
    }
}

/// Counts of the entries of an archive by type.
#[derive(Debug)]
pub struct CpioStats {
    pub files: usize,
    pub directories: usize,
    pub symlinks: usize,
    pub other: usize,
    /// Summed size of the regular files, held at `u64::MAX` where it would
    /// pass it.
    pub total_size: u64,
}

impl CpioReader {
    #[verifier::type_invariant]
    closed spec fn inv(&self) -> bool {
        &&& self.keys@.len() == self.entries@.len()
        &&& forall|i: int|
            0 <= i < self.keys@.len() ==> #[trigger] self.keys@[i]@ == normalize(
                self.entries@[i].path@,
            )
        &&& index_complete(self.buckets@, self.keys@)
        &&& index_bounded(self.buckets@, self.keys@.len() as int)
    }

    /// Decodes a whole uncompressed stream. It succeeds exactly where
    /// [`decode`] does, with its entries in stream order, and otherwise fails
    /// with the code that [`decode`] gives.
    pub fn parse_cpio(data: &[u8]) -> (r: Result<CpioReader, FsdbgError>)
        ensures
            match decode(data@) {
                Ok(es) => r matches Ok(rd) && rd@ == es,
                Err(c) => r matches Err(e) && e.code == c,
            },
    {
        let n = data.len();
        let mut entries: Vec<CpioEntry> = Vec::new();
        let mut keys: Vec<String> = Vec::new();
        let mut buckets: HashMap<u64, Vec<usize>> = HashMap::new();
        let mut pos: usize = 0;
        assert(entries@.map_values(|e: CpioEntry| e@) =~= Seq::<EntryModel>::empty());
        loop
            invariant
                n == data@.len(),
                pos <= n,
                decode(data@) == prepend(
                    entries@.map_values(|e: CpioEntry| e@),
                    decode_from(data@, pos as int),
                ),
                keys@.len() == entries@.len(),
                forall|i: int|
                    0 <= i < keys@.len() ==> #[trigger] keys@[i]@ == normalize(
                        entries@[i].path@,
                    ),
                index_complete(buckets@, keys@),
                index_bounded(buckets@, keys@.len() as int),
            decreases n - pos,
        {
            let ghost models = entries@.map_values(|e: CpioEntry| e@);
            if n - pos < HEADER_LEN {
                return Err(end_of_stream());
            }
            let hb = &data[pos..pos + HEADER_LEN];
            assert(hb@ == data@.subrange(pos as int, pos + HEADER_LEN));
            let h = match decode_header(hb) {
                Ok(h) => h,
                Err(e) => {
                    return Err(e);
                },
            };
            let namesize = h.namesize as u64;
            let name_pad = align_padding(HEADER_LEN as u64 + namesize);
            let head = HEADER_LEN as u64 + namesize + name_pad;
            if head > (n - pos) as u64 {
                return Err(end_of_stream());
            }
            let nl: usize = if h.namesize > 0 {
                (h.namesize - 1) as usize
            } else {
                0
            };
            let name = &data[pos + HEADER_LEN..pos + HEADER_LEN + nl];
            let cs: usize = pos + head as usize;
            assert(cs == content_start(pos as int, h));
            if is_trailer(name) {
                assert(decode_from(data@, pos as int) == Ok::<Seq<EntryModel>, ErrorCode>(Seq::empty()));
                assert(models + Seq::<EntryModel>::empty() =~= models);
                return Ok(CpioReader { entries, keys, buckets });
            }
            let filesize = h.filesize as u64;
            let body = filesize + align_padding(filesize);
            if body > (n - cs) as u64 {
                return Err(end_of_stream());
            }
            let content = &data[cs..cs + filesize as usize];
            let path = lossy_string(name);
            let file_type = FileType::from_mode(h.mode);
            let link_target = if file_type == FileType::Symlink {
                Some(lossy_string(content))
            } else {
                None
            };
            let key = normalize_path(path.as_str());
            let entry = CpioEntry {
                path,
                size: filesize,
                mode: h.mode,
                file_type,
                link_target,
                uid: h.uid,
                gid: h.gid,
                nlink: h.nlink,
                mtime: h.mtime,
                dev_major: h.dev_major,
                dev_minor: h.dev_minor,
                rdev_major: h.rdev_major,
                rdev_minor: h.rdev_minor,
            };
            let ghost e = entry@;
            assert(e == entry_of(h, name@, content@));
            let bucket = hash_of(key.as_str());
            let ghost ob = buckets@;
            let ghost okeys = keys@;
            let index = keys.len();
            add_to_bucket(&mut buckets, bucket, index);
            proof {
                lemma_index_push(ob, buckets@, okeys, key);
            }
            entries.push(entry);
            keys.push(key);
            let next: usize = cs + body as usize;
            assert(next == record_end(pos as int, h));
            assert(entries@.map_values(|e: CpioEntry| e@) =~= models.push(e));
            assert(forall|t: Seq<EntryModel>| #[trigger] (models.push(e) + t) =~= models + (seq![e] + t));
            pos = next;
        }
    }

    /// Decodes an archive image: gzip-compressed where it begins with the
    /// gzip magic `1f 8b`, uncompressed otherwise. A compressed image that
    /// does not decompress fails with `IoError`.
    pub fn from_bytes(data: &[u8]) -> (r: Result<CpioReader, FsdbgError>)
        ensures
            ({
                let gz = data@.len() >= 2 && data@[0] == 0x1f && data@[1] == 0x8b;
                let inner = if gz {
                    gunzip(data@)
                } else {
                    Some(data@)
                };
                match inner {
                    None => r matches Err(e) && e.code == ErrorCode::IoError,
                    Some(bytes) => match decode(bytes) {
                        Ok(es) => r matches Ok(rd) && rd@ == es,
                        Err(c) => r matches Err(e) && e.code == c,
                    },
                }
            }),
    {
        if data.len() >= 2 && data[0] == 0x1f && data[1] == 0x8b {
            match gunzip_bytes(data) {
                Ok(bytes) => CpioReader::parse_cpio(bytes.as_slice()),
                Err(e) => {
                    let text = e.to_string();
                    Err(FsdbgError::new(ErrorCode::IoError, text.as_str()))
                },
            }
        } else {
            CpioReader::parse_cpio(data)
        }
    }

    /// All entries, in archive order.
    pub fn entries(&self) -> (r: &[CpioEntry])
        ensures
            r@.map_values(|e: CpioEntry| e@) == self@,
    {
        self.entries.as_slice()
    }

    /// The indices in the bucket of `key`: every index whose key is `key`
    /// is among them, and all are indices of entries.
    fn bucket(&self, key: &String) -> (r: Option<&Vec<usize>>)
        ensures
            forall|i: int|
                0 <= i < self.keys@.len() && self.keys@[i]@ == key@ ==> (r matches Some(b)
                    && holds_index(b@, i)),
            r matches Some(b) ==> forall|j: int|
                0 <= j < b@.len() ==> (#[trigger] b@[j] as int) < self.keys@.len(),
    {
        broadcast use vstd::std_specs::hash::group_hash_axioms;

        proof {
            use_type_invariant(self);
        }
        let h = hash_of(key.as_str());
        let r = self.buckets.get(&h);
        proof {
            assert forall|i: int|
                0 <= i < self.keys@.len() && self.keys@[i]@ == key@ implies (r matches Some(b)
                && holds_index(b@, i)) by {
                assert(in_bucket(self.buckets@, self.keys@, i));
            }
            if let Some(b) = r {
                assert forall|j: int| 0 <= j < b@.len() implies (#[trigger] b@[j] as int)
                    < self.keys@.len() by {
                    assert(bucket_of(self.buckets@, h)[j] == b@[j]);
                }
            }
        }
        r
    }

    /// Whether an entry is stored under the normalized form of `path`.
    pub fn path_exists(&self, path: &str) -> (r: bool)
        ensures
            r == index_contains(self@, normalize(path@)),
    {
        proof {
            use_type_invariant(self);
        }
        let key = normalize_path(path);
        if key.as_str().is_empty() {
            return false;
        }
        assert(key@.len() > 0);
        let b = match self.bucket(&key) {
            Some(b) => b,
            None => {
                assert forall|i: int| !#[trigger] stored_at(self@, key@, i) by {
                    if 0 <= i < self@.len() {
                        assert(self@[i] == self.entries@[i]@);
                        assert(self.keys@[i]@ == normalize(self.entries@[i].path@));
                    }
                }
                return false;
            },
        };
        let mut j: usize = 0;
        while j < b.len()
            invariant
                self.keys@.len() == self.entries@.len(),
                forall|k: int|
                    0 <= k < self.keys@.len() ==> #[trigger] self.keys@[k]@ == normalize(
                        self.entries@[k].path@,
                    ),
                forall|k: int| 0 <= k < b@.len() ==> (#[trigger] b@[k] as int) < self.keys@.len(),
                forall|i: int|
                    0 <= i < self.keys@.len() && self.keys@[i]@ == key@ ==> holds_index(b@, i),
                key@ == normalize(path@),
                key@.len() > 0,
                j <= b@.len(),
                forall|k: int| 0 <= k < j ==> self.keys@[#[trigger] b@[k] as int]@ != key@,
            decreases b.len() - j,
        {
            let i = b[j];
            assert(self@[i as int] == self.entries@[i as int]@);
            if self.keys[i] == key {
                assert(stored_at(self@, key@, i as int));
                return true;
            }
            j = j + 1;
        }
        assert forall|i: int| !#[trigger] stored_at(self@, key@, i) by {
            if 0 <= i < self@.len() {
                assert(self@[i] == self.entries@[i]@);
                assert(self.keys@[i]@ == normalize(self.entries@[i].path@));
                if self.keys@[i]@ == key@ {
                    let k = choose|k: int| 0 <= k < b@.len() && b@[k] as int == i;
                    assert(self.keys@[b@[k] as int]@ != key@);
                }
            }
        }
        false
    }

    /// The entry stored under the normalized form of `path`: of several with
    /// that key, the last in archive order.
    pub fn get(&self, path: &str) -> (r: Option<&CpioEntry>)
        ensures
            match r {
                None => !index_contains(self@, normalize(path@)),
                Some(e) => index_contains(self@, normalize(path@)) && exists|i: int|
                    is_last_match(self@, normalize(path@), i) && e@ == #[trigger] self@[i],
            },
    {
        proof {
            use_type_invariant(self);
        }
        let key = normalize_path(path);
        if key.as_str().is_empty() {
            return None;
        }
        assert(key@.len() > 0);
        let b = match self.bucket(&key) {
            Some(b) => b,
            None => {
                assert forall|i: int| !#[trigger] stored_at(self@, key@, i) by {
                    if 0 <= i < self@.len() {
                        assert(self@[i] == self.entries@[i]@);
                        assert(self.keys@[i]@ == normalize(self.entries@[i].path@));
                    }
                }
                return None;
            },
        };
        let mut best: Option<usize> = None;
        let mut j: usize = 0;
        while j < b.len()
            invariant
                self.keys@.len() == self.entries@.len(),
                forall|k: int|
                    0 <= k < self.keys@.len() ==> #[trigger] self.keys@[k]@ == normalize(
                        self.entries@[k].path@,
                    ),
                forall|k: int| 0 <= k < b@.len() ==> (#[trigger] b@[k] as int) < self.keys@.len(),
                key@ == normalize(path@),
                key@.len() > 0,
                j <= b@.len(),
                match best {
                    Some(x) => (x as int) < self.keys@.len() && self.keys@[x as int]@ == key@
                        && forall|k: int|
                        0 <= k < j && self.keys@[#[trigger] b@[k] as int]@ == key@ ==> b@[k]
                            <= x,
                    None => forall|k: int|
                        0 <= k < j ==> self.keys@[#[trigger] b@[k] as int]@ != key@,
                },
            decreases b.len() - j,
        {
            let i = b[j];
            if self.keys[i] == key {
                best = match best {
                    Some(x) => if i > x {
                        Some(i)
                    } else {
                        Some(x)
                    },
                    None => Some(i),
                };
            }
            j = j + 1;
        }
        match best {
            None => {
                assert forall|i: int| !#[trigger] stored_at(self@, key@, i) by {
                    if 0 <= i < self@.len() {
                        assert(self@[i] == self.entries@[i]@);
                        assert(self.keys@[i]@ == normalize(self.entries@[i].path@));
                        if self.keys@[i]@ == key@ {
                            let k = choose|k: int| 0 <= k < b@.len() && b@[k] as int == i;
                            assert(self.keys@[b@[k] as int]@ != key@);
                        }
                    }
                }
                None
            },
            Some(x) => {
                let e = &self.entries[x];
                assert(self@[x as int] == self.entries@[x as int]@);
                assert(stored_at(self@, key@, x as int));
                assert forall|i: int| x < i < self@.len() implies normalize(
                    #[trigger] self@[i].path,
                ) != key@ by {
                    assert(self@[i] == self.entries@[i]@);
                    assert(self.keys@[i]@ == normalize(self.entries@[i].path@));
                    if self.keys@[i]@ == key@ {
                        let k = choose|k: int| 0 <= k < b@.len() && b@[k] as int == i;
                        assert(self.keys@[b@[k] as int]@ == key@);
                    }
                }
                assert(is_last_match(self@, key@, x as int));
                assert(e@ == self@[x as int]);
                Some(e)
            },
        }
    }

    /// The entries of type `t`, in archive order.
    fn select(&self, t: FileType) -> (r: Vec<&CpioEntry>)
        ensures
            r@.map_values(|e: &CpioEntry| e@) == of_kind(self@, t),
    {
        let mut r: Vec<&CpioEntry> = Vec::new();
        let mut i: usize = 0;
        while i < self.entries.len()
            invariant
                i <= self@.len(),
                r@.map_values(|e: &CpioEntry| e@) == of_kind(self@.subrange(0, i as int), t),
            decreases self.entries.len() - i,
        {
            let e = &self.entries[i];
            assert(self@.subrange(0, i + 1).drop_last() =~= self@.subrange(0, i as int));
            if e.file_type == t {
                r.push(e);
            }
            assert(r@.map_values(|e: &CpioEntry| e@) =~= of_kind(self@.subrange(0, i + 1), t));
            i = i + 1;
        }
        assert(self@.subrange(0, i as int) =~= self@);
        r
    }

    /// The regular files, in archive order.
    pub fn files(&self) -> (r: Vec<&CpioEntry>)
        ensures
            r@.map_values(|e: &CpioEntry| e@) == of_kind(self@, FileType::Regular),
    {
        self.select(FileType::Regular)
    }

    /// The directories, in archive order.
    pub fn directories(&self) -> (r: Vec<&CpioEntry>)
        ensures
            r@.map_values(|e: &CpioEntry| e@) == of_kind(self@, FileType::Directory),
    {
        self.select(FileType::Directory)
    }

    /// The symlinks, in archive order.
    pub fn symlinks(&self) -> (r: Vec<&CpioEntry>)
        ensures
            r@.map_values(|e: &CpioEntry| e@) == of_kind(self@, FileType::Symlink),
    {
        self.select(FileType::Symlink)
    }

    /// The lookup key of a path: one leading `./` removed, then every
    /// leading `/`.
    pub fn normalize_path(path: &str) -> (r: String)
        ensures
            r@ == normalize(path@),
    {
        normalize_path(path)
    }

    /// Whether the target of the symlink `entry` names an entry of this
    /// archive, followed one hop only. An entry without a target has none.
    pub fn symlink_target_exists(&self, entry: &CpioEntry) -> (r: bool)
        ensures
            r == match entry.link_target {
                Some(t) => index_contains(self@, normalize(resolve(entry.path@, t@))),
                None => false,
            },
    {
        match &entry.link_target {
            Some(target) => {
                let resolved = self.resolve_symlink_target(entry.path.as_str(), target.as_str());
                self.path_exists(resolved.as_str())
            },
            None => false,
        }
    }

    /// The archive path that a symlink at `link_path` with target `target`
    /// names (see [`resolve`]).
    pub fn resolve_symlink_target(&self, link_path: &str, target: &str) -> (r: String)
        ensures
            r@ == resolve(link_path@, target@),
    {
        resolve_target(link_path, target)
    }

    /// Counts of the entries by type, and the summed size of the regular
    /// files.
    pub fn stats(&self) -> (r: CpioStats)
        ensures
            r.files == of_kind(self@, FileType::Regular).len(),
            r.directories == of_kind(self@, FileType::Directory).len(),
            r.symlinks == of_kind(self@, FileType::Symlink).len(),
            r.files + r.directories + r.symlinks + r.other == self@.len(),
            r.total_size == if regular_size_total(self@) > u64::MAX {
                u64::MAX as int
            } else {
                regular_size_total(self@)
            },
    {
        let mut files: usize = 0;
        let mut directories: usize = 0;
        let mut symlinks: usize = 0;
        let mut other: usize = 0;
        let mut total_size: u64 = 0;
        let mut i: usize = 0;
        while i < self.entries.len()
            invariant
                i <= self@.len(),
                self@.len() == self.entries@.len(),
                files == of_kind(self@.subrange(0, i as int), FileType::Regular).len(),
                directories == of_kind(self@.subrange(0, i as int), FileType::Directory).len(),
                symlinks == of_kind(self@.subrange(0, i as int), FileType::Symlink).len(),
                files + directories + symlinks + other == i,
                total_size == if regular_size_total(self@.subrange(0, i as int)) > u64::MAX {
                    u64::MAX as int
                } else {
                    regular_size_total(self@.subrange(0, i as int))
                },
            decreases self.entries.len() - i,
        {
            let e = &self.entries[i];
            let ghost prefix = self@.subrange(0, i + 1);
            assert(prefix.drop_last() =~= self@.subrange(0, i as int));
            assert(prefix.last() == e@);
            match e.file_type {
                FileType::Regular => {
                    files = files + 1;
                    total_size = total_size.saturating_add(e.size);
                },
                FileType::Directory => {
                    directories = directories + 1;
                },
                FileType::Symlink => {
                    symlinks = symlinks + 1;
                },
                _ => {
                    other = other + 1;
                },
            }
            i = i + 1;
        }
        assert(self@.subrange(0, i as int) =~= self@);
        CpioStats { files, directories, symlinks, other, total_size }
    }
}

// ---------------------------------------------------------------------------
// Properties of the stream
// ---------------------------------------------------------------------------

/// The header of the record that starts `r`.
pub open spec fn first_header(r: Seq<u8>) -> CpioHeader {
    header_of(r.subrange(0, HEADER_LEN as int))
}

/// A complete record other than the trailer: a header that decodes,
/// followed by exactly the name, content and padding that it declares.
pub open spec fn is_record(r: Seq<u8>) -> bool {
    &&& r.len() >= HEADER_LEN
    &&& header_valid(r.subrange(0, HEADER_LEN as int))
    &&& record_end(0, first_header(r)) == r.len()
    &&& r.subrange(HEADER_LEN as int, HEADER_LEN as int + name_len(first_header(r)))
        != trailer_name()
}

/// A trailer record: a header that decodes, then the name `TRAILER!!!` and
/// its padding.
pub open spec fn is_trailer_record(r: Seq<u8>) -> bool {
    &&& r.len() >= HEADER_LEN
    &&& header_valid(r.subrange(0, HEADER_LEN as int))
    &&& content_start(0, first_header(r)) <= r.len()
    &&& r.subrange(HEADER_LEN as int, HEADER_LEN as int + name_len(first_header(r)))
        == trailer_name()
}

/// The records `rs` one after the other.
pub open spec fn concat_records(rs: Seq<Seq<u8>>) -> Seq<u8>
    decreases rs.len(),
{
    if rs.len() == 0 {
        Seq::empty()
    } else {
        rs[0] + concat_records(rs.drop_first())
    }
}

/// Decoding from offset `a.len() + p` of `a + b` is decoding `b` from `p`:
/// what comes before a record does not change how it decodes.
proof fn lemma_decode_shift(a: Seq<u8>, b: Seq<u8>, p: int)
    requires
        0 <= p,
    ensures
        decode_from(a + b, a.len() + p) == decode_from(b, p),
    decreases b.len() - p,
{
    let d = a + b;
    let q = a.len() + p;
    if p + HEADER_LEN as int <= b.len() {
        assert(d.subrange(q, q + HEADER_LEN as int) =~= b.subrange(p, p + HEADER_LEN as int));
        let hb = b.subrange(p, p + HEADER_LEN as int);
        if header_valid(hb) {
            let h = header_of(hb);
            let cs = content_start(p, h);
            if cs <= b.len() {
                assert(d.subrange(q + HEADER_LEN as int, q + HEADER_LEN as int + name_len(h))
                    =~= b.subrange(p + HEADER_LEN as int, p + HEADER_LEN as int + name_len(h)));
                let end = record_end(p, h);
                if end <= b.len() {
                    assert(d.subrange(a.len() + cs, a.len() + cs + h.filesize) =~= b.subrange(
                        cs,
                        cs + h.filesize,
                    ));
                    assert(record_end(q, h) == a.len() + end);
                    lemma_decode_shift(a, b, end);
                }
            }
        }
    }
}

/// The entry that a record stands for.
pub open spec fn record_entry(r: Seq<u8>) -> EntryModel {
    let h = first_header(r);
    let cs = content_start(0, h);
    entry_of(
        h,
        r.subrange(HEADER_LEN as int, HEADER_LEN as int + name_len(h)),
        r.subrange(cs, cs + h.filesize),
    )
}

/// A record in front of a stream adds its entry in front of the stream's.
proof fn lemma_decode_record(r: Seq<u8>, rest: Seq<u8>)
    requires
        is_record(r),
    ensures
        decode(r + rest) == prepend(seq![record_entry(r)], decode(rest)),
{
    let d = r + rest;
    let h = first_header(r);
    assert(d.subrange(0, HEADER_LEN as int) =~= r.subrange(0, HEADER_LEN as int));
    let cs = content_start(0, h);
    assert(d.subrange(HEADER_LEN as int, HEADER_LEN as int + name_len(h)) =~= r.subrange(
        HEADER_LEN as int,
        HEADER_LEN as int + name_len(h),
    ));
    assert(d.subrange(cs, cs + h.filesize) =~= r.subrange(cs, cs + h.filesize));
    lemma_decode_shift(r, rest, 0);
}

/// A stream of `N` complete records and a trailer decodes, and yields `N`
/// entries: one for each record, in order.
pub proof fn lemma_decode_count(rs: Seq<Seq<u8>>, trailer: Seq<u8>)
    requires
        forall|i: int| 0 <= i < rs.len() ==> is_record(#[trigger] rs[i]),
        is_trailer_record(trailer),
    ensures
        decode(concat_records(rs) + trailer) matches Ok(es) && es.len() == rs.len()
            && forall|i: int| 0 <= i < rs.len() ==> #[trigger] es[i] == record_entry(rs[i]),
    decreases rs.len(),
{
    if rs.len() == 0 {
        assert(concat_records(rs) + trailer =~= trailer);
        lemma_decode_trailer(trailer);
    } else {
        let tail = rs.drop_first();
        assert forall|i: int| 0 <= i < tail.len() implies is_record(#[trigger] tail[i]) by {
            assert(tail[i] == rs[i + 1]);
        }
        lemma_decode_count(tail, trailer);
        assert(concat_records(rs) + trailer =~= rs[0] + (concat_records(tail) + trailer));
        lemma_decode_record(rs[0], concat_records(tail) + trailer);
    }
}

/// A stream that holds only a trailer decodes, to no entries.
pub proof fn lemma_decode_trailer(trailer: Seq<u8>)
    requires
        is_trailer_record(trailer),
    ensures
        decode(trailer) == Ok::<Seq<EntryModel>, ErrorCode>(Seq::empty()),
{
}

/// Complete records followed by a record cut short anywhere before its
/// end fail to decode with `UnexpectedEndOfStream`, however much of the
/// stream was sound.
pub proof fn lemma_decode_truncated(rs: Seq<Seq<u8>>, last: Seq<u8>, k: int)
    requires
        forall|i: int| 0 <= i < rs.len() ==> is_record(#[trigger] rs[i]),
        is_record(last),
        0 <= k < last.len(),
    ensures
        decode(concat_records(rs) + last.subrange(0, k)) == Err::<Seq<EntryModel>, ErrorCode>(
            ErrorCode::UnexpectedEndOfStream,
        ),
    decreases rs.len(),
{
    if rs.len() == 0 {
        let d = last.subrange(0, k);
        assert(concat_records(rs) + d =~= d);
        if k >= HEADER_LEN {
            assert(d.subrange(0, HEADER_LEN as int) =~= last.subrange(0, HEADER_LEN as int));
            let h = first_header(last);
            if content_start(0, h) <= k {
                assert(d.subrange(HEADER_LEN as int, HEADER_LEN as int + name_len(h))
                    =~= last.subrange(HEADER_LEN as int, HEADER_LEN as int + name_len(h)));
            }
        }
    } else {
        let tail = rs.drop_first();
        assert forall|i: int| 0 <= i < tail.len() implies is_record(#[trigger] tail[i]) by {
            assert(tail[i] == rs[i + 1]);
        }
        lemma_decode_truncated(tail, last, k);
        assert(concat_records(rs) + last.subrange(0, k) =~= rs[0] + (concat_records(tail)
            + last.subrange(0, k)));
        lemma_decode_record(rs[0], concat_records(tail) + last.subrange(0, k));
    }
}

/// A stream whose first six bytes are not a recognized magic fails with
/// `InvalidFormat` as soon as a whole header is there, whatever follows.
pub proof fn lemma_decode_bad_magic(data: Seq<u8>)
    requires
        data.len() >= HEADER_LEN,
        !magic_ok(data.subrange(0, 6)),
    ensures
        decode(data) == Err::<Seq<EntryModel>, ErrorCode>(ErrorCode::InvalidFormat),
{
    assert(data.subrange(0, HEADER_LEN as int).subrange(0, 6) =~= data.subrange(0, 6));
}

/// Every decoded entry is well formed: its type comes from its mode alone,
/// and it has a target exactly when it is a symlink.
pub proof fn lemma_decode_wf(data: Seq<u8>, pos: int)
    ensures
        decode_from(data, pos) matches Ok(es) ==> forall|i: int|
            0 <= i < es.len() ==> (#[trigger] es[i]).wf(),
    decreases data.len() - pos,
{
    if !(pos < 0 || pos + HEADER_LEN as int > data.len()) && header_valid(
        data.subrange(pos, pos + HEADER_LEN as int),
    ) {
        let h = header_of(data.subrange(pos, pos + HEADER_LEN as int));
        let end = record_end(pos, h);
        if content_start(pos, h) <= data.len() && end <= data.len() {
            lemma_decode_wf(data, end);
            if let Ok(es) = decode_from(data, pos) {
                if let Ok(rest) = decode_from(data, end) {
                    assert forall|i: int| 0 <= i < es.len() implies (#[trigger] es[i]).wf() by {
                        if i > 0 {
                            assert(es[i] == rest[i - 1]);
                        }
                    }
                }
            }
        }
    }
}

/// A record that starts at a multiple of four keeps the stream aligned:
/// its content starts at a multiple of four after at most three bytes of
/// padding behind the name, and it ends at a multiple of four after at
/// most three bytes of padding behind the content.
pub proof fn lemma_record_alignment(pos: int, h: CpioHeader)
    requires
        pos % 4 == 0,
    ensures
        0 <= pad4(HEADER_LEN as int + h.namesize) < 4,
        content_start(pos, h) == pos + HEADER_LEN as int + h.namesize + pad4(
            HEADER_LEN as int + h.namesize,
        ),
        content_start(pos, h) % 4 == 0,
        0 <= pad4(h.filesize as int) < 4,
        record_end(pos, h) == content_start(pos, h) + h.filesize + pad4(h.filesize as int),
        record_end(pos, h) % 4 == 0,
{
}

/// A complete record is a whole number of four-byte words.
pub proof fn lemma_record_len(r: Seq<u8>)
    requires
        is_record(r),
    ensures
        r.len() % 4 == 0,
{
    lemma_record_alignment(0, first_header(r));
}

/// In a stream of complete records, record `k` starts at the offset that
/// the records before it fill, a multiple of four, and its bytes lie there
/// unchanged; so its entry (see [`lemma_decode_count`]) takes its name
/// and content from that offset.
pub proof fn lemma_record_offset(rs: Seq<Seq<u8>>, k: int)
    requires
        forall|i: int| 0 <= i < rs.len() ==> is_record(#[trigger] rs[i]),
        0 <= k < rs.len(),
    ensures
        ({
            let off = concat_records(rs.subrange(0, k)).len() as int;
            &&& off % 4 == 0
            &&& off + rs[k].len() <= concat_records(rs).len()
            &&& concat_records(rs).subrange(off, off + rs[k].len() as int) == rs[k]
        }),
    decreases rs.len(),
{
    let tail = rs.drop_first();
    assert forall|i: int| 0 <= i < tail.len() implies is_record(#[trigger] tail[i]) by {
        assert(tail[i] == rs[i + 1]);
    }
    lemma_record_len(rs[0]);
    lemma_concat_len(tail);
    if k == 0 {
        assert(rs.subrange(0, 0) =~= Seq::<Seq<u8>>::empty());
        assert(concat_records(rs).subrange(0, rs[0].len() as int) =~= rs[0]);
    } else {
        lemma_record_offset(tail, k - 1);
        let pre = rs.subrange(0, k);
        assert(pre.drop_first() =~= tail.subrange(0, k - 1));
        assert(pre[0] == rs[0]);
        let off = concat_records(tail.subrange(0, k - 1)).len() as int;
        let whole = concat_records(tail);
        assert(concat_records(rs).subrange(
            rs[0].len() + off,
            rs[0].len() + off + rs[k].len(),
        ) =~= whole.subrange(off, off + rs[k].len()));
        assert(tail[k - 1] == rs[k]);
    }
}

/// Complete records fill a whole number of four-byte words.
proof fn lemma_concat_len(rs: Seq<Seq<u8>>)
    requires
        forall|i: int| 0 <= i < rs.len() ==> is_record(#[trigger] rs[i]),
    ensures
        concat_records(rs).len() % 4 == 0,
    decreases rs.len(),
{
    if rs.len() > 0 {
        let tail = rs.drop_first();
        assert forall|i: int| 0 <= i < tail.len() implies is_record(#[trigger] tail[i]) by {
            assert(tail[i] == rs[i + 1]);
        }
        lemma_record_len(rs[0]);
        lemma_concat_len(tail);
    }
}

} // verus!

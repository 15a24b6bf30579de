//! EROFS image inspection, from the listing that `dump.erofs --ls -r`
//! prints. Running the tool is left to the caller; this module reads its
//! output.

use vstd::prelude::*;
use vstd::string::*;
use crate::error::FsdbgError;
use crate::path::strip_slashes;
use crate::text::{
    chars_of, contains_chars, has_sub, join_chars, join_with, parse_u64, parse_u64_chars,
    split_arrow, split_arrow_chars, split_chars, split_on, split_words, string_of, tail_pieces,
    trim, trim_chars, views, words,
};

verus! {

/// One entry of an EROFS image.
#[derive(Clone, Debug)]
pub struct ErofsEntry {
    pub path: String,
    pub size: u64,
    pub is_dir: bool,
    pub is_symlink: bool,
    pub link_target: Option<String>,
    pub mode: String,
}

/// The value of an [`ErofsEntry`], its strings as character sequences.
pub struct ErofsEntryModel {
    pub path: Seq<char>,
    pub size: u64,
    pub is_dir: bool,
    pub is_symlink: bool,
    pub link_target: Option<Seq<char>>,
    pub mode: Seq<char>,
}

impl View for ErofsEntry {
    type V = ErofsEntryModel;

    open spec fn view(&self) -> ErofsEntryModel {
        ErofsEntryModel {
            path: self.path@,
            size: self.size,
            is_dir: self.is_dir,
            is_symlink: self.is_symlink,
            link_target: match self.link_target {
                Some(t) => Some(t@),
                None => None,
            },
            mode: self.mode@,
        }
    }
}

/// Whether `s` begins with the character `c`.
pub open spec fn starts_with_char(s: Seq<char>, c: char) -> bool {
    s.len() > 0 && s[0] == c
}

/// The number in `s`, or 0 where `s` is not one.
pub open spec fn number_or_zero(s: Seq<char>) -> u64 {
    match parse_u64(s) {
        Some(v) => v,
        None => 0,
    }
}

/// The entry that one line of the listing describes. A line of nine words
/// or more reads as `ls -l` output: mode, links, owner, group, size, date
/// (three words), then the path, and for a symlink ` -> ` and its target.
/// A shorter line is a bare path, a directory where it ends in `/`. Blank
/// lines describe nothing.
pub open spec fn dump_line_entry(raw: Seq<char>) -> Option<ErofsEntryModel> {
    let line = trim(raw);
    let parts = words(line);
    if line.len() == 0 {
        None
    } else if parts.len() >= 9 {
        let mode = parts[0];
        let is_symlink = starts_with_char(mode, 'l');
        let (path, target) = split_arrow(join_with(parts.subrange(8, parts.len() as int), ' '), is_symlink);
        Some(
            ErofsEntryModel {
                path,
                size: number_or_zero(parts[4]),
                is_dir: starts_with_char(mode, 'd'),
                is_symlink,
                link_target: target,
                mode,
            },
        )
    } else {
        Some(
            ErofsEntryModel {
                path: line,
                size: 0,
                is_dir: line.last() == '/',
                is_symlink: false,
                link_target: None,
                mode: Seq::empty(),
            },
        )
    }
}

/// The entries that the lines `lines` describe, in order.
pub open spec fn dump_entries(lines: Seq<Seq<char>>) -> Seq<ErofsEntryModel>
    decreases lines.len(),
{
    if lines.len() == 0 {
        Seq::empty()
    } else {
        match dump_line_entry(lines.last()) {
            Some(e) => dump_entries(lines.drop_last()).push(e),
            None => dump_entries(lines.drop_last()),
        }
    }
}

pub(crate) fn number_or_zero_exec(s: &Vec<char>) -> (r: u64)
    ensures
        r == number_or_zero(s@),
{
    match parse_u64_chars(s) {
        Some(v) => v,
        None => 0,
    }
}

fn dump_line(raw: &Vec<char>) -> (r: Option<ErofsEntry>)
    ensures
        match r {
            Some(e) => dump_line_entry(raw@) == Some(e@),
            None => dump_line_entry(raw@) is None,
        },
{
    let line = trim_chars(raw);
    if line.len() == 0 {
        return None;
    }
    let parts = split_words(&line);
    if parts.len() >= 9 {
        let mode = &parts[0];
        let is_dir = mode.len() > 0 && mode[0] == 'd';
        let is_symlink = mode.len() > 0 && mode[0] == 'l';
        let tail = tail_pieces(&parts, 8);
        let joined = join_chars(&tail, ' ');
        let (path, link_target) = split_arrow_chars(&joined, is_symlink);
        let size = number_or_zero_exec(&parts[4]);
        let e = ErofsEntry { path, size, is_dir, is_symlink, link_target, mode: string_of(mode) };
        proof {
            assert(parts@[0]@ == words(trim(raw@))[0]);
            assert(parts@[4]@ == words(trim(raw@))[4]);
        }
        Some(e)
    } else {
        let n = line.len();
        let is_dir = line[n - 1] == '/';
        Some(
            ErofsEntry {
                path: string_of(&line),
                size: 0,
                is_dir,
                is_symlink: false,
                link_target: None,
                mode: String::new(),
            },
        )
    }
}

/// Which of the entries `es` are symlinks.
pub open spec fn erofs_symlinks(es: Seq<ErofsEntryModel>) -> Seq<ErofsEntryModel>
    decreases es.len(),
{
    if es.len() == 0 {
        Seq::empty()
    } else if es.last().is_symlink {
        erofs_symlinks(es.drop_last()).push(es.last())
    } else {
        erofs_symlinks(es.drop_last())
    }
}

/// Counts of directories, symlinks and other files among `es` (a directory
/// counts as a directory whatever else it is marked as), and the summed
/// size of the other files.
pub open spec fn erofs_counts(es: Seq<ErofsEntryModel>) -> (nat, nat, nat, int)
    decreases es.len(),
{
    if es.len() == 0 {
        (0, 0, 0, 0)
    } else {
        let (f, d, s, t) = erofs_counts(es.drop_last());
        let e = es.last();
        if e.is_dir {
            (f, d + 1, s, t)
        } else if e.is_symlink {
            (f, d, s + 1, t)
        } else {
            (f + 1, d, s, t + e.size)
        }
    }
}

/// Whether `es[i]` has the path `p`, leading slashes ignored on both sides.
pub open spec fn same_path_at(es: Seq<ErofsEntryModel>, p: Seq<char>, i: int) -> bool {
    0 <= i < es.len() && strip_slashes(es[i].path) == strip_slashes(p)
}

/// The entries of an EROFS image.
pub struct ErofsReader {
    entries: Vec<ErofsEntry>,
}

/// Counts of the entries of an EROFS image.
#[derive(Debug)]
pub struct ErofsStats {
    pub files: usize,
    pub directories: usize,
    pub symlinks: usize,
    /// Summed size of the files, held at `u64::MAX` where it would pass it.
    pub total_size: u64,
}

impl View for ErofsReader {
    type V = Seq<ErofsEntryModel>;

    closed spec fn view(&self) -> Seq<ErofsEntryModel> {
        self.entries@.map_values(|e: ErofsEntry| e@)
    }
}

impl ErofsReader {
    /// A reader over the given entries, in the given order.
    pub fn from_entries(entries: Vec<ErofsEntry>) -> (r: Self)
        ensures
            r@ == entries@.map_values(|e: ErofsEntry| e@),
    {
        ErofsReader { entries }
    }

    /// The entries that a `dump.erofs --ls -r` listing describes, one for
    /// each line that is not blank (see [`dump_line_entry`]). Reading never
    /// fails.
    pub fn parse_dump_output(output: &str) -> (r: Result<Vec<ErofsEntry>, FsdbgError>)
        ensures
            r matches Ok(v) && v@.map_values(|e: ErofsEntry| e@) == dump_entries(
                split_on(output@, '\n'),
            ),
    {
        let chars = chars_of(output);
        let lines = split_chars(&chars, chars.len(), '\n');
        assert(chars@.subrange(0, chars@.len() as int) =~= output@);
        let mut entries: Vec<ErofsEntry> = Vec::new();
        let mut i: usize = 0;
        while i < lines.len()
            invariant
                i <= lines@.len(),
                views(lines@) == split_on(output@, '\n'),
                entries@.map_values(|e: ErofsEntry| e@) == dump_entries(
                    views(lines@).subrange(0, i as int),
                ),
            decreases lines.len() - i,
        {
            let ghost before = entries@.map_values(|e: ErofsEntry| e@);
            assert(views(lines@).subrange(0, i + 1).drop_last() =~= views(lines@).subrange(
                0,
                i as int,
            ));
            match dump_line(&lines[i]) {
                Some(e) => {
                    let ghost m = e@;
                    entries.push(e);
                    assert(entries@.map_values(|e: ErofsEntry| e@) =~= before.push(m));
                },
                None => {},
            }
            i = i + 1;
        }
        assert(views(lines@).subrange(0, i as int) =~= views(lines@));
        Ok(entries)
    }

    /// All entries, in listing order.
    pub fn entries(&self) -> (r: &[ErofsEntry])
        ensures
            r@.map_values(|e: ErofsEntry| e@) == self@,
    {
        self.entries.as_slice()
    }

    /// Whether some entry has the path `path`, leading slashes ignored on
    /// both sides.
    pub fn path_exists(&self, path: &str) -> (r: bool)
        ensures
            r == exists|i: int| #[trigger] same_path_at(self@, path@, i),
    {
        let key = strip_leading_slashes(path);
        let mut i: usize = 0;
        while i < self.entries.len()
            invariant
                i <= self@.len(),
                key@ == strip_slashes(path@),
                forall|k: int| 0 <= k < i ==> strip_slashes(#[trigger] self@[k].path) != key@,
            decreases self.entries.len() - i,
        {
            let p = strip_leading_slashes(self.entries[i].path.as_str());
            assert(self@[i as int] == self.entries@[i as int]@);
            if p == key {
                assert(same_path_at(self@, path@, i as int));
                return true;
            }
            i = i + 1;
        }
        false
    }

    /// Counts of the entries by kind, and the summed size of the files.
    pub fn stats(&self) -> (r: ErofsStats)
        ensures
            ({
                let (f, d, s, t) = erofs_counts(self@);
                &&& r.files == f
                &&& r.directories == d
                &&& r.symlinks == s
                &&& r.total_size == if t > u64::MAX {
                    u64::MAX as int
                } else {
                    t
                }
            }),
    {
        let mut files: usize = 0;
        let mut directories: usize = 0;
        let mut symlinks: usize = 0;
        let mut total_size: u64 = 0;
        let mut i: usize = 0;
        while i < self.entries.len()
            invariant
                i <= self@.len(),
                self@.len() == self.entries@.len(),
                ({
                    let (f, d, s, t) = erofs_counts(self@.subrange(0, i as int));
                    &&& files == f
                    &&& directories == d
                    &&& symlinks == s
                    &&& f + d + s == i
                    &&& t >= 0
                    &&& total_size == if t > u64::MAX {
                        u64::MAX as int
                    } else {
                        t
                    }
                }),
            decreases self.entries.len() - i,
        {
            let e = &self.entries[i];
            let ghost prefix = self@.subrange(0, i + 1);
            assert(prefix.drop_last() =~= self@.subrange(0, i as int));
            assert(prefix.last() == e@);
            if e.is_dir {
                directories = directories + 1;
            } else if e.is_symlink {
                symlinks = symlinks + 1;
            } else {
                files = files + 1;
                total_size = total_size.saturating_add(e.size);
            }
            i = i + 1;
        }
        assert(self@.subrange(0, i as int) =~= self@);
        ErofsStats { files, directories, symlinks, total_size }
    }

    /// The symlinks, in listing order.
    pub fn symlinks(&self) -> (r: Vec<&ErofsEntry>)
        ensures
            r@.map_values(|e: &ErofsEntry| e@) == erofs_symlinks(self@),
    {
        let mut r: Vec<&ErofsEntry> = Vec::new();
        let mut i: usize = 0;
        while i < self.entries.len()
            invariant
                i <= self@.len(),
                self@.len() == self.entries@.len(),
                r@.map_values(|e: &ErofsEntry| e@) == erofs_symlinks(self@.subrange(0, i as int)),
            decreases self.entries.len() - i,
        {
            let e = &self.entries[i];
            assert(self@.subrange(0, i + 1).drop_last() =~= self@.subrange(0, i as int));
            assert(self@[i as int] == e@);
            if e.is_symlink {
                r.push(e);
            }
            assert(r@.map_values(|e: &ErofsEntry| e@) =~= erofs_symlinks(self@.subrange(0, i + 1)));
            i = i + 1;
        }
        assert(self@.subrange(0, i as int) =~= self@);
        r
    }
}

/// `s` without its leading slashes.
fn strip_leading_slashes(s: &str) -> (r: String)
    ensures
        r@ == strip_slashes(s@),
{
    let n = s.unicode_len();
    let mut j: usize = 0;
    assert(s@.subrange(0, n as int) =~= s@);
    while j < n && s.get_char(j) == '/'
        invariant
            n == s@.len(),
            j <= n,
            strip_slashes(s@) == strip_slashes(s@.subrange(j as int, n as int)),
        decreases n - j,
    {
        assert(s@.subrange(j as int, n as int).drop_first() =~= s@.subrange(j + 1, n as int));
        j = j + 1;
    }
    s.substring_char(j, n).to_owned()
}

/// Summary information of an EROFS image, as `dump.erofs` prints it.
#[derive(Debug)]
pub struct ErofsInfo {
    pub uuid: Option<String>,
    pub total_blocks: u64,
    pub inode_count: u64,
}

/// The value of an [`ErofsInfo`].
pub struct ErofsInfoModel {
    pub uuid: Option<Seq<char>>,
    pub total_blocks: u64,
    pub inode_count: u64,
}

impl View for ErofsInfo {
    type V = ErofsInfoModel;

    open spec fn view(&self) -> ErofsInfoModel {
        ErofsInfoModel {
            uuid: match self.uuid {
                Some(u) => Some(u@),
                None => None,
            },
            total_blocks: self.total_blocks,
            inode_count: self.inode_count,
        }
    }
}

/// The text after the first `:` of `line` and before any second one,
/// trimmed; `None` where `line` has no `:`.
pub open spec fn second_field(line: Seq<char>) -> Option<Seq<char>> {
    if split_on(line, ':').len() > 1 {
        Some(trim(split_on(line, ':')[1]))
    } else {
        None
    }
}

/// `info` updated by one line of `dump.erofs` output: a line that mentions
/// the UUID, the total block count or the inode count sets that field from
/// the text after its colon (a count that is not a number reads as 0).
pub open spec fn erofs_info_step(info: ErofsInfoModel, line: Seq<char>) -> ErofsInfoModel {
    if has_sub(line, "Filesystem UUID:"@) {
        ErofsInfoModel { uuid: second_field(line), ..info }
    } else if has_sub(line, "Filesystem total blocks:"@) {
        match second_field(line) {
            Some(v) => ErofsInfoModel { total_blocks: number_or_zero(v), ..info },
            None => info,
        }
    } else if has_sub(line, "Filesystem inode count:"@) {
        match second_field(line) {
            Some(v) => ErofsInfoModel { inode_count: number_or_zero(v), ..info },
            None => info,
        }
    } else {
        info
    }
}

/// The information that the lines `lines` give, in order, from an empty
/// start.
pub open spec fn erofs_info_of(lines: Seq<Seq<char>>) -> ErofsInfoModel
    decreases lines.len(),
{
    if lines.len() == 0 {
        ErofsInfoModel { uuid: None, total_blocks: 0, inode_count: 0 }
    } else {
        erofs_info_step(erofs_info_of(lines.drop_last()), lines.last())
    }
}

/// The second `:`-separated field of `line`, trimmed (see [`second_field`]).
pub(crate) fn second_field_exec(line: &Vec<char>) -> (r: Option<Vec<char>>)
    ensures
        match r {
            Some(v) => second_field(line@) == Some(v@),
            None => second_field(line@) is None,
        },
{
    let pieces = split_chars(line, line.len(), ':');
    assert(line@.subrange(0, line@.len() as int) =~= line@);
    if pieces.len() > 1 {
        Some(trim_chars(&pieces[1]))
    } else {
        None
    }
}

/// The information in `dump.erofs` output (see [`erofs_info_of`]). Reading
/// never fails.
pub fn parse_erofs_info(output: &str) -> (r: Result<ErofsInfo, FsdbgError>)
    ensures
        r matches Ok(info) && info@ == erofs_info_of(split_on(output@, '\n')),
{
    let chars = chars_of(output);
    let lines = split_chars(&chars, chars.len(), '\n');
    assert(chars@.subrange(0, chars@.len() as int) =~= output@);
    let uuid_key = chars_of("Filesystem UUID:");
    let blocks_key = chars_of("Filesystem total blocks:");
    let inodes_key = chars_of("Filesystem inode count:");
    let mut info = ErofsInfo { uuid: None, total_blocks: 0, inode_count: 0 };
    let mut i: usize = 0;
    while i < lines.len()
        invariant
            i <= lines@.len(),
            views(lines@) == split_on(output@, '\n'),
            uuid_key@ == "Filesystem UUID:"@,
            blocks_key@ == "Filesystem total blocks:"@,
            inodes_key@ == "Filesystem inode count:"@,
            info@ == erofs_info_of(views(lines@).subrange(0, i as int)),
        decreases lines.len() - i,
    {
        let line = &lines[i];
        assert(views(lines@).subrange(0, i + 1).drop_last() =~= views(lines@).subrange(
            0,
            i as int,
        ));
        assert(line@ == views(lines@)[i as int]);
        if contains_chars(line, &uuid_key) {
            info.uuid = match second_field_exec(line) {
                Some(v) => Some(string_of(&v)),
                None => None,
            };
        } else if contains_chars(line, &blocks_key) {
            if let Some(v) = second_field_exec(line) {
                info.total_blocks = number_or_zero_exec(&v);
            }
        } else if contains_chars(line, &inodes_key) {
            if let Some(v) = second_field_exec(line) {
                info.inode_count = number_or_zero_exec(&v);
            }
        }
        i = i + 1;
    }
    assert(views(lines@).subrange(0, i as int) =~= views(lines@));
    Ok(info)
}

} // verus!

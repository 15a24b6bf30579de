//! ISO 9660 image inspection, from the listing and the volume description
//! that `isoinfo` prints. Running the tool is left to the caller; this
//! module reads its output.

use vstd::prelude::*;
use vstd::string::*;
use crate::erofs::{
    number_or_zero, number_or_zero_exec, second_field, second_field_exec, starts_with_char,
};
use crate::error::FsdbgError;
use crate::text::{
    chars_of, concat2, contains_chars, has_prefix, has_sub, join_chars, join_with,
    parse_u32, parse_u32_chars, slice_chars, split_arrow, split_arrow_chars, split_chars,
    split_on, split_words, starts_with_chars, str_eq, string_of, tail_pieces, trim, trim_chars,
    views, words,
};

verus! {

/// One entry of an ISO image.
#[derive(Clone, Debug)]
pub struct IsoEntry {
    pub path: String,
    pub size: u64,
    pub is_dir: bool,
    pub is_symlink: bool,
    pub link_target: Option<String>,
}

/// The value of an [`IsoEntry`], its strings as character sequences.
pub struct IsoEntryModel {
    pub path: Seq<char>,
    pub size: u64,
    pub is_dir: bool,
    pub is_symlink: bool,
    pub link_target: Option<Seq<char>>,
}

impl View for IsoEntry {
    type V = IsoEntryModel;

    open spec fn view(&self) -> IsoEntryModel {
        IsoEntryModel {
            path: self.path@,
            size: self.size,
            is_dir: self.is_dir,
            is_symlink: self.is_symlink,
            link_target: match self.link_target {
                Some(t) => Some(t@),
                None => None,
            },
        }
    }
}

/// Index of the first word of the name in the words `parts` of a listing
/// line: the one after the first word from `i` on that ends in `]` (the
/// bracketed extent), or 8 where there is none.
pub open spec fn name_start_from(parts: Seq<Seq<char>>, i: int) -> int
    decreases parts.len() - i,
{
    if i < 0 || i >= parts.len() {
        8
    } else if parts[i].len() > 0 && parts[i].last() == ']' {
        i + 1
    } else {
        name_start_from(parts, i + 1)
    }
}

/// The listing state after one more line of `isoinfo -l -R` output: the
/// entries so far, and the directory being listed. A `Directory listing of`
/// line changes the directory; blank lines, `---` lines and lines of fewer
/// than nine words are skipped; any other line is an `ls -l` style entry
/// (mode, links, owner, group, size, date, bracketed extent, name), which
/// is added under the current directory unless its name is `.` or `..`.
pub open spec fn iso_step(st: (Seq<IsoEntryModel>, Seq<char>), raw: Seq<char>) -> (
    Seq<IsoEntryModel>,
    Seq<char>,
) {
    let line = trim(raw);
    let parts = words(line);
    let start = name_start_from(parts, 8);
    if has_prefix(line, "Directory listing of "@) {
        (st.0, line.subrange("Directory listing of "@.len() as int, line.len() as int))
    } else if line.len() == 0 || has_prefix(line, "---"@) || parts.len() < 9 || start
        >= parts.len() {
        st
    } else {
        let mode = parts[0];
        let is_symlink = starts_with_char(mode, 'l');
        let (name, target) = split_arrow(join_with(parts.subrange(start, parts.len() as int), ' '), is_symlink);
        if name == "."@ || name == ".."@ {
            st
        } else {
            let path = if st.1 == "/"@ {
                "/"@ + name
            } else {
                st.1 + name
            };
            (
                st.0.push(
                    IsoEntryModel {
                        path,
                        size: number_or_zero(parts[4]),
                        is_dir: starts_with_char(mode, 'd'),
                        is_symlink,
                        link_target: target,
                    },
                ),
                st.1,
            )
        }
    }
}

/// The listing state after the lines `lines`, from no entries and no
/// directory.
pub open spec fn iso_listing(lines: Seq<Seq<char>>) -> (Seq<IsoEntryModel>, Seq<char>)
    decreases lines.len(),
{
    if lines.len() == 0 {
        (Seq::empty(), Seq::empty())
    } else {
        iso_step(iso_listing(lines.drop_last()), lines.last())
    }
}

fn name_start(parts: &Vec<Vec<char>>) -> (r: usize)
    ensures
        r as int == name_start_from(views(parts@), 8),
{
    let mut i: usize = 8;
    while i < parts.len()
        invariant
            8 <= i,
            name_start_from(views(parts@), 8) == name_start_from(views(parts@), i as int),
        decreases parts.len() - i,
    {
        let p = &parts[i];
        assert(p@ == views(parts@)[i as int]);
        if p.len() > 0 && p[p.len() - 1] == ']' {
            return i + 1;
        }
        i = i + 1;
    }
    8
}

/// Applies one line to the listing state (see [`iso_step`]).
fn iso_line(entries: &mut Vec<IsoEntry>, dir: &mut String, raw: &Vec<char>, dir_key: &Vec<char>, rule: &Vec<char>)
    requires
        dir_key@ == "Directory listing of "@,
        rule@ == "---"@,
    ensures
        ({
            let (es, d) = iso_step((old(entries)@.map_values(|e: IsoEntry| e@), old(dir)@), raw@);
            final(entries)@.map_values(|e: IsoEntry| e@) == es && final(dir)@ == d
        }),
{
    let ghost before = entries@.map_values(|e: IsoEntry| e@);
    let line = trim_chars(raw);
    if starts_with_chars(&line, dir_key) {
        let rest = slice_chars(&line, dir_key.len(), line.len());
        *dir = string_of(&rest);
        return;
    }
    if line.len() == 0 || starts_with_chars(&line, rule) {
        return;
    }
    let parts = split_words(&line);
    if parts.len() < 9 {
        return;
    }
    let start = name_start(&parts);
    if start >= parts.len() {
        return;
    }
    let mode = &parts[0];
    let is_dir = mode.len() > 0 && mode[0] == 'd';
    let is_symlink = mode.len() > 0 && mode[0] == 'l';
    let tail = tail_pieces(&parts, start);
    let joined = join_chars(&tail, ' ');
    let (name, link_target) = split_arrow_chars(&joined, is_symlink);
    if str_eq(name.as_str(), ".") || str_eq(name.as_str(), "..") {
        return;
    }
    let path = if str_eq(dir.as_str(), "/") {
        concat2("/", name.as_str())
    } else {
        concat2(dir.as_str(), name.as_str())
    };
    let size = number_or_zero_exec(&parts[4]);
    proof {
        assert(parts@[0]@ == views(parts@)[0]);
        assert(parts@[4]@ == views(parts@)[4]);
    }
    let e = IsoEntry { path, size, is_dir, is_symlink, link_target };
    let ghost m = e@;
    entries.push(e);
    assert(entries@.map_values(|e: IsoEntry| e@) =~= before.push(m));
}

/// Which of the entries `es` are symlinks.
pub open spec fn iso_symlinks(es: Seq<IsoEntryModel>) -> Seq<IsoEntryModel>
    decreases es.len(),
{
    if es.len() == 0 {
        Seq::empty()
    } else if es.last().is_symlink {
        iso_symlinks(es.drop_last()).push(es.last())
    } else {
        iso_symlinks(es.drop_last())
    }
}

/// Counts of directories, symlinks and other files among `es` (a directory
/// counts as a directory whatever else it is marked as), and the summed
/// size of the other files.
pub open spec fn iso_counts(es: Seq<IsoEntryModel>) -> (nat, nat, nat, int)
    decreases es.len(),
{
    if es.len() == 0 {
        (0, 0, 0, 0)
    } else {
        let (f, d, s, t) = iso_counts(es.drop_last());
        let e = es.last();
        if e.is_dir {
            (f, d + 1, s, t)
        } else if e.is_symlink {
            (f, d, s + 1, t)
        } else {
            (f + 1, d, s, t + e.size)
        }
    }
}

/// The path under which a lookup of `p` searches: `p` itself where it
/// begins with `/`, else `p` with a `/` in front.
pub open spec fn rooted(p: Seq<char>) -> Seq<char> {
    if p.len() > 0 && p[0] == '/' {
        p
    } else {
        "/"@ + p
    }
}

/// Whether `es[i]` has the path `p`, taken from the root.
pub open spec fn iso_path_at(es: Seq<IsoEntryModel>, p: Seq<char>, i: int) -> bool {
    0 <= i < es.len() && es[i].path == rooted(p)
}

/// The entries of an ISO image and its volume label.
pub struct IsoReader {
    entries: Vec<IsoEntry>,
    volume_id: Option<String>,
}

/// Counts of the entries of an ISO image.
#[derive(Debug)]
pub struct IsoStats {
    pub files: usize,
    pub directories: usize,
    pub symlinks: usize,
    /// Summed size of the files, held at `u64::MAX` where it would pass it.
    pub total_size: u64,
}

impl View for IsoReader {
    type V = Seq<IsoEntryModel>;

    closed spec fn view(&self) -> Seq<IsoEntryModel> {
        self.entries@.map_values(|e: IsoEntry| e@)
    }
}

impl IsoReader {
    /// The label of the reader's volume, if it has one.
    pub closed spec fn volume_label(&self) -> Option<Seq<char>> {
        match self.volume_id {
            Some(v) => Some(v@),
            None => None,
        }
    }

    /// A reader over the given entries and volume label.
    pub fn from_parts(entries: Vec<IsoEntry>, volume_id: Option<String>) -> (r: Self)
        ensures
            r@ == entries@.map_values(|e: IsoEntry| e@),
            r.volume_label() == match volume_id {
                Some(v) => Some(v@),
                None => None,
            },
    {
        IsoReader { entries, volume_id }
    }

    /// The entries that an `isoinfo -l -R` listing describes, with their
    /// full paths (see [`iso_step`]). Reading never fails.
    pub fn parse_isoinfo_output(output: &str) -> (r: Result<Vec<IsoEntry>, FsdbgError>)
        ensures
            r matches Ok(v) && v@.map_values(|e: IsoEntry| e@) == iso_listing(
                split_on(output@, '\n'),
            ).0,
    {
        let chars = chars_of(output);
        let lines = split_chars(&chars, chars.len(), '\n');
        assert(chars@.subrange(0, chars@.len() as int) =~= output@);
        let dir_key = chars_of("Directory listing of ");
        let rule = chars_of("---");
        let mut entries: Vec<IsoEntry> = Vec::new();
        let mut dir = String::new();
        let mut i: usize = 0;
        assert(entries@.map_values(|e: IsoEntry| e@) =~= Seq::<IsoEntryModel>::empty());
        while i < lines.len()
            invariant
                i <= lines@.len(),
                views(lines@) == split_on(output@, '\n'),
                dir_key@ == "Directory listing of "@,
                rule@ == "---"@,
                (entries@.map_values(|e: IsoEntry| e@), dir@) == iso_listing(
                    views(lines@).subrange(0, i as int),
                ),
            decreases lines.len() - i,
        {
            assert(views(lines@).subrange(0, i + 1).drop_last() =~= views(lines@).subrange(
                0,
                i as int,
            ));
            assert(lines@[i as int]@ == views(lines@)[i as int]);
            iso_line(&mut entries, &mut dir, &lines[i], &dir_key, &rule);
            i = i + 1;
        }
        assert(views(lines@).subrange(0, i as int) =~= views(lines@));
        Ok(entries)
    }

    /// The volume label in `isoinfo -d` output: the trimmed text after
    /// `Volume id:` on the first line that begins with it, or the empty
    /// string where no line does.
    pub fn volume_id_from_output(output: &str) -> (r: String)
        ensures
            r@ == volume_id_in(split_on(output@, '\n')),
    {
        let chars = chars_of(output);
        let lines = split_chars(&chars, chars.len(), '\n');
        assert(chars@.subrange(0, chars@.len() as int) =~= output@);
        let key = chars_of("Volume id:");
        let mut i: usize = 0;
        assert(views(lines@).subrange(0, lines@.len() as int) =~= views(lines@));
        while i < lines.len()
            invariant
                i <= lines@.len(),
                views(lines@) == split_on(output@, '\n'),
                key@ == "Volume id:"@,
                volume_id_in(views(lines@)) == volume_id_in(
                    views(lines@).subrange(i as int, lines@.len() as int),
                ),
            decreases lines.len() - i,
        {
            let line = &lines[i];
            let ghost rest = views(lines@).subrange(i as int, lines@.len() as int);
            assert(rest[0] == line@);
            assert(rest.drop_first() =~= views(lines@).subrange(i + 1, lines@.len() as int));
            if starts_with_chars(line, &key) {
                let after = slice_chars(line, key.len(), line.len());
                return string_of(&trim_chars(&after));
            }
            i = i + 1;
        }
        String::new()
    }

    /// All entries, in listing order.
    pub fn entries(&self) -> (r: &[IsoEntry])
        ensures
            r@.map_values(|e: IsoEntry| e@) == self@,
    {
        self.entries.as_slice()
    }

    /// The volume label, if known.
    pub fn volume_id(&self) -> (r: Option<&str>)
        ensures
            match r {
                Some(v) => self.volume_label() == Some(v@),
                None => self.volume_label() is None,
            },
    {
        match &self.volume_id {
            Some(v) => Some(v.as_str()),
            None => None,
        }
    }

    /// Whether some entry has the path `path` taken from the root (see
    /// [`rooted`]).
    pub fn path_exists(&self, path: &str) -> (r: bool)
        ensures
            r == exists|i: int| #[trigger] iso_path_at(self@, path@, i),
    {
        let key = if path.unicode_len() > 0 && path.get_char(0) == '/' {
            String::from_str(path)
        } else {
            concat2("/", path)
        };
        let mut i: usize = 0;
        while i < self.entries.len()
            invariant
                i <= self@.len(),
                key@ == rooted(path@),
                forall|k: int| 0 <= k < i ==> !#[trigger] iso_path_at(self@, path@, k),
            decreases self.entries.len() - i,
        {
            assert(self@[i as int] == self.entries@[i as int]@);
            if self.entries[i].path == key {
                assert(iso_path_at(self@, path@, i as int));
                return true;
            }
            i = i + 1;
        }
        false
    }

    /// Counts of the entries by kind, and the summed size of the files.
    pub fn stats(&self) -> (r: IsoStats)
        ensures
            ({
                let (f, d, s, t) = iso_counts(self@);
                &&& r.files == f
                &&& r.directories == d
                &&& r.symlinks == s
                &&& r.total_size == if t > u64::MAX {
                    u64::MAX as int
                } else {
                    t
                }
            }),
    {
        let mut files: usize = 0;
        let mut directories: usize = 0;
        let mut symlinks: usize = 0;
        let mut total_size: u64 = 0;
        let mut i: usize = 0;
        while i < self.entries.len()
            invariant
                i <= self@.len(),
                self@.len() == self.entries@.len(),
                ({
                    let (f, d, s, t) = iso_counts(self@.subrange(0, i as int));
                    &&& files == f
                    &&& directories == d
                    &&& symlinks == s
                    &&& f + d + s == i
                    &&& t >= 0
                    &&& total_size == if t > u64::MAX {
                        u64::MAX as int
                    } else {
                        t
                    }
                }),
            decreases self.entries.len() - i,
        {
            let e = &self.entries[i];
            let ghost prefix = self@.subrange(0, i + 1);
            assert(prefix.drop_last() =~= self@.subrange(0, i as int));
            assert(prefix.last() == e@);
            if e.is_dir {
                directories = directories + 1;
            } else if e.is_symlink {
                symlinks = symlinks + 1;
            } else {
                files = files + 1;
                total_size = total_size.saturating_add(e.size);
            }
            i = i + 1;
        }
        assert(self@.subrange(0, i as int) =~= self@);
        IsoStats { files, directories, symlinks, total_size }
    }

    /// The symlinks, in listing order.
    pub fn symlinks(&self) -> (r: Vec<&IsoEntry>)
        ensures
            r@.map_values(|e: &IsoEntry| e@) == iso_symlinks(self@),
    {
        let mut r: Vec<&IsoEntry> = Vec::new();
        let mut i: usize = 0;
        while i < self.entries.len()
            invariant
                i <= self@.len(),
                self@.len() == self.entries@.len(),
                r@.map_values(|e: &IsoEntry| e@) == iso_symlinks(self@.subrange(0, i as int)),
            decreases self.entries.len() - i,
        {
            let e = &self.entries[i];
            assert(self@.subrange(0, i + 1).drop_last() =~= self@.subrange(0, i as int));
            assert(self@[i as int] == e@);
            if e.is_symlink {
                r.push(e);
            }
            assert(r@.map_values(|e: &IsoEntry| e@) =~= iso_symlinks(self@.subrange(0, i + 1)));
            i = i + 1;
        }
        assert(self@.subrange(0, i as int) =~= self@);
        r
    }
}

/// The volume label that the lines `lines` give (see
/// [`IsoReader::volume_id_from_output`]).
pub open spec fn volume_id_in(lines: Seq<Seq<char>>) -> Seq<char>
    decreases lines.len(),
{
    if lines.len() == 0 {
        Seq::empty()
    } else if has_prefix(lines[0], "Volume id:"@) {
        trim(lines[0].subrange("Volume id:"@.len() as int, lines[0].len() as int))
    } else {
        volume_id_in(lines.drop_first())
    }
}

/// Volume information of an ISO image, as `isoinfo -d` prints it.
#[derive(Debug)]
pub struct IsoInfo {
    pub volume_id: Option<String>,
    pub system_id: Option<String>,
    pub volume_size: u64,
    pub block_size: u32,
    pub rock_ridge: bool,
    pub el_torito: bool,
}

/// The value of an [`IsoInfo`].
pub struct IsoInfoModel {
    pub volume_id: Option<Seq<char>>,
    pub system_id: Option<Seq<char>>,
    pub volume_size: u64,
    pub block_size: u32,
    pub rock_ridge: bool,
    pub el_torito: bool,
}

impl View for IsoInfo {
    type V = IsoInfoModel;

    open spec fn view(&self) -> IsoInfoModel {
        IsoInfoModel {
            volume_id: match self.volume_id {
                Some(v) => Some(v@),
                None => None,
            },
            system_id: match self.system_id {
                Some(v) => Some(v@),
                None => None,
            },
            volume_size: self.volume_size,
            block_size: self.block_size,
            rock_ridge: self.rock_ridge,
            el_torito: self.el_torito,
        }
    }
}

/// The first word of `s` read as a number, 0 where it has none or it is
/// not a number.
pub open spec fn first_number(s: Seq<char>) -> u64 {
    if words(s).len() > 0 {
        number_or_zero(words(s)[0])
    } else {
        0
    }
}

/// `info` updated by one line of `isoinfo -d` output (trimmed first): the
/// volume and system labels, the volume size in blocks, the block size
/// (2048 where it is not a number), and whether Rock Ridge extensions and
/// an El Torito boot record are present.
pub open spec fn iso_info_step(info: IsoInfoModel, raw: Seq<char>) -> IsoInfoModel {
    let line = trim(raw);
    if has_prefix(line, "Volume id:"@) {
        IsoInfoModel {
            volume_id: Some(trim(line.subrange("Volume id:"@.len() as int, line.len() as int))),
            ..info
        }
    } else if has_prefix(line, "Volume size is:"@) {
        match second_field(line) {
            Some(v) => IsoInfoModel { volume_size: first_number(v), ..info },
            None => info,
        }
    } else if has_prefix(line, "Logical block size is:"@) {
        match second_field(line) {
            Some(v) => IsoInfoModel {
                block_size: match parse_u32(v) {
                    Some(b) => b,
                    None => 2048,
                },
                ..info
            },
            None => info,
        }
    } else if has_prefix(line, "System id:"@) {
        IsoInfoModel {
            system_id: Some(trim(line.subrange("System id:"@.len() as int, line.len() as int))),
            ..info
        }
    } else if has_sub(line, "Rock Ridge"@) && has_sub(line, "YES"@) {
        IsoInfoModel { rock_ridge: true, ..info }
    } else if has_sub(line, "El Torito"@) {
        IsoInfoModel { el_torito: true, ..info }
    } else {
        info
    }
}

/// The information that the lines `lines` give, in order, from an empty
/// start.
pub open spec fn iso_info_of(lines: Seq<Seq<char>>) -> IsoInfoModel
    decreases lines.len(),
{
    if lines.len() == 0 {
        IsoInfoModel {
            volume_id: None,
            system_id: None,
            volume_size: 0,
            block_size: 0,
            rock_ridge: false,
            el_torito: false,
        }
    } else {
        iso_info_step(iso_info_of(lines.drop_last()), lines.last())
    }
}

/// The patterns that `isoinfo -d` lines are matched against.
struct InfoKeys {
    volume: Vec<char>,
    size: Vec<char>,
    block: Vec<char>,
    system: Vec<char>,
    rock: Vec<char>,
    yes: Vec<char>,
    torito: Vec<char>,
}

impl InfoKeys {
    spec fn wf(&self) -> bool {
        &&& self.volume@ == "Volume id:"@
        &&& self.size@ == "Volume size is:"@
        &&& self.block@ == "Logical block size is:"@
        &&& self.system@ == "System id:"@
        &&& self.rock@ == "Rock Ridge"@
        &&& self.yes@ == "YES"@
        &&& self.torito@ == "El Torito"@
    }

    fn new() -> (r: Self)
        ensures
            r.wf(),
    {
        InfoKeys {
            volume: chars_of("Volume id:"),
            size: chars_of("Volume size is:"),
            block: chars_of("Logical block size is:"),
            system: chars_of("System id:"),
            rock: chars_of("Rock Ridge"),
            yes: chars_of("YES"),
            torito: chars_of("El Torito"),
        }
    }
}

/// The trimmed rest of `line` after its first `k` characters.
fn trimmed_rest(line: &Vec<char>, k: usize) -> (r: String)
    requires
        k <= line@.len(),
    ensures
        r@ == trim(line@.subrange(k as int, line@.len() as int)),
{
    string_of(&trim_chars(&slice_chars(line, k, line.len())))
}

/// Applies one line to the information (see [`iso_info_step`]).
fn iso_info_line(info: &mut IsoInfo, raw: &Vec<char>, keys: &InfoKeys)
    requires
        keys.wf(),
    ensures
        final(info)@ == iso_info_step(old(info)@, raw@),
{
    let line = trim_chars(raw);
    if starts_with_chars(&line, &keys.volume) {
        info.volume_id = Some(trimmed_rest(&line, keys.volume.len()));
    } else if starts_with_chars(&line, &keys.size) {
        if let Some(v) = second_field_exec(&line) {
            let w = split_words(&v);
            info.volume_size = if w.len() > 0 {
                assert(w@[0]@ == views(w@)[0]);
                number_or_zero_exec(&w[0])
            } else {
                0
            };
        }
    } else if starts_with_chars(&line, &keys.block) {
        if let Some(v) = second_field_exec(&line) {
            info.block_size = match parse_u32_chars(&v) {
                Some(b) => b,
                None => 2048,
            };
        }
    } else if starts_with_chars(&line, &keys.system) {
        info.system_id = Some(trimmed_rest(&line, keys.system.len()));
    } else if contains_chars(&line, &keys.rock) && contains_chars(&line, &keys.yes) {
        info.rock_ridge = true;
    } else if contains_chars(&line, &keys.torito) {
        info.el_torito = true;
    }
}

/// The information in `isoinfo -d` output (see [`iso_info_of`]). Reading
/// never fails.
pub fn parse_iso_info(output: &str) -> (r: Result<IsoInfo, FsdbgError>)
    ensures
        r matches Ok(info) && info@ == iso_info_of(split_on(output@, '\n')),
{
    let chars = chars_of(output);
    let lines = split_chars(&chars, chars.len(), '\n');
    assert(chars@.subrange(0, chars@.len() as int) =~= output@);
    let keys = InfoKeys::new();
    let mut info = IsoInfo {
        volume_id: None,
        system_id: None,
        volume_size: 0,
        block_size: 0,
        rock_ridge: false,
        el_torito: false,
    };
    let mut i: usize = 0;
    while i < lines.len()
        invariant
            i <= lines@.len(),
            views(lines@) == split_on(output@, '\n'),
            keys.wf(),
            info@ == iso_info_of(views(lines@).subrange(0, i as int)),
        decreases lines.len() - i,
    {
        assert(views(lines@).subrange(0, i + 1).drop_last() =~= views(lines@).subrange(
            0,
            i as int,
        ));
        assert(lines@[i as int]@ == views(lines@)[i as int]);
        iso_info_line(&mut info, &lines[i], &keys);
        i = i + 1;
    }
    assert(views(lines@).subrange(0, i as int) =~= views(lines@));
    Ok(info)
}

} // verus!

//! Decisions of the VM image checklist that rest on the contents of account
//! files: whether the root account starts with an empty password, and what
//! the user and group databases hold. Reading the mounted image is left to
//! the caller.

use vstd::prelude::*;
use vstd::string::*;
use crate::text::{
    chars_eq, chars_of, contains_chars, copy_chars, has_prefix, has_sub, slice_chars, split_chars,
    split_on, split_words, starts_with_chars, str_eq, string_of, trim, trim_chars, views, words,
};

verus! {

/// State of the root account's password in a shadow file.
#[derive(Clone, Copy, Debug, PartialEq, Eq, Structural)]
pub enum RootPassword {
    /// The password field is empty: login needs no password yet.
    Empty,
    /// The account is locked (`!` or `*`).
    Locked,
    /// A password hash is set.
    Hashed,
    /// The root line has no password field.
    Malformed,
    /// No line is about root.
    NoEntry,
}

/// A line of a text file as `str::lines` gives it: without a final `\r`.
pub open spec fn without_cr(l: Seq<char>) -> Seq<char> {
    if l.len() > 0 && l.last() == '\r' {
        l.drop_last()
    } else {
        l
    }
}

/// The first of `lines` that begins with `pat`, from index `i` on.
pub open spec fn first_with_prefix(lines: Seq<Seq<char>>, pat: Seq<char>, i: int) -> Option<
    Seq<char>,
>
    decreases lines.len() - i,
{
    if i < 0 || i >= lines.len() {
        None
    } else if has_prefix(without_cr(lines[i]), pat) {
        Some(without_cr(lines[i]))
    } else {
        first_with_prefix(lines, pat, i + 1)
    }
}

/// The state of root's password in the shadow file `content`: read from the
/// second `:`-separated field of the first line that begins with `root:`.
pub open spec fn root_password_of(content: Seq<char>) -> RootPassword {
    match first_with_prefix(split_on(content, '\n'), "root:"@, 0) {
        None => RootPassword::NoEntry,
        Some(line) => if split_on(line, ':').len() < 2 {
            RootPassword::Malformed
        } else if split_on(line, ':')[1].len() == 0 {
            RootPassword::Empty
        } else if split_on(line, ':')[1] == "!"@ || split_on(line, ':')[1] == "*"@ {
            RootPassword::Locked
        } else {
            RootPassword::Hashed
        },
    }
}

/// The first line of `lines` that begins with `key`, without a final
/// `\r` (see [`first_with_prefix`]).
fn find_line(lines: &Vec<Vec<char>>, key: &Vec<char>) -> (r: Option<Vec<char>>)
    ensures
        match r {
            Some(l) => first_with_prefix(views(lines@), key@, 0) == Some(l@),
            None => first_with_prefix(views(lines@), key@, 0) is None,
        },
{
    let mut i: usize = 0;
    while i < lines.len()
        invariant
            i <= lines@.len(),
            first_with_prefix(views(lines@), key@, 0) == first_with_prefix(
                views(lines@),
                key@,
                i as int,
            ),
        decreases lines.len() - i,
    {
        let raw = &lines[i];
        assert(raw@ == views(lines@)[i as int]);
        let n = raw.len();
        let line = if n > 0 && raw[n - 1] == '\r' {
            let mut l = raw.clone();
            l.pop();
            assert(l@ =~= raw@.drop_last());
            l
        } else {
            raw.clone()
        };
        assert(line@ == without_cr(raw@));
        if starts_with_chars(&line, key) {
            return Some(line);
        }
        i = i + 1;
    }
    None
}

/// The lines of `content`, split at `\n`.
fn lines_of(content: &str) -> (r: Vec<Vec<char>>)
    ensures
        views(r@) == split_on(content@, '\n'),
{
    let chars = chars_of(content);
    assert(chars@.subrange(0, chars@.len() as int) =~= content@);
    split_chars(&chars, chars.len(), '\n')
}

/// The state of root's password in a shadow file (see
/// [`root_password_of`]).
pub fn root_password_state(content: &str) -> (r: RootPassword)
    ensures
        r == root_password_of(content@),
{
    let lines = lines_of(content);
    let key = chars_of("root:");
    match find_line(&lines, &key) {
        None => RootPassword::NoEntry,
        Some(line) => {
            let fields = split_chars(&line, line.len(), ':');
            assert(line@.subrange(0, line@.len() as int) =~= line@);
            if fields.len() < 2 {
                return RootPassword::Malformed;
            }
            let pw = &fields[1];
            assert(pw@ == split_on(line@, ':')[1]);
            proof {
                reveal_strlit("!");
                reveal_strlit("*");
            }
            if pw.len() == 0 {
                RootPassword::Empty
            } else if pw.len() == 1 && (pw[0] == '!' || pw[0] == '*') {
                if pw[0] == '!' {
                    assert(pw@ =~= "!"@);
                } else {
                    assert(pw@ =~= "*"@);
                }
                RootPassword::Locked
            } else {
                assert(pw@ != "!"@ && pw@ != "*"@) by {
                    if pw@.len() == 1 {
                        assert(pw@[0] != "!"@[0]);
                        assert(pw@[0] != "*"@[0]);
                    }
                }
                RootPassword::Hashed
            }
        },
    }
}

/// What a user or group database holds.
#[derive(Clone, Copy, Debug, PartialEq, Eq, Structural)]
pub struct AccountSummary {
    /// Some line begins with `root:`.
    pub has_root: bool,
    /// Some line begins with the other name asked about.
    pub has_other: bool,
    /// The number of lines that are not blank.
    pub entries: usize,
}

/// Whether some line of `lines` begins with `pat`.
pub open spec fn some_line_starts(lines: Seq<Seq<char>>, pat: Seq<char>) -> bool {
    exists|i: int| 0 <= i < lines.len() && has_prefix(#[trigger] lines[i], pat)
}

/// How many of `lines` are not blank.
pub open spec fn filled_lines(lines: Seq<Seq<char>>) -> nat
    decreases lines.len(),
{
    if lines.len() == 0 {
        0
    } else {
        filled_lines(lines.drop_last()) + if trim(lines.last()).len() > 0 {
            1nat
        } else {
            0nat
        }
    }
}

/// A summary of the account database `content`: whether it has a `root:`
/// line and a line that begins with `other`, and how many lines are not
/// blank.
pub fn account_summary(content: &str, other: &str) -> (r: AccountSummary)
    ensures
        r.has_root == some_line_starts(split_on(content@, '\n'), "root:"@),
        r.has_other == some_line_starts(split_on(content@, '\n'), other@),
        r.entries == filled_lines(split_on(content@, '\n')),
{
    let chars = chars_of(content);
    let lines = split_chars(&chars, chars.len(), '\n');
    assert(chars@.subrange(0, chars@.len() as int) =~= content@);
    let root_key = chars_of("root:");
    let other_key = chars_of(other);
    let mut has_root = false;
    let mut has_other = false;
    let mut entries: usize = 0;
    let mut i: usize = 0;
    while i < lines.len()
        invariant
            i <= lines@.len(),
            views(lines@) == split_on(content@, '\n'),
            root_key@ == "root:"@,
            other_key@ == other@,
            has_root == exists|k: int|
                0 <= k < i && has_prefix(#[trigger] views(lines@)[k], "root:"@),
            has_other == exists|k: int| 0 <= k < i && has_prefix(#[trigger] views(lines@)[k], other@),
            entries == filled_lines(views(lines@).subrange(0, i as int)),
            entries <= i,
        decreases lines.len() - i,
    {
        let line = &lines[i];
        assert(line@ == views(lines@)[i as int]);
        assert(views(lines@).subrange(0, i + 1).drop_last() =~= views(lines@).subrange(
            0,
            i as int,
        ));
        if starts_with_chars(line, &root_key) {
            has_root = true;
        }
        if starts_with_chars(line, &other_key) {
            has_other = true;
        }
        if trim_chars(line).len() > 0 {
            entries = entries + 1;
        }
        i = i + 1;
    }
    assert(views(lines@).subrange(0, i as int) =~= views(lines@));
    AccountSummary { has_root, has_other, entries }
}

/// What an fstab file holds.
#[derive(Clone, Copy, Debug, PartialEq, Eq, Structural)]
pub struct FstabSummary {
    /// The number of mount lines: not blank and not a `#` comment.
    pub entries: usize,
    /// Some mount line mounts `/`.
    pub has_root: bool,
    /// Some mount line mounts `/boot`.
    pub has_boot: bool,
}

/// Whether `line` describes a mount: it is not blank and, trimmed, does not
/// begin with `#`.
pub open spec fn is_mount_line(line: Seq<char>) -> bool {
    trim(line).len() > 0 && trim(line)[0] != '#'
}

/// Whether `line` is a mount line whose mount point (its second word) is
/// `point`.
pub open spec fn mounts(line: Seq<char>, point: Seq<char>) -> bool {
    is_mount_line(line) && words(line).len() >= 2 && words(line)[1] == point
}

/// How many of `lines` are mount lines.
pub open spec fn mount_line_count(lines: Seq<Seq<char>>) -> nat
    decreases lines.len(),
{
    if lines.len() == 0 {
        0
    } else {
        mount_line_count(lines.drop_last()) + if is_mount_line(lines.last()) {
            1nat
        } else {
            0nat
        }
    }
}

/// Whether some line of `lines` mounts `point`.
pub open spec fn some_line_mounts(lines: Seq<Seq<char>>, point: Seq<char>) -> bool {
    exists|i: int| 0 <= i < lines.len() && mounts(#[trigger] lines[i], point)
}

/// Whether the line `line` mounts `point` (see [`mounts`]).
fn mounts_exec(line: &Vec<char>, point: &Vec<char>) -> (r: bool)
    ensures
        r == mounts(line@, point@),
{
    let t = trim_chars(line);
    if t.len() == 0 || t[0] == '#' {
        return false;
    }
    let w = split_words(line);
    if w.len() < 2 {
        return false;
    }
    assert(w@[1]@ == views(w@)[1]);
    chars_eq(&w[1], point)
}

/// A summary of the fstab file `content`.
pub fn fstab_summary(content: &str) -> (r: FstabSummary)
    ensures
        r.entries == mount_line_count(split_on(content@, '\n')),
        r.has_root == some_line_mounts(split_on(content@, '\n'), "/"@),
        r.has_boot == some_line_mounts(split_on(content@, '\n'), "/boot"@),
{
    let chars = chars_of(content);
    let lines = split_chars(&chars, chars.len(), '\n');
    assert(chars@.subrange(0, chars@.len() as int) =~= content@);
    let root_point = chars_of("/");
    let boot_point = chars_of("/boot");
    let mut entries: usize = 0;
    let mut has_root = false;
    let mut has_boot = false;
    let mut i: usize = 0;
    while i < lines.len()
        invariant
            i <= lines@.len(),
            views(lines@) == split_on(content@, '\n'),
            root_point@ == "/"@,
            boot_point@ == "/boot"@,
            entries == mount_line_count(views(lines@).subrange(0, i as int)),
            entries <= i,
            has_root == exists|k: int| 0 <= k < i && mounts(#[trigger] views(lines@)[k], "/"@),
            has_boot == exists|k: int|
                0 <= k < i && mounts(#[trigger] views(lines@)[k], "/boot"@),
        decreases lines.len() - i,
    {
        let line = &lines[i];
        assert(line@ == views(lines@)[i as int]);
        assert(views(lines@).subrange(0, i + 1).drop_last() =~= views(lines@).subrange(
            0,
            i as int,
        ));
        let t = trim_chars(line);
        if t.len() > 0 && t[0] != '#' {
            entries = entries + 1;
        }
        if mounts_exec(line, &root_point) {
            has_root = true;
        }
        if mounts_exec(line, &boot_point) {
            has_boot = true;
        }
        i = i + 1;
    }
    assert(views(lines@).subrange(0, i as int) =~= views(lines@));
    FstabSummary { entries, has_root, has_boot }
}

/// `s` without every leading repetition of `pat`.
pub open spec fn strip_all(s: Seq<char>, pat: Seq<char>) -> Seq<char>
    decreases s.len(),
{
    if pat.len() > 0 && has_prefix(s, pat) {
        strip_all(s.subrange(pat.len() as int, s.len() as int), pat)
    } else {
        s
    }
}

/// The value on the first line of `lines` that begins with `key`: the rest
/// of the line, without repetitions of `key`, trimmed.
pub open spec fn entry_value(lines: Seq<Seq<char>>, key: Seq<char>) -> Option<Seq<char>> {
    match first_with_prefix(lines, key, 0) {
        Some(l) => Some(trim(strip_all(l, key))),
        None => None,
    }
}

/// What a boot loader entry file holds.
#[derive(Debug)]
pub struct BootEntry {
    pub has_title: bool,
    pub has_linux: bool,
    pub has_initrd: bool,
    pub has_options: bool,
    /// The kernel path, from the first `linux` line.
    pub linux: Option<String>,
    /// The initramfs path, from the first `initrd` line.
    pub initrd: Option<String>,
    /// Whether the first `options` line passes `root=`.
    pub options_has_root: bool,
}

fn strip_all_exec(s: &Vec<char>, pat: &Vec<char>) -> (r: Vec<char>)
    ensures
        r@ == strip_all(s@, pat@),
{
    let n = s.len();
    let m = pat.len();
    let mut i: usize = 0;
    assert(s@.subrange(0, n as int) =~= s@);
    if m == 0 {
        return copy_chars(s);
    }
    let mut rest = copy_chars(s);
    while starts_with_chars(&rest, pat)
        invariant
            m == pat@.len(),
            m > 0,
            strip_all(s@, pat@) == strip_all(rest@, pat@),
        decreases rest@.len(),
    {
        rest = slice_chars(&rest, m, rest.len());
    }
    rest
}

fn entry_value_exec(lines: &Vec<Vec<char>>, key: &Vec<char>) -> (r: Option<String>)
    ensures
        match r {
            Some(v) => entry_value(views(lines@), key@) == Some(v@),
            None => entry_value(views(lines@), key@) is None,
        },
{
    match find_line(lines, key) {
        Some(l) => Some(string_of(&trim_chars(&strip_all_exec(&l, key)))),
        None => None,
    }
}

/// What the boot loader entry `content` holds: which of the `title`,
/// `linux`, `initrd` and `options` lines it has, the kernel and initramfs
/// paths, and whether the options name a root device.
pub fn boot_entry_fields(content: &str) -> (r: BootEntry)
    ensures
        ({
            let lines = split_on(content@, '\n');
            &&& r.has_title == first_with_prefix(lines, "title"@, 0) is Some
            &&& r.has_linux == first_with_prefix(lines, "linux"@, 0) is Some
            &&& r.has_initrd == first_with_prefix(lines, "initrd"@, 0) is Some
            &&& r.has_options == first_with_prefix(lines, "options"@, 0) is Some
            &&& match r.linux {
                Some(v) => entry_value(lines, "linux"@) == Some(v@),
                None => entry_value(lines, "linux"@) is None,
            }
            &&& match r.initrd {
                Some(v) => entry_value(lines, "initrd"@) == Some(v@),
                None => entry_value(lines, "initrd"@) is None,
            }
            &&& r.options_has_root == match first_with_prefix(lines, "options"@, 0) {
                Some(l) => has_sub(l, "root="@),
                None => false,
            }
        }),
{
    let lines = lines_of(content);
    let title = find_line(&lines, &chars_of("title"));
    let linux_key = chars_of("linux");
    let initrd_key = chars_of("initrd");
    let options = find_line(&lines, &chars_of("options"));
    let options_has_root = match &options {
        Some(l) => contains_chars(l, &chars_of("root=")),
        None => false,
    };
    BootEntry {
        has_title: title.is_some(),
        has_linux: find_line(&lines, &linux_key).is_some(),
        has_initrd: find_line(&lines, &initrd_key).is_some(),
        has_options: options.is_some(),
        linux: entry_value_exec(&lines, &linux_key),
        initrd: entry_value_exec(&lines, &initrd_key),
        options_has_root,
    }
}

/// State of a machine-id file.
#[derive(Clone, Debug, PartialEq, Eq)]
pub enum MachineId {
    /// Blank: a new ID is generated on first boot.
    Empty,
    /// `uninitialized`: a new ID is generated on first boot.
    Uninitialized,
    /// An ID is already recorded (trimmed), so every copy of the image
    /// would share it.
    Assigned(String),
}

/// The state that the machine-id file `content` records, from its trimmed
/// text.
pub open spec fn machine_id_of(content: Seq<char>) -> Option<Seq<char>> {
    if trim(content).len() == 0 || trim(content) == "uninitialized"@ {
        None
    } else {
        Some(trim(content))
    }
}

/// The state of the machine-id file `content`: blank, `uninitialized`
/// (both trimmed), or an assigned ID.
pub fn machine_id_state(content: &str) -> (r: MachineId)
    ensures
        r == MachineId::Empty <==> trim(content@).len() == 0,
        r == MachineId::Uninitialized <==> trim(content@) == "uninitialized"@,
        r matches MachineId::Assigned(id) ==> machine_id_of(content@) == Some(id@),
        !(r is Assigned) ==> machine_id_of(content@) is None,
{
    let t = trim_chars(&chars_of(content));
    if t.len() == 0 {
        proof {
            reveal_strlit("uninitialized");
        }
        return MachineId::Empty;
    }
    let word = string_of(&t);
    if str_eq(word.as_str(), "uninitialized") {
        MachineId::Uninitialized
    } else {
        MachineId::Assigned(word)
    }
}

} // verus!

//! What a root filesystem must hold for license compliance.

use vstd::prelude::*;
use vstd::string::*;
use crate::checklist::{CheckCategory, CheckModel, CheckResult, VerificationReport};
use crate::cpio::{CpioReader, EntryModel};
use crate::text::{
    chars_eq, chars_of, concat2, concat4, decimal_chars, decimal_text, has_prefix,
    lemma_split_on_len, slice_chars, split_chars, split_on, starts_with_chars, string_of,
};

verus! {

/// The packages whose license directory must be present.
pub open spec fn critical_license_names() -> Seq<Seq<char>> {
    seq![

        "glibc"@,
        "bash"@,
        "coreutils"@,
        "systemd"@,
        "util-linux"@,
        "pam"@,
        "shadow-utils"@,
        "NetworkManager"@,
        "iproute"@,
        "openssh-clients"@,
        "e2fsprogs"@,
        "btrfs-progs"@,
        "dosfstools"@,
        "gzip"@,
        "xz"@,
        "tar"@,
        "vim-minimal"@,
        "kernel"@,
        "linux-firmware"@,
        "tzdata"@,
        "kbd"@,
    ]
}

/// Packages that are always redistributed and must ship their license directory.
pub fn critical_license_packages() -> (r: Vec<&'static str>)
    ensures
        r@.map_values(|s: &str| s@) == critical_license_names(),
{
    let r = vec![
        "glibc",
        "bash",
        "coreutils",
        "systemd",
        "util-linux",
        "pam",
        "shadow-utils",
        "NetworkManager",
        "iproute",
        "openssh-clients",
        "e2fsprogs",
        "btrfs-progs",
        "dosfstools",
        "gzip",
        "xz",
        "tar",
        "vim-minimal",
        "kernel",
        "linux-firmware",
        "tzdata",
        "kbd",
    ];
    assert(r@.map_values(|s: &str| s@) =~= seq![
        "glibc"@,
        "bash"@,
        "coreutils"@,
        "systemd"@,
        "util-linux"@,
        "pam"@,
        "shadow-utils"@,
        "NetworkManager"@,
        "iproute"@,
        "openssh-clients"@,
        "e2fsprogs"@,
        "btrfs-progs"@,
        "dosfstools"@,
        "gzip"@,
        "xz"@,
        "tar"@,
        "vim-minimal"@,
        "kernel"@,
        "linux-firmware"@,
        "tzdata"@,
        "kbd"@,
    ]);
    r
}


/// The directory that holds one license directory per package.
pub const LICENSE_DIR: &'static str = "usr/share/licenses/";

/// The package whose license an archive path lies under: the first
/// component after `usr/share/licenses/`, where it is not empty.
pub open spec fn license_package(p: Seq<char>) -> Option<Seq<char>> {
    if has_prefix(p, LICENSE_DIR@) {
        let first = split_on(p.subrange(LICENSE_DIR@.len() as int, p.len() as int), '/')[0];
        if first.len() > 0 {
            Some(first)
        } else {
            None
        }
    } else {
        None
    }
}

/// The packages with a license directory among `es`, each once, in order
/// of first appearance.
pub open spec fn license_packages(es: Seq<EntryModel>) -> Seq<Seq<char>>
    decreases es.len(),
{
    if es.len() == 0 {
        Seq::empty()
    } else {
        let r = license_packages(es.drop_last());
        match license_package(es.last().path) {
            Some(p) => if r.contains(p) {
                r
            } else {
                r.push(p)
            },
            None => r,
        }
    }
}

/// Whether some entry of `es` lies under `usr/share/licenses/`.
pub open spec fn has_license_dir(es: Seq<EntryModel>) -> bool {
    exists|i: int| 0 <= i < es.len() && has_prefix(#[trigger] es[i].path, LICENSE_DIR@)
}

pub open spec fn license_check(found: Seq<Seq<char>>, pkg: Seq<char>) -> CheckModel {
    let item = LICENSE_DIR@ + pkg + "/"@;
    if found.contains(pkg) {
        CheckModel { item, passed: true, message: None, category: CheckCategory::License }
    } else {
        CheckModel {
            item,
            passed: false,
            message: Some("Missing license (legal compliance)"@),
            category: CheckCategory::License,
        }
    }
}

/// The results that a license check of the entries `es` adds to a report:
/// one failure where no license directory exists at all; otherwise one
/// result for each critical package, in list order, then, where any
/// package has licenses, a passing line that counts them.
pub open spec fn license_results(es: Seq<EntryModel>) -> Seq<CheckModel> {
    if !has_license_dir(es) {
        seq![
            CheckModel {
                item: LICENSE_DIR@,
                passed: false,
                message: Some("No license directory found (legal compliance failure)"@),
                category: CheckCategory::License,
            },
        ]
    } else {
        let found = license_packages(es);
        critical_license_names().map_values(|pkg: Seq<char>| license_check(found, pkg)) + if found.len()
            > 0 {
            seq![
                CheckModel {
                    item: decimal_text(found.len()) + " package licenses found"@,
                    passed: true,
                    message: None,
                    category: CheckCategory::License,
                },
            ]
        } else {
            Seq::empty()
        }
    }
}

/// The package that the path `p` holds a license of (see
/// [`license_package`]).
fn license_package_of(p: &Vec<char>, prefix: &Vec<char>) -> (r: Option<Vec<char>>)
    requires
        prefix@ == LICENSE_DIR@,
    ensures
        match r {
            Some(v) => license_package(p@) == Some(v@),
            None => license_package(p@) is None,
        },
{
    if !starts_with_chars(p, prefix) {
        return None;
    }
    let rest = slice_chars(p, prefix.len(), p.len());
    let pieces = split_chars(&rest, rest.len(), '/');
    proof {
        assert(rest@.subrange(0, rest@.len() as int) =~= rest@);
        lemma_split_on_len(rest@, '/');
    }
    let first = &pieces[0];
    assert(first@ == split_on(rest@, '/')[0]);
    if first.len() > 0 {
        Some(slice_chars(first, 0, first.len()))
    } else {
        None
    }
}

/// Whether `v` holds `x`.
fn holds(v: &Vec<Vec<char>>, x: &Vec<char>) -> (r: bool)
    ensures
        r == v@.map_values(|c: Vec<char>| c@).contains(x@),
{
    let mut i: usize = 0;
    while i < v.len()
        invariant
            i <= v@.len(),
            forall|k: int| 0 <= k < i ==> v@[k]@ != x@,
        decreases v.len() - i,
    {
        if chars_eq(&v[i], x) {
            assert(v@.map_values(|c: Vec<char>| c@)[i as int] == x@);
            return true;
        }
        i = i + 1;
    }
    false
}

/// Checks that the license directory exists and that each critical
/// package has one (see [`license_results`]); the results are added to
/// `report`.
pub fn verify_licenses(reader: &CpioReader, report: &mut VerificationReport)
    ensures
        final(report).artifact_type == old(report).artifact_type,
        final(report).results@.map_values(|c: CheckResult| c@) == old(report).results@.map_values(
            |c: CheckResult| c@,
        ) + license_results(reader@),
{
    let ghost start = old(report).results@.map_values(|c: CheckResult| c@);
    let entries = reader.entries();
    let ghost es = reader@;
    let prefix = chars_of(LICENSE_DIR);
    let mut any = false;
    let mut found: Vec<Vec<char>> = Vec::new();
    let mut i: usize = 0;
    while i < entries.len()
        invariant
            i <= entries@.len(),
            entries@.map_values(|e: crate::cpio::CpioEntry| e@) == es,
            prefix@ == LICENSE_DIR@,
            any == exists|k: int| 0 <= k < i && has_prefix(#[trigger] es[k].path, LICENSE_DIR@),
            found@.map_values(|c: Vec<char>| c@) == license_packages(es.subrange(0, i as int)),
        decreases entries.len() - i,
    {
        let path = chars_of(entries[i].path.as_str());
        assert(es[i as int].path == path@);
        assert(es.subrange(0, i + 1).drop_last() =~= es.subrange(0, i as int));
        if starts_with_chars(&path, &prefix) {
            any = true;
        }
        let ghost before = found@.map_values(|c: Vec<char>| c@);
        match license_package_of(&path, &prefix) {
            Some(pkg) => {
                if !holds(&found, &pkg) {
                    let ghost p = pkg@;
                    found.push(pkg);
                    assert(found@.map_values(|c: Vec<char>| c@) =~= before.push(p));
                }
            },
            None => {},
        }
        i = i + 1;
    }
    assert(es.subrange(0, i as int) =~= es);
    if !any {
        report.add(
            CheckResult::fail(
                LICENSE_DIR,
                CheckCategory::License,
                "No license directory found (legal compliance failure)",
            ),
        );
        assert(final(report).results@.map_values(|c: CheckResult| c@) =~= start + license_results(es));
        return;
    }
    let ghost fv = found@.map_values(|c: Vec<char>| c@);
    let packages = critical_license_packages();
    let mut j: usize = 0;
    while j < packages.len()
        invariant
            j <= packages@.len(),
            packages@.map_values(|s: &str| s@) == critical_license_names(),
            fv == found@.map_values(|c: Vec<char>| c@),
            fv == license_packages(es),
            report.artifact_type == old(report).artifact_type,
            report.results@.map_values(|c: CheckResult| c@) == start
                + critical_license_names().subrange(0, j as int).map_values(
                |pkg: Seq<char>| license_check(fv, pkg),
            ),
        decreases packages.len() - j,
    {
        let pkg = packages[j];
        let name = chars_of(pkg);
        assert(pkg@ == critical_license_names()[j as int]);
        let item = concat4(LICENSE_DIR, pkg, "/", "");
        proof {
            reveal_strlit("");
            assert(LICENSE_DIR@ + pkg@ + "/"@ + ""@ =~= LICENSE_DIR@ + pkg@ + "/"@);
        }
        let ghost prev = report.results@.map_values(|c: CheckResult| c@);
        if holds(&found, &name) {
            report.add(CheckResult::pass(item.as_str(), CheckCategory::License));
        } else {
            report.add(
                CheckResult::fail(
                    item.as_str(),
                    CheckCategory::License,
                    "Missing license (legal compliance)",
                ),
            );
        }
        assert(critical_license_names().subrange(0, j + 1) =~= critical_license_names().subrange(
            0,
            j as int,
        ).push(pkg@));
        assert(report.results@.map_values(|c: CheckResult| c@) =~= prev.push(
            license_check(fv, pkg@),
        ));
        assert(start + critical_license_names().subrange(0, j + 1).map_values(
            |pkg: Seq<char>| license_check(fv, pkg),
        ) =~= prev.push(license_check(fv, pkg@)));
        j = j + 1;
    }
    assert(critical_license_names().subrange(0, j as int) =~= critical_license_names());
    let ghost mid = report.results@.map_values(|c: CheckResult| c@);
    if found.len() > 0 {
        let digits = string_of(&decimal_chars(found.len()));
        let item = concat2(digits.as_str(), " package licenses found");
        report.add(CheckResult::pass(item.as_str(), CheckCategory::License));
        assert(has_license_dir(es));
        assert(fv.len() == found.len());
        let ghost last = CheckModel {
            item: decimal_text(fv.len()) + " package licenses found"@,
            passed: true,
            message: None,
            category: CheckCategory::License,
        };
        assert(report.results@.map_values(|c: CheckResult| c@) =~= mid.push(last));
        assert(license_results(es) == critical_license_names().map_values(
            |pkg: Seq<char>| license_check(fv, pkg),
        ) + seq![last]);
        assert(report.results@.map_values(|c: CheckResult| c@) =~= start + license_results(es));
    } else {
        assert(mid + Seq::<CheckModel>::empty() =~= mid);
    }
}

} // verus!

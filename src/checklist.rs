//! Results of checking an artifact against a list of expectations, and the
//! report that gathers them.

use vstd::prelude::*;
use vstd::string::*;
use crate::text::str_eq;

pub mod auth_audit;
pub mod iso;
pub mod live_initramfs;
pub mod qcow2;
pub mod rootfs;

verus! {

/// Category of a check.
#[derive(Clone, Copy, Debug, PartialEq, Eq, Structural)]
pub enum CheckCategory {
    Binary,
    Unit,
    Symlink,
    EtcFile,
    UdevRule,
    Directory,
    Library,
    KernelModule,
    License,
    /// Items that must not be present.
    Forbidden,
    Other,
}

/// The heading under which reports list a category.
pub open spec fn category_label(c: CheckCategory) -> Seq<char> {
    match c {
        CheckCategory::Binary => "Binaries"@,
        CheckCategory::Unit => "Systemd Units"@,
        CheckCategory::Symlink => "Symlinks"@,
        CheckCategory::EtcFile => "/etc Files"@,
        CheckCategory::UdevRule => "Udev Rules"@,
        CheckCategory::Directory => "Directories"@,
        CheckCategory::Library => "Libraries"@,
        CheckCategory::KernelModule => "Kernel Modules"@,
        CheckCategory::License => "Licenses"@,
        CheckCategory::Forbidden => "FORBIDDEN (must NOT exist)"@,
        CheckCategory::Other => "Other"@,
    }
}

/// The position of a category in reports.
pub open spec fn category_rank(c: CheckCategory) -> nat {
    match c {
        CheckCategory::Binary => 0,
        CheckCategory::Unit => 1,
        CheckCategory::Symlink => 2,
        CheckCategory::EtcFile => 3,
        CheckCategory::UdevRule => 4,
        CheckCategory::Directory => 5,
        CheckCategory::Library => 6,
        CheckCategory::KernelModule => 7,
        CheckCategory::License => 8,
        CheckCategory::Forbidden => 9,
        CheckCategory::Other => 10,
    }
}

/// The category at position `k` of reports.
pub open spec fn category_at(k: nat) -> CheckCategory {
    if k == 0 {
        CheckCategory::Binary
    } else if k == 1 {
        CheckCategory::Unit
    } else if k == 2 {
        CheckCategory::Symlink
    } else if k == 3 {
        CheckCategory::EtcFile
    } else if k == 4 {
        CheckCategory::UdevRule
    } else if k == 5 {
        CheckCategory::Directory
    } else if k == 6 {
        CheckCategory::Library
    } else if k == 7 {
        CheckCategory::KernelModule
    } else if k == 8 {
        CheckCategory::License
    } else if k == 9 {
        CheckCategory::Forbidden
    } else {
        CheckCategory::Other
    }
}

/// Number of categories.
pub const CATEGORY_COUNT: usize = 11;

impl CheckCategory {
    /// The heading under which reports list this category.
    pub fn label(&self) -> (r: &'static str)
        ensures
            r@ == category_label(*self),
    {
        match self {
            CheckCategory::Binary => "Binaries",
            CheckCategory::Unit => "Systemd Units",
            CheckCategory::Symlink => "Symlinks",
            CheckCategory::EtcFile => "/etc Files",
            CheckCategory::UdevRule => "Udev Rules",
            CheckCategory::Directory => "Directories",
            CheckCategory::Library => "Libraries",
            CheckCategory::KernelModule => "Kernel Modules",
            CheckCategory::License => "Licenses",
            CheckCategory::Forbidden => "FORBIDDEN (must NOT exist)",
            CheckCategory::Other => "Other",
        }
    }

    /// The category at position `k` of reports (see [`category_at`]).
    pub fn at_rank(k: usize) -> (r: CheckCategory)
        requires
            k < CATEGORY_COUNT,
        ensures
            r == category_at(k as nat),
            category_rank(r) == k,
    {
        if k == 0 {
            CheckCategory::Binary
        } else if k == 1 {
            CheckCategory::Unit
        } else if k == 2 {
            CheckCategory::Symlink
        } else if k == 3 {
            CheckCategory::EtcFile
        } else if k == 4 {
            CheckCategory::UdevRule
        } else if k == 5 {
            CheckCategory::Directory
        } else if k == 6 {
            CheckCategory::Library
        } else if k == 7 {
            CheckCategory::KernelModule
        } else if k == 8 {
            CheckCategory::License
        } else if k == 9 {
            CheckCategory::Forbidden
        } else {
            CheckCategory::Other
        }
    }
}

/// The outcome of one check.
#[derive(Clone, Debug)]
pub struct CheckResult {
    pub item: String,
    pub passed: bool,
    pub message: Option<String>,
    pub category: CheckCategory,
}

/// The value of a [`CheckResult`], its strings as character sequences.
pub struct CheckModel {
    pub item: Seq<char>,
    pub passed: bool,
    pub message: Option<Seq<char>>,
    pub category: CheckCategory,
}

impl View for CheckResult {
    type V = CheckModel;

    open spec fn view(&self) -> CheckModel {
        CheckModel {
            item: self.item@,
            passed: self.passed,
            message: match self.message {
                Some(m) => Some(m@),
                None => None,
            },
            category: self.category,
        }
    }
}

impl CheckResult {
    pub fn pass(item: &str, category: CheckCategory) -> (r: Self)
        ensures
            r.item@ == item@,
            r.passed,
            r.message.is_none(),
            r.category == category,
    {
        CheckResult { item: String::from_str(item), passed: true, message: None, category }
    }

    pub fn fail(item: &str, category: CheckCategory, message: &str) -> (r: Self)
        ensures
            r.item@ == item@,
            !r.passed,
            r.message matches Some(m) && m@ == message@,
            r.category == category,
    {
        CheckResult {
            item: String::from_str(item),
            passed: false,
            message: Some(String::from_str(message)),
            category,
        }
    }
}

/// How many of `rs` passed.
pub open spec fn passed_count(rs: Seq<CheckResult>) -> nat
    decreases rs.len(),
{
    if rs.len() == 0 {
        0
    } else {
        passed_count(rs.drop_last()) + if rs.last().passed {
            1nat
        } else {
            0nat
        }
    }
}

/// The results of `rs` in category `c`, in order.
pub open spec fn in_category(rs: Seq<CheckResult>, c: CheckCategory) -> Seq<CheckResult>
    decreases rs.len(),
{
    if rs.len() == 0 {
        Seq::empty()
    } else if rs.last().category == c {
        in_category(rs.drop_last(), c).push(rs.last())
    } else {
        in_category(rs.drop_last(), c)
    }
}

/// The non-empty groups of `rs` among the first `k` categories, in category
/// order, each with its results in report order.
pub open spec fn groups_upto(rs: Seq<CheckResult>, k: nat) -> Seq<(CheckCategory, Seq<CheckResult>)>
    decreases k,
{
    if k == 0 {
        Seq::empty()
    } else {
        let g = groups_upto(rs, (k - 1) as nat);
        let c = category_at((k - 1) as nat);
        if in_category(rs, c).len() > 0 {
            g.push((c, in_category(rs, c)))
        } else {
            g
        }
    }
}

/// The results of checking one artifact.
#[derive(Debug)]
pub struct VerificationReport {
    pub results: Vec<CheckResult>,
    pub artifact_type: String,
}

impl VerificationReport {
    pub fn new(artifact_type: &str) -> (r: Self)
        ensures
            r.results@.len() == 0,
            r.artifact_type@ == artifact_type@,
    {
        VerificationReport { results: Vec::new(), artifact_type: String::from_str(artifact_type) }
    }

    pub fn add(&mut self, result: CheckResult)
        ensures
            final(self).results@ == old(self).results@.push(result),
            final(self).artifact_type == old(self).artifact_type,
    {
        self.results.push(result);
    }

    /// How many checks passed.
    pub fn passed(&self) -> (r: usize)
        ensures
            r == passed_count(self.results@),
    {
        let mut n: usize = 0;
        let mut i: usize = 0;
        while i < self.results.len()
            invariant
                i <= self.results@.len(),
                n == passed_count(self.results@.subrange(0, i as int)),
                n <= i,
            decreases self.results.len() - i,
        {
            assert(self.results@.subrange(0, i + 1).drop_last() =~= self.results@.subrange(
                0,
                i as int,
            ));
            if self.results[i].passed {
                n = n + 1;
            }
            i = i + 1;
        }
        assert(self.results@.subrange(0, i as int) =~= self.results@);
        n
    }

    /// How many checks failed.
    pub fn failed(&self) -> (r: usize)
        ensures
            r == self.results@.len() - passed_count(self.results@),
    {
        let mut n: usize = 0;
        let mut i: usize = 0;
        while i < self.results.len()
            invariant
                i <= self.results@.len(),
                n + passed_count(self.results@.subrange(0, i as int)) == i,
            decreases self.results.len() - i,
        {
            assert(self.results@.subrange(0, i + 1).drop_last() =~= self.results@.subrange(
                0,
                i as int,
            ));
            if !self.results[i].passed {
                n = n + 1;
            }
            i = i + 1;
        }
        assert(self.results@.subrange(0, i as int) =~= self.results@);
        n
    }

    pub fn total(&self) -> (r: usize)
        ensures
            r == self.results@.len(),
    {
        self.results.len()
    }

    /// Whether every check passed (true of an empty report).
    pub fn is_success(&self) -> (r: bool)
        ensures
            r == forall|i: int| 0 <= i < self.results@.len() ==> #[trigger] self.results@[i].passed,
    {
        let mut i: usize = 0;
        while i < self.results.len()
            invariant
                i <= self.results@.len(),
                forall|j: int| 0 <= j < i ==> #[trigger] self.results@[j].passed,
            decreases self.results.len() - i,
        {
            if !self.results[i].passed {
                return false;
            }
            i = i + 1;
        }
        true
    }

    /// The results in category `c`, in report order.
    fn in_category(&self, c: CheckCategory) -> (r: Vec<&CheckResult>)
        ensures
            r@.map_values(|x: &CheckResult| *x) == in_category(self.results@, c),
    {
        let mut r: Vec<&CheckResult> = Vec::new();
        let mut i: usize = 0;
        while i < self.results.len()
            invariant
                i <= self.results@.len(),
                r@.map_values(|x: &CheckResult| *x) == in_category(
                    self.results@.subrange(0, i as int),
                    c,
                ),
            decreases self.results.len() - i,
        {
            let x = &self.results[i];
            assert(self.results@.subrange(0, i + 1).drop_last() =~= self.results@.subrange(
                0,
                i as int,
            ));
            if x.category == c {
                r.push(x);
            }
            assert(r@.map_values(|x: &CheckResult| *x) =~= in_category(
                self.results@.subrange(0, i + 1),
                c,
            ));
            i = i + 1;
        }
        assert(self.results@.subrange(0, i as int) =~= self.results@);
        r
    }

    /// The results grouped by category: categories in report order, only
    /// those with results, each group in report order.
    pub fn by_category(&self) -> (r: Vec<(CheckCategory, Vec<&CheckResult>)>)
        ensures
            r@.len() == groups_upto(self.results@, CATEGORY_COUNT as nat).len(),
            forall|i: int|
                0 <= i < r@.len() ==> (#[trigger] r@[i]).0 == groups_upto(
                    self.results@,
                    CATEGORY_COUNT as nat,
                )[i].0 && r@[i].1@.map_values(|x: &CheckResult| *x) == groups_upto(
                    self.results@,
                    CATEGORY_COUNT as nat,
                )[i].1,
    {
        let mut r: Vec<(CheckCategory, Vec<&CheckResult>)> = Vec::new();
        let mut k: usize = 0;
        while k < CATEGORY_COUNT
            invariant
                k <= CATEGORY_COUNT,
                r@.len() == groups_upto(self.results@, k as nat).len(),
                forall|i: int|
                    0 <= i < r@.len() ==> (#[trigger] r@[i]).0 == groups_upto(
                        self.results@,
                        k as nat,
                    )[i].0 && r@[i].1@.map_values(|x: &CheckResult| *x) == groups_upto(
                        self.results@,
                        k as nat,
                    )[i].1,
            decreases CATEGORY_COUNT - k,
        {
            let c = CheckCategory::at_rank(k);
            let group = self.in_category(c);
            if group.len() > 0 {
                r.push((c, group));
            }
            k = k + 1;
        }
        r
    }
}

/// Kinds of artifact that a checklist exists for.
#[derive(Clone, Copy, Debug, PartialEq, Eq, Structural)]
pub enum ChecklistType {
    /// Install initramfs (systemd-based, for installation).
    InstallInitramfs,
    /// Live initramfs (busybox-based, for the live environment).
    LiveInitramfs,
    /// Full root filesystem.
    Rootfs,
    /// Live ISO image.
    Iso,
    /// Authentication audit (PAM, sudo, login security).
    AuthAudit,
    /// Qcow2 VM image (mounted filesystem).
    Qcow2,
}

/// The checklist that an already lower-cased name selects.
pub open spec fn checklist_named(s: Seq<char>) -> Option<ChecklistType> {
    if s == "install-initramfs"@ || s == "install_initramfs"@ || s == "install"@ {
        Some(ChecklistType::InstallInitramfs)
    } else if s == "live-initramfs"@ || s == "live_initramfs"@ || s == "live"@ {
        Some(ChecklistType::LiveInitramfs)
    } else if s == "rootfs"@ || s == "root"@ {
        Some(ChecklistType::Rootfs)
    } else if s == "iso"@ {
        Some(ChecklistType::Iso)
    } else if s == "auth-audit"@ || s == "auth_audit"@ || s == "auth"@ {
        Some(ChecklistType::AuthAudit)
    } else if s == "qcow2"@ || s == "qcow"@ || s == "vm"@ {
        Some(ChecklistType::Qcow2)
    } else {
        None
    }
}

pub open spec fn checklist_title(t: ChecklistType) -> Seq<char> {
    match t {
        ChecklistType::InstallInitramfs => "Install Initramfs"@,
        ChecklistType::LiveInitramfs => "Live Initramfs"@,
        ChecklistType::Rootfs => "Rootfs"@,
        ChecklistType::Iso => "Live ISO"@,
        ChecklistType::AuthAudit => "Authentication Audit"@,
        ChecklistType::Qcow2 => "Qcow2 Image"@,
    }
}

/// What `str::to_lowercase` makes of `s`.
pub uninterp spec fn lower_of(s: Seq<char>) -> Seq<char>;

/// Relies on `str::to_lowercase`: the lower-case form of `s`, which depends
/// on its characters alone.
#[verifier::external_body]
fn lowercase(s: &str) -> (r: String)
    ensures
        r@ == lower_of(s@),
{
    s.to_lowercase()
}

impl ChecklistType {
    /// The checklist that `s` names, in any mix of cases.
    pub fn from_str(s: &str) -> (r: Option<Self>)
        ensures
            r == checklist_named(lower_of(s@)),
    {
        let lower = lowercase(s);
        ChecklistType::from_lowercase(lower.as_str())
    }

    /// The checklist that the lower-case name `s` names.
    pub fn from_lowercase(s: &str) -> (r: Option<Self>)
        ensures
            r == checklist_named(s@),
    {
        if str_eq(s, "install-initramfs") || str_eq(s, "install_initramfs") || str_eq(s, "install") {
            Some(ChecklistType::InstallInitramfs)
        } else if str_eq(s, "live-initramfs") || str_eq(s, "live_initramfs") || str_eq(s, "live") {
            Some(ChecklistType::LiveInitramfs)
        } else if str_eq(s, "rootfs") || str_eq(s, "root") {
            Some(ChecklistType::Rootfs)
        } else if str_eq(s, "iso") {
            Some(ChecklistType::Iso)
        } else if str_eq(s, "auth-audit") || str_eq(s, "auth_audit") || str_eq(s, "auth") {
            Some(ChecklistType::AuthAudit)
        } else if str_eq(s, "qcow2") || str_eq(s, "qcow") || str_eq(s, "vm") {
            Some(ChecklistType::Qcow2)
        } else {
            None
        }
    }

    /// The title of the checklist, as reports print it.
    pub fn name(&self) -> (r: &'static str)
        ensures
            r@ == checklist_title(*self),
    {
        match self {
            ChecklistType::InstallInitramfs => "Install Initramfs",
            ChecklistType::LiveInitramfs => "Live Initramfs",
            ChecklistType::Rootfs => "Rootfs",
            ChecklistType::Iso => "Live ISO",
            ChecklistType::AuthAudit => "Authentication Audit",
            ChecklistType::Qcow2 => "Qcow2 Image",
        }
    }
}

} // verus!

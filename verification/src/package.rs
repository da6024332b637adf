//! Which entries of a directory make a package: one `.skye` file named after the project, an
//! optional `setup.skye`, and at most one folder named after the project.

use vstd::prelude::*;

use crate::codegen::str_equal;
use vstd::string::StringExecFns;

verus! {

/// A file name that is one plain component on every platform: not empty, not `.` or `..`,
/// with no separator and no `:`.
pub open spec fn plain_file_name(n: Seq<char>) -> bool {
    &&& n.len() > 0
    &&& n != "."@
    &&& n != ".."@
    &&& forall|i: int| 0 <= i < n.len() ==> n[i] != '/' && n[i] != '\\' && n[i] != ':'
}

/// The position of the last `.` in `n`, if there is one.
pub open spec fn last_dot(n: Seq<char>) -> Option<int> {
    if exists|i: int| 0 <= i < n.len() && n[i] == '.' {
        Some(choose|i: int| 0 <= i < n.len() && n[i] == '.' && forall|j: int| i < j < n.len() ==> n[j] != '.')
    } else {
        None
    }
}

/// The extension of a file name, as `Path::extension` documents it: none without an embedded
/// `.`, none for a name that begins with its only `.`, else what follows the last `.`.
pub open spec fn name_extension(n: Seq<char>) -> Option<Seq<char>> {
    match last_dot(n) {
        Some(d) => if d == 0 {
            None
        } else {
            Some(n.subrange(d + 1, n.len() as int))
        },
        None => None,
    }
}

/// The stem of a file name, as `Path::file_stem` documents it: the whole name without an
/// embedded `.` or where it begins with its only `.`, else what comes before the last `.`.
pub open spec fn name_stem(n: Seq<char>) -> Seq<char> {
    match last_dot(n) {
        Some(d) => if d == 0 {
            n
        } else {
            n.subrange(0, d)
        },
        None => n,
    }
}

pub open spec fn opt_view(o: Option<String>) -> Option<Seq<char>> {
    match o {
        Some(s) => Some(s@),
        None => None,
    }
}

/// Calls `Path::extension` on a path. Claimed: for a plain file name, the extension that the
/// documentation describes; nothing for other paths, whose components depend on the platform.
#[verifier::external_body]
pub(crate) fn entry_extension(name: &str) -> (res: Option<String>)
    ensures
        plain_file_name(name@) ==> opt_view(res) == name_extension(name@),
{
    std::path::Path::new(name).extension().map(|e| e.to_string_lossy().into_owned())
}

/// Calls `Path::file_stem` on a directory entry's name. Claimed: for a plain file name, the
/// stem that the documentation describes.
#[verifier::external_body]
pub(crate) fn entry_stem(name: &str) -> (res: Option<String>)
    ensures
        plain_file_name(name@) ==> opt_view(res) == Some(name_stem(name@)),
{
    std::path::Path::new(name).file_stem().map(|e| e.to_string_lossy().into_owned())
}

/// Calls `Path::file_name` on a directory entry's name. Claimed: a plain file name is its own
/// file name.
#[verifier::external_body]
fn entry_file_name(name: &str) -> (res: Option<String>)
    ensures
        plain_file_name(name@) ==> opt_view(res) == Some(name@),
{
    std::path::Path::new(name).file_name().map(|e| e.to_string_lossy().into_owned())
}

/// What the choice of a package reads of a directory entry's name.
pub struct PackageEntry {
    pub name: String,
    pub extension: Option<String>,
    pub stem: Option<String>,
    pub file_name: Option<String>,
}

/// The parts of the entry called `name`.
pub fn package_entry(name: &str) -> (res: PackageEntry)
    ensures
        res.name@ == name@,
        plain_file_name(name@) ==> opt_view(res.extension) == name_extension(name@),
        plain_file_name(name@) ==> opt_view(res.stem) == Some(name_stem(name@)),
        plain_file_name(name@) ==> opt_view(res.file_name) == Some(name@),
{
    PackageEntry {
        name: String::from_str(name),
        extension: entry_extension(name),
        stem: entry_stem(name),
        file_name: entry_file_name(name),
    }
}

/// How far the scan of a directory's entries has got: `.skye` files and folders counted, the
/// project's name so far (empty before one is seen), the entries chosen, and whether the
/// entries cannot make a package (`failed`) or the scan stopped early (`stopped`).
pub struct PackageScan {
    pub files: nat,
    pub folders: nat,
    pub project: Seq<char>,
    pub chosen: Seq<int>,
    pub failed: bool,
    pub stopped: bool,
}

/// One more entry, the one at `index`. A `.skye` file is chosen: `setup.skye` freely, another
/// one when it names the project (the first one names it). A name without an extension is a
/// folder, chosen when it names the project. Any other file is passed over. The scan stops
/// once more than two files and folders are counted.
pub open spec fn scan_step(st: PackageScan, e: PackageEntry, index: int) -> PackageScan {
    if st.failed || st.stopped {
        st
    } else if st.files + st.folders > 2 {
        PackageScan { stopped: true, ..st }
    } else {
        match opt_view(e.extension) {
            Some(ext) => if ext == "skye"@ {
                let stem = opt_view(e.stem)->0;
                if stem == "setup"@ {
                    PackageScan { chosen: st.chosen.push(index), ..st }
                } else if st.project.len() == 0 {
                    PackageScan { project: stem, chosen: st.chosen.push(index), files: st.files + 1, ..st }
                } else if st.project != stem {
                    PackageScan { failed: true, ..st }
                } else {
                    PackageScan { chosen: st.chosen.push(index), files: st.files + 1, ..st }
                }
            } else {
                st
            },
            None => match opt_view(e.file_name) {
                Some(name) => if st.project.len() == 0 {
                    PackageScan { project: name, chosen: st.chosen.push(index), folders: st.folders + 1, ..st }
                } else if st.project != name {
                    PackageScan { failed: true, ..st }
                } else {
                    PackageScan { chosen: st.chosen.push(index), folders: st.folders + 1, ..st }
                },
                None => PackageScan { failed: true, ..st },
            },
        }
    }
}

/// The scan after the first `n` entries.
pub open spec fn package_scan(entries: Seq<PackageEntry>, n: nat) -> PackageScan
    decreases n,
{
    if n == 0 {
        PackageScan {
            files: 0,
            folders: 0,
            project: Seq::empty(),
            chosen: Seq::empty(),
            failed: false,
            stopped: false,
        }
    } else {
        scan_step(package_scan(entries, (n - 1) as nat), entries[n - 1], n - 1)
    }
}

/// The package that the entries make, in order: the positions of the chosen entries and the
/// project's name; `None` where they make none (a second project name, an entry with no name,
/// no `.skye` file or more than one, or more than one folder).
pub open spec fn package_of(entries: Seq<PackageEntry>) -> Option<(Seq<int>, Seq<char>)> {
    let st = package_scan(entries, entries.len());
    if st.failed || st.files != 1 || st.folders > 1 {
        None
    } else {
        Some((st.chosen, st.project))
    }
}

/// A `.skye` entry has a stem (which `Path::file_stem` gives whenever there is an extension).
pub open spec fn stems_present(entries: Seq<PackageEntry>) -> bool {
    forall|i: int| 0 <= i < entries.len() && (#[trigger] entries[i]).extension is Some ==> entries[i].stem is Some
}

proof fn lemma_scan_bounded(entries: Seq<PackageEntry>, n: nat)
    requires
        n <= entries.len(),
    ensures
        package_scan(entries, n).files + package_scan(entries, n).folders <= 3,
        package_scan(entries, n).chosen.len() <= n,
        forall|k: int| 0 <= k < package_scan(entries, n).chosen.len() ==> 0 <= #[trigger] package_scan(entries, n).chosen[k] < n,
    decreases n,
{
    if n > 0 {
        lemma_scan_bounded(entries, (n - 1) as nat);
    }
}

/// Once the scan has failed or stopped, later entries change nothing.
proof fn lemma_scan_settled(entries: Seq<PackageEntry>, n: nat, m: nat)
    requires
        n <= m <= entries.len(),
        package_scan(entries, n).failed || package_scan(entries, n).stopped,
    ensures
        package_scan(entries, m) == package_scan(entries, n),
    decreases m - n,
{
    if m > n {
        lemma_scan_settled(entries, n, (m - 1) as nat);
    }
}

/// Chooses the entries that make a package, scanning them in order.
pub fn choose_package(entries: &Vec<PackageEntry>) -> (res: Option<(Vec<usize>, String)>)
    requires
        stems_present(entries@),
    ensures
        match (res, package_of(entries@)) {
            (Some((chosen, project)), Some((c, p))) => chosen@.map_values(|i: usize| i as int) == c && project@ == p,
            (None, None) => true,
            _ => false,
        },
{
    let mut files: usize = 0;
    let mut folders: usize = 0;
    let mut project = String::new();
    let mut chosen: Vec<usize> = Vec::new();
    let mut i: usize = 0;
    while i < entries.len()
        invariant
            i <= entries.len(),
            stems_present(entries@),
            ({
                let st = package_scan(entries@, i as nat);
                &&& !st.failed
                &&& files == st.files
                &&& folders == st.folders
                &&& project@ == st.project
                &&& chosen@.map_values(|k: usize| k as int) == st.chosen
            }),
            !package_scan(entries@, i as nat).stopped,
        decreases entries.len() - i,
    {
        proof {
            lemma_scan_bounded(entries@, i as nat);
            reveal_strlit("skye");
            reveal_strlit("setup");
        }
        let ghost st = package_scan(entries@, i as nat);
        assert(package_scan(entries@, (i + 1) as nat) == scan_step(st, entries@[i as int], i as int));
        if files + folders > 2 {
            proof {
                lemma_scan_settled(entries@, (i + 1) as nat, entries@.len());
            }
            return None;
        }
        let e = &entries[i];
        match &e.extension {
            Some(ext) => {
                if str_equal(ext.as_str(), "skye") {
                    let stem = match &e.stem {
                        Some(s) => s,
                        None => {
                            proof {
                                assert(entries@[i as int].extension is Some);
                                assert(false);
                            }
                            return None;
                        },
                    };
                    if str_equal(stem.as_str(), "setup") {
                        chosen.push(i);
                    } else if project.as_str().unicode_len() == 0 {
                        project = String::from_str(stem.as_str());
                        chosen.push(i);
                        files = files + 1;
                    } else if !str_equal(project.as_str(), stem.as_str()) {
                        proof {
                            lemma_scan_settled(entries@, (i + 1) as nat, entries@.len());
                        }
                        return None;
                    } else {
                        chosen.push(i);
                        files = files + 1;
                    }
                }
            },
            None => match &e.file_name {
                Some(name) => {
                    if project.as_str().unicode_len() == 0 {
                        project = String::from_str(name.as_str());
                        chosen.push(i);
                        folders = folders + 1;
                    } else if !str_equal(project.as_str(), name.as_str()) {
                        proof {
                            lemma_scan_settled(entries@, (i + 1) as nat, entries@.len());
                        }
                        return None;
                    } else {
                        chosen.push(i);
                        folders = folders + 1;
                    }
                },
                None => {
                    proof {
                        lemma_scan_settled(entries@, (i + 1) as nat, entries@.len());
                    }
                    return None;
                },
            },
        }
        proof {
            assert(chosen@.map_values(|k: usize| k as int) =~= package_scan(entries@, (i + 1) as nat).chosen);
        }
        i = i + 1;
    }
    if files != 1 || folders > 1 {
        return None;
    }
    Some((chosen, project))
}

} // verus!

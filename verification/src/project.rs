//! The project workspace model: what a workspace was discovered from,
//! its source roots, and the candidate locations of its description
//! file. Discovery itself — reading the file system — lives outside;
//! it hands the values in and takes plain values back. Paths are
//! carried as strings; a description-file location as its components.

use vstd::prelude::*;

verus! {

/// A crate's language edition.
#[derive(Clone, Copy, Debug, PartialEq, Eq, Hash, Structural)]
pub enum Edition {
    Edition2015,
    Edition2018,
}

/// One source root of a manually described project.
#[derive(Debug)]
pub struct JsonRoot {
    pub path: String,
}

/// A dependency edge of a manually described crate.
#[derive(Debug)]
pub struct JsonDep {
    pub krate: usize,
    pub name: String,
}

/// One crate of a manually described project.
#[derive(Debug)]
pub struct JsonCrate {
    pub root_module: String,
    pub edition: Edition,
    pub deps: Vec<JsonDep>,
}

/// A project described by hand in a project file.
#[derive(Debug)]
pub struct JsonProject {
    pub roots: Vec<JsonRoot>,
    pub crates: Vec<JsonCrate>,
}

/// One package of a cargo workspace: the directory its manifest sits
/// in.
#[derive(Debug)]
pub struct PackageRoot {
    pub root: String,
}

/// A workspace discovered through cargo.
#[derive(Debug)]
pub struct CargoWorkspace {
    pub packages: Vec<PackageRoot>,
}

/// One crate of the sysroot: the directory its sources sit in.
#[derive(Debug)]
pub struct SysrootCrateData {
    pub root_dir: String,
}

/// The standard-library crates found beside the toolchain.
#[derive(Debug)]
pub struct Sysroot {
    pub crates: Vec<SysrootCrateData>,
}

/// A project workspace: discovered through cargo together with a
/// sysroot, or specified by hand in a project file.
#[derive(Debug)]
pub enum ProjectWorkspace {
    Cargo { cargo: CargoWorkspace, sysroot: Sysroot },
    Json { project: JsonProject },
}

/// The source roots of a workspace, in order: the described roots of a
/// manual project; the package roots then the sysroot crate
/// directories of a cargo workspace.
pub open spec fn spec_to_roots(ws: ProjectWorkspace) -> Seq<String> {
    match ws {
        ProjectWorkspace::Json { project } => Seq::new(
            project.roots@.len(),
            |i: int| project.roots@[i].path,
        ),
        ProjectWorkspace::Cargo { cargo, sysroot } => Seq::new(
            cargo.packages@.len(),
            |i: int| cargo.packages@[i].root,
        ) + Seq::new(sysroot.crates@.len(), |i: int| sysroot.crates@[i].root_dir),
    }
}

impl ProjectWorkspace {
    /// Every directory that holds sources of this workspace.
    pub fn to_roots(&self) -> (r: Vec<String>)
        ensures
            r@ == spec_to_roots(*self),
    {
        match self {
            ProjectWorkspace::Json { project } => {
                let mut roots: Vec<String> = Vec::new();
                let mut i: usize = 0;
                while i < project.roots.len()
                    invariant
                        i <= project.roots@.len(),
                        roots@.len() == i as int,
                        forall|j: int|
                            0 <= j < i ==> (#[trigger] roots@[j]) == project.roots@[j].path,
                    decreases project.roots@.len() - i,
                {
                    roots.push(project.roots[i].path.clone());
                    i = i + 1;
                }
                proof {
                    assert(roots@ =~= spec_to_roots(*self));
                }
                roots
            }
            ProjectWorkspace::Cargo { cargo, sysroot } => {
                let mut roots: Vec<String> = Vec::new();
                let mut i: usize = 0;
                while i < cargo.packages.len()
                    invariant
                        i <= cargo.packages@.len(),
                        roots@.len() == i as int,
                        forall|j: int|
                            0 <= j < i ==> (#[trigger] roots@[j]) == cargo.packages@[j].root,
                    decreases cargo.packages@.len() - i,
                {
                    roots.push(cargo.packages[i].root.clone());
                    i = i + 1;
                }
                let mut k: usize = 0;
                while k < sysroot.crates.len()
                    invariant
                        k <= sysroot.crates@.len(),
                        roots@.len() == cargo.packages@.len() + k,
                        forall|j: int|
                            0 <= j < cargo.packages@.len() ==> (#[trigger] roots@[j])
                                == cargo.packages@[j].root,
                        forall|j: int|
                            0 <= j < k ==> (#[trigger] roots@[cargo.packages@.len() + j])
                                == sysroot.crates@[j].root_dir,
                    decreases sysroot.crates@.len() - k,
                {
                    roots.push(sysroot.crates[k].root_dir.clone());
                    k = k + 1;
                }
                proof {
                    let spec = spec_to_roots(*self);
                    assert(roots@.len() == spec.len());
                    assert forall|i: int| 0 <= i < roots@.len() implies roots@[i] == spec[i] by {
                        if i >= cargo.packages@.len() {
                            assert(roots@[cargo.packages@.len() + (i - cargo.packages@.len())]
                                == sysroot.crates@[i - cargo.packages@.len()].root_dir);
                        }
                    }
                    assert(roots@ =~= spec);
                }
                roots
            }
        }
    }

    /// How many crates the workspace describes: the described crates
    /// of a manual project, the packages of a cargo workspace.
    pub fn count(&self) -> (r: usize)
        ensures
            r == (match self {
                ProjectWorkspace::Json { project } => project.crates@.len(),
                ProjectWorkspace::Cargo { cargo, sysroot } => cargo.packages@.len(),
            }),
    {
        match self {
            ProjectWorkspace::Json { project } => project.crates.len(),
            ProjectWorkspace::Cargo { cargo, sysroot } => cargo.packages.len(),
        }
    }
}

/// The places a description file is looked for, given a start path as
/// its components: the start path itself when it already names the
/// file, else the file joined onto the start path and onto each of its
/// ancestors, nearest first, ending at the root.
pub open spec fn spec_config_candidates(path: Seq<String>, file_name: String) -> Seq<Seq<String>> {
    if path.len() > 0 && path.last()@ == file_name@ {
        seq![path]
    } else {
        Seq::new(path.len() + 1, |i: int| path.take(path.len() - i).push(file_name))
    }
}

/// Enumerate the candidate locations of a description file, nearest
/// first. The caller probes them in order; the first that exists wins.
pub fn config_file_candidates(path: &Vec<String>, file_name: &String) -> (r: Vec<Vec<String>>)
    requires
        path@.len() < usize::MAX,
    ensures
        r@.len() == spec_config_candidates(path@, *file_name).len(),
        forall|i: int|
            0 <= i < r@.len() ==> (#[trigger] r@[i])@.len() == spec_config_candidates(
                path@,
                *file_name,
            )[i].len(),
        forall|i: int, k: int|
            0 <= i < r@.len() && 0 <= k < r@[i]@.len() ==> (#[trigger] r@[i]@[k])@
                == spec_config_candidates(path@, *file_name)[i][k]@,
    {
    let last_matches: bool = if path.len() > 0 {
        path[path.len() - 1] == *file_name
    } else {
        false
    };
    if last_matches {
        let mut only: Vec<String> = Vec::new();
        let mut i: usize = 0;
        while i < path.len()
            invariant
                i <= path@.len(),
                only@.len() == i as int,
                forall|j: int| 0 <= j < i ==> (#[trigger] only@[j])@ == path@[j]@,
            decreases path@.len() - i,
        {
            only.push(path[i].clone());
            i = i + 1;
        }
        let mut out: Vec<Vec<String>> = Vec::new();
        out.push(only);
        proof {
            assert(spec_config_candidates(path@, *file_name) == seq![path@]);
        }
        return out;
    }
    let n = path.len();
    let mut out: Vec<Vec<String>> = Vec::new();
    let mut i: usize = 0;
    while i <= n
        invariant
            n == path@.len(),
            n < usize::MAX,
            i <= n + 1,
            out@.len() == i as int,
            !(path@.len() > 0 && path@.last()@ == file_name@),
            forall|j: int|
                0 <= j < i ==> (#[trigger] out@[j])@.len() == n - j + 1 && (forall|k: int|
                    0 <= k < n - j ==> out@[j]@[k]@ == path@[k]@) && out@[j]@[n - j]@
                    == file_name@,
        decreases n + 1 - i,
    {
        let mut cand: Vec<String> = Vec::new();
        let take = n - i;
        let mut k: usize = 0;
        while k < take
            invariant
                take <= path@.len(),
                k <= take,
                cand@.len() == k as int,
                forall|j: int| 0 <= j < k ==> (#[trigger] cand@[j])@ == path@[j]@,
            decreases take - k,
        {
            cand.push(path[k].clone());
            k = k + 1;
        }
        cand.push(file_name.clone());
        out.push(cand);
        i = i + 1;
    }
    proof {
        let spec_out = spec_config_candidates(path@, *file_name);
        assert forall|j: int| 0 <= j < out@.len() implies (#[trigger] out@[j])@.len()
            == spec_out[j].len() && (forall|k: int|
            0 <= k < out@[j]@.len() ==> out@[j]@[k]@ == spec_out[j][k]@) by {
            assert(spec_out[j] == path@.take(path@.len() - j).push(*file_name));
        }
    }
    out
}

} // verus!

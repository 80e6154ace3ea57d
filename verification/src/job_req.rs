//! Job configurations with their package dependencies.
use vstd::prelude::*;

use crate::sel_expr::MachineSel;

verus! {

/// Whether a package must or must not be installed.
#[derive(Debug, Clone, Copy, PartialEq, Eq, Structural)]
pub enum PackageInclusion {
    Required,
    Forbidden,
}

/// Satisfaction has to be determined on a per-package manager basis.
#[derive(Debug, Clone)]
pub struct PackageVersion {
    pub not_older_than: Option<String>,
    pub not_newer_than: Option<String>,
}

/// Dependency describing a single package.
pub struct PackageDependency {
    /// The package manager this package is installed under. It has to be known by the node.
    pub manager: String,
    /// The name of the package to use.
    pub name: String,
    pub inclusion: PackageInclusion,
    pub version_satisfies_any_of: Vec<PackageVersion>,
}

/// Working directory the job will be run in
#[derive(Debug, Clone, Copy, PartialEq, Eq, Structural)]
pub enum WorkingDir {
    /// Straight up in the home directory. Not recommended if the job does any writes in the cwd.
    Home,
    /// Sets the working directory to root, so most writes will fail
    Root,
    /// Creates a temporary dir that will be cleaned up after exit. For potentially large dirs.
    ManagedTempdir,
    /// Creates a tempdir in the system's temporary directory that will be cleaned up after exit
    Tempdir,
    /// Corresponds to `DynamicUser` setting in `systemd.exec(5)`
    DynamicUser,
}

/// A program to run.
pub struct Exec {
    executable: String,
}

impl Exec {
    pub fn new(executable: String) -> (e: Exec)
        ensures
            e.executable() == executable@,
    {
        Exec { executable }
    }

    /// The program's path.
    pub closed spec fn executable(&self) -> Seq<char> {
        self.executable@
    }
}

/// Configuration of one job variant.
pub struct JobConfiguration {
    pub machine_sel: MachineSel,
    pub packages: Vec<PackageDependency>,
    pub working_dir: WorkingDir,
    pub nix_pkg: Option<String>,
    pub program: Vec<String>,
}

/// A request for a job.
pub struct JobRequest {}

} // verus!

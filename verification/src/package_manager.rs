//! The package managers whose workspaces are read, and where each of them
//! keeps its list of workspace globs.

use vstd::prelude::*;

verus! {

/// A package manager whose workspaces can be read.
#[derive(Debug, Clone, Copy, PartialEq, Eq, Structural)]
pub enum PackageManager {
    Berry,
    Npm,
    Pnpm,
    Pnpm6,
    Yarn,
}

/// The file that lists a workspace's packages names none.
#[derive(Debug, Clone, Copy, PartialEq, Eq, Structural)]
pub enum WorkspaceError {
    /// `pnpm-workspace.yaml` has an empty `packages` list.
    NoPnpmPackages,
    /// `package.json` has an empty `workspaces` list.
    NoPackageJsonWorkspaces,
}

impl WorkspaceError {
    /// The text of the message that `to_string` gives for this error.
    pub open spec fn message(self) -> Seq<char> {
        match self {
            WorkspaceError::NoPnpmPackages => "pnpm-workspace.yaml: no packages found. Turborepo requires pnpm workspaces and thus packages to be defined in the root pnpm-workspace.yaml"@,
            WorkspaceError::NoPackageJsonWorkspaces => "package.json: no packages found. Turborepo requires pnpm workspaces and thus packages to be defined in the root package.json"@,
        }
    }

    /// A human-readable description of the error.
    pub fn to_string(&self) -> (text: String)
        ensures
            text@ == self.message(),
    {
        match self {
            WorkspaceError::NoPnpmPackages => "pnpm-workspace.yaml: no packages found. Turborepo requires pnpm workspaces and thus packages to be defined in the root pnpm-workspace.yaml".to_owned(),
            WorkspaceError::NoPackageJsonWorkspaces => "package.json: no packages found. Turborepo requires pnpm workspaces and thus packages to be defined in the root package.json".to_owned(),
        }
    }
}

impl PackageManager {
    /// Whether the workspace is described in `pnpm-workspace.yaml`, not in
    /// `package.json`.
    pub open spec fn is_pnpm(self) -> bool {
        self == PackageManager::Pnpm || self == PackageManager::Pnpm6
    }

    /// The name of the file, in the root of the repository, that lists the
    /// workspace globs.
    pub fn workspace_file(&self) -> (name: &'static str)
        ensures
            name@ == if self.is_pnpm() {
                "pnpm-workspace.yaml"@
            } else {
                "package.json"@
            },
    {
        match self {
            PackageManager::Pnpm | PackageManager::Pnpm6 => "pnpm-workspace.yaml",
            PackageManager::Berry | PackageManager::Npm | PackageManager::Yarn => "package.json",
        }
    }

    /// The globs of the package workspace, given the list that the
    /// workspace file holds: the list itself, unless it is empty.
    pub fn workspace_globs(&self, listed: Vec<String>) -> (r: Result<Vec<String>, WorkspaceError>)
        ensures
            r == if listed@.len() > 0 {
                Ok::<Vec<String>, WorkspaceError>(listed)
            } else if self.is_pnpm() {
                Err(WorkspaceError::NoPnpmPackages)
            } else {
                Err(WorkspaceError::NoPackageJsonWorkspaces)
            },
    {
        if listed.len() > 0 {
            Ok(listed)
        } else {
            match self {
                PackageManager::Pnpm | PackageManager::Pnpm6 => Err(WorkspaceError::NoPnpmPackages),
                PackageManager::Berry | PackageManager::Npm | PackageManager::Yarn => Err(
                    WorkspaceError::NoPackageJsonWorkspaces,
                ),
            }
        }
    }
}

} // verus!

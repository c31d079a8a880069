//! Resolution of the target-selection flags: which packages' diagnostics a
//! run honors, decided from the `--workspace`, `--package` and `--exclude`
//! flags before any diagnostic is collected.

use vstd::prelude::*;

verus! {

/// Which crates a run works on: the root package, the whole workspace with
/// exclusions, or an explicit package list.
#[derive(Debug)]
pub enum CrateResolutionOptions {
    Root,
    Workspace { exclude: Vec<String> },
    Package { packages: Vec<String> },
}

/// A contradictory combination of target-selection flags.
#[derive(Clone, Copy, Debug, PartialEq, Eq, Structural)]
pub enum ArgsError {
    ConflictingSelection,
    ExcludeWithoutWorkspace,
}

impl ArgsError {
    /// The message the command line reports for this error.
    pub fn message(&self) -> (r: String)
        ensures
            *self == ArgsError::ConflictingSelection ==> r@ == (
            "either specify --workspace and optionally --exclude specific targets, or specify specific targets with --package")@,
            *self == ArgsError::ExcludeWithoutWorkspace ==> r@ == (
            "--exclude can only be used in conjunction with --workspace")@,
    {
        match self {
            ArgsError::ConflictingSelection => (
            "either specify --workspace and optionally --exclude specific targets, or specify specific targets with --package").to_owned(),
            ArgsError::ExcludeWithoutWorkspace => (
            "--exclude can only be used in conjunction with --workspace").to_owned(),
        }
    }
}

impl CrateResolutionOptions {
    /// Decides the crate resolution from the flags: `--workspace` (with
    /// optional `--exclude`) selects the workspace, `--package` alone
    /// selects the listed packages, neither selects the root; `--workspace`
    /// together with `--package` conflicts, and `--exclude` without
    /// `--workspace` is rejected.
    pub fn from_options(workspace: bool, package: Vec<String>, exclude: Vec<String>) -> (r:
        Result<CrateResolutionOptions, ArgsError>)
        ensures
            workspace && package@.len() == 0 ==> (r matches Ok(
                CrateResolutionOptions::Workspace { exclude: e },
            ) && e == exclude),
            !workspace && package@.len() > 0 && exclude@.len() == 0 ==> (r matches Ok(
                CrateResolutionOptions::Package { packages: p },
            ) && p == package),
            !workspace && package@.len() == 0 && exclude@.len() == 0 ==> r matches Ok(
                CrateResolutionOptions::Root,
            ),
            workspace && package@.len() > 0 ==> r == Err::<
                CrateResolutionOptions,
                ArgsError,
            >(ArgsError::ConflictingSelection),
            !workspace && package@.len() > 0 && exclude@.len() > 0 ==> r == Err::<
                CrateResolutionOptions,
                ArgsError,
            >(ArgsError::ConflictingSelection),
            !workspace && package@.len() == 0 && exclude@.len() > 0 ==> r == Err::<
                CrateResolutionOptions,
                ArgsError,
            >(ArgsError::ExcludeWithoutWorkspace),
    {
        if workspace {
            if package.len() > 0 {
                Err(ArgsError::ConflictingSelection)
            } else {
                Ok(CrateResolutionOptions::Workspace { exclude })
            }
        } else {
            if package.len() > 0 {
                if exclude.len() > 0 {
                    Err(ArgsError::ConflictingSelection)
                } else {
                    Ok(CrateResolutionOptions::Package { packages: package })
                }
            } else {
                if exclude.len() > 0 {
                    Err(ArgsError::ExcludeWithoutWorkspace)
                } else {
                    Ok(CrateResolutionOptions::Root)
                }
            }
        }
    }
}

} // verus!

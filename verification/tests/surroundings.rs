use cargo_minify::diff_format::ColorMode;
use cargo_minify::options::{ArgsError, CrateResolutionOptions};
use cargo_minify::vcs::{existing_vcs_repo, path_maybe_rename, status, Status, VcsError};

#[test]
fn color_mode_words() {
    assert!(matches!(ColorMode::from_str("auto"), Ok(ColorMode::Auto)));
    assert!(matches!(ColorMode::from_str("always"), Ok(ColorMode::Always)));
    assert!(matches!(ColorMode::from_str("never"), Ok(ColorMode::Never)));
    assert!(ColorMode::from_str("sometimes").is_err());
    assert!(matches!(ColorMode::default(), ColorMode::Auto));
}

#[test]
fn color_mode_enablement() {
    assert!(ColorMode::Auto.enabled());
    assert!(ColorMode::Always.enabled());
    assert!(!ColorMode::Never.enabled());
}

fn strings(words: &[&str]) -> Vec<String> {
    words.iter().map(|w| w.to_string()).collect()
}

#[test]
fn crate_resolution_decision_table() {
    assert!(matches!(
        CrateResolutionOptions::from_options(false, vec![], vec![]),
        Ok(CrateResolutionOptions::Root)
    ));
    match CrateResolutionOptions::from_options(true, vec![], strings(&["helper"])) {
        Ok(CrateResolutionOptions::Workspace { exclude }) => {
            assert_eq!(exclude, strings(&["helper"]))
        }
        _ => panic!("expected a workspace resolution"),
    }
    match CrateResolutionOptions::from_options(false, strings(&["app"]), vec![]) {
        Ok(CrateResolutionOptions::Package { packages }) => {
            assert_eq!(packages, strings(&["app"]))
        }
        _ => panic!("expected a package resolution"),
    }
    assert!(matches!(
        CrateResolutionOptions::from_options(true, strings(&["app"]), vec![]),
        Err(ArgsError::ConflictingSelection)
    ));
    assert!(matches!(
        CrateResolutionOptions::from_options(false, strings(&["app"]), strings(&["x"])),
        Err(ArgsError::ConflictingSelection)
    ));
    assert!(matches!(
        CrateResolutionOptions::from_options(false, vec![], strings(&["x"])),
        Err(ArgsError::ExcludeWithoutWorkspace)
    ));
}

#[test]
fn repo_detection() {
    assert!(existing_vcs_repo(Some(1), false));
    assert!(existing_vcs_repo(None, true));
    assert!(!existing_vcs_repo(Some(0), false));
    assert!(!existing_vcs_repo(Some(128), false));
    assert!(!existing_vcs_repo(None, false));
}

#[test]
fn rename_entries_take_the_destination() {
    assert_eq!(path_maybe_rename(b"old.rs -> new.rs"), b"new.rs".to_vec());
    assert_eq!(path_maybe_rename(b"plain.rs"), b"plain.rs".to_vec());
}

#[test]
fn status_classification() {
    assert!(matches!(status(false, &Ok(vec![])), Status::NoVCS));
    assert!(matches!(status(true, &Ok(vec![])), Status::Clean));
    match status(true, &Err("git broke".to_string())) {
        Status::Error(VcsError::Query(m)) => assert_eq!(m, "git broke"),
        _ => panic!("expected a query error"),
    }
    match status(true, &Ok(b" M dirty.rs\nM  staged.rs\nR  old.rs -> new.rs\n".to_vec())) {
        Status::Unclean { dirty, staged } => {
            assert_eq!(dirty, vec![b"dirty.rs".to_vec()]);
            assert_eq!(staged, vec![b"staged.rs".to_vec(), b"new.rs".to_vec()]);
        }
        _ => panic!("expected an unclean status"),
    }
    match status(true, &Ok(b"X  odd.rs\n".to_vec())) {
        Status::Error(VcsError::InvalidStatusLine(l)) => assert_eq!(l, b"X  odd.rs".to_vec()),
        _ => panic!("expected an invalid-line error"),
    }
}

#[test]
fn untracked_files_count_as_dirty() {
    match status(true, &Ok(b"?? junk.txt\n".to_vec())) {
        Status::Unclean { dirty, staged } => {
            assert_eq!(dirty, vec![b"junk.txt".to_vec()]);
            assert!(staged.is_empty());
        }
        _ => panic!("expected an unclean status"),
    }
}

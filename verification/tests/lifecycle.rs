use suivm::error::VmError;
use suivm::manager::SuiVersionManager;
use suivm::store::StoreSnapshot;

fn manager() -> SuiVersionManager {
    SuiVersionManager::new("/home/u/.suivm".to_string())
}

fn snapshot(versions: &[&str], current_link: Option<&str>) -> StoreSnapshot {
    StoreSnapshot {
        versions: versions.iter().map(|v| v.to_string()).collect(),
        current_link: current_link.map(|t| t.to_string()),
    }
}

#[test]
fn activate_then_read_returns_the_version() {
    let m = manager();
    let snap = snapshot(&["v1.0.0", "v1.1.0"], None);
    let outcome = m.set_default_version(&snap, "v1.1.0", true).unwrap();
    assert_eq!(outcome.result, Ok(()));
    assert_eq!(outcome.link_target, "/home/u/.suivm/versions/v1.1.0");
    assert_eq!(m.get_current_version(&outcome.after).unwrap(), "v1.1.0");
}

#[test]
fn activate_unknown_version_is_refused() {
    let m = manager();
    let snap = snapshot(&["v1.0.0"], None);
    assert_eq!(
        m.set_default_version(&snap, "v9.9.9", true).unwrap_err(),
        VmError::NotInstalled
    );
}

#[test]
fn missing_binary_fails_after_the_link_swap() {
    let m = manager();
    let snap = snapshot(&["v1.0.0"], None);
    let outcome = m.set_default_version(&snap, "v1.0.0", false).unwrap();
    assert_eq!(outcome.result, Err(VmError::BinaryMissing));
    // the link was still replaced before the check
    assert_eq!(
        outcome.after.current_link.as_deref(),
        Some("/home/u/.suivm/versions/v1.0.0")
    );
}

#[test]
fn activation_is_idempotent() {
    let m = manager();
    let snap = snapshot(&["v1.0.0"], None);
    let once = m.set_default_version(&snap, "v1.0.0", true).unwrap();
    let twice = m.set_default_version(&once.after, "v1.0.0", true).unwrap();
    assert_eq!(twice.result, Ok(()));
    assert_eq!(twice.after.versions, once.after.versions);
    assert_eq!(twice.after.current_link, once.after.current_link);
    assert_eq!(
        twice.after.current_link.as_deref(),
        Some("/home/u/.suivm/versions/v1.0.0")
    );
}

#[test]
fn uninstall_active_version_is_refused() {
    let m = manager();
    let snap = snapshot(
        &["v1.0.0", "v1.1.0"],
        Some("/home/u/.suivm/versions/v1.1.0"),
    );
    assert_eq!(
        m.uninstall_version(&snap, "v1.1.0").unwrap_err(),
        VmError::ActiveVersionConflict
    );
    // the store is untouched: the version is still installed
    assert!(snap.is_installed("v1.1.0"));
}

#[test]
fn uninstall_removes_a_non_active_version() {
    let m = manager();
    let snap = snapshot(
        &["v1.0.0", "v1.1.0"],
        Some("/home/u/.suivm/versions/v1.1.0"),
    );
    let outcome = m.uninstall_version(&snap, "v1.0.0").unwrap();
    assert_eq!(outcome.remove_dir, "/home/u/.suivm/versions/v1.0.0");
    assert!(!outcome.after.is_installed("v1.0.0"));
    assert!(outcome.after.is_installed("v1.1.0"));
    assert_eq!(
        outcome.after.current_link.as_deref(),
        Some("/home/u/.suivm/versions/v1.1.0")
    );
}

#[test]
fn uninstall_unknown_version_is_refused() {
    let m = manager();
    let snap = snapshot(&["v1.0.0"], None);
    assert_eq!(
        m.uninstall_version(&snap, "v2.0.0").unwrap_err(),
        VmError::NotInstalled
    );
}

#[test]
fn uninstall_proceeds_when_no_version_is_active() {
    let m = manager();
    let snap = snapshot(&["v1.0.0"], None);
    let outcome = m.uninstall_version(&snap, "v1.0.0").unwrap();
    assert!(outcome.after.versions.is_empty());
    assert_eq!(outcome.after.current_link, None);
}

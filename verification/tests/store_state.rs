use suivm::error::VmError;
use suivm::manager::SuiVersionManager;
use suivm::store::{DirEntryInfo, StoreSnapshot};

fn manager() -> SuiVersionManager {
    SuiVersionManager::new("/home/u/.suivm".to_string())
}

fn entry(name: &str, is_dir: bool) -> DirEntryInfo {
    DirEntryInfo {
        name: name.to_string(),
        is_dir,
    }
}

#[test]
fn listing_keeps_directories_only() {
    let m = manager();
    let entries = vec![
        entry("v1.0.0", true),
        entry("notes.txt", false),
        entry("v1.1.0", true),
        entry("leftover.tgz", false),
    ];
    let listed = m.list_installed_versions(&entries);
    assert_eq!(listed, vec!["v1.0.0".to_string(), "v1.1.0".to_string()]);
}

#[test]
fn listing_is_empty_without_directories() {
    let m = manager();
    let entries = vec![entry("archive.tgz", false)];
    assert!(m.list_installed_versions(&entries).is_empty());
}

#[test]
fn installed_iff_listed() {
    let snap = StoreSnapshot {
        versions: vec!["v1.0.0".to_string(), "v1.1.0".to_string()],
        current_link: None,
    };
    assert!(snap.is_installed("v1.0.0"));
    assert!(snap.is_installed("v1.1.0"));
    assert!(!snap.is_installed("v1.2.0"));
    assert!(!snap.is_installed(""));
}

#[test]
fn no_link_means_no_active_version() {
    let m = manager();
    let snap = StoreSnapshot {
        versions: vec!["v1.0.0".to_string()],
        current_link: None,
    };
    assert_eq!(m.get_current_version(&snap).unwrap_err(), VmError::NotFound);
}

#[test]
fn active_version_is_link_targets_final_component() {
    let m = manager();
    let snap = StoreSnapshot {
        versions: vec!["v1.2.0".to_string()],
        current_link: Some("/home/u/.suivm/versions/v1.2.0".to_string()),
    };
    assert_eq!(m.get_current_version(&snap).unwrap(), "v1.2.0");
}

#[test]
fn link_without_final_component_is_corrupt() {
    let m = manager();
    let snap = StoreSnapshot {
        versions: vec![],
        current_link: Some("/home/u/.suivm/versions/v1.2.0/".to_string()),
    };
    assert_eq!(
        m.get_current_version(&snap).unwrap_err(),
        VmError::InvalidState
    );
    let empty = StoreSnapshot {
        versions: vec![],
        current_link: Some("".to_string()),
    };
    assert_eq!(
        m.get_current_version(&empty).unwrap_err(),
        VmError::InvalidState
    );
}

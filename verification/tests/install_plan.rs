use suivm::catalog::{Asset, Release};
use suivm::error::VmError;
use suivm::manager::{InstallStep, SuiVersionManager};
use suivm::platform::arch_label;
use suivm::manager::progress_after;
use suivm::store::StoreSnapshot;

fn manager() -> SuiVersionManager {
    SuiVersionManager::new("/home/u/.suivm".to_string())
}

fn asset(name: &str, url: &str) -> Asset {
    Asset {
        name: name.to_string(),
        browser_download_url: url.to_string(),
    }
}

fn release(tag: &str, assets: Vec<Asset>) -> Release {
    Release {
        tag_name: tag.to_string(),
        assets,
    }
}

#[test]
fn install_plans_the_matching_asset() {
    let m = manager();
    let releases = vec![release(
        "v1.2.0",
        vec![asset(
            "sui-v1.2.0-macos-arm64.tgz",
            "https://example.invalid/sui-v1.2.0-macos-arm64.tgz",
        )],
    )];
    let plan = m.download_version(&releases, "v1.2.0").unwrap();
    assert_eq!(plan.version, "v1.2.0");
    assert_eq!(plan.asset_name, "sui-v1.2.0-macos-arm64.tgz");
    assert_eq!(
        plan.download_url,
        "https://example.invalid/sui-v1.2.0-macos-arm64.tgz"
    );
    assert_eq!(plan.version_dir, "/home/u/.suivm/versions/v1.2.0");
    assert_eq!(
        plan.archive_path,
        "/home/u/.suivm/versions/v1.2.0/sui-v1.2.0-macos-arm64.tgz"
    );

    // the pipeline extracts into the version directory and ends by deleting
    // the downloaded archive, so no archive file is left behind
    let steps = plan.install_steps();
    assert_eq!(steps.len(), 4);
    match &steps[0] {
        InstallStep::CreateDir(p) => assert_eq!(p.as_str(), "/home/u/.suivm/versions/v1.2.0"),
        other => panic!("unexpected first step: {:?}", step_name(other)),
    }
    let downloaded_to = match &steps[1] {
        InstallStep::Download { url, dest } => {
            assert_eq!(url, &plan.download_url);
            dest.clone()
        }
        other => panic!("unexpected second step: {:?}", step_name(other)),
    };
    match &steps[2] {
        InstallStep::Extract { archive, into } => {
            assert_eq!(archive, &downloaded_to);
            assert_eq!(into.as_str(), "/home/u/.suivm/versions/v1.2.0");
        }
        other => panic!("unexpected third step: {:?}", step_name(other)),
    }
    match &steps[3] {
        InstallStep::RemoveFile(p) => assert_eq!(p, &downloaded_to),
        other => panic!("unexpected last step: {:?}", step_name(other)),
    }
}

fn step_name(step: &InstallStep) -> &'static str {
    match step {
        InstallStep::CreateDir(_) => "CreateDir",
        InstallStep::Download { .. } => "Download",
        InstallStep::Extract { .. } => "Extract",
        InstallStep::RemoveFile(_) => "RemoveFile",
    }
}

#[test]
fn version_absent_from_catalog_is_refused() {
    let m = manager();
    let releases = vec![release(
        "v1.2.0",
        vec![asset("sui-v1.2.0-macos-arm64.tgz", "u")],
    )];
    assert_eq!(
        m.download_version(&releases, "v9.9.9").unwrap_err(),
        VmError::VersionNotFound
    );
    assert_eq!(
        m.download_version(&vec![], "v1.2.0").unwrap_err(),
        VmError::VersionNotFound
    );
}

#[test]
fn release_without_platform_asset_is_refused() {
    let m = manager();
    let releases = vec![release(
        "v1.2.0",
        vec![
            asset("sui-v1.2.0-ubuntu-x86_64.tgz", "u1"),
            asset("sui-v1.2.0-macos-x86_64.tgz", "u2"),
            asset("sui-v1.2.0-windows-arm64.tgz", "u3"),
        ],
    )];
    assert_eq!(
        m.download_version(&releases, "v1.2.0").unwrap_err(),
        VmError::NoCompatibleAsset
    );
}

#[test]
fn first_compatible_asset_wins() {
    let m = manager();
    let releases = vec![release(
        "v1.2.0",
        vec![
            asset("sui-v1.2.0-ubuntu-x86_64.tgz", "u1"),
            asset("sui-v1.2.0-macos-arm64.tgz", "u2"),
            asset("sui-v1.2.0-macos-arm64-debug.tgz", "u3"),
        ],
    )];
    let plan = m.download_version(&releases, "v1.2.0").unwrap();
    assert_eq!(plan.asset_name, "sui-v1.2.0-macos-arm64.tgz");
    assert_eq!(plan.download_url, "u2");
}

#[test]
fn first_matching_tag_wins() {
    let m = manager();
    let releases = vec![
        release("v1.2.0", vec![asset("sui-v1.2.0-macos-arm64.tgz", "first")]),
        release("v1.2.0", vec![asset("sui-v1.2.0-macos-arm64.tgz", "second")]),
    ];
    let plan = m.download_version(&releases, "v1.2.0").unwrap();
    assert_eq!(plan.download_url, "first");
}

#[test]
fn remote_listing_pairs_tags_with_local_state() {
    let m = manager();
    let releases = vec![
        release("v1.2.0", vec![]),
        release("v1.1.0", vec![]),
        release("v1.0.0", vec![]),
    ];
    let snap = StoreSnapshot {
        versions: vec!["v1.0.0".to_string(), "v1.1.0".to_string()],
        current_link: Some("/home/u/.suivm/versions/v1.1.0".to_string()),
    };
    let listed = m.list_remote_versions(&releases, &snap);
    assert_eq!(listed.len(), 3);
    assert_eq!(listed[0], ("v1.2.0".to_string(), false, false));
    assert_eq!(listed[1], ("v1.1.0".to_string(), true, true));
    assert_eq!(listed[2], ("v1.0.0".to_string(), true, false));
}

#[test]
fn remote_listing_marks_no_default_without_a_link() {
    let m = manager();
    let releases = vec![release("v1.0.0", vec![]), release("v1.1.0", vec![])];
    let snap = StoreSnapshot {
        versions: vec!["v1.0.0".to_string()],
        current_link: None,
    };
    let listed = m.list_remote_versions(&releases, &snap);
    assert!(listed.iter().all(|(_, _, is_default)| !is_default));
    assert_eq!(listed[0].1, true);
    assert_eq!(listed[1].1, false);
}

#[test]
fn arch_labels_follow_the_catalog_spelling() {
    assert_eq!(arch_label("x86_64"), "x86_64");
    assert_eq!(arch_label("aarch64"), "arm64");
    assert_eq!(arch_label("riscv64"), "unknown");
}

#[test]
fn progress_counter_saturates() {
    assert_eq!(progress_after(0, 4096), 4096);
    assert_eq!(progress_after(u64::MAX - 1, 4096), u64::MAX);
    assert_eq!(progress_after(u64::MAX, 0), u64::MAX);
}

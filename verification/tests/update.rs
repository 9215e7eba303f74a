use bmw_enet::installer::Role;
use bmw_enet::npcap::{capture_device_for, npcap_dll_paths, npcap_found, npcap_installed, pick_capture_device, CaptureDevice};
use bmw_enet::updater::{
    archive_has_exe, check_archive, checksum_for, entry_installable, release_notes, select_update,
    staged_extension, staged_result, Release, ReleaseAsset, UpdateError,
};
use bmw_enet::updater::{periodic_check_wanted, update_action, UpdateAction};

fn asset(name: &str) -> ReleaseAsset {
    ReleaseAsset {
        name: name.into(),
        browser_download_url: format!("https://dl/{name}"),
        url: format!("https://api/{name}"),
    }
}

fn release(tag: &str) -> Release {
    Release {
        tag_name: tag.into(),
        body: Some("notes".into()),
        assets: vec![asset("BMW-ENET-Host-windows-x64.zip"), asset("sha256sums.TXT")],
        draft: false,
        prerelease: false,
    }
}

#[test]
fn role_metadata() {
    assert_eq!(Role::Host.label(), "Host (Desktop)");
    assert_eq!(Role::Client.asset_name(), "BMW-ENET-Client-windows-x64.zip");
    assert_eq!(Role::Host.required_bins(), &["enet-gateway.exe", "enet-setup.exe"]);
    assert_eq!(Role::Client.optional_bins().len(), 0);
    assert_eq!(Role::Host.optional_bins(), &["enet-gui.exe"]);
    assert_eq!(Role::Client.install_dir_name(), "BMW-ENET-Agent");
    assert_eq!(Role::Host.service_name(), "BmwEnetGateway");
    assert_eq!(Role::Client.service_display(), "BMW ENET laptop agent");
    assert_eq!(Role::Client.main_exe(), "enet-agent.exe");
}

#[test]
fn npcap_detection() {
    assert!(npcap_found(false, true, false));
    assert!(!npcap_found(false, false, false));
    // Off Windows the capture driver never counts as installed.
    assert!(!npcap_installed(false));
    let p = npcap_dll_paths();
    assert_eq!(p[0], "C:\\Windows\\System32\\Npcap\\wpcap.dll");
    assert_eq!(p[1], "C:\\Windows\\System32\\wpcap.dll");
    assert_eq!(p[2], "C:\\Windows\\SysWOW64\\Npcap\\wpcap.dll");
}

#[test]
fn newer_release_is_offered() {
    let r = release("v0.2.0");
    let u = select_update("0.1.19", &r, "BMW-ENET-Host-windows-x64.zip", "").unwrap().unwrap();
    assert_eq!(u.tag, "v0.2.0");
    assert_eq!(u.version, "0.2.0");
    assert_eq!(u.asset_url, "https://dl/BMW-ENET-Host-windows-x64.zip");
    assert_eq!(u.checksums_url.as_deref(), Some("https://dl/sha256sums.TXT"));
    assert_eq!(u.notes, "notes");
    let with_token = select_update("0.1.19", &r, "BMW-ENET-Host-windows-x64.zip", "tok").unwrap().unwrap();
    assert_eq!(with_token.asset_url, "https://api/BMW-ENET-Host-windows-x64.zip");
}

#[test]
fn no_update_cases() {
    let asset_name = "BMW-ENET-Host-windows-x64.zip";
    assert!(select_update("0.2.0", &release("v0.2.0"), asset_name, "").unwrap().is_none());
    assert!(select_update("0.3.0", &release("v0.2.0"), asset_name, "").unwrap().is_none());
    assert!(select_update("0.1.0", &release("latest"), asset_name, "").unwrap().is_none());
    assert!(select_update("0.1.0", &release("v0.2.0"), "other.zip", "").unwrap().is_none());
    let mut draft = release("v9.0.0");
    draft.draft = true;
    assert!(select_update("0.1.0", &draft, asset_name, "").unwrap().is_none());
    assert_eq!(select_update("dev", &release("v9.0.0"), asset_name, "").err(), Some(UpdateError::BadCurrentVersion));
}

#[test]
fn notes_are_cut_at_400_bytes() {
    let long = "x".repeat(450);
    assert_eq!(release_notes(&Some(long)).len(), 400);
    assert_eq!(release_notes(&None), "");
    let short = "é".repeat(10);
    assert_eq!(release_notes(&Some(short.clone())), short);
}

#[test]
fn checksum_list_lookup() {
    let sums = "deadbeef  other.zip\r\nABCDEF01 *BMW-ENET-Host-windows-x64.zip\nlonely\n";
    assert_eq!(checksum_for(sums, "bmw-enet-host-windows-x64.zip").as_deref(), Some("abcdef01"));
    assert_eq!(checksum_for(sums, "missing.zip"), None);
    assert_eq!(checksum_for("", "x"), None);
}

#[test]
fn archive_checks() {
    // SHA-256 of "abc".
    let digest = "ba7816bf8f01cfea414140de5dae2223b00361a396177a9cb410ff61f20015ad";
    let sums = format!("{digest}  pkg.zip\n");
    assert_eq!(check_archive(Some(&sums), "pkg.zip", b"abc"), Ok(()));
    assert!(matches!(check_archive(Some(&sums), "pkg.zip", b"abd"), Err(UpdateError::ChecksumMismatch { .. })));
    assert_eq!(check_archive(Some(&sums), "other.zip", b"abc"), Err(UpdateError::NoChecksumEntry));
    assert_eq!(check_archive(None, "pkg.zip", b"anything"), Ok(()));
}

#[test]
fn staging_rules() {
    assert!(!entry_installable("Config"));
    assert!(!entry_installable("logs"));
    assert!(entry_installable("enet-agent.exe"));
    assert!(archive_has_exe(&["a.txt".to_string(), "ENET-AGENT.EXE".to_string()], "enet-agent.exe"));
    assert!(!archive_has_exe(&["a.txt".to_string()], "enet-agent.exe"));
    assert_eq!(staged_extension(Some("exe")), "exe.old");
    assert_eq!(staged_extension(None), "bin.old");
    assert_eq!(staged_result(vec![]), Err(UpdateError::NothingToInstall));
    assert_eq!(staged_result(vec!["a".to_string()]), Ok(vec!["a".to_string()]));
}

#[test]
fn update_waits_for_session_to_end() {
    assert_eq!(update_action(true, true), UpdateAction::Notify);
    assert_eq!(update_action(true, false), UpdateAction::Install);
    assert_eq!(update_action(false, false), UpdateAction::Notify);
    assert_eq!(update_action(false, true), UpdateAction::Notify);
}

#[test]
fn periodic_check_skipped_when_waiting_for_user() {
    assert!(!periodic_check_wanted(false, true));
    assert!(periodic_check_wanted(false, false));
    assert!(periodic_check_wanted(true, true));
}

#[test]
fn capture_device_matches_adapter_name() {
    let lines: Vec<String> = vec![
        "\\Device\\NPF_{1}|Wi-Fi Adapter".into(),
        "\\Device\\NPF_{2}|USB Ethernet ENET".into(),
        "\\Device\\NPF_{3}|usb ethernet 2".into(),
    ];
    assert_eq!(capture_device_for(&lines, "usb ETHERNET").as_deref(), Some("\\Device\\NPF_{2}"));
    assert_eq!(capture_device_for(&lines, "Bluetooth"), None);
    let bare: Vec<String> = vec!["eth0 no description".into()];
    assert_eq!(capture_device_for(&bare, "ETH0").as_deref(), Some("eth0 no description"));
}

#[test]
fn capture_device_picked_by_name_or_description() {
    let devs = vec![
        CaptureDevice { name: "\\Device\\NPF_{1}".into(), desc: Some("Intel Wi-Fi".into()) },
        CaptureDevice { name: "\\Device\\NPF_{2}".into(), desc: Some("USB Ethernet ENET".into()) },
        CaptureDevice { name: "eth1".into(), desc: None },
    ];
    assert_eq!(pick_capture_device(&devs, "usb ethernet"), Some(1));
    assert_eq!(pick_capture_device(&devs, "\\device\\npf_{1}"), Some(0));
    // The wanted text may be longer than the device name.
    assert_eq!(pick_capture_device(&devs, "ETH1 (ENET)"), Some(2));
    assert_eq!(pick_capture_device(&devs, "bluetooth"), None);
}

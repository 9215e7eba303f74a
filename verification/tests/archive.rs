use bmw_enet::archive::{package_entries, stage_archive, ArchiveError};
use bmw_enet::installer::{flatten_source, package_markers, package_source, PackageSource};
use std::io::{Cursor, Write};

fn build_zip(files: &[(&str, &[u8])], dirs: &[&str]) -> Vec<u8> {
    let mut w = zip::ZipWriter::new(Cursor::new(Vec::new()));
    let opts = zip::write::SimpleFileOptions::default().compression_method(zip::CompressionMethod::Stored);
    for d in dirs {
        w.add_directory(*d, opts).unwrap();
    }
    for (name, data) in files {
        w.start_file(*name, opts).unwrap();
        w.write_all(data).unwrap();
    }
    w.finish().unwrap().into_inner()
}

#[test]
fn stages_files_but_not_config_or_logs() {
    let bytes = build_zip(
        &[
            ("enet-agent.exe", b"EXE"),
            ("config/agent.toml", b"cfg"),
            ("Logs/old.log", b"log"),
            ("docs/readme.txt", b"doc"),
        ],
        &["docs/"],
    );
    let files = stage_archive(bytes, Some("ENET-AGENT.exe")).unwrap();
    let paths: Vec<String> = files.iter().map(|f| f.path.join("/")).collect();
    assert_eq!(paths, vec!["enet-agent.exe".to_string(), "docs/readme.txt".to_string()]);
    assert_eq!(files[0].data, b"EXE".to_vec());
}

#[test]
fn refuses_wrong_asset_and_junk() {
    let bytes = build_zip(&[("enet-gateway.exe", b"X")], &[]);
    assert_eq!(stage_archive(bytes.clone(), Some("enet-agent.exe")).err(), Some(ArchiveError::MissingExe));
    assert_eq!(stage_archive(bytes, None).map(|f| f.len()).ok(), Some(1));
    assert_eq!(stage_archive(b"not a zip".to_vec(), None).err(), Some(ArchiveError::Unreadable));
    let only_config = build_zip(&[("config/a.toml", b"x")], &[]);
    assert_eq!(stage_archive(only_config, None).err(), Some(ArchiveError::Empty));
}

#[test]
fn package_entries_in_archive_order() {
    let bytes = build_zip(&[("bin/enet-agent.exe", b"EXE"), ("config/agent.toml", b"cfg")], &["bin/"]);
    let entries = package_entries(bytes).unwrap();
    let seen: Vec<(String, bool, Vec<u8>)> = entries.iter().map(|e| (e.path.join("/"), e.is_dir, e.data.clone())).collect();
    assert_eq!(
        seen,
        vec![
            ("bin".to_string(), true, vec![]),
            ("bin/enet-agent.exe".to_string(), false, b"EXE".to_vec()),
            ("config/agent.toml".to_string(), false, b"cfg".to_vec()),
        ]
    );
    assert_eq!(package_entries(b"junk".to_vec()).err(), Some(ArchiveError::Unreadable));
}

#[test]
fn package_source_prefers_offline_files() {
    assert_eq!(package_source(true, true), PackageSource::Offline);
    assert_eq!(package_source(false, true), PackageSource::Local);
    assert_eq!(package_source(false, false), PackageSource::Download);
    assert_eq!(PackageSource::Offline.label(), Some("offline"));
    assert_eq!(PackageSource::Local.label(), Some("local"));
    assert_eq!(PackageSource::Download.label(), None);
}

#[test]
fn flatten_takes_first_marked_folder() {
    assert_eq!(package_markers(), ["enet-gateway.exe", "enet-agent.exe", "enet-setup.exe"]);
    assert_eq!(flatten_source(true, &[true]), None);
    assert_eq!(flatten_source(false, &[false, true, true]), Some(1));
    assert_eq!(flatten_source(false, &[false, false]), None);
}

#[test]
fn package_refuses_escaping_names() {
    let bytes = build_zip(&[("../evil.txt", b"x")], &[]);
    assert_eq!(package_entries(bytes.clone()).err(), Some(ArchiveError::UnsafePath));
    // Update staging passes such entries over instead.
    assert_eq!(stage_archive(bytes, None).err(), Some(ArchiveError::Empty));
}

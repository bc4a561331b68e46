use std::io::{Cursor, Read, Write};

use codegen_fetch::config::parse_config;
use codegen_fetch::install::{clear_action, open_archive, ClearAction, InstallError, PathKind};
use codegen_fetch::request::request_body;

fn zip_of(entries: &[(&str, &str)]) -> Vec<u8> {
    let mut w = zip::ZipWriter::new(Cursor::new(Vec::new()));
    let options =
        zip::write::FileOptions::default().compression_method(zip::CompressionMethod::Stored);
    for (name, content) in entries {
        w.start_file(*name, options).unwrap();
        w.write_all(content.as_bytes()).unwrap();
    }
    w.finish().unwrap().into_inner()
}

#[test]
fn file_or_link_at_output_is_refused() {
    let e = clear_action(PathKind::File).unwrap_err();
    assert!(matches!(e, InstallError::OutputIsFile));
    assert_eq!(e.message(), "Output is not a folder");
    assert!(matches!(clear_action(PathKind::Symlink), Err(InstallError::OutputIsFile)));
}

#[test]
fn existing_folder_is_removed_first() {
    assert_eq!(clear_action(PathKind::Directory).unwrap(), ClearAction::RemoveDirectory);
    assert_eq!(clear_action(PathKind::Absent).unwrap(), ClearAction::Nothing);
}

#[test]
fn archive_entries_survive_opening() {
    let entries = [("a.txt", "alpha"), ("dir/b.txt", "beta"), ("empty", "")];
    let mut archive = open_archive(zip_of(&entries)).unwrap();
    assert_eq!(archive.len(), 3);
    for (name, content) in entries {
        let mut text = String::new();
        archive.by_name(name).unwrap().read_to_string(&mut text).unwrap();
        assert_eq!(text, content);
    }
}

#[test]
fn bytes_that_are_not_zip_are_refused() {
    let e = open_archive(b"not a zip".to_vec()).unwrap_err();
    assert!(matches!(e, InstallError::ArchiveReadFailed(_)));
    assert!(e.message().starts_with("Can't read downloaded file. ("));
    assert!(matches!(open_archive(Vec::new()), Err(InstallError::ArchiveReadFailed(_))));
}

#[test]
fn install_error_messages() {
    assert_eq!(InstallError::CreateFailed.message(), "Can't create folder");
    assert_eq!(
        InstallError::RemoveFailed(String::from("busy")).message(),
        "Can't remove folder. (busy)"
    );
    assert_eq!(
        InstallError::ExtractFailed(String::from("bad crc")).message(),
        "Can't extract downloaded file (bad crc)"
    );
}

#[test]
fn one_entry_run_without_network() {
    let config = parse_config(
        "api_url=http://x/spec.json\nlang=typescript-fetch\ngen_type=client\nfolder=out",
    )
    .unwrap();
    assert_eq!(config.folder, "out");
    let body = request_body(&config, String::from("{}")).unwrap();
    assert_eq!(body, "{\"lang\":\"typescript-fetch\",\"type\":\"client\",\"spec\":{}}");
    let mut archive = open_archive(zip_of(&[("README.md", "hello")])).unwrap();
    let mut text = String::new();
    archive.by_name("README.md").unwrap().read_to_string(&mut text).unwrap();
    assert_eq!(text, "hello");
}

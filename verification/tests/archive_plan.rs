use drsym_launcher::archive::{plan_extraction, ArchiveError, EntryAction};
use std::io::Write;

fn build_zip(entries: &[(&str, Option<&[u8]>)]) -> Vec<u8> {
    let mut cursor = std::io::Cursor::new(Vec::new());
    {
        let mut writer = zip::ZipWriter::new(&mut cursor);
        let options = zip::write::FileOptions::default();
        for (name, contents) in entries {
            match contents {
                None => {
                    writer.add_directory(*name, options).unwrap();
                }
                Some(bytes) => {
                    writer.start_file(*name, options).unwrap();
                    writer.write_all(bytes).unwrap();
                }
            }
        }
        writer.finish().unwrap();
    }
    cursor.into_inner()
}

#[test]
fn nested_paths_are_reproduced_under_the_destination() {
    let data = build_zip(&[("dir", None), ("dir/nested.txt", Some(b"hello there"))]);
    let actions = plan_extraction(&data, "C:\\dest").unwrap();
    assert_eq!(actions.len(), 2);
    match &actions[0] {
        EntryAction::MakeDir { path } => assert_eq!(path, "C:\\dest\\dir"),
        other => panic!("expected a directory step, got {:?}", other),
    }
    match &actions[1] {
        EntryAction::WriteFile { path, contents } => {
            assert_eq!(path, "C:\\dest\\dir/nested.txt");
            assert_eq!(contents.as_slice(), b"hello there");
        }
        other => panic!("expected a file step, got {:?}", other),
    }
}

#[test]
fn parent_traversal_entries_are_refused() {
    let data = build_zip(&[("../evil.txt", Some(b"boom"))]);
    let err = plan_extraction(&data, "C:\\dest").unwrap_err();
    assert_eq!(err, ArchiveError::UnsafeEntryName { index: 0 });
}

#[test]
fn inner_parent_traversal_is_refused_too() {
    let data = build_zip(&[("ok/../../evil.txt", Some(b"boom"))]);
    let err = plan_extraction(&data, "C:\\dest").unwrap_err();
    assert_eq!(err, ArchiveError::UnsafeEntryName { index: 0 });
}

#[test]
fn dotted_names_inside_a_segment_are_fine() {
    let data = build_zip(&[("dir/..hidden", Some(b"x"))]);
    let actions = plan_extraction(&data, "C:\\dest").unwrap();
    match &actions[0] {
        EntryAction::WriteFile { path, .. } => assert_eq!(path, "C:\\dest\\dir/..hidden"),
        other => panic!("expected a file step, got {:?}", other),
    }
}

#[test]
fn bytes_that_are_no_archive_are_refused() {
    let data = b"this is not a zip archive at all".to_vec();
    let err = plan_extraction(&data, "C:\\dest").unwrap_err();
    assert_eq!(err, ArchiveError::NotAnArchive);
}

#[test]
fn decompressed_contents_come_back_exactly() {
    let body: Vec<u8> = (0u16..2000).map(|i| (i % 251) as u8).collect();
    let data = build_zip(&[("blob.bin", Some(body.as_slice()))]);
    let actions = plan_extraction(&data, "d").unwrap();
    match &actions[0] {
        EntryAction::WriteFile { contents, .. } => assert_eq!(contents, &body),
        other => panic!("expected a file step, got {:?}", other),
    }
}

use remote_files::daemon::dir_entry;
use remote_files::entry::{FileSystemEntryKind, ServerFileBrowserEntry};
use remote_files::message::DirEntry;
use remote_files::order::{sort, Ranked};

fn row(name: &str, path: &str, kind: FileSystemEntryKind) -> ServerFileBrowserEntry {
    ServerFileBrowserEntry {
        name: name.to_string(),
        path: path.to_string(),
        kind,
        size_bytes: None,
        modified_epoch_millis: None,
        depth: 0,
    }
}

#[test]
fn directories_come_first_and_equals_keep_their_order() {
    let rows = vec![
        row("b", "1", FileSystemEntryKind::File),
        row("a", "2", FileSystemEntryKind::File),
        row("z", "3", FileSystemEntryKind::Directory),
        row("a", "4", FileSystemEntryKind::Symlink),
        row("B", "5", FileSystemEntryKind::Directory),
        row("a", "6", FileSystemEntryKind::Other),
    ];
    let sorted: Vec<String> = sort(rows).into_iter().map(|row| row.path).collect();
    assert_eq!(sorted, vec!["5", "3", "2", "4", "6", "1"]);
}

#[test]
fn sorts_like_the_standard_library() {
    for len in 0..40usize {
        let names: Vec<String> = (0..len).map(|i| format!("{}", (i * 7919 + len) % 13)).collect();
        let mut expected: Vec<(String, u64)> =
            names.iter().cloned().zip(0..len as u64).collect();
        expected.sort_by(|a, b| a.0.cmp(&b.0));
        let entries: Vec<DirEntry> = names
            .into_iter()
            .zip(0..len as u64)
            .map(|(name, i)| DirEntry {
                name,
                is_dir: false,
                kind: None,
                size_bytes: Some(i),
                modified_epoch_millis: None,
            })
            .collect();
        let sorted: Vec<(String, u64)> =
            sort(entries).into_iter().map(|e| (e.name, e.size_bytes.unwrap())).collect();
        assert_eq!(sorted, expected);
    }
}

#[test]
fn ranks_by_name_alone() {
    let a = dir_entry("a".to_string(), Some(true), None);
    let b = dir_entry("b".to_string(), None, None);
    assert!(a.goes_before(&b));
    assert!(!b.goes_before(&a));
    assert!(!a.goes_before(&a));
}

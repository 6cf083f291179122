use remote_files::entry::{
    entries_with_depth, DirectoryListings, DirectorySet, FileSystemEntryKind,
    ServerFileBrowserEntry,
};
use remote_files::selection::{next_index, previous_index, selected_index_after_rebuild};
use remote_files::tree::rebuild_entries_from;

fn entry(
    path: &str,
    name: &str,
    kind: FileSystemEntryKind,
    depth: usize,
) -> ServerFileBrowserEntry {
    ServerFileBrowserEntry {
        name: name.to_string(),
        path: path.to_string(),
        kind,
        size_bytes: None,
        modified_epoch_millis: None,
        depth,
    }
}

#[test]
fn rebases_loaded_directory_entries_to_parent_depth() {
    let entries = vec![
        entry(
            "/root/.openwarp/remote-server/warp-oss",
            "warp-oss",
            FileSystemEntryKind::File,
            0,
        ),
        entry(
            "/root/.openwarp/remote-server/logs",
            "logs",
            FileSystemEntryKind::Directory,
            0,
        ),
    ];

    let entries = entries_with_depth(entries, 1);

    assert_eq!(
        entries.iter().map(|entry| entry.depth).collect::<Vec<_>>(),
        vec![1, 1]
    );
}

#[test]
fn rebuild_entries_does_not_promote_loaded_children_to_roots() {
    let root = entry(
        "/root/.openwarp/remote-server",
        "remote-server",
        FileSystemEntryKind::Directory,
        0,
    );
    let child = entry(
        "/root/.openwarp/remote-server/warp-oss",
        "warp-oss",
        FileSystemEntryKind::File,
        0,
    );
    let mut expanded_directories = DirectorySet::new();
    expanded_directories.insert(root.path.clone());
    let mut loaded_directories = DirectoryListings::new();
    loaded_directories.insert(root.path.clone(), entries_with_depth(vec![child], 1));

    let rebuilt = rebuild_entries_from(
        vec![root.clone()],
        &expanded_directories,
        &loaded_directories,
    );
    let rebuilt_again = rebuild_entries_from(rebuilt, &expanded_directories, &loaded_directories);

    assert_eq!(
        rebuilt_again
            .iter()
            .map(|entry| (entry.path.as_str(), entry.depth))
            .collect::<Vec<_>>(),
        vec![
            ("/root/.openwarp/remote-server", 0),
            ("/root/.openwarp/remote-server/warp-oss", 1),
        ]
    );
}

#[test]
fn selected_index_navigation_stays_in_bounds() {
    assert_eq!(previous_index(None, 0), None);
    assert_eq!(next_index(None, 0), None);
    assert_eq!(previous_index(None, 3), Some(0));
    assert_eq!(previous_index(Some(0), 3), Some(0));
    assert_eq!(previous_index(Some(2), 3), Some(1));
    assert_eq!(next_index(None, 3), Some(1));
    assert_eq!(next_index(Some(1), 3), Some(2));
    assert_eq!(next_index(Some(2), 3), Some(2));
}

#[test]
fn selected_index_preserves_matching_path_after_rebuild() {
    let entries = vec![
        entry("/root/.openwarp", ".openwarp", FileSystemEntryKind::Directory, 0),
        entry(
            "/root/.openwarp/remote-server",
            "remote-server",
            FileSystemEntryKind::Directory,
            1,
        ),
    ];

    assert_eq!(
        selected_index_after_rebuild(&entries, Some("/root/.openwarp/remote-server"), Some(0)),
        Some(1)
    );
}

#[test]
fn selected_index_falls_back_when_collapsed_child_disappears() {
    let entries = vec![entry(
        "/root/.openwarp",
        ".openwarp",
        FileSystemEntryKind::Directory,
        0,
    )];

    assert_eq!(
        selected_index_after_rebuild(
            &entries,
            Some("/root/.openwarp/remote-server"),
            Some(4),
        ),
        Some(0)
    );
}

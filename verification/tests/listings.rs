use remote_files::entry::{FileSystemEntryKind, ServerFileBrowserEntry};
use remote_files::listing::{
    created_from_response, list_script, listing_from_output, listing_from_response,
    listing_from_text, resolve_script, resolved_from_output, resolved_from_response,
    resolved_from_text, CommandOutput,
};
use remote_files::message::{
    CreateDirectoryResponse, CreateDirectorySuccess, DirEntry, FileOperationError,
    ListDirectoryResponse, ListDirectorySuccess, ResolvePathResponse, ResolvePathSuccess,
};
use remote_files::status::{Message, Status};

fn output(success: bool, stdout: &[u8], stderr: &[u8]) -> Result<CommandOutput, String> {
    Ok(CommandOutput { success, stdout: stdout.to_vec(), stderr: stderr.to_vec() })
}

fn shown(entries: &[ServerFileBrowserEntry]) -> Vec<(&str, &str, FileSystemEntryKind)> {
    entries.iter().map(|e| (e.name.as_str(), e.path.as_str(), e.kind)).collect()
}

fn error_text<T>(result: Result<T, Status<String>>) -> String {
    match result {
        Err(Status::Text(text)) => text,
        Err(Status::Message(message)) => message.key().to_string(),
        Ok(_) => panic!("no error"),
    }
}

fn failed() -> FileOperationError {
    FileOperationError { message: "no such directory".to_string() }
}

#[test]
fn daemon_entries_become_rows_in_their_order() {
    let response = ListDirectoryResponse {
        result: Some(Ok(ListDirectorySuccess {
            canonical_path: "/srv".to_string(),
            entries: vec![
                DirEntry {
                    name: "z".to_string(),
                    is_dir: true,
                    kind: Some(FileSystemEntryKind::Directory),
                    size_bytes: None,
                    modified_epoch_millis: Some(5),
                },
                DirEntry {
                    name: "a".to_string(),
                    is_dir: false,
                    kind: None,
                    size_bytes: Some(3),
                    modified_epoch_millis: None,
                },
                DirEntry {
                    name: "u".to_string(),
                    is_dir: false,
                    kind: Some(FileSystemEntryKind::Unspecified),
                    size_bytes: None,
                    modified_epoch_millis: None,
                },
            ],
        })),
    };
    let (path, entries) = listing_from_response(Ok(response)).unwrap();
    assert_eq!(path, "/srv");
    assert_eq!(
        shown(&entries),
        vec![
            ("z", "/srv/z", FileSystemEntryKind::Directory),
            ("a", "/srv/a", FileSystemEntryKind::Other),
            ("u", "/srv/u", FileSystemEntryKind::Unspecified),
        ]
    );
    assert_eq!(entries[0].modified_epoch_millis, Some(5));
    assert_eq!(entries[1].size_bytes, Some(3));
    assert!(entries.iter().all(|e| e.depth == 0));
}

#[test]
fn daemon_errors_of_a_listing() {
    assert_eq!(error_text(listing_from_response(Err("gone".to_string()))), "gone");
    let response = ListDirectoryResponse { result: Some(Err(failed())) };
    assert_eq!(error_text(listing_from_response(Ok(response))), "no such directory");
    let response = ListDirectoryResponse { result: None };
    assert!(matches!(
        listing_from_response(Ok(response)),
        Err(Status::Message(Message::EmptyResponse))
    ));
}

#[test]
fn daemon_resolves_a_path() {
    let response = ResolvePathResponse {
        result: Some(Ok(ResolvePathSuccess {
            canonical_path: "/srv".to_string(),
            kind: Some(FileSystemEntryKind::Directory),
            size_bytes: None,
        })),
    };
    let found = resolved_from_response(Ok(response)).unwrap();
    assert_eq!(found.canonical_path, "/srv");
    assert_eq!(found.kind, FileSystemEntryKind::Directory);
    let response = ResolvePathResponse {
        result: Some(Ok(ResolvePathSuccess {
            canonical_path: "/x".to_string(),
            kind: None,
            size_bytes: None,
        })),
    };
    assert_eq!(resolved_from_response(Ok(response)).unwrap().kind, FileSystemEntryKind::Other);
}

#[test]
fn daemon_errors_of_a_resolution() {
    assert_eq!(error_text(resolved_from_response(Err("gone".to_string()))), "gone");
    let response = ResolvePathResponse { result: Some(Err(failed())) };
    assert_eq!(error_text(resolved_from_response(Ok(response))), "no such directory");
    let response = ResolvePathResponse { result: None };
    assert_eq!(
        error_text(resolved_from_response(Ok(response))),
        "server-file-browser-empty-response"
    );
}

#[test]
fn created_directories() {
    let response = CreateDirectoryResponse {
        result: Some(Ok(CreateDirectorySuccess { canonical_path: "/srv/x".to_string() })),
    };
    assert!(created_from_response(Ok(response)).is_ok());
    assert!(created_from_response(Ok(CreateDirectoryResponse { result: None })).is_ok());
    let response = CreateDirectoryResponse { result: Some(Err(failed())) };
    assert_eq!(error_text(created_from_response(Ok(response))), "no such directory");
    assert_eq!(error_text(created_from_response(Err("gone".to_string()))), "gone");
}

#[test]
fn scripts() {
    assert_eq!(
        list_script("'a b'"),
        "cd 'a b' && find . -maxdepth 1 -type d -print0 && printf '\\000' && find . -maxdepth 1 -not -type d -print0"
    );
    assert_eq!(
        resolve_script("x"),
        "if [ -d x ]; then echo d; elif [ -f x ]; then echo f; elif [ -L x ]; then echo l; else echo o; fi"
    );
}

#[test]
fn printed_listing_is_sorted_with_directories_first() {
    let stdout = b".\0./src\0./.git\0\0./b.txt\0./a.txt\0";
    let (path, entries) =
        listing_from_output("/srv".to_string(), output(true, stdout, b"")).unwrap();
    assert_eq!(path, "/srv");
    assert_eq!(
        shown(&entries),
        vec![
            (".git", "/srv/.git", FileSystemEntryKind::Directory),
            ("src", "/srv/src", FileSystemEntryKind::Directory),
            ("a.txt", "/srv/a.txt", FileSystemEntryKind::File),
            ("b.txt", "/srv/b.txt", FileSystemEntryKind::File),
        ]
    );
    assert!(entries.iter().all(|e| e.size_bytes.is_none() && e.modified_epoch_millis.is_none()));
}

#[test]
fn printed_listing_without_files_or_directories() {
    let (_, entries) = listing_from_text("/e".to_string(), true, ".\0\0", "").unwrap();
    assert!(entries.is_empty());
    let (_, entries) = listing_from_text("/e".to_string(), true, "", "").unwrap();
    assert!(entries.is_empty());
    let (_, entries) = listing_from_text("/e".to_string(), true, ".\0./d", "").unwrap();
    assert_eq!(shown(&entries), vec![("d", "/e/d", FileSystemEntryKind::Directory)]);
    let (_, entries) = listing_from_text("/e".to_string(), true, "\0./f\0\0./g\0", "").unwrap();
    assert_eq!(
        shown(&entries),
        vec![
            ("f", "/e/f", FileSystemEntryKind::File),
            ("g", "/e/g", FileSystemEntryKind::File),
        ]
    );
}

#[test]
fn printed_names_without_a_file_name_are_shown_whole() {
    let (_, entries) = listing_from_text("/e".to_string(), true, "..\0\0/\0", "").unwrap();
    assert_eq!(
        shown(&entries),
        vec![
            ("..", "/e/..", FileSystemEntryKind::Directory),
            ("/", "/e//", FileSystemEntryKind::File),
        ]
    );
}

#[test]
fn printed_names_that_are_no_text_are_replaced() {
    let (_, entries) =
        listing_from_output("/e".to_string(), output(true, b".\0\0./a\xffb\0", b"")).unwrap();
    assert_eq!(
        shown(&entries),
        vec![("a\u{fffd}b", "/e/a\u{fffd}b", FileSystemEntryKind::File)]
    );
}

#[test]
fn failed_listing_command() {
    let result = listing_from_output("/e".to_string(), output(false, b"x", b" no such file\n"));
    assert_eq!(error_text(result), "ls failed: no such file");
    let result = listing_from_output("/e".to_string(), Err("closed".to_string()));
    assert_eq!(error_text(result), "closed");
}

#[test]
fn printed_kinds() {
    let kinds = [
        ("d\n", FileSystemEntryKind::Directory),
        ("f\n", FileSystemEntryKind::File),
        (" l ", FileSystemEntryKind::Symlink),
        ("o", FileSystemEntryKind::Other),
        ("", FileSystemEntryKind::Other),
        ("dd", FileSystemEntryKind::Other),
    ];
    for (stdout, kind) in kinds {
        let found = resolved_from_output("/e".to_string(), output(true, stdout.as_bytes(), b""));
        let found = found.unwrap();
        assert_eq!(found.canonical_path, "/e");
        assert_eq!(found.kind, kind);
        assert_eq!(resolved_from_text("/e".to_string(), true, stdout, "").unwrap().kind, kind);
    }
}

#[test]
fn failed_resolution_command() {
    let result = resolved_from_output("/e".to_string(), output(false, b"d", b"\tdenied "));
    assert_eq!(error_text(result), "stat failed: denied");
    let result = resolved_from_output("/e".to_string(), Err("closed".to_string()));
    assert_eq!(error_text(result), "closed");
}

#[test]
fn catalogue_keys() {
    let keys = [
        (Message::PathPlaceholder, "server-file-browser-path-placeholder"),
        (Message::Empty, "server-file-browser-empty"),
        (Message::NoSession, "server-file-browser-no-session"),
        (Message::UnsupportedPath, "server-file-browser-unsupported-path"),
        (Message::CopiedPath, "server-file-browser-copied-path"),
        (Message::TransferComplete, "server-file-browser-transfer-complete"),
        (Message::Loading, "server-file-browser-loading"),
        (Message::EmptyDirectory, "server-file-browser-empty-directory"),
        (Message::Modified, "server-file-browser-modified"),
        (Message::EmptyResponse, "server-file-browser-empty-response"),
        (Message::MenuDownload, "server-file-browser-menu-download"),
        (Message::MenuUploadFile, "server-file-browser-menu-upload-file"),
        (Message::MenuUploadFolder, "server-file-browser-menu-upload-folder"),
        (Message::MenuCopyPath, "server-file-browser-menu-copy-path"),
        (Message::MenuJumpToPath, "server-file-browser-menu-jump-to-path"),
    ];
    for (message, key) in keys {
        assert_eq!(message.key(), key);
    }
}

use remote_files::daemon::{read_file_chunk_reply, read_limit, write_file_chunk_reply};
use remote_files::entry::{FileSystemEntryKind, ServerFileBrowserEntry};
use remote_files::message::{
    FileOperationError, ReadFileChunk, ReadFileChunkResponse, ServerReply, WriteFileChunk,
    WriteFileChunkResponse,
};
use remote_files::status::{Message, Status};
use remote_files::transfer::{
    chosen_folder, chosen_uploads, plan_upload, plan_walked, DirectoryDownload, Download, LocalKind, Upload, UploadPlan,
    TRANSFER_CHUNK_BYTES,
};

fn write(content: &mut Vec<u8>, request: WriteFileChunk) -> WriteFileChunkResponse {
    if request.truncate {
        content.clear();
    }
    let start = request.offset as usize;
    let end = start + request.bytes.len();
    if !request.bytes.is_empty() && content.len() < end {
        content.resize(end, 0);
    }
    content[start..end].copy_from_slice(&request.bytes);
    let reply = write_file_chunk_reply(
        String::new(),
        &request.path,
        request.offset,
        request.bytes.len(),
        Ok(()),
    );
    match reply.message {
        ServerReply::WriteFileChunkResponse(response) => response,
        reply => panic!("{reply:?}"),
    }
}

fn read(content: &[u8], request: ReadFileChunk, at_most: usize, size: Option<u64>) -> ReadFileChunkResponse {
    let start = (request.offset as usize).min(content.len());
    let end = (start + read_limit(request.max_bytes).min(at_most)).min(content.len());
    let bytes = content[start..end].to_vec();
    let reply =
        read_file_chunk_reply(String::new(), &request.path, request.offset, Ok((bytes, size)));
    match reply.message {
        ServerReply::ReadFileChunkResponse(response) => response,
        reply => panic!("{reply:?}"),
    }
}

fn upload(bytes: &[u8], content: &mut Vec<u8>) -> usize {
    let mut upload = Upload::new("/f".to_string(), bytes.to_vec());
    let mut requests = 0;
    while let Some(request) = upload.request() {
        assert_eq!(request.path, "/f");
        assert_eq!(request.truncate, requests == 0);
        assert_eq!(request.executable, None);
        assert!(request.bytes.len() as u64 <= TRANSFER_CHUNK_BYTES);
        assert!(upload.on_response(Ok(write(content, request))).is_ok());
        requests += 1;
    }
    requests
}

fn download(content: &[u8], at_most: usize, size: Option<u64>) -> Vec<u8> {
    let mut download = Download::new("/f".to_string());
    let mut local = Vec::new();
    while let Some(request) = download.request() {
        assert_eq!(request.max_bytes, TRANSFER_CHUNK_BYTES);
        let bytes = download.on_response(Ok(read(content, request, at_most, size))).unwrap();
        local.extend_from_slice(&bytes);
    }
    local
}

fn sample(len: usize) -> Vec<u8> {
    (0..len).map(|i| (i % 251) as u8).collect()
}

#[test]
fn chunks_are_a_megabyte() {
    assert_eq!(TRANSFER_CHUNK_BYTES, 1024 * 1024);
}

#[test]
fn uploads_store_the_file() {
    let chunk = TRANSFER_CHUNK_BYTES as usize;
    for (len, requests) in [(0, 1), (1, 1), (chunk, 1), (chunk + 1, 2), (3 * chunk + 7, 4)] {
        let bytes = sample(len);
        let mut content = vec![9; 2 * chunk];
        assert_eq!(upload(&bytes, &mut content), requests);
        assert_eq!(content, bytes);
    }
}

#[test]
fn downloads_fetch_the_file() {
    for len in [0usize, 1, 10, 5000] {
        let content = sample(len);
        for at_most in [1, 7, 4096, usize::MAX] {
            assert_eq!(download(&content, at_most, Some(len as u64)), content);
            assert_eq!(download(&content, at_most, None), content);
        }
    }
}

#[test]
fn uploaded_files_come_back() {
    let bytes = sample(2 * TRANSFER_CHUNK_BYTES as usize + 3);
    let mut content = Vec::new();
    upload(&bytes, &mut content);
    assert_eq!(download(&content, usize::MAX, None), bytes);
}

#[test]
fn uploads_follow_the_acknowledged_offset() {
    let mut upload = Upload::new("/f".to_string(), sample(TRANSFER_CHUNK_BYTES as usize + 5));
    let first = upload.request().unwrap();
    assert_eq!(first.offset, 0);
    let mut content = vec![0; 100];
    let mut response = write(&mut content, first);
    response.result.as_mut().unwrap().as_mut().unwrap().next_offset = 77;
    assert!(upload.on_response(Ok(response)).is_ok());
    let second = upload.request().unwrap();
    assert_eq!(second.offset, 77);
    assert_eq!(second.bytes.len(), 5);
    assert!(!second.truncate);
}

#[test]
fn failed_uploads() {
    let failed = || FileOperationError { message: "full".to_string() };
    let mut upload = Upload::new("/f".to_string(), vec![1]);
    assert!(matches!(
        upload.on_response(Err("gone".to_string())),
        Err(Status::Text(text)) if text == "gone"
    ));
    assert!(matches!(
        upload.on_response(Ok(WriteFileChunkResponse { result: Some(Err(failed())) })),
        Err(Status::Text(text)) if text == "full"
    ));
    assert!(matches!(
        upload.on_response(Ok(WriteFileChunkResponse { result: None })),
        Err(Status::Message(Message::EmptyResponse))
    ));
    assert_eq!(upload.request().unwrap().bytes, vec![1]);
}

#[test]
fn empty_uploads_need_no_result() {
    let mut upload = Upload::new("/f".to_string(), Vec::new());
    let request = upload.request().unwrap();
    assert!(request.truncate && request.bytes.is_empty() && request.offset == 0);
    assert!(upload.on_response(Ok(WriteFileChunkResponse { result: None })).is_ok());
    assert!(upload.request().is_none());
    let failed = FileOperationError { message: "full".to_string() };
    let mut upload = Upload::new("/f".to_string(), Vec::new());
    assert!(upload
        .on_response(Ok(WriteFileChunkResponse { result: Some(Err(failed)) }))
        .is_err());
}

#[test]
fn failed_downloads() {
    let failed = FileOperationError { message: "denied".to_string() };
    let mut download = Download::new("/f".to_string());
    assert!(matches!(
        download.on_response(Err("gone".to_string())),
        Err(Status::Text(text)) if text == "gone"
    ));
    assert!(matches!(
        download.on_response(Ok(ReadFileChunkResponse { result: Some(Err(failed)) })),
        Err(Status::Text(text)) if text == "denied"
    ));
    assert!(matches!(
        download.on_response(Ok(ReadFileChunkResponse { result: None })),
        Err(Status::Message(Message::EmptyResponse))
    ));
    assert_eq!(download.request().unwrap().offset, 0);
}

#[test]
fn chosen_paths() {
    let directory = |plan: UploadPlan<String>| match plan {
        UploadPlan::Directory { root } => root,
        plan => panic!("{plan:?}"),
    };
    assert_eq!(
        directory(plan_upload(LocalKind::Directory, Some("photos"), "/srv", true)),
        "/srv/photos"
    );
    assert_eq!(directory(plan_upload(LocalKind::Directory, Some("photos"), "/srv", false)), "/srv");
    assert_eq!(directory(plan_upload(LocalKind::Directory, None, "/srv", true)), "/srv/upload");
    assert!(matches!(
        plan_upload(LocalKind::File, Some("a.txt"), "/", true),
        UploadPlan::File { remote_path } if remote_path == "/a.txt"
    ));
    assert!(matches!(plan_upload(LocalKind::File, None, "/", true), UploadPlan::Skip));
    assert!(matches!(plan_upload(LocalKind::Other, Some("x"), "/", true), UploadPlan::Skip));
}

#[test]
fn walked_paths() {
    assert!(matches!(
        plan_walked("/srv/p", Some("a\\b"), LocalKind::File),
        UploadPlan::File { remote_path } if remote_path == "/srv/p/a/b"
    ));
    assert!(matches!(
        plan_walked("/srv/p", Some("a"), LocalKind::Directory),
        UploadPlan::Directory { root } if root == "/srv/p/a"
    ));
    assert!(matches!(plan_walked("/srv/p", Some(""), LocalKind::Directory), UploadPlan::Skip));
    assert!(matches!(plan_walked("/srv/p", None, LocalKind::File), UploadPlan::Skip));
    assert!(matches!(plan_walked("/srv/p", Some("s"), LocalKind::Other), UploadPlan::Skip));
}

fn row(path: &str, name: &str, kind: FileSystemEntryKind) -> ServerFileBrowserEntry {
    ServerFileBrowserEntry {
        name: name.to_string(),
        path: path.to_string(),
        kind,
        size_bytes: None,
        modified_epoch_millis: None,
        depth: 0,
    }
}

#[test]
fn directories_are_downloaded_depth_first() {
    let mut download = DirectoryDownload::new("/srv/p/".to_string());
    let root = download.next().unwrap();
    assert!(root.is_directory);
    assert_eq!(root.remote_path, "/srv/p/");
    assert_eq!(root.local, vec!["p"]);
    let entries = vec![
        row("/srv/p/d", "d", FileSystemEntryKind::Directory),
        row("/srv/p/f", "f", FileSystemEntryKind::File),
        row("/srv/p/l", "l", FileSystemEntryKind::Symlink),
    ];
    download.on_listing(&root.local, &entries);
    let d = download.next().unwrap();
    assert!(d.is_directory);
    assert_eq!(d.remote_path, "/srv/p/d");
    assert_eq!(d.local, vec!["p", "d"]);
    download.on_listing(&d.local, &vec![row("/srv/p/d/x", "x", FileSystemEntryKind::Other)]);
    let order: Vec<(bool, String, Vec<String>)> = std::iter::from_fn(|| download.next())
        .map(|task| (task.is_directory, task.remote_path, task.local))
        .collect();
    let local = |parts: &[&str]| parts.iter().map(|part| part.to_string()).collect::<Vec<_>>();
    assert_eq!(
        order,
        vec![
            (false, "/srv/p/d/x".to_string(), local(&["p", "d", "x"])),
            (false, "/srv/p/f".to_string(), local(&["p", "f"])),
            (false, "/srv/p/l".to_string(), local(&["p", "l"])),
        ]
    );
}

#[test]
fn chosen_files_are_uploaded() {
    let paths = || vec!["/a".to_string(), "/b".to_string()];
    let choice = chosen_uploads(paths(), "/srv".to_string(), false).unwrap();
    assert_eq!(choice.local_paths, paths());
    assert_eq!(choice.remote_directory, "/srv");
    assert!(!choice.preserve_directory_root);
    let choice = chosen_uploads(paths(), "/srv".to_string(), true).unwrap();
    assert!(choice.preserve_directory_root);
    assert!(chosen_uploads(Vec::new(), "/srv".to_string(), true).is_none());
}

#[test]
fn first_chosen_folder_is_the_destination() {
    let paths = vec!["/a".to_string(), "/b".to_string()];
    assert_eq!(chosen_folder(paths).as_deref(), Some("/a"));
    assert_eq!(chosen_folder(Vec::new()), None);
}

use remote_files::daemon::{
    canonical_text, choose_shell, create_directory_reply, dir_entry, entry_kind, file_mode,
    found_entry, grace_period_expired, handle_initialize, initialize_reply, list_directory_reply,
    read_file_chunk_reply, read_limit, resolve_path_reply, run_command_reply,
    system_time_to_epoch_millis, write_file_chunk_reply, Connection, ConnectionEvent, FileTime,
    FinishedCommand, FoundMetadata, FoundPath, Step,
};
use remote_files::entry::FileSystemEntryKind;
use remote_files::host_path::HostPath;
use remote_files::message::{
    Abort, ClientMessage, ClientRequest, CreateDirectory, ErrorCode, ListDirectory, ReadFileChunk,
    ResolvePath, RunCommandRequest, ServerMessage, ServerReply, SessionBootstrapped,
    WriteFileChunk,
};

fn metadata(is_dir: bool, is_file: bool, len: u64) -> FoundMetadata {
    FoundMetadata { is_dir, is_file, len, modified: None }
}

fn message(request: ClientRequest) -> ConnectionEvent {
    ConnectionEvent::Message(ClientMessage {
        request_id: "r1".to_string(),
        message: Some(request),
    })
}

fn command() -> RunCommandRequest {
    RunCommandRequest {
        command: "ls".to_string(),
        working_directory: Some("~".to_string()),
        environment_variables: vec![("A".to_string(), "1".to_string())],
    }
}

fn shell_of(connection: &mut Connection) -> String {
    match connection.on_event(message(ClientRequest::RunCommand(command())), "1.0") {
        Step::RunCommand { request_id, shell, request } => {
            assert_eq!(request_id, "r1");
            assert_eq!(request.command, "ls");
            assert_eq!(request.environment_variables.len(), 1);
            shell
        }
        step => panic!("{step:?}"),
    }
}

fn check_uuid(host_id: &str) {
    let uuid = host_id.strip_prefix("host-").unwrap();
    let parsed = uuid::Uuid::parse_str(uuid).unwrap();
    assert_eq!(parsed.get_version_num(), 4);
    assert_eq!(parsed.to_string(), uuid);
}

#[test]
fn grace_period() {
    assert!(!grace_period_expired(0));
    assert!(!grace_period_expired(599));
    assert!(grace_period_expired(600));
    assert!(grace_period_expired(u64::MAX));
}

#[test]
fn initialization_names_the_host() {
    let reply = handle_initialize("r1".to_string(), "0.1.0");
    assert_eq!(reply.request_id, "r1");
    match reply.message {
        ServerReply::InitializeResponse(response) => {
            assert_eq!(response.server_version, "0.1.0");
            check_uuid(&response.host_id);
        }
        reply => panic!("{reply:?}"),
    }
    match initialize_reply("r2".to_string(), "1", "abc").message {
        ServerReply::InitializeResponse(response) => assert_eq!(response.host_id, "host-abc"),
        reply => panic!("{reply:?}"),
    }
}

#[test]
fn shells() {
    assert_eq!(choose_shell("bash", Some("/bin/zsh")), "/bin/zsh");
    assert_eq!(choose_shell("bash", None), "bash");
    assert_eq!(choose_shell("", None), "sh");
    assert_eq!(choose_shell("bash", Some("")), "sh");
}

#[test]
fn connection_remembers_the_shell() {
    let mut connection = Connection::new();
    assert_eq!(shell_of(&mut connection), "sh");
    let told = SessionBootstrapped { shell_type: "zsh".to_string(), shell_path: None };
    let step = connection.on_event(message(ClientRequest::SessionBootstrapped(told)), "1.0");
    assert!(matches!(step, Step::Nothing));
    assert_eq!(shell_of(&mut connection), "zsh");
    let told = SessionBootstrapped {
        shell_type: "zsh".to_string(),
        shell_path: Some("/bin/fish".to_string()),
    };
    connection.on_event(message(ClientRequest::SessionBootstrapped(told)), "1.0");
    assert_eq!(shell_of(&mut connection), "/bin/fish");
}

#[test]
fn connection_ends_only_when_nothing_more_can_be_read() {
    let mut connection = Connection::new();
    assert!(matches!(connection.on_event(ConnectionEvent::UnexpectedEof, "1"), Step::Stop));
    assert!(matches!(connection.on_event(ConnectionEvent::ReadFailed, "1"), Step::Stop));
    assert!(matches!(connection.on_event(ConnectionEvent::MalformedMessage, "1"), Step::Nothing));
    let empty = ClientMessage { request_id: "r1".to_string(), message: None };
    assert!(matches!(connection.on_event(ConnectionEvent::Message(empty), "1"), Step::Nothing));
}

#[test]
fn connection_serves_requests() {
    let mut connection = Connection::new();
    assert!(matches!(
        connection.on_event(message(ClientRequest::Authenticate), "1"),
        Step::Nothing
    ));
    assert!(matches!(
        connection.on_event(message(ClientRequest::NavigatedToDirectory), "1"),
        Step::Nothing
    ));
    let abort = Abort { request_id_to_abort: "r0".to_string() };
    assert!(matches!(connection.on_event(message(ClientRequest::Abort(abort)), "1"), Step::Nothing));
    match connection.on_event(message(ClientRequest::Initialize), "2.5") {
        Step::Reply(ServerMessage {
            request_id,
            message: ServerReply::InitializeResponse(response),
        }) => {
            assert_eq!(request_id, "r1");
            assert_eq!(response.server_version, "2.5");
            check_uuid(&response.host_id);
        }
        step => panic!("{step:?}"),
    }
    match connection.on_event(message(ClientRequest::Unsupported), "1") {
        Step::Reply(ServerMessage { request_id, message: ServerReply::Error(error) }) => {
            assert_eq!(request_id, "r1");
            assert_eq!(error.code, ErrorCode::InvalidRequest);
            assert_eq!(error.message, "unsupported message type");
        }
        step => panic!("{step:?}"),
    }
}

#[test]
fn connection_hands_on_work() {
    let mut connection = Connection::new();
    let path = || "/p".to_string();
    let request = ClientRequest::ListDirectory(ListDirectory { path: path() });
    assert!(matches!(
        connection.on_event(message(request), "1"),
        Step::ListDirectory { request_id, request } if request_id == "r1" && request.path == "/p"
    ));
    let request = ClientRequest::ResolvePath(ResolvePath { path: path() });
    assert!(matches!(
        connection.on_event(message(request), "1"),
        Step::ResolvePath { request_id, request } if request_id == "r1" && request.path == "/p"
    ));
    let request = ClientRequest::CreateDirectory(CreateDirectory { path: path() });
    assert!(matches!(
        connection.on_event(message(request), "1"),
        Step::CreateDirectory { request_id, request } if request_id == "r1" && request.path == "/p"
    ));
    let request =
        ClientRequest::ReadFileChunk(ReadFileChunk { path: path(), offset: 3, max_bytes: 4 });
    assert!(matches!(
        connection.on_event(message(request), "1"),
        Step::ReadFileChunk { request, .. } if request.offset == 3 && request.max_bytes == 4
    ));
    let request = ClientRequest::WriteFileChunk(WriteFileChunk {
        path: path(),
        offset: 9,
        bytes: vec![1, 2],
        truncate: true,
        executable: Some(false),
    });
    assert!(matches!(
        connection.on_event(message(request), "1"),
        Step::WriteFileChunk { request, .. }
            if request.offset == 9 && request.bytes == vec![1, 2] && request.truncate
    ));
}

#[test]
fn kinds_of_entries() {
    let dir = metadata(true, false, 0);
    let file = metadata(false, true, 9);
    let device = metadata(false, false, 0);
    assert_eq!(entry_kind(Some(true), Some(dir)), FileSystemEntryKind::Symlink);
    assert_eq!(entry_kind(Some(true), None), FileSystemEntryKind::Symlink);
    assert_eq!(entry_kind(Some(false), Some(dir)), FileSystemEntryKind::Directory);
    assert_eq!(entry_kind(None, Some(file)), FileSystemEntryKind::File);
    assert_eq!(entry_kind(Some(false), Some(device)), FileSystemEntryKind::Other);
    assert_eq!(entry_kind(None, None), FileSystemEntryKind::Other);
}

#[test]
fn times_in_milliseconds() {
    let time = |before_epoch, secs, nanos| FileTime { before_epoch, secs, nanos };
    assert_eq!(system_time_to_epoch_millis(time(false, 0, 0)), Some(0));
    assert_eq!(system_time_to_epoch_millis(time(false, 12, 345_999_999)), Some(12_345));
    assert_eq!(system_time_to_epoch_millis(time(true, 12, 0)), None);
    let far = std::time::Duration::new(u64::MAX, 999_999_999);
    assert_eq!(
        system_time_to_epoch_millis(time(false, u64::MAX, 999_999_999)),
        Some(far.as_millis() as u64)
    );
}

#[test]
fn reported_entries() {
    let time = FileTime { before_epoch: false, secs: 1, nanos: 2_000_000 };
    let file = FoundMetadata { is_dir: false, is_file: true, len: 7, modified: Some(time) };
    let entry = found_entry(b"a\xff", Some(false), Some(file));
    assert_eq!(entry.name, "a\u{fffd}");
    assert!(!entry.is_dir);
    assert_eq!(entry.kind, Some(FileSystemEntryKind::File));
    assert_eq!(entry.size_bytes, Some(7));
    assert_eq!(entry.modified_epoch_millis, Some(1002));
    let entry = dir_entry("d".to_string(), Some(false), Some(metadata(true, false, 4096)));
    assert!(entry.is_dir);
    assert_eq!(entry.size_bytes, None);
    assert_eq!(entry.modified_epoch_millis, None);
    let entry = dir_entry("l".to_string(), Some(true), Some(file));
    assert!(!entry.is_dir);
    assert_eq!(entry.kind, Some(FileSystemEntryKind::Symlink));
    assert_eq!(entry.size_bytes, Some(7));
    let entry = dir_entry("?".to_string(), None, None);
    assert_eq!(entry.kind, Some(FileSystemEntryKind::Other));
}

#[test]
fn canonical_paths() {
    let path = || HostPath::from_text("/a/../b");
    assert_eq!(canonical_text(path(), Some(HostPath::from_text("/b"))), "/b");
    assert_eq!(canonical_text(path(), None), "/a/../b");
}

#[test]
fn listing_replies() {
    let entries = vec![
        dir_entry("b".to_string(), None, None),
        dir_entry("a".to_string(), None, None),
        dir_entry("B".to_string(), None, None),
    ];
    let reply = list_directory_reply("r1".to_string(), "~", Ok((entries, "/home".to_string())));
    assert_eq!(reply.request_id, "r1");
    match reply.message {
        ServerReply::ListDirectoryResponse(response) => {
            let success = response.result.unwrap().unwrap();
            assert_eq!(success.canonical_path, "/home");
            let names: Vec<&str> = success.entries.iter().map(|e| e.name.as_str()).collect();
            assert_eq!(names, vec!["B", "a", "b"]);
        }
        reply => panic!("{reply:?}"),
    }
    let reply = list_directory_reply("r1".to_string(), "~/x", Err("denied".to_string()));
    match reply.message {
        ServerReply::ListDirectoryResponse(response) => {
            let error = response.result.unwrap().unwrap_err();
            assert_eq!(error.message, "Failed to list ~/x: denied");
        }
        reply => panic!("{reply:?}"),
    }
}

#[test]
fn resolution_replies() {
    let found = FoundPath {
        is_symlink: false,
        metadata: metadata(false, true, 5),
        canonical_path: "/f".to_string(),
    };
    match resolve_path_reply("r1".to_string(), "f", Ok(found)).message {
        ServerReply::ResolvePathResponse(response) => {
            let success = response.result.unwrap().unwrap();
            assert_eq!(success.canonical_path, "/f");
            assert_eq!(success.kind, Some(FileSystemEntryKind::File));
            assert_eq!(success.size_bytes, Some(5));
        }
        reply => panic!("{reply:?}"),
    }
    match resolve_path_reply("r1".to_string(), "f", Err("gone".to_string())).message {
        ServerReply::ResolvePathResponse(response) => {
            let error = response.result.unwrap().unwrap_err();
            assert_eq!(error.message, "Failed to resolve f: gone");
        }
        reply => panic!("{reply:?}"),
    }
}

#[test]
fn creation_replies() {
    match create_directory_reply("r1".to_string(), "d", Ok("/d".to_string())).message {
        ServerReply::CreateDirectoryResponse(response) => {
            assert_eq!(response.result.unwrap().unwrap().canonical_path, "/d");
        }
        reply => panic!("{reply:?}"),
    }
    match create_directory_reply("r1".to_string(), "d", Err("full".to_string())).message {
        ServerReply::CreateDirectoryResponse(response) => {
            let error = response.result.unwrap().unwrap_err();
            assert_eq!(error.message, "Failed to create d: full");
        }
        reply => panic!("{reply:?}"),
    }
}

#[test]
fn reads_are_limited() {
    assert_eq!(read_limit(0), 0);
    assert_eq!(read_limit(1_048_576), 1_048_576);
    assert_eq!(read_limit(8_388_608), 8_388_608);
    assert_eq!(read_limit(u64::MAX), 8_388_608);
}

#[test]
fn reading_replies() {
    let cases = [
        (4u64, vec![1u8, 2], Some(10u64), 6u64, false),
        (8, vec![1, 2], Some(10), 10, true),
        (9, vec![1, 2], Some(10), 11, true),
        (4, vec![1, 2], None, 6, false),
        (4, vec![], None, 4, true),
        (4, vec![], Some(10), 4, true),
        (u64::MAX - 1, vec![1], None, u64::MAX, false),
    ];
    for (offset, bytes, total_size, next_offset, eof) in cases {
        let read = Ok((bytes.clone(), total_size));
        match read_file_chunk_reply("r1".to_string(), "f", offset, read).message {
            ServerReply::ReadFileChunkResponse(response) => {
                let success = response.result.unwrap().unwrap();
                assert_eq!(success.bytes, bytes);
                assert_eq!(success.next_offset, next_offset);
                assert_eq!(success.total_size, total_size);
                assert_eq!(success.eof, eof);
            }
            reply => panic!("{reply:?}"),
        }
    }
    match read_file_chunk_reply("r1".to_string(), "f", u64::MAX, Err("no".to_string())).message {
        ServerReply::ReadFileChunkResponse(response) => {
            let error = response.result.unwrap().unwrap_err();
            assert_eq!(error.message, "Failed to read f: no");
        }
        reply => panic!("{reply:?}"),
    }
}

#[test]
fn writing_replies() {
    match write_file_chunk_reply("r1".to_string(), "f", 7, 3, Ok(())).message {
        ServerReply::WriteFileChunkResponse(response) => {
            assert_eq!(response.result.unwrap().unwrap().next_offset, 10);
        }
        reply => panic!("{reply:?}"),
    }
    match write_file_chunk_reply("r1".to_string(), "f", 7, 3, Err("no".to_string())).message {
        ServerReply::WriteFileChunkResponse(response) => {
            let error = response.result.unwrap().unwrap_err();
            assert_eq!(error.message, "Failed to write f: no");
        }
        reply => panic!("{reply:?}"),
    }
    assert_eq!(file_mode(true), 0o755);
    assert_eq!(file_mode(false), 0o644);
}

#[test]
fn command_replies() {
    let finished = |code| FinishedCommand { stdout: vec![1], stderr: vec![2], code };
    for (code, exit_code) in [(Some(0), 0), (Some(3), 3), (None, -1)] {
        match run_command_reply("r1".to_string(), Ok(finished(code))).message {
            ServerReply::RunCommandResponse(response) => {
                let success = response.result.unwrap().unwrap();
                assert_eq!(success.stdout, vec![1]);
                assert_eq!(success.stderr, vec![2]);
                assert_eq!(success.exit_code, Some(exit_code));
            }
            reply => panic!("{reply:?}"),
        }
    }
    match run_command_reply("r1".to_string(), Err("no sh".to_string())).message {
        ServerReply::RunCommandResponse(response) => {
            let error = response.result.unwrap().unwrap_err();
            assert_eq!(error.code, 1);
            assert_eq!(error.message, "Failed to execute: no sh");
        }
        reply => panic!("{reply:?}"),
    }
}

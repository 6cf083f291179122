//! The daemon on the remote host: what it makes of the requests on a connection, and what it
//! answers once the work on the file system is done.

use crate::entry::FileSystemEntryKind;
use crate::host_path::HostPath;
use crate::listing::{reported_entries, reported_entry};
use crate::message::{
    ClientMessage, ClientRequest, CreateDirectory, CreateDirectoryResponse, CreateDirectorySuccess,
    DirEntry, DirEntryView, ErrorCode, ErrorResponse, FileOperationError, InitializeResponse,
    ListDirectory, ListDirectoryResponse, ListDirectorySuccess, ReadFileChunk,
    ReadFileChunkResponse, ReadFileChunkSuccess, ResolvePath, ResolvePathResponse,
    ResolvePathSuccess, RunCommandError, RunCommandRequest, RunCommandResponse, RunCommandSuccess,
    ServerMessage, ServerReply, WriteFileChunk, WriteFileChunkResponse, WriteFileChunkSuccess,
};
use crate::order::{sort, sorted_from, sorting_keeps_items, views, Ranked};
use crate::paths::{is_plain_name, parent_of, parent_undoes_join};
use crate::text::{
    concat, concat4, from_utf8_lossy, lossy_utf8, opt_str, text_before, text_lt,
    text_order_is_total, text_order_is_transitive,
};
use vstd::prelude::*;

verus! {

/// The number of seconds without a connection after which the daemon ends.
pub const GRACE_PERIOD_SECS: u64 = 600;

/// The largest number of bytes that one answer carries.
pub const MAX_CHUNK: u64 = 8_388_608;

/// Whether a daemon that has been idle for this time, given in whole seconds, is to end.
pub fn grace_period_expired(idle_secs: u64) -> (expired: bool)
    ensures
        expired == (idle_secs >= GRACE_PERIOD_SECS),
{
    idle_secs >= GRACE_PERIOD_SECS
}

/// Whether `s` writes a random UUID: hexadecimal digits in lower case and hyphens, with the
/// version and the variant that mark it as random.
pub open spec fn is_random_uuid(s: Seq<char>) -> bool {
    &&& s.len() == 36
    &&& forall|i: int|
        0 <= i < 36 ==> if i == 8 || i == 13 || i == 18 || i == 23 {
            #[trigger] s[i] == '-'
        } else {
            '0' <= s[i] <= '9' || 'a' <= s[i] <= 'f'
        }
    &&& s[14] == '4'
    &&& s[19] == '8' || s[19] == '9' || s[19] == 'a' || s[19] == 'b'
}

/// Calls `uuid::Uuid::new_v4` and writes the result down. Which UUID comes is left to chance;
/// each is of version 4, in the hyphenated form with digits in lower case. The call ends the
/// thread if the system has no random numbers to give.
#[verifier::external_body]
fn new_uuid() -> (uuid: String)
    ensures
        is_random_uuid(uuid@),
{
    uuid::Uuid::new_v4().to_string()
}

/// The answer to a request for the daemon's version and the host's name.
pub fn initialize_reply(request_id: String, server_version: &str, uuid: &str) -> (reply:
    ServerMessage)
    ensures
        reply.request_id == request_id,
        reply.message matches ServerReply::InitializeResponse(response)
            && response.server_version@ == server_version@ && response.host_id@ == "host-"@
            + uuid@,
{
    ServerMessage {
        request_id,
        message: ServerReply::InitializeResponse(
            InitializeResponse {
                server_version: server_version.to_owned(),
                host_id: concat("host-", uuid),
            },
        ),
    }
}

/// The answer to a request for the daemon's version and the host's name, which is made up anew.
pub fn handle_initialize(request_id: String, server_version: &str) -> (reply: ServerMessage)
    ensures
        reply.request_id == request_id,
        initialized(reply.message, server_version@),
{
    let uuid: String = new_uuid();
    let reply: ServerMessage = initialize_reply(request_id, server_version, uuid.as_str());
    assert(random_host("host-"@ + uuid@, uuid@));
    reply
}

/// Whether `host_id` is made from the UUID `uuid`.
pub open spec fn random_host(host_id: Seq<char>, uuid: Seq<char>) -> bool {
    host_id == "host-"@ + uuid && is_random_uuid(uuid)
}

/// Whether `reply` gives this version and a host name made from a random UUID.
pub open spec fn initialized(reply: ServerReply, server_version: Seq<char>) -> bool {
    &&& reply matches ServerReply::InitializeResponse(response)
    &&& response.server_version@ == server_version
    &&& exists|uuid: Seq<char>| #[trigger] random_host(response.host_id@, uuid)
}

/// The shell for commands: its path if that is known, otherwise its type, and `sh` if that is
/// empty.
pub open spec fn shell_for(shell_type: Seq<char>, shell_path: Option<Seq<char>>) -> Seq<char> {
    let shell = match shell_path {
        Some(path) => path,
        None => shell_type,
    };
    if shell.len() == 0 {
        "sh"@
    } else {
        shell
    }
}

/// Picks the shell for commands.
pub fn choose_shell(shell_type: &str, shell_path: Option<&str>) -> (shell: String)
    ensures
        shell@ == shell_for(shell_type@, opt_str(shell_path)),
{
    let shell: &str = match shell_path {
        Some(path) => path,
        None => shell_type,
    };
    if shell.is_empty() {
        "sh".to_owned()
    } else {
        shell.to_owned()
    }
}

/// What happens on a connection.
#[derive(Debug)]
pub enum ConnectionEvent {
    /// A message came.
    Message(ClientMessage),
    /// The client is gone.
    UnexpectedEof,
    /// Something came that is no message, but the next message can be read.
    MalformedMessage,
    /// Nothing more can be read.
    ReadFailed,
}

/// What is to be done about it.
#[derive(Debug)]
pub enum Step {
    Nothing,
    Stop,
    Reply(ServerMessage),
    ListDirectory { request_id: String, request: ListDirectory },
    ResolvePath { request_id: String, request: ResolvePath },
    CreateDirectory { request_id: String, request: CreateDirectory },
    ReadFileChunk { request_id: String, request: ReadFileChunk },
    WriteFileChunk { request_id: String, request: WriteFileChunk },
    RunCommand { request_id: String, shell: String, request: RunCommandRequest },
}

/// One connection to a client.
#[derive(Debug)]
pub struct Connection {
    /// The type and the path of the client's shell, once the client has told them.
    pub shell: Option<(String, Option<String>)>,
}

/// The shell for the commands of a client that told `shell` of its own.
pub open spec fn client_shell(shell: Option<(String, Option<String>)>) -> Seq<char> {
    match shell {
        Some((shell_type, Some(path))) => shell_for(shell_type@, Some(path@)),
        Some((shell_type, None)) => shell_for(shell_type@, None),
        None => shell_for("sh"@, None),
    }
}

/// Whether `step` is what is to be done about the request `request`, named `request_id`, of a
/// client that told `shell` of its own.
pub open spec fn serves(
    step: Step,
    request_id: String,
    request: ClientRequest,
    shell: Option<(String, Option<String>)>,
    server_version: Seq<char>,
) -> bool {
    match request {
        ClientRequest::Authenticate
        | ClientRequest::SessionBootstrapped(_)
        | ClientRequest::NavigatedToDirectory
        | ClientRequest::Abort(_) => step is Nothing,
        ClientRequest::Initialize => {
            &&& step matches Step::Reply(reply)
            &&& reply.request_id == request_id
            &&& initialized(reply.message, server_version)
        },
        ClientRequest::ListDirectory(request) => step == Step::ListDirectory {
            request_id,
            request,
        },
        ClientRequest::ResolvePath(request) => step == Step::ResolvePath { request_id, request },
        ClientRequest::CreateDirectory(request) => step == Step::CreateDirectory {
            request_id,
            request,
        },
        ClientRequest::ReadFileChunk(request) => step == Step::ReadFileChunk {
            request_id,
            request,
        },
        ClientRequest::WriteFileChunk(request) => step == Step::WriteFileChunk {
            request_id,
            request,
        },
        ClientRequest::RunCommand(request) => {
            &&& step matches Step::RunCommand { request_id: id, shell: chosen, request: r }
            &&& id == request_id
            &&& chosen@ == client_shell(shell)
            &&& r == request
        },
        ClientRequest::Unsupported => {
            &&& step matches Step::Reply(reply)
            &&& reply.request_id == request_id
            &&& reply.message matches ServerReply::Error(error)
            &&& error.code is InvalidRequest
            &&& error.message@ == "unsupported message type"@
        },
    }
}

impl Connection {
    /// A connection on which nothing has been said yet.
    pub fn new() -> (connection: Connection)
        ensures
            connection.shell is None,
    {
        Connection { shell: None }
    }

    /// Takes note of `event`, and says what is to be done about it.
    pub fn on_event(&mut self, event: ConnectionEvent, server_version: &str) -> (step: Step)
        ensures
            match event {
                ConnectionEvent::UnexpectedEof | ConnectionEvent::ReadFailed => {
                    step is Stop && *final(self) == *old(self)
                },
                ConnectionEvent::MalformedMessage => {
                    step is Nothing && *final(self) == *old(self)
                },
                ConnectionEvent::Message(ClientMessage { request_id, message: None }) => {
                    step is Nothing && *final(self) == *old(self)
                },
                ConnectionEvent::Message(
                    ClientMessage { request_id, message: Some(request) },
                ) => {
                    &&& serves(step, request_id, request, old(self).shell, server_version@)
                    &&& match request {
                        ClientRequest::SessionBootstrapped(sb) => final(self).shell == Some(
                            (sb.shell_type, sb.shell_path),
                        ),
                        _ => *final(self) == *old(self),
                    }
                },
            },
    {
        let message: ClientMessage = match event {
            ConnectionEvent::UnexpectedEof => {
                return Step::Stop;
            },
            ConnectionEvent::ReadFailed => {
                return Step::Stop;
            },
            ConnectionEvent::MalformedMessage => {
                return Step::Nothing;
            },
            ConnectionEvent::Message(message) => message,
        };
        let request_id: String = message.request_id;
        let request: ClientRequest = match message.message {
            Some(request) => request,
            None => {
                return Step::Nothing;
            },
        };
        match request {
            ClientRequest::Authenticate => Step::Nothing,
            ClientRequest::Initialize => Step::Reply(handle_initialize(request_id, server_version)),
            ClientRequest::SessionBootstrapped(sb) => {
                self.shell = Some((sb.shell_type, sb.shell_path));
                Step::Nothing
            },
            ClientRequest::NavigatedToDirectory => Step::Nothing,
            ClientRequest::ListDirectory(request) => Step::ListDirectory { request_id, request },
            ClientRequest::ResolvePath(request) => Step::ResolvePath { request_id, request },
            ClientRequest::CreateDirectory(request) => Step::CreateDirectory {
                request_id,
                request,
            },
            ClientRequest::ReadFileChunk(request) => Step::ReadFileChunk { request_id, request },
            ClientRequest::WriteFileChunk(request) => Step::WriteFileChunk { request_id, request },
            ClientRequest::RunCommand(request) => {
                let shell: String = self.command_shell();
                Step::RunCommand { request_id, shell, request }
            },
            ClientRequest::Abort(_) => Step::Nothing,
            ClientRequest::Unsupported => Step::Reply(
                ServerMessage {
                    request_id,
                    message: ServerReply::Error(
                        ErrorResponse {
                            code: ErrorCode::InvalidRequest,
                            message: "unsupported message type".to_owned(),
                        },
                    ),
                },
            ),
        }
    }

    /// The shell for the client's commands.
    fn command_shell(&self) -> (shell: String)
        ensures
            shell@ == client_shell(self.shell),
    {
        match &self.shell {
            Some((shell_type, Some(path))) => choose_shell(
                shell_type.as_str(),
                Some(path.as_str()),
            ),
            Some((shell_type, None)) => choose_shell(shell_type.as_str(), None),
            None => choose_shell("sh", None),
        }
    }
}

/// When a file was changed, as a distance from the start of the year 1970.
#[derive(Clone, Copy, Debug)]
pub struct FileTime {
    /// Whether the time lies before that moment.
    pub before_epoch: bool,
    pub secs: u64,
    pub nanos: u32,
}

/// What the file system knows of a file.
#[derive(Clone, Copy, Debug)]
pub struct FoundMetadata {
    pub is_dir: bool,
    pub is_file: bool,
    pub len: u64,
    pub modified: Option<FileTime>,
}

/// The number of milliseconds since the start of 1970, in 64 bits, for a time not before it.
pub open spec fn epoch_millis(time: FileTime) -> Option<u64> {
    if time.before_epoch {
        None
    } else {
        Some(((time.secs * 1000 + time.nanos / 1_000_000) % 0x1_0000_0000_0000_0000) as u64)
    }
}

/// What an entry of a directory is, by its type and by what else is known of it.
pub open spec fn kind_of(
    is_symlink: Option<bool>,
    metadata: Option<FoundMetadata>,
) -> FileSystemEntryKind {
    if is_symlink == Some(true) {
        FileSystemEntryKind::Symlink
    } else {
        match metadata {
            Some(m) if m.is_dir => FileSystemEntryKind::Directory,
            Some(m) if m.is_file => FileSystemEntryKind::File,
            _ => FileSystemEntryKind::Other,
        }
    }
}

/// The size that is reported: that of a file.
pub open spec fn reported_size(metadata: Option<FoundMetadata>) -> Option<u64> {
    match metadata {
        Some(m) if m.is_file => Some(m.len),
        _ => None,
    }
}

/// The time of the last change that is reported.
pub open spec fn reported_time(metadata: Option<FoundMetadata>) -> Option<u64> {
    match metadata {
        Some(FoundMetadata { modified: Some(time), .. }) => epoch_millis(time),
        _ => None,
    }
}

/// What is reported of an entry of a directory.
pub open spec fn reported(
    name: Seq<char>,
    is_symlink: Option<bool>,
    metadata: Option<FoundMetadata>,
) -> DirEntryView {
    DirEntryView {
        name,
        is_dir: kind_of(is_symlink, metadata) is Directory,
        kind: Some(kind_of(is_symlink, metadata)),
        size_bytes: reported_size(metadata),
        modified_epoch_millis: reported_time(metadata),
    }
}

/// The time in milliseconds since the start of 1970.
pub fn system_time_to_epoch_millis(time: FileTime) -> (millis: Option<u64>)
    ensures
        millis == epoch_millis(time),
{
    if time.before_epoch {
        None
    } else {
        let millis: u128 = (time.secs as u128) * 1000 + (time.nanos / 1_000_000) as u128;
        Some((millis % 0x1_0000_0000_0000_0000) as u64)
    }
}

/// What an entry of a directory is. `is_symlink` is `None` if its type is not known.
pub fn entry_kind(is_symlink: Option<bool>, metadata: Option<FoundMetadata>) -> (kind:
    FileSystemEntryKind)
    ensures
        kind == kind_of(is_symlink, metadata),
{
    if let Some(symlink) = is_symlink {
        if symlink {
            return FileSystemEntryKind::Symlink;
        }
    }
    match metadata {
        Some(m) => if m.is_dir {
            FileSystemEntryKind::Directory
        } else if m.is_file {
            FileSystemEntryKind::File
        } else {
            FileSystemEntryKind::Other
        },
        None => FileSystemEntryKind::Other,
    }
}

/// What is reported of the entry `name` of a directory.
pub fn dir_entry(name: String, is_symlink: Option<bool>, metadata: Option<FoundMetadata>) -> (entry:
    DirEntry)
    ensures
        entry@ == reported(name@, is_symlink, metadata),
{
    let kind: FileSystemEntryKind = entry_kind(is_symlink, metadata);
    DirEntry {
        name,
        is_dir: kind == FileSystemEntryKind::Directory,
        kind: Some(kind),
        size_bytes: file_size(metadata),
        modified_epoch_millis: match metadata {
            Some(m) => match m.modified {
                Some(time) => system_time_to_epoch_millis(time),
                None => None,
            },
            None => None,
        },
    }
}

fn file_size(metadata: Option<FoundMetadata>) -> (size: Option<u64>)
    ensures
        size == reported_size(metadata),
{
    match metadata {
        Some(m) => if m.is_file {
            Some(m.len)
        } else {
            None
        },
        None => None,
    }
}

/// What is reported of the entry whose name is given as the file system has it.
pub fn found_entry(name: &[u8], is_symlink: Option<bool>, metadata: Option<FoundMetadata>) -> (entry:
    DirEntry)
    ensures
        entry@ == reported(lossy_utf8(name@), is_symlink, metadata),
{
    dir_entry(from_utf8_lossy(name), is_symlink, metadata)
}

/// The text for a path that was worked on: its canonical form if it has one.
pub fn canonical_text(path: HostPath, canonical: Option<HostPath>) -> (text: String)
    ensures
        text@ == lossy_utf8(
            match canonical {
                Some(canonical) => canonical@,
                None => path@,
            },
        ),
{
    match canonical {
        Some(canonical) => canonical.to_text(),
        None => path.to_text(),
    }
}

impl Ranked for DirEntry {
    open spec fn ranks_before(a: DirEntryView, b: DirEntryView) -> bool {
        text_lt(a.name, b.name)
    }

    fn goes_before(&self, other: &Self) -> (before: bool) {
        text_before(self.name.as_str(), other.name.as_str())
    }

    proof fn rank_is_asymmetric(a: DirEntryView, b: DirEntryView) {
        text_order_is_total(a.name, b.name);
    }

    proof fn rank_is_transitive(a: DirEntryView, b: DirEntryView, c: DirEntryView) {
        text_order_is_total(a.name, b.name);
        text_order_is_total(b.name, c.name);
        if text_lt(c.name, a.name) && text_lt(a.name, b.name) {
            text_order_is_transitive(c.name, a.name, b.name);
        }
    }
}

/// The text for a failure: what was tried, on which path, and why it failed.
pub open spec fn failure_text(tried: Seq<char>, path: Seq<char>, error: Seq<char>) -> Seq<char> {
    tried + path + ": "@ + error
}

fn failure(tried: &str, path: &str, error: &str) -> (failed: FileOperationError)
    ensures
        failed.message@ == failure_text(tried@, path@, error@),
{
    FileOperationError { message: concat4(tried, path, ": ", error) }
}

/// The answer to a request to list the directory `path`, once it has been tried: the entries,
/// sorted by name, and the canonical path.
pub fn list_directory_reply(
    request_id: String,
    path: &str,
    listing: Result<(Vec<DirEntry>, String), String>,
) -> (reply: ServerMessage)
    ensures
        reply.request_id == request_id,
        reply.message matches ServerReply::ListDirectoryResponse(response) && match listing {
            Ok((entries, canonical_path)) => {
                &&& response.result matches Some(Ok(success))
                &&& success.canonical_path == canonical_path
                &&& sorted_from::<DirEntry>(views(entries@), views(success.entries@))
            },
            Err(error) => {
                &&& response.result matches Some(Err(failed))
                &&& failed.message@ == failure_text("Failed to list "@, path@, error@)
            },
        },
{
    let result: Result<ListDirectorySuccess, FileOperationError> = match listing {
        Ok((entries, canonical_path)) => Ok(
            ListDirectorySuccess { entries: sort(entries), canonical_path },
        ),
        Err(error) => Err(failure("Failed to list ", path, error.as_str())),
    };
    ServerMessage {
        request_id,
        message: ServerReply::ListDirectoryResponse(ListDirectoryResponse { result: Some(result) }),
    }
}

/// What a request to resolve a path finds.
#[derive(Debug)]
pub struct FoundPath {
    pub is_symlink: bool,
    pub metadata: FoundMetadata,
    pub canonical_path: String,
}

/// The answer to a request to resolve `path`, once it has been tried.
pub fn resolve_path_reply(request_id: String, path: &str, found: Result<FoundPath, String>) -> (reply:
    ServerMessage)
    ensures
        reply.request_id == request_id,
        reply.message matches ServerReply::ResolvePathResponse(response) && match found {
            Ok(found) => {
                &&& response.result matches Some(Ok(success))
                &&& success == ResolvePathSuccess {
                    canonical_path: found.canonical_path,
                    kind: Some(kind_of(Some(found.is_symlink), Some(found.metadata))),
                    size_bytes: reported_size(Some(found.metadata)),
                }
            },
            Err(error) => {
                &&& response.result matches Some(Err(failed))
                &&& failed.message@ == failure_text("Failed to resolve "@, path@, error@)
            },
        },
{
    let result: Result<ResolvePathSuccess, FileOperationError> = match found {
        Ok(found) => Ok(
            ResolvePathSuccess {
                canonical_path: found.canonical_path,
                kind: Some(entry_kind(Some(found.is_symlink), Some(found.metadata))),
                size_bytes: file_size(Some(found.metadata)),
            },
        ),
        Err(error) => Err(failure("Failed to resolve ", path, error.as_str())),
    };
    ServerMessage {
        request_id,
        message: ServerReply::ResolvePathResponse(ResolvePathResponse { result: Some(result) }),
    }
}

/// The answer to a request to create the directory `path`, once it has been tried.
pub fn create_directory_reply(request_id: String, path: &str, created: Result<String, String>) -> (
reply: ServerMessage)
    ensures
        reply.request_id == request_id,
        reply.message matches ServerReply::CreateDirectoryResponse(response) && match created {
            Ok(canonical_path) => {
                &&& response.result matches Some(Ok(success))
                &&& success.canonical_path == canonical_path
            },
            Err(error) => {
                &&& response.result matches Some(Err(failed))
                &&& failed.message@ == failure_text("Failed to create "@, path@, error@)
            },
        },
{
    let result: Result<CreateDirectorySuccess, FileOperationError> = match created {
        Ok(canonical_path) => Ok(CreateDirectorySuccess { canonical_path }),
        Err(error) => Err(failure("Failed to create ", path, error.as_str())),
    };
    ServerMessage {
        request_id,
        message: ServerReply::CreateDirectoryResponse(
            CreateDirectoryResponse { result: Some(result) },
        ),
    }
}

/// The number of bytes to read for a request for `max_bytes` of them.
pub fn read_limit(max_bytes: u64) -> (limit: usize)
    ensures
        limit == if max_bytes < MAX_CHUNK {
            max_bytes
        } else {
            MAX_CHUNK
        },
{
    if max_bytes < MAX_CHUNK {
        max_bytes as usize
    } else {
        MAX_CHUNK as usize
    }
}

/// Whether a read ended at the end of the file: it got nothing, or it reached the file's size.
pub open spec fn at_eof(next_offset: int, read: nat, total_size: Option<u64>) -> bool {
    read == 0 || (total_size matches Some(size) && next_offset >= size)
}

/// The answer to a request to read the file `path` from `offset`, once it has been tried. What
/// was read is given with the file's size, if that is known.
pub fn read_file_chunk_reply(
    request_id: String,
    path: &str,
    offset: u64,
    read: Result<(Vec<u8>, Option<u64>), String>,
) -> (reply: ServerMessage)
    requires
        read matches Ok((bytes, _)) ==> offset + bytes@.len() <= u64::MAX,
    ensures
        reply.request_id == request_id,
        reply.message matches ServerReply::ReadFileChunkResponse(response) && match read {
            Ok((bytes, total_size)) => {
                &&& response.result matches Some(Ok(success))
                &&& success == ReadFileChunkSuccess {
                    bytes,
                    next_offset: (offset + bytes@.len()) as u64,
                    total_size,
                    eof: at_eof(offset + bytes@.len(), bytes@.len(), total_size),
                }
            },
            Err(error) => {
                &&& response.result matches Some(Err(failed))
                &&& failed.message@ == failure_text("Failed to read "@, path@, error@)
            },
        },
{
    let result: Result<ReadFileChunkSuccess, FileOperationError> = match read {
        Ok((bytes, total_size)) => {
            let next_offset: u64 = offset + bytes.len() as u64;
            let eof: bool = bytes.len() == 0 || match total_size {
                Some(size) => next_offset >= size,
                None => false,
            };
            Ok(ReadFileChunkSuccess { bytes, next_offset, total_size, eof })
        },
        Err(error) => Err(failure("Failed to read ", path, error.as_str())),
    };
    ServerMessage {
        request_id,
        message: ServerReply::ReadFileChunkResponse(ReadFileChunkResponse { result: Some(result) }),
    }
}

/// The permission bits of a file that is written, for one that may be executed and for one that
/// may not.
pub fn file_mode(executable: bool) -> (mode: u32)
    ensures
        mode == if executable {
            0o755u32
        } else {
            0o644u32
        },
{
    if executable {
        0o755
    } else {
        0o644
    }
}

/// The answer to a request to write `len` bytes to the file `path` at `offset`, once it has been
/// tried.
pub fn write_file_chunk_reply(
    request_id: String,
    path: &str,
    offset: u64,
    len: usize,
    written: Result<(), String>,
) -> (reply: ServerMessage)
    requires
        written is Ok ==> offset + len <= u64::MAX,
    ensures
        reply.request_id == request_id,
        reply.message matches ServerReply::WriteFileChunkResponse(response) && match written {
            Ok(()) => {
                &&& response.result matches Some(Ok(success))
                &&& success.next_offset == offset + len
            },
            Err(error) => {
                &&& response.result matches Some(Err(failed))
                &&& failed.message@ == failure_text("Failed to write "@, path@, error@)
            },
        },
{
    let result: Result<WriteFileChunkSuccess, FileOperationError> = match written {
        Ok(()) => Ok(WriteFileChunkSuccess { next_offset: offset + len as u64 }),
        Err(error) => Err(failure("Failed to write ", path, error.as_str())),
    };
    ServerMessage {
        request_id,
        message: ServerReply::WriteFileChunkResponse(
            WriteFileChunkResponse { result: Some(result) },
        ),
    }
}

/// What a command left behind. The code is `None` if a signal ended the command.
#[derive(Debug)]
pub struct FinishedCommand {
    pub stdout: Vec<u8>,
    pub stderr: Vec<u8>,
    pub code: Option<i32>,
}

/// The answer to a request to run a command, once it has been tried.
pub fn run_command_reply(request_id: String, output: Result<FinishedCommand, String>) -> (reply:
    ServerMessage)
    ensures
        reply.request_id == request_id,
        reply.message matches ServerReply::RunCommandResponse(response) && match output {
            Ok(output) => {
                &&& response.result matches Some(Ok(success))
                &&& success == RunCommandSuccess {
                    stdout: output.stdout,
                    stderr: output.stderr,
                    exit_code: Some(
                        match output.code {
                            Some(code) => code,
                            None => -1i32,
                        },
                    ),
                }
            },
            Err(error) => {
                &&& response.result matches Some(Err(failed))
                &&& failed.code == 1
                &&& failed.message@ == "Failed to execute: "@ + error@
            },
        },
{
    let result: Result<RunCommandSuccess, RunCommandError> = match output {
        Ok(output) => Ok(
            RunCommandSuccess {
                stdout: output.stdout,
                stderr: output.stderr,
                exit_code: Some(output.code.unwrap_or(-1)),
            },
        ),
        Err(error) => Err(
            RunCommandError { code: 1, message: concat("Failed to execute: ", error.as_str()) },
        ),
    };
    ServerMessage {
        request_id,
        message: ServerReply::RunCommandResponse(RunCommandResponse { result: Some(result) }),
    }
}

/// What the daemon lists is shown as it is: each entry that was found has a row, each row stands
/// for an entry that was found, and the rows are sorted by name. Where the names are those of
/// files, the rows lie directly in the directory.
pub proof fn listed_entries_are_shown_in_order(
    directory: Seq<char>,
    found: Seq<DirEntryView>,
    sorted: Seq<DirEntryView>,
)
    requires
        sorted_from::<DirEntry>(found, sorted),
    ensures
        ({
            let rows = reported_entries(directory, sorted);
            &&& forall|i: int, j: int|
                0 <= i < j < rows.len() ==> !text_lt(
                    (#[trigger] rows[j]).name,
                    (#[trigger] rows[i]).name,
                )
            &&& forall|entry: DirEntryView| #[trigger]
                found.contains(entry) ==> rows.contains(reported_entry(directory, entry))
            &&& forall|i: int|
                0 <= i < rows.len() ==> found.contains(sorted[i]) && #[trigger] rows[i]
                    == reported_entry(directory, sorted[i])
            &&& forall|i: int|
                0 <= i < rows.len() && is_plain_name((#[trigger] rows[i]).name) && (directory
                    == seq!['/'] || (directory.len() > 0 && directory.last() != '/'))
                    ==> parent_of(rows[i].path) == Some(directory)
        }),
{
    let rows = reported_entries(directory, sorted);
    assert forall|i: int, j: int| 0 <= i < j < rows.len() implies !text_lt(
        (#[trigger] rows[j]).name,
        (#[trigger] rows[i]).name,
    ) by {
        assert(!DirEntry::ranks_before(sorted[j], sorted[i]));
    }
    assert forall|entry: DirEntryView| #[trigger] found.contains(entry) implies rows.contains(
        reported_entry(directory, entry),
    ) by {
        sorting_keeps_items::<DirEntry>(found, sorted, entry);
        let k = sorted.index_of(entry);
        assert(rows[k] == reported_entry(directory, entry));
    }
    assert forall|i: int| 0 <= i < rows.len() implies found.contains(sorted[i])
        && #[trigger] rows[i] == reported_entry(directory, sorted[i]) by {
        assert(sorted.contains(sorted[i]));
        sorting_keeps_items::<DirEntry>(found, sorted, sorted[i]);
    }
    assert forall|i: int|
        0 <= i < rows.len() && is_plain_name((#[trigger] rows[i]).name) && (directory == seq!['/']
            || (directory.len() > 0 && directory.last() != '/')) implies parent_of(rows[i].path)
        == Some(directory) by {
        parent_undoes_join(directory, rows[i].name);
    }
}

/// The answer to a request for the daemon's version gives that version, and a host name made from a
/// random UUID.
pub proof fn initialization_gives_version_and_host(reply: ServerReply, server_version: Seq<char>)
    requires
        initialized(reply, server_version),
    ensures
        reply matches ServerReply::InitializeResponse(response) && response.server_version@
            == server_version && response.host_id@.len() == 41 && response.host_id@.take(5)
            == "host-"@ && is_random_uuid(response.host_id@.skip(5)),
{
    if let ServerReply::InitializeResponse(response) = reply {
        let uuid = choose|uuid: Seq<char>| #[trigger] random_host(response.host_id@, uuid);
        reveal_strlit("host-");
        assert(response.host_id@.take(5) =~= "host-"@);
        assert(response.host_id@.skip(5) =~= uuid);
    }
}

/// Commands run in the shell whose path the client told, or else in the one whose type it told, or
/// in `sh` where that is empty or nothing was told.
pub proof fn commands_run_in_the_told_shell(shell_type: String, path: String)
    ensures
        client_shell(None) == "sh"@,
        path@.len() > 0 ==> client_shell(Some((shell_type, Some(path)))) == path@,
        path@.len() == 0 ==> client_shell(Some((shell_type, Some(path)))) == "sh"@,
        shell_type@.len() > 0 ==> client_shell(Some((shell_type, None))) == shell_type@,
        shell_type@.len() == 0 ==> client_shell(Some((shell_type, None))) == "sh"@,
        path@.len() > 0 ==> shell_for(shell_type@, Some(path@)) == path@,
        path@.len() == 0 ==> shell_for(shell_type@, Some(path@)) == "sh"@,
        shell_type@.len() > 0 ==> shell_for(shell_type@, None) == shell_type@,
        shell_type@.len() == 0 ==> shell_for(shell_type@, None) == "sh"@,
{
    reveal_strlit("sh");
}

/// A request is served as it came: what it asks of the file system or of a shell is handed on whole,
/// under its own name, what the daemon does not know is turned down under that name, and nothing
/// else is answered but a request for the version.
pub proof fn requests_are_handed_on_whole(
    step: Step,
    id: String,
    request: ClientRequest,
    shell: Option<(String, Option<String>)>,
    version: Seq<char>,
)
    requires
        serves(step, id, request, shell, version),
    ensures
        request is Authenticate || request is SessionBootstrapped || request is NavigatedToDirectory
            || request is Abort ==> step is Nothing,
        request is Initialize ==> (step matches Step::Reply(reply) && reply.request_id == id
            && initialized(reply.message, version)),
        request matches ClientRequest::ListDirectory(asked) ==> step == (Step::ListDirectory {
            request_id: id,
            request: asked,
        }),
        request matches ClientRequest::ResolvePath(asked) ==> step == (Step::ResolvePath {
            request_id: id,
            request: asked,
        }),
        request matches ClientRequest::CreateDirectory(asked) ==> step == (Step::CreateDirectory {
            request_id: id,
            request: asked,
        }),
        request matches ClientRequest::ReadFileChunk(asked) ==> step == (Step::ReadFileChunk {
            request_id: id,
            request: asked,
        }),
        request matches ClientRequest::WriteFileChunk(asked) ==> step == (Step::WriteFileChunk {
            request_id: id,
            request: asked,
        }),
        request matches ClientRequest::RunCommand(asked) ==> (step matches Step::RunCommand {
            request_id,
            shell: chosen,
            request,
        } && request_id == id && request == asked && chosen@ == client_shell(shell)),
        request is Unsupported ==> (step matches Step::Reply(reply) && reply.request_id == id
            && (reply.message matches ServerReply::Error(error) && error.code
            == ErrorCode::InvalidRequest && error.message@ == "unsupported message type"@)),
{
}

/// A time is given in milliseconds since the start of 1970, if it is not before that.
pub proof fn times_are_given_in_milliseconds(time: FileTime)
    ensures
        time.before_epoch ==> epoch_millis(time) is None,
        !time.before_epoch && time.secs * 1000 + time.nanos / 1_000_000 <= u64::MAX ==> (
        epoch_millis(time) matches Some(millis) && millis == time.secs * 1000 + time.nanos
            / 1_000_000),
        !time.before_epoch ==> (epoch_millis(time) matches Some(millis) && (time.secs * 1000
            + time.nanos / 1_000_000 - millis) % 0x1_0000_0000_0000_0000 == 0),
{
}

/// What is reported of an entry is what was found: a link counts as a link, and otherwise what is
/// known of it decides. A size is reported of what is a file, and a time where one is known.
pub proof fn reports_say_what_was_found(
    name: Seq<char>,
    is_symlink: Option<bool>,
    metadata: FoundMetadata,
)
    ensures
        ({
            let entry = reported(name, is_symlink, Some(metadata));
            let bare = reported(name, is_symlink, None);
            let is_link = is_symlink == Some(true);
            &&& entry.name == name && bare.name == name
            &&& is_link ==> entry.kind == Some(FileSystemEntryKind::Symlink) && bare.kind == Some(
                FileSystemEntryKind::Symlink,
            )
            &&& !is_link && metadata.is_dir ==> entry.kind == Some(FileSystemEntryKind::Directory)
            &&& !is_link && !metadata.is_dir && metadata.is_file ==> entry.kind == Some(
                FileSystemEntryKind::File,
            )
            &&& !is_link && !metadata.is_dir && !metadata.is_file ==> entry.kind == Some(
                FileSystemEntryKind::Other,
            )
            &&& !is_link ==> bare.kind == Some(FileSystemEntryKind::Other)
            &&& entry.is_dir <==> entry.kind == Some(FileSystemEntryKind::Directory)
            &&& !bare.is_dir
            &&& entry.size_bytes == if metadata.is_file {
                Some(metadata.len)
            } else {
                None
            }
            &&& bare.size_bytes is None && bare.modified_epoch_millis is None
            &&& metadata.modified is None ==> entry.modified_epoch_millis is None
            &&& metadata.modified matches Some(time) ==> entry.modified_epoch_millis
                == epoch_millis(time)
            &&& entry.kind == Some(kind_of(is_symlink, Some(metadata)))
            &&& bare.kind == Some(kind_of(is_symlink, None))
            &&& entry.size_bytes == reported_size(Some(metadata))
        }),
{
}

/// A failure says what was tried, on which path, and why it failed.
pub proof fn failures_say_what_was_tried(tried: Seq<char>, path: Seq<char>, error: Seq<char>)
    ensures
        failure_text(tried, path, error) == tried + path + ": "@ + error,
{
}

/// A read is at the end of the file just if it got nothing, or reached the size that is known.
pub proof fn the_end_is_where_nothing_follows(next_offset: int, read: nat, size: u64)
    ensures
        at_eof(next_offset, read, None) <==> read == 0,
        at_eof(next_offset, read, Some(size)) <==> read == 0 || next_offset >= size,
{
}

/// Entries rank by their names alone.
pub proof fn reports_rank_by_name(a: DirEntryView, b: DirEntryView)
    ensures
        DirEntry::ranks_before(a, b) <==> text_lt(a.name, b.name),
{
}

} // verus!

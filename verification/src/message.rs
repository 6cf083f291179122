//! What the browser and the daemon say to each other.

use crate::entry::FileSystemEntryKind;
use vstd::prelude::*;

verus! {

/// A request, with the name under which it is answered.
#[derive(Debug)]
pub struct ClientMessage {
    pub request_id: String,
    pub message: Option<ClientRequest>,
}

/// What a client can ask of the daemon.
#[derive(Debug)]
pub enum ClientRequest {
    Authenticate,
    Initialize,
    SessionBootstrapped(SessionBootstrapped),
    NavigatedToDirectory,
    ListDirectory(ListDirectory),
    ResolvePath(ResolvePath),
    CreateDirectory(CreateDirectory),
    ReadFileChunk(ReadFileChunk),
    WriteFileChunk(WriteFileChunk),
    RunCommand(RunCommandRequest),
    Abort(Abort),
    /// A request that the daemon does not serve.
    Unsupported,
}

#[derive(Debug)]
pub struct SessionBootstrapped {
    pub shell_type: String,
    pub shell_path: Option<String>,
}

#[derive(Debug)]
pub struct ListDirectory {
    pub path: String,
}

#[derive(Debug)]
pub struct ResolvePath {
    pub path: String,
}

#[derive(Debug)]
pub struct CreateDirectory {
    pub path: String,
}

#[derive(Debug)]
pub struct ReadFileChunk {
    pub path: String,
    pub offset: u64,
    pub max_bytes: u64,
}

#[derive(Debug)]
pub struct WriteFileChunk {
    pub path: String,
    pub offset: u64,
    pub bytes: Vec<u8>,
    pub truncate: bool,
    pub executable: Option<bool>,
}

#[derive(Debug)]
pub struct RunCommandRequest {
    pub command: String,
    pub working_directory: Option<String>,
    pub environment_variables: Vec<(String, String)>,
}

#[derive(Debug)]
pub struct Abort {
    pub request_id_to_abort: String,
}

/// An answer, with the name of the request that it answers.
#[derive(Debug)]
pub struct ServerMessage {
    pub request_id: String,
    pub message: ServerReply,
}

/// What the daemon answers.
#[derive(Debug)]
pub enum ServerReply {
    Error(ErrorResponse),
    InitializeResponse(InitializeResponse),
    ListDirectoryResponse(ListDirectoryResponse),
    ResolvePathResponse(ResolvePathResponse),
    CreateDirectoryResponse(CreateDirectoryResponse),
    ReadFileChunkResponse(ReadFileChunkResponse),
    WriteFileChunkResponse(WriteFileChunkResponse),
    RunCommandResponse(RunCommandResponse),
}

#[derive(Clone, Copy, Debug, PartialEq, Eq, Structural)]
pub enum ErrorCode {
    InvalidRequest,
}

#[derive(Debug)]
pub struct ErrorResponse {
    pub code: ErrorCode,
    pub message: String,
}

#[derive(Debug)]
pub struct InitializeResponse {
    pub server_version: String,
    pub host_id: String,
}

/// Why an operation on files failed.
#[derive(Debug)]
pub struct FileOperationError {
    pub message: String,
}

/// One entry of a directory, as the daemon reports it.
#[derive(Debug)]
pub struct DirEntry {
    pub name: String,
    pub is_dir: bool,
    /// What the entry is; `None` if the number on the wire stands for no kind.
    pub kind: Option<FileSystemEntryKind>,
    pub size_bytes: Option<u64>,
    pub modified_epoch_millis: Option<u64>,
}

/// An entry of a directory with its name taken as a sequence of characters.
pub struct DirEntryView {
    pub name: Seq<char>,
    pub is_dir: bool,
    pub kind: Option<FileSystemEntryKind>,
    pub size_bytes: Option<u64>,
    pub modified_epoch_millis: Option<u64>,
}

impl View for DirEntry {
    type V = DirEntryView;

    open spec fn view(&self) -> DirEntryView {
        DirEntryView {
            name: self.name@,
            is_dir: self.is_dir,
            kind: self.kind,
            size_bytes: self.size_bytes,
            modified_epoch_millis: self.modified_epoch_millis,
        }
    }
}

#[derive(Debug)]
pub struct ListDirectorySuccess {
    pub entries: Vec<DirEntry>,
    pub canonical_path: String,
}

#[derive(Debug)]
pub struct ListDirectoryResponse {
    pub result: Option<Result<ListDirectorySuccess, FileOperationError>>,
}

#[derive(Debug)]
pub struct ResolvePathSuccess {
    pub canonical_path: String,
    /// What the path names; `None` if the number on the wire stands for no kind.
    pub kind: Option<FileSystemEntryKind>,
    pub size_bytes: Option<u64>,
}

#[derive(Debug)]
pub struct ResolvePathResponse {
    pub result: Option<Result<ResolvePathSuccess, FileOperationError>>,
}

#[derive(Debug)]
pub struct CreateDirectorySuccess {
    pub canonical_path: String,
}

#[derive(Debug)]
pub struct CreateDirectoryResponse {
    pub result: Option<Result<CreateDirectorySuccess, FileOperationError>>,
}

#[derive(Debug)]
pub struct ReadFileChunkSuccess {
    pub bytes: Vec<u8>,
    pub next_offset: u64,
    pub total_size: Option<u64>,
    pub eof: bool,
}

#[derive(Debug)]
pub struct ReadFileChunkResponse {
    pub result: Option<Result<ReadFileChunkSuccess, FileOperationError>>,
}

#[derive(Debug)]
pub struct WriteFileChunkSuccess {
    pub next_offset: u64,
}

#[derive(Debug)]
pub struct WriteFileChunkResponse {
    pub result: Option<Result<WriteFileChunkSuccess, FileOperationError>>,
}

#[derive(Debug)]
pub struct RunCommandSuccess {
    pub stdout: Vec<u8>,
    pub stderr: Vec<u8>,
    pub exit_code: Option<i32>,
}

#[derive(Debug)]
pub struct RunCommandError {
    pub code: i32,
    pub message: String,
}

#[derive(Debug)]
pub struct RunCommandResponse {
    pub result: Option<Result<RunCommandSuccess, RunCommandError>>,
}

/// Taking an entry of a directory by its characters keeps it.
pub proof fn reports_are_taken_whole(entry: DirEntry)
    ensures
        entry@.name == entry.name@,
        entry@.is_dir == entry.is_dir,
        entry@.kind == entry.kind,
        entry@.size_bytes == entry.size_bytes,
        entry@.modified_epoch_millis == entry.modified_epoch_millis,
{
}

} // verus!

//! Uploads and downloads, one chunk at a time.

use crate::daemon::at_eof;
use crate::entry::{FileSystemEntryKind, ServerFileBrowserEntry};
use crate::message::{
    ReadFileChunk, ReadFileChunkResponse, WriteFileChunk, WriteFileChunkResponse,
};
use crate::paths::{basename_of, join_remote_path, joined, joined_is_exact, remote_basename};
use crate::status::{fails_with, Message, Status};
use crate::text::{opt_str, texts};
use std::collections::VecDeque;
use vstd::prelude::*;
use vstd::slice::{slice_subrange, slice_to_vec};

verus! {

/// The number of bytes that the browser sends or asks for at once.
pub const TRANSFER_CHUNK_BYTES: u64 = 1_048_576;

/// An upload of one file.
#[derive(Debug)]
pub struct Upload {
    remote_path: String,
    bytes: Vec<u8>,
    sent: usize,
    offset: u64,
    truncate: bool,
    finished: bool,
}

/// Where an upload stands.
pub struct UploadState {
    pub remote_path: Seq<char>,
    /// The file.
    pub bytes: Seq<u8>,
    /// How much of it has been acknowledged.
    pub sent: nat,
    /// Where the next chunk goes in the remote file.
    pub offset: u64,
    /// Whether the next chunk replaces what is in the remote file.
    pub truncate: bool,
    pub finished: bool,
}

impl UploadState {
    /// The start of an upload.
    pub open spec fn start(remote_path: Seq<char>, bytes: Seq<u8>) -> Self {
        UploadState { remote_path, bytes, sent: 0, offset: 0, truncate: true, finished: false }
    }

    /// Whether the upload can stand so.
    pub open spec fn wf(self) -> bool {
        &&& self.sent <= self.bytes.len()
        &&& !self.finished && self.bytes.len() > 0 ==> self.sent < self.bytes.len()
    }

    /// The next chunk.
    pub open spec fn chunk(self) -> Seq<u8> {
        if self.sent + TRANSFER_CHUNK_BYTES < self.bytes.len() {
            self.bytes.subrange(self.sent as int, self.sent + TRANSFER_CHUNK_BYTES)
        } else {
            self.bytes.skip(self.sent as int)
        }
    }

    /// The upload once the remote host has acknowledged the next chunk.
    pub open spec fn acknowledged(self, next_offset: u64) -> Self {
        let sent = self.sent + self.chunk().len();
        UploadState {
            sent,
            offset: next_offset,
            truncate: false,
            finished: sent == self.bytes.len(),
            ..self
        }
    }
}

impl View for Upload {
    type V = UploadState;

    closed spec fn view(&self) -> UploadState {
        UploadState {
            remote_path: self.remote_path@,
            bytes: self.bytes@,
            sent: self.sent as nat,
            offset: self.offset,
            truncate: self.truncate,
            finished: self.finished,
        }
    }
}

impl Upload {
    /// Starts to upload `bytes` as the file `remote_path`.
    pub fn new(remote_path: String, bytes: Vec<u8>) -> (upload: Upload)
        ensures
            upload@ == UploadState::start(remote_path@, bytes@),
            upload@.wf(),
            upload@.remote_path == remote_path@,
            upload@.bytes == bytes@,
    {
        Upload { remote_path, bytes, sent: 0, offset: 0, truncate: true, finished: false }
    }

    /// The next request, or `None` once the upload is finished. An empty file takes one request,
    /// too.
    pub fn request(&self) -> (request: Option<WriteFileChunk>)
        requires
            self@.wf(),
        ensures
            match request {
                None => self@.finished,
                Some(request) => {
                    &&& !self@.finished
                    &&& request.path@ == self@.remote_path
                    &&& request.offset == self@.offset
                    &&& request.bytes@ == self@.chunk()
                    &&& request.truncate == self@.truncate
                    &&& request.executable is None
                },
            },
    {
        if self.finished {
            return None;
        }
        let end: usize = self.chunk_end();
        Some(
            WriteFileChunk {
                path: self.remote_path.clone(),
                offset: self.offset,
                bytes: slice_to_vec(slice_subrange(self.bytes.as_slice(), self.sent, end)),
                truncate: self.truncate,
                executable: None,
            },
        )
    }

    fn chunk_end(&self) -> (end: usize)
        requires
            self@.wf(),
        ensures
            self.sent <= end <= self.bytes@.len(),
            self.bytes@.subrange(self.sent as int, end as int) == self@.chunk(),
    {
        let rest: usize = self.bytes.len() - self.sent;
        if rest > TRANSFER_CHUNK_BYTES as usize {
            self.sent + TRANSFER_CHUNK_BYTES as usize
        } else {
            assert(self.bytes@.subrange(self.sent as int, self.bytes@.len() as int)
                == self.bytes@.skip(self.sent as int));
            self.bytes.len()
        }
    }

    /// Takes note of the answer to the last request. For a file that is not empty, an answer
    /// without a result is an error.
    pub fn on_response(&mut self, response: Result<WriteFileChunkResponse, String>) -> (taken:
        Result<(), Status<String>>)
        requires
            old(self)@.wf(),
            !old(self)@.finished,
        ensures
            final(self)@.wf(),
            final(self)@.remote_path == old(self)@.remote_path,
            final(self)@.bytes == old(self)@.bytes,
            match response {
                Err(error) => {
                    fails_with(taken, Status::Text(error)) && final(self)@ == old(self)@
                },
                Ok(WriteFileChunkResponse { result: Some(Err(error)) }) => {
                    fails_with(taken, Status::Text(error.message)) && final(self)@ == old(self)@
                },
                Ok(WriteFileChunkResponse { result: Some(Ok(success)) }) => {
                    taken is Ok && final(self)@ == old(self)@.acknowledged(success.next_offset)
                },
                Ok(WriteFileChunkResponse { result: None }) => if old(self)@.bytes.len() == 0 {
                    taken is Ok && final(self)@ == old(self)@.acknowledged(old(self)@.offset)
                } else {
                    fails_with(taken, Status::Message(Message::EmptyResponse)) && final(self)@
                        == old(self)@
                },
            },
    {
        let next_offset: u64 = match response {
            Err(error) => {
                return Err(Status::Text(error));
            },
            Ok(response) => match response.result {
                Some(Err(error)) => {
                    return Err(Status::Text(error.message));
                },
                Some(Ok(success)) => success.next_offset,
                None => {
                    if self.bytes.len() > 0 {
                        return Err(Status::Message(Message::EmptyResponse));
                    }
                    self.offset
                },
            },
        };
        let end: usize = self.chunk_end();
        assert(self@.chunk().len() == end - self.sent);
        self.sent = end;
        self.offset = next_offset;
        self.truncate = false;
        self.finished = end == self.bytes.len();
        Ok(())
    }
}

/// What a file holds after `bytes` were written to it at `offset`. A gap is filled with zeros.
pub open spec fn written(
    content: Seq<u8>,
    offset: nat,
    bytes: Seq<u8>,
    truncate: bool,
) -> Seq<u8> {
    let base = if truncate {
        Seq::empty()
    } else {
        content
    };
    if bytes.len() == 0 {
        base
    } else {
        let end = offset + bytes.len();
        Seq::new(
            if end > base.len() {
                end
            } else {
                base.len()
            },
            |i: int|
                if offset <= i < end {
                    bytes[i - offset]
                } else if i < base.len() {
                    base[i]
                } else {
                    0
                },
        )
    }
}

/// What the remote file holds at the end of an upload whose every chunk is written and
/// acknowledged as the daemon does it: with the offset behind the chunk.
pub open spec fn uploaded(upload: UploadState, content: Seq<u8>) -> Seq<u8>
    decreases
        upload.bytes.len() - upload.sent,
        (if upload.finished {
            0int
        } else {
            1int
        }),
    when upload.wf()
{
    if upload.finished {
        content
    } else {
        uploaded(
            upload.acknowledged((upload.offset + upload.chunk().len()) as u64),
            written(content, upload.offset as nat, upload.chunk(), upload.truncate),
        )
    }
}

proof fn upload_continues(upload: UploadState, content: Seq<u8>)
    requires
        upload.wf(),
        upload.bytes.len() <= u64::MAX,
        upload.offset == upload.sent,
        upload.truncate <==> upload.sent == 0 && !upload.finished,
        !upload.truncate ==> content == upload.bytes.take(upload.sent as int),
        upload.finished ==> upload.sent == upload.bytes.len(),
    ensures
        uploaded(upload, content) == upload.bytes,
    decreases
            upload.bytes.len() - upload.sent,
            (if upload.finished {
                0int
            } else {
                1int
            }),
{
    if upload.finished {
        assert(upload.bytes.take(upload.sent as int) =~= upload.bytes);
    } else {
        let next = upload.acknowledged((upload.offset + upload.chunk().len()) as u64);
        let after = written(content, upload.offset as nat, upload.chunk(), upload.truncate);
        assert(after =~= upload.bytes.take(next.sent as int));
        upload_continues(next, after);
    }
}

/// An upload stores the file: at its end the remote file holds just the bytes of the local one,
/// whatever it held before.
pub proof fn upload_stores_the_file(remote_path: Seq<char>, bytes: Seq<u8>, content: Seq<u8>)
    requires
        bytes.len() <= u64::MAX,
    ensures
        uploaded(UploadState::start(remote_path, bytes), content) == bytes,
{
    upload_continues(UploadState::start(remote_path, bytes), content);
}

/// A download of one file.
#[derive(Debug)]
pub struct Download {
    remote_path: String,
    offset: u64,
    finished: bool,
}

/// Where a download stands.
pub struct DownloadState {
    pub remote_path: Seq<char>,
    /// Where the next chunk begins in the remote file.
    pub offset: u64,
    pub finished: bool,
}

impl View for Download {
    type V = DownloadState;

    closed spec fn view(&self) -> DownloadState {
        DownloadState {
            remote_path: self.remote_path@,
            offset: self.offset,
            finished: self.finished,
        }
    }
}

impl Download {
    /// Starts to download the file `remote_path`.
    pub fn new(remote_path: String) -> (download: Download)
        ensures
            download@ == (DownloadState { remote_path: remote_path@, offset: 0, finished: false }),
    {
        Download { remote_path, offset: 0, finished: false }
    }

    /// The next request, or `None` once the download is finished.
    pub fn request(&self) -> (request: Option<ReadFileChunk>)
        ensures
            match request {
                None => self@.finished,
                Some(request) => {
                    &&& !self@.finished
                    &&& request.path@ == self@.remote_path
                    &&& request.offset == self@.offset
                    &&& request.max_bytes == TRANSFER_CHUNK_BYTES
                },
            },
    {
        if self.finished {
            None
        } else {
            Some(
                ReadFileChunk {
                    path: self.remote_path.clone(),
                    offset: self.offset,
                    max_bytes: TRANSFER_CHUNK_BYTES,
                },
            )
        }
    }

    /// Takes note of the answer to the last request, and hands out the bytes that are to be
    /// appended to the local file.
    pub fn on_response(&mut self, response: Result<ReadFileChunkResponse, String>) -> (bytes:
        Result<Vec<u8>, Status<String>>)
        ensures
            match response {
                Err(error) => {
                    fails_with(bytes, Status::Text(error)) && final(self)@ == old(self)@
                },
                Ok(ReadFileChunkResponse { result: Some(Err(error)) }) => {
                    fails_with(bytes, Status::Text(error.message)) && final(self)@ == old(self)@
                },
                Ok(ReadFileChunkResponse { result: None }) => {
                    fails_with(bytes, Status::Message(Message::EmptyResponse)) && final(self)@
                        == old(self)@
                },
                Ok(ReadFileChunkResponse { result: Some(Ok(success)) }) => {
                    &&& bytes matches Ok(chunk)
                    &&& chunk == success.bytes
                    &&& final(self)@ == DownloadState {
                        offset: success.next_offset,
                        finished: success.eof,
                        ..old(self)@
                    }
                },
            },
    {
        match response {
            Err(error) => Err(Status::Text(error)),
            Ok(response) => match response.result {
                Some(Err(error)) => Err(Status::Text(error.message)),
                None => Err(Status::Message(Message::EmptyResponse)),
                Some(Ok(success)) => {
                    self.offset = success.next_offset;
                    self.finished = success.eof;
                    Ok(success.bytes)
                },
            },
        }
    }
}

/// Whether `bytes` can be what a read from `offset` gets of a file that holds `content`: the
/// bytes there, though perhaps fewer than were asked for, and none only behind the last.
pub open spec fn can_read(content: Seq<u8>, offset: nat, bytes: Seq<u8>) -> bool {
    if offset >= content.len() {
        bytes.len() == 0
    } else {
        &&& 0 < bytes.len() <= TRANSFER_CHUNK_BYTES
        &&& offset + bytes.len() <= content.len()
        &&& bytes == content.subrange(
            offset as int,
            offset as int + bytes.len(),
        )
    }
}

/// Whether `reads` can be what the requests of a download from `offset` to the end get of a file
/// that holds `content`. Each read comes with the size of the file, if the daemon knows it.
pub open spec fn can_download(
    content: Seq<u8>,
    offset: nat,
    reads: Seq<(Seq<u8>, Option<u64>)>,
) -> bool
    decreases reads.len(),
{
    &&& reads.len() > 0
    &&& can_read(content, offset, reads[0].0)
    &&& reads[0].1 matches Some(size) ==> size == content.len()
    &&& if at_eof(offset as int + reads[0].0.len(), reads[0].0.len(), reads[0].1) {
        reads.len() == 1
    } else {
        can_download(content, offset + reads[0].0.len(), reads.drop_first())
    }
}

/// What the local file holds after a download that got `reads`.
pub open spec fn downloaded(reads: Seq<(Seq<u8>, Option<u64>)>) -> Seq<u8>
    decreases reads.len(),
{
    if reads.len() == 0 {
        Seq::empty()
    } else {
        reads[0].0 + downloaded(reads.drop_first())
    }
}

proof fn download_continues(content: Seq<u8>, offset: nat, reads: Seq<(Seq<u8>, Option<u64>)>)
    requires
        offset <= content.len(),
        can_download(content, offset, reads),
    ensures
        downloaded(reads) == content.skip(offset as int),
    decreases reads.len(),
{
    let (bytes, size) = reads[0];
    if at_eof(offset as int + bytes.len(), bytes.len(), size) {
        assert(downloaded(reads.drop_first()) =~= Seq::empty());
        assert(downloaded(reads) =~= content.skip(offset as int));
    } else {
        download_continues(content, offset + bytes.len(), reads.drop_first());
        assert(downloaded(reads) =~= content.skip(offset as int));
    }
}

/// A download fetches the file: however many bytes each read gets, the local file holds at the
/// end just the bytes of the remote one.
pub proof fn download_fetches_the_file(content: Seq<u8>, reads: Seq<(Seq<u8>, Option<u64>)>)
    requires
        can_download(content, 0, reads),
    ensures
        downloaded(reads) == content,
{
    download_continues(content, 0, reads);
    assert(content.skip(0) =~= content);
}

/// A file that was uploaded comes back unchanged when it is downloaded.
pub proof fn upload_then_download(
    remote_path: Seq<char>,
    bytes: Seq<u8>,
    before: Seq<u8>,
    reads: Seq<(Seq<u8>, Option<u64>)>,
)
    requires
        bytes.len() <= u64::MAX,
        can_download(uploaded(UploadState::start(remote_path, bytes), before), 0, reads),
    ensures
        downloaded(reads) == bytes,
{
    upload_stores_the_file(remote_path, bytes, before);
    download_fetches_the_file(bytes, reads);
}

/// What the user chose to upload.
#[derive(Debug)]
pub struct UploadChoice {
    pub local_paths: Vec<String>,
    pub remote_directory: String,
    /// Whether a directory is uploaded under its own name, or only what it holds.
    pub preserve_directory_root: bool,
}

/// What is uploaded into `remote_directory` once the user chose `paths`: nothing for an empty
/// choice. A folder keeps its name on the remote host.
pub fn chosen_uploads(paths: Vec<String>, remote_directory: String, folder: bool) -> (choice: Option<
    UploadChoice,
>)
    ensures
        paths@.len() == 0 <==> choice is None,
        choice matches Some(choice) ==> choice == (UploadChoice {
            local_paths: paths,
            remote_directory,
            preserve_directory_root: folder,
        }),
{
    if paths.len() == 0 {
        None
    } else {
        Some(
            UploadChoice { local_paths: paths, remote_directory, preserve_directory_root: folder },
        )
    }
}

/// The folder that a directory is downloaded into once the user chose `paths`: the first of them.
/// Nothing is downloaded for an empty choice.
pub fn chosen_folder(paths: Vec<String>) -> (folder: Option<String>)
    ensures
        paths@.len() == 0 <==> folder is None,
        folder matches Some(folder) ==> folder == paths@[0],
{
    let mut paths: Vec<String> = paths;
    if paths.len() == 0 {
        None
    } else {
        Some(paths.remove(0))
    }
}

/// What a local path names.
#[derive(Clone, Copy, Debug, PartialEq, Eq, Structural)]
pub enum LocalKind {
    Directory,
    File,
    Other,
}

/// What becomes of a local path that the user chose.
#[derive(Debug)]
pub enum UploadPlan<T> {
    /// It is left out.
    Skip,
    /// Create `root` on the remote host, then upload everything below the path into it.
    Directory { root: T },
    /// Upload it as the file `remote_path`.
    File { remote_path: T },
}

impl View for UploadPlan<String> {
    type V = UploadPlan<Seq<char>>;

    open spec fn view(&self) -> UploadPlan<Seq<char>> {
        match self {
            UploadPlan::Skip => UploadPlan::Skip,
            UploadPlan::Directory { root } => UploadPlan::Directory { root: root@ },
            UploadPlan::File { remote_path } => UploadPlan::File { remote_path: remote_path@ },
        }
    }
}

/// What becomes of a local path with this name that the user chose for `remote_directory`.
pub open spec fn upload_plan(
    kind: LocalKind,
    name: Option<Seq<char>>,
    remote_directory: Seq<char>,
    preserve_directory_root: bool,
) -> UploadPlan<Seq<char>> {
    match kind {
        LocalKind::Directory => UploadPlan::Directory {
            root: if preserve_directory_root {
                joined(
                    remote_directory,
                    match name {
                        Some(name) => name,
                        None => "upload"@,
                    },
                )
            } else {
                remote_directory
            },
        },
        LocalKind::File => match name {
            Some(name) => UploadPlan::File { remote_path: joined(remote_directory, name) },
            None => UploadPlan::Skip,
        },
        LocalKind::Other => UploadPlan::Skip,
    }
}

/// Decides what becomes of a local path that the user chose.
pub fn plan_upload(
    kind: LocalKind,
    name: Option<&str>,
    remote_directory: &str,
    preserve_directory_root: bool,
) -> (plan: UploadPlan<String>)
    ensures
        plan@ == upload_plan(
            kind,
            opt_str(name),
            remote_directory@,
            preserve_directory_root,
        ),
{
    match kind {
        LocalKind::Directory => {
            let name: &str = match name {
                Some(name) => name,
                None => "upload",
            };
            let root: String = if preserve_directory_root {
                join_remote_path(remote_directory, name)
            } else {
                remote_directory.to_owned()
            };
            UploadPlan::Directory { root }
        },
        LocalKind::File => match name {
            Some(name) => UploadPlan::File { remote_path: join_remote_path(remote_directory, name) },
            None => UploadPlan::Skip,
        },
        LocalKind::Other => UploadPlan::Skip,
    }
}

/// What becomes of what was found below a local directory, given by its path relative to that
/// directory. The directory itself has an empty path.
pub open spec fn walked_plan(
    root: Seq<char>,
    relative: Option<Seq<char>>,
    kind: LocalKind,
) -> UploadPlan<Seq<char>> {
    match relative {
        Some(relative) if relative.len() > 0 => match kind {
            LocalKind::Directory => UploadPlan::Directory { root: joined(root, relative) },
            LocalKind::File => UploadPlan::File { remote_path: joined(root, relative) },
            LocalKind::Other => UploadPlan::Skip,
        },
        _ => UploadPlan::Skip,
    }
}

/// Decides what becomes of what was found below a local directory that is uploaded into `root`.
/// Of a directory only itself is created.
pub fn plan_walked(root: &str, relative: Option<&str>, kind: LocalKind) -> (plan: UploadPlan<
    String,
>)
    ensures
        plan@ == walked_plan(root@, opt_str(relative), kind),
{
    match relative {
        None => UploadPlan::Skip,
        Some(relative) => {
            if relative.is_empty() {
                return UploadPlan::Skip;
            }
            match kind {
                LocalKind::Directory => UploadPlan::Directory {
                    root: join_remote_path(root, relative),
                },
                LocalKind::File => UploadPlan::File {
                    remote_path: join_remote_path(root, relative),
                },
                LocalKind::Other => UploadPlan::Skip,
            }
        },
    }
}

/// One step of the download of a directory. `local` gives the place below the folder that the
/// user chose.
#[derive(Debug)]
pub struct DownloadTask {
    /// Whether to create a local directory and list the remote one, or to download a file.
    pub is_directory: bool,
    pub remote_path: String,
    pub local: Vec<String>,
}

/// A step of a download with its strings taken as sequences of characters.
pub struct DownloadTaskView {
    pub is_directory: bool,
    pub remote_path: Seq<char>,
    pub local: Seq<Seq<char>>,
}

impl View for DownloadTask {
    type V = DownloadTaskView;

    open spec fn view(&self) -> DownloadTaskView {
        DownloadTaskView {
            is_directory: self.is_directory,
            remote_path: self.remote_path@,
            local: texts(self.local@),
        }
    }
}

/// The step for `entry` of a directory that is downloaded to `local`.
pub open spec fn task_for(
    local: Seq<Seq<char>>,
    entry: ServerFileBrowserEntry,
) -> DownloadTaskView {
    DownloadTaskView {
        is_directory: entry.kind is Directory,
        remote_path: entry.path@,
        local: local.push(entry.name@),
    }
}

/// The steps for the entries of a directory that is downloaded to `local`.
pub open spec fn tasks_for(
    local: Seq<Seq<char>>,
    entries: Seq<ServerFileBrowserEntry>,
) -> Seq<DownloadTaskView> {
    entries.map_values(|entry: ServerFileBrowserEntry| task_for(local, entry))
}

/// A download of a directory with everything below it.
#[derive(Debug)]
pub struct DirectoryDownload {
    pending: VecDeque<DownloadTask>,
}

impl View for DirectoryDownload {
    type V = Seq<DownloadTaskView>;

    closed spec fn view(&self) -> Seq<DownloadTaskView> {
        self.pending@.map_values(|task: DownloadTask| task@)
    }
}

impl DirectoryDownload {
    /// Starts to download the directory `remote_path` into a directory of its name.
    pub fn new(remote_path: String) -> (download: DirectoryDownload)
        ensures
            download@ == seq![
                DownloadTaskView {
                    is_directory: true,
                    remote_path: remote_path@,
                    local: seq![basename_of(remote_path@)],
                },
            ],
    {
        let root_name: String = match remote_basename(remote_path.as_str()) {
            Some(name) => name,
            None => "download".to_owned(),
        };
        let ghost name = root_name@;
        let mut local: Vec<String> = Vec::new();
        local.push(root_name);
        assert(texts(local@) =~= seq![name]);
        let mut pending: VecDeque<DownloadTask> = VecDeque::new();
        pending.push_back(DownloadTask { is_directory: true, remote_path, local });
        let download = DirectoryDownload { pending };
        assert(download@ =~= seq![
            DownloadTaskView {
                is_directory: true,
                remote_path: remote_path@,
                local: seq![name],
            },
        ]);
        download
    }

    /// The next step, or `None` once everything is done.
    pub fn next(&mut self) -> (task: Option<DownloadTask>)
        ensures
            match task {
                Some(task) => old(self)@ == seq![task@] + final(self)@,
                None => old(self)@.len() == 0 && final(self)@ == old(self)@,
            },
    {
        let task: Option<DownloadTask> = self.pending.pop_front();
        proof {
            if let Some(task) = &task {
                assert(old(self)@ =~= seq![task@] + self@);
            }
        }
        task
    }

    /// Takes note of the entries of a directory that is downloaded to `local`: they come next, in
    /// their order, each directory with everything below it.
    pub fn on_listing(&mut self, local: &Vec<String>, entries: &Vec<ServerFileBrowserEntry>)
        ensures
            final(self)@ == tasks_for(texts(local@), entries@) + old(self)@,
            final(self)@.len() == entries@.len() + old(self)@.len(),
            forall|i: int|
                0 <= i < entries@.len() ==> (#[trigger] final(self)@[i]).remote_path
                    == entries@[i].path@ && final(self)@[i].local == texts(local@).push(
                    entries@[i].name@,
                ) && (final(self)@[i].is_directory <==> entries@[i].kind
                    == FileSystemEntryKind::Directory),
            final(self)@.skip(entries@.len() as int) == old(self)@,
    {
        let ghost start = self@;
        let ghost place = texts(local@);
        let mut i: usize = entries.len();
        assert(self@ =~= tasks_for(place, entries@.skip(i as int)) + start);
        while i > 0
            invariant
                i <= entries@.len(),
                place == texts(local@),
                self@ == tasks_for(place, entries@.skip(i as int)) + start,
            decreases i,
        {
            let ghost before = self@;
            i = i - 1;
            let mut path: Vec<String> = local.clone();
            assert(path@ =~= local@);
            path.push(entries[i].name.clone());
            assert(texts(path@) =~= place.push(entries@[i as int].name@));
            let task = DownloadTask {
                is_directory: entries[i].kind == FileSystemEntryKind::Directory,
                remote_path: entries[i].path.clone(),
                local: path,
            };
            let ghost added = task@;
            self.pending.push_front(task);
            assert(self@ =~= seq![added] + before);
            assert(tasks_for(place, entries@.skip(i as int)) =~= seq![added] + tasks_for(
                place,
                entries@.skip(i + 1),
            ));
            assert(self@ =~= tasks_for(place, entries@.skip(i as int)) + start);
        }
        assert(entries@.skip(0) =~= entries@);
        assert(self@.skip(entries@.len() as int) =~= start);
    }
}

/// What the entries of a directory ask for, if `task` is a directory, and nothing otherwise. The
/// remote host lists the directory `path` as `listing(path)`.
pub open spec fn tasks_below(
    task: DownloadTaskView,
    listing: spec_fn(Seq<char>) -> Seq<ServerFileBrowserEntry>,
) -> Seq<DownloadTaskView> {
    if task.is_directory {
        tasks_for(task.local, listing(task.remote_path))
    } else {
        Seq::empty()
    }
}

/// The first `steps` steps of a download with `pending` steps to do, each directory being listed
/// when its turn comes.
pub open spec fn walked(
    pending: Seq<DownloadTaskView>,
    listing: spec_fn(Seq<char>) -> Seq<ServerFileBrowserEntry>,
    steps: nat,
) -> Seq<DownloadTaskView>
    decreases steps,
{
    if pending.len() == 0 || steps == 0 {
        Seq::empty()
    } else {
        seq![pending[0]] + walked(
            tasks_below(pending[0], listing) + pending.drop_first(),
            listing,
            (steps - 1) as nat,
        )
    }
}

/// Whether there are at most `levels` levels of directories below one another.
pub open spec fn has_levels(
    tasks: Seq<DownloadTaskView>,
    listing: spec_fn(Seq<char>) -> Seq<ServerFileBrowserEntry>,
    levels: nat,
) -> bool
    decreases levels,
{
    forall|i: int|
        0 <= i < tasks.len() && (#[trigger] tasks[i]).is_directory ==> levels > 0 && has_levels(
            tasks_below(tasks[i], listing),
            listing,
            (levels - 1) as nat,
        )
}

/// `tasks`, each followed by everything below it, down to `levels` levels.
pub open spec fn with_everything_below(
    tasks: Seq<DownloadTaskView>,
    listing: spec_fn(Seq<char>) -> Seq<ServerFileBrowserEntry>,
    levels: nat,
) -> Seq<DownloadTaskView>
    decreases levels, tasks.len(),
{
    if tasks.len() == 0 {
        Seq::empty()
    } else {
        let below = if tasks[0].is_directory && levels > 0 {
            with_everything_below(tasks_below(tasks[0], listing), listing, (levels - 1) as nat)
        } else {
            Seq::empty()
        };
        seq![tasks[0]] + below + with_everything_below(tasks.drop_first(), listing, levels)
    }
}

proof fn walk_continues(
    tasks: Seq<DownloadTaskView>,
    rest: Seq<DownloadTaskView>,
    listing: spec_fn(Seq<char>) -> Seq<ServerFileBrowserEntry>,
    levels: nat,
    steps: nat,
)
    requires
        has_levels(tasks, listing, levels),
    ensures
        walked(
            tasks + rest,
            listing,
            with_everything_below(tasks, listing, levels).len() + steps,
        ) == with_everything_below(tasks, listing, levels) + walked(rest, listing, steps),
    decreases levels, tasks.len(),
{
    let all = with_everything_below(tasks, listing, levels);
    if tasks.len() == 0 {
        assert(tasks + rest =~= rest);
        assert(all + walked(rest, listing, steps) =~= walked(rest, listing, steps));
    } else {
        let task = tasks[0];
        let others = tasks.drop_first();
        let children = tasks_below(task, listing);
        let behind = with_everything_below(others, listing, levels);
        assert forall|i: int| 0 <= i < others.len() && (#[trigger] others[i]).is_directory implies
            levels > 0 && has_levels(tasks_below(others[i], listing), listing, (levels - 1) as nat)
        by {
            assert(others[i] == tasks[i + 1]);
        }
        walk_continues(others, rest, listing, levels, steps);
        assert((tasks + rest)[0] == task);
        assert((tasks + rest).drop_first() =~= others + rest);
        if task.is_directory {
            let below = with_everything_below(children, listing, (levels - 1) as nat);
            walk_continues(
                children,
                others + rest,
                listing,
                (levels - 1) as nat,
                behind.len() + steps,
            );
            assert((all.len() + steps - 1) as nat == below.len() + (behind.len() + steps));
            assert(all + walked(rest, listing, steps) =~= seq![task] + (below + (behind + walked(
                rest,
                listing,
                steps,
            ))));
        } else {
            assert(children + (others + rest) =~= others + rest);
            assert((all.len() + steps - 1) as nat == behind.len() + steps);
            assert(all + walked(rest, listing, steps) =~= seq![task] + (behind + walked(
                rest,
                listing,
                steps,
            )));
        }
    }
}

/// The download of a directory visits everything below it and nothing else, each directory before
/// what it holds, and all that before what follows the directory.
pub proof fn directory_download_visits_everything(
    pending: Seq<DownloadTaskView>,
    listing: spec_fn(Seq<char>) -> Seq<ServerFileBrowserEntry>,
    levels: nat,
    more: nat,
)
    requires
        has_levels(pending, listing, levels),
    ensures
        walked(
            pending,
            listing,
            with_everything_below(pending, listing, levels).len() + more,
        ) == with_everything_below(pending, listing, levels),
{
    let nothing = Seq::<DownloadTaskView>::empty();
    walk_continues(pending, nothing, listing, levels, more);
    assert(pending + nothing =~= pending);
    let all = with_everything_below(pending, listing, levels);
    assert(all + walked(nothing, listing, more) =~= all);
}

/// Every request of an upload names the path that the upload was started with, and every
/// acknowledged chunk leaves the path and the file as they are.
pub proof fn upload_keeps_its_path(
    remote_path: Seq<char>,
    bytes: Seq<u8>,
    upload: UploadState,
    next_offset: u64,
)
    ensures
        UploadState::start(remote_path, bytes).remote_path == remote_path,
        UploadState::start(remote_path, bytes).bytes == bytes,
        upload.acknowledged(next_offset).remote_path == upload.remote_path,
        upload.acknowledged(next_offset).bytes == upload.bytes,
{
}

/// An upload starts at the start of both files and replaces what the remote one holds.
pub proof fn upload_starts_over(remote_path: Seq<char>, bytes: Seq<u8>)
    ensures
        ({
            let upload = UploadState::start(remote_path, bytes);
            &&& upload.sent == 0
            &&& upload.offset == 0
            &&& upload.truncate
            &&& !upload.finished
        }),
{
}

/// A chunk is what follows in the file on what was sent: a megabyte, or all that is left if that is
/// less. Once it is acknowledged, it counts as sent, the next goes where the remote host says, and
/// the upload is finished just if all has been sent.
pub proof fn chunks_follow_each_other(upload: UploadState, next_offset: u64)
    requires
        upload.wf(),
    ensures
        ({
            let left = upload.bytes.len() - upload.sent;
            let len = upload.chunk().len();
            let after = upload.acknowledged(next_offset);
            &&& len == if left < 1_048_576 {
                left
            } else {
                1_048_576
            }
            &&& upload.chunk() == upload.bytes.subrange(
                upload.sent as int,
                upload.sent as int + len,
            )
            &&& after.sent == upload.sent + len
            &&& after.offset == next_offset
            &&& !after.truncate
            &&& after.finished <==> after.sent == upload.bytes.len()
            &&& after.wf()
        }),
{
    assert(upload.chunk() =~= upload.bytes.subrange(
        upload.sent as int,
        upload.sent as int + upload.chunk().len(),
    ));
}

/// What the files of the remote host hold, by path, at the end of an upload whose every chunk is
/// written to the path that its request names and acknowledged with the offset behind it.
pub open spec fn files_after(files: Map<Seq<char>, Seq<u8>>, upload: UploadState) -> Map<
    Seq<char>,
    Seq<u8>,
>
    decreases
        upload.bytes.len() - upload.sent,
        (if upload.finished {
            0int
        } else {
            1int
        }),
    when upload.wf()
{
    if upload.finished {
        files
    } else {
        let path = upload.remote_path;
        let content = if files.contains_key(path) {
            files[path]
        } else {
            Seq::empty()
        };
        files_after(
            files.insert(
                path,
                written(content, upload.offset as nat, upload.chunk(), upload.truncate),
            ),
            upload.acknowledged((upload.offset + upload.chunk().len()) as u64),
        )
    }
}

proof fn files_continue(files: Map<Seq<char>, Seq<u8>>, upload: UploadState)
    requires
        upload.wf(),
        upload.bytes.len() <= u64::MAX,
        upload.offset == upload.sent,
        upload.truncate <==> upload.sent == 0 && !upload.finished,
        !upload.truncate ==> files.contains_key(upload.remote_path) && files[upload.remote_path]
            == upload.bytes.take(upload.sent as int),
        upload.finished ==> upload.sent == upload.bytes.len(),
    ensures
        files_after(files, upload) == files.insert(upload.remote_path, upload.bytes),
    decreases
            upload.bytes.len() - upload.sent,
            (if upload.finished {
                0int
            } else {
                1int
            }),
{
    let path = upload.remote_path;
    if upload.finished {
        assert(upload.bytes.take(upload.sent as int) =~= upload.bytes);
        assert(files.insert(path, upload.bytes) =~= files);
    } else {
        let content = if files.contains_key(path) {
            files[path]
        } else {
            Seq::empty()
        };
        let next = upload.acknowledged((upload.offset + upload.chunk().len()) as u64);
        let after = written(content, upload.offset as nat, upload.chunk(), upload.truncate);
        assert(after =~= upload.bytes.take(next.sent as int));
        files_continue(files.insert(path, after), next);
        assert(files.insert(path, after).insert(path, upload.bytes) =~= files.insert(
            path,
            upload.bytes,
        ));
    }
}

/// An upload stores the file under the path it was started with, and leaves every other file as it
/// is.
pub proof fn upload_stores_just_the_named_file(
    files: Map<Seq<char>, Seq<u8>>,
    remote_path: Seq<char>,
    bytes: Seq<u8>,
)
    requires
        bytes.len() <= u64::MAX,
    ensures
        ({
            let after = files_after(files, UploadState::start(remote_path, bytes));
            &&& after.contains_key(remote_path)
            &&& after[remote_path] == bytes
            &&& forall|path: Seq<char>|
                path != remote_path ==> (#[trigger] after.contains_key(path)
                    <==> files.contains_key(path)) && (files.contains_key(path) ==> after[path]
                    == files[path])
        }),
{
    files_continue(files, UploadState::start(remote_path, bytes));
}

/// A write changes just the bytes from `offset` on that it brings; what the file held elsewhere
/// stays, unless the file is truncated first, and a gap holds zeros.
pub proof fn writes_change_just_their_range(
    content: Seq<u8>,
    offset: nat,
    bytes: Seq<u8>,
    truncate: bool,
    i: int,
)
    requires
        0 <= i,
        bytes.len() > 0,
    ensures
        ({
            let after = written(content, offset, bytes, truncate);
            &&& after.len() == if truncate || content.len() < offset + bytes.len() {
                offset + bytes.len()
            } else {
                content.len()
            }
            &&& offset <= i < offset + bytes.len() ==> after[i] == bytes[i - offset]
            &&& i < after.len() && !(offset <= i < offset + bytes.len()) ==> after[i] == if truncate
                || i >= content.len() {
                0
            } else {
                content[i]
            }
        }),
        written(content, offset, Seq::empty(), truncate) == if truncate {
            Seq::empty()
        } else {
            content
        },
{
}

/// What a directory holds asks for one step each, in its order: the entry's own path is fetched to
/// the place of the directory with the entry's name behind it, as a directory just if it is one.
pub proof fn one_step_for_each_entry(
    local: Seq<Seq<char>>,
    entries: Seq<ServerFileBrowserEntry>,
)
    ensures
        tasks_for(local, entries).len() == entries.len(),
        forall|i: int|
            0 <= i < entries.len() ==> (#[trigger] tasks_for(local, entries)[i]).remote_path
                == entries[i].path@ && tasks_for(local, entries)[i].local == local.push(
                entries[i].name@,
            ) && (tasks_for(local, entries)[i].is_directory <==> entries[i].kind
                == FileSystemEntryKind::Directory),
{
}

/// A walk that has come to an end has visited everything that was pending.
proof fn ended_walk_visits_pending(
    pending: Seq<DownloadTaskView>,
    listing: spec_fn(Seq<char>) -> Seq<ServerFileBrowserEntry>,
    steps: nat,
    task: DownloadTaskView,
)
    requires
        walked(pending, listing, steps).len() < steps,
        pending.contains(task),
    ensures
        walked(pending, listing, steps).contains(task),
    decreases steps,
{
    let rest = tasks_below(pending[0], listing) + pending.drop_first();
    let inner = walked(rest, listing, (steps - 1) as nat);
    let all = walked(pending, listing, steps);
    assert(all =~= seq![pending[0]] + inner);
    let i = pending.index_of(task);
    if i == 0 {
        assert(all[0] == task);
    } else {
        assert(rest[tasks_below(pending[0], listing).len() + i - 1] == task);
        ended_walk_visits_pending(rest, listing, (steps - 1) as nat, task);
        let j = inner.index_of(task);
        assert(all[j + 1] == task);
    }
}

/// What the remote host lists for a directory that a download visits is itself visited, at the
/// place of the directory with the entry's name behind it: nothing is left out, however deep it
/// lies.
pub proof fn visited_directories_are_visited_whole(
    pending: Seq<DownloadTaskView>,
    listing: spec_fn(Seq<char>) -> Seq<ServerFileBrowserEntry>,
    steps: nat,
    i: int,
    k: int,
)
    requires
        walked(pending, listing, steps).len() < steps,
        0 <= i < walked(pending, listing, steps).len(),
        walked(pending, listing, steps)[i].is_directory,
        0 <= k < listing(walked(pending, listing, steps)[i].remote_path).len(),
    ensures
        ({
            let visited = walked(pending, listing, steps);
            let entry = listing(visited[i].remote_path)[k];
            exists|j: int|
                0 <= j < visited.len() && (#[trigger] visited[j]).remote_path == entry.path@
                    && visited[j].local == visited[i].local.push(entry.name@) && (
                visited[j].is_directory <==> entry.kind == FileSystemEntryKind::Directory)
        }),
    decreases steps,
{
    let children = tasks_below(pending[0], listing);
    let rest = children + pending.drop_first();
    let inner = walked(rest, listing, (steps - 1) as nat);
    let all = walked(pending, listing, steps);
    assert(all =~= seq![pending[0]] + inner);
    let entry = listing(all[i].remote_path)[k];
    let j = if i == 0 {
        let task = children[k];
        one_step_for_each_entry(pending[0].local, listing(pending[0].remote_path));
        assert(rest[k] == task);
        ended_walk_visits_pending(rest, listing, (steps - 1) as nat, task);
        inner.index_of(task)
    } else {
        visited_directories_are_visited_whole(rest, listing, (steps - 1) as nat, i - 1, k);
        choose|j: int|
            0 <= j < inner.len() && (#[trigger] inner[j]).remote_path == entry.path@
                && inner[j].local == inner[i - 1].local.push(entry.name@) && (inner[j].is_directory
                <==> entry.kind == FileSystemEntryKind::Directory)
    };
    assert(all[j + 1] == inner[j]);
}

/// Every step of a download was pending, or stands for an entry of a directory that was visited
/// before it.
pub proof fn nothing_else_is_visited(
    pending: Seq<DownloadTaskView>,
    listing: spec_fn(Seq<char>) -> Seq<ServerFileBrowserEntry>,
    steps: nat,
    j: int,
)
    requires
        0 <= j < walked(pending, listing, steps).len(),
    ensures
        ({
            let visited = walked(pending, listing, steps);
            pending.contains(visited[j]) || exists|i: int, k: int|
                0 <= i < j && visited[i].is_directory && 0 <= k < listing(
                    visited[i].remote_path,
                ).len() && visited[j].remote_path == (#[trigger] listing(
                    (#[trigger] visited[i]).remote_path,
                )[k]).path@ && visited[j].local == visited[i].local.push(
                    listing(visited[i].remote_path)[k].name@,
                )
        }),
    decreases steps,
{
    let children = tasks_below(pending[0], listing);
    let rest = children + pending.drop_first();
    let inner = walked(rest, listing, (steps - 1) as nat);
    let all = walked(pending, listing, steps);
    assert(all =~= seq![pending[0]] + inner);
    if j == 0 {
        assert(pending.contains(pending[0]));
    } else {
        nothing_else_is_visited(rest, listing, (steps - 1) as nat, j - 1);
        assert(all[j] == inner[j - 1]);
        if rest.contains(inner[j - 1]) {
            let n = rest.index_of(inner[j - 1]);
            if n < children.len() {
                one_step_for_each_entry(pending[0].local, listing(pending[0].remote_path));
                let entry = listing(all[0].remote_path)[n];
                assert(all[j].remote_path == entry.path@);
            } else {
                assert(pending[n - children.len() + 1] == all[j]);
            }
        } else {
            let (i, k) = choose|i: int, k: int|
                0 <= i < j - 1 && inner[i].is_directory && 0 <= k < listing(
                    inner[i].remote_path,
                ).len() && inner[j - 1].remote_path == (#[trigger] listing(
                    (#[trigger] inner[i]).remote_path,
                )[k]).path@ && inner[j - 1].local == inner[i].local.push(
                    listing(inner[i].remote_path)[k].name@,
                );
            assert(all[i + 1] == inner[i]);
            assert(all[j].remote_path == listing(all[i + 1].remote_path)[k].path@);
        }
    }
}

/// What is uploaded from below a folder keeps its whole path relative to the folder: it stands
/// behind the folder's remote path, with one slash between them.
pub proof fn walked_paths_are_kept_whole(root: Seq<char>, relative: Seq<char>, kind: LocalKind)
    requires
        relative.len() > 0,
        !relative.contains('\\'),
    ensures
        ({
            let whole = if root.len() > 0 && root.last() == '/' {
                root + relative
            } else {
                root + seq!['/'] + relative
            };
            match kind {
                LocalKind::Directory => walked_plan(root, Some(relative), kind)
                    == UploadPlan::Directory { root: whole },
                LocalKind::File => walked_plan(root, Some(relative), kind) == UploadPlan::File {
                    remote_path: whole,
                },
                LocalKind::Other => walked_plan(root, Some(relative), kind) is Skip,
            }
        }),
{
    joined_is_exact(root, relative);
}

/// Two different files below one folder never get the same remote path.
pub proof fn walked_paths_stay_different(root: Seq<char>, a: Seq<char>, b: Seq<char>)
    requires
        a.len() > 0,
        b.len() > 0,
        a != b,
        !a.contains('\\'),
        !b.contains('\\'),
    ensures
        walked_plan(root, Some(a), LocalKind::File) != walked_plan(root, Some(b), LocalKind::File),
        walked_plan(root, Some(a), LocalKind::Directory) != walked_plan(
            root,
            Some(b),
            LocalKind::Directory,
        ),
{
    walked_paths_are_kept_whole(root, a, LocalKind::File);
    walked_paths_are_kept_whole(root, b, LocalKind::File);
    walked_paths_are_kept_whole(root, a, LocalKind::Directory);
    walked_paths_are_kept_whole(root, b, LocalKind::Directory);
    let front = if root.len() > 0 && root.last() == '/' {
        root
    } else {
        root + seq!['/']
    };
    assert((front + a).skip(front.len() as int) =~= a);
    assert((front + b).skip(front.len() as int) =~= b);
}

/// The folder itself, and what does not lie below it, is left out.
pub proof fn nothing_relative_is_left_out(root: Seq<char>, kind: LocalKind)
    ensures
        walked_plan(root, None, kind) is Skip,
        walked_plan(root, Some(Seq::empty()), kind) is Skip,
{
}

/// A file goes into the remote directory under its name. A folder goes there under its name too,
/// or `upload` if it has none, where it keeps its name, and otherwise into the directory itself.
/// What is neither, and a file without a name, is left out.
pub proof fn chosen_paths_go_into_the_directory(
    directory: Seq<char>,
    name: Seq<char>,
    preserve: bool,
)
    requires
        !name.contains('\\'),
    ensures
        ({
            let front = if directory.len() > 0 && directory.last() == '/' {
                directory
            } else {
                directory + seq!['/']
            };
            &&& upload_plan(LocalKind::File, Some(name), directory, preserve) == UploadPlan::File {
                remote_path: front + name,
            }
            &&& upload_plan(LocalKind::Directory, Some(name), directory, true)
                == UploadPlan::Directory { root: front + name }
            &&& upload_plan(LocalKind::Directory, None, directory, true) == UploadPlan::Directory {
                root: front + "upload"@,
            }
            &&& upload_plan(LocalKind::Directory, Some(name), directory, false)
                == UploadPlan::Directory { root: directory }
            &&& upload_plan(LocalKind::Directory, None, directory, false)
                == UploadPlan::Directory { root: directory }
            &&& upload_plan(LocalKind::File, None, directory, preserve) is Skip
            &&& upload_plan(LocalKind::Other, Some(name), directory, preserve) is Skip
            &&& upload_plan(LocalKind::Other, None, directory, preserve) is Skip
        }),
{
    reveal_strlit("upload");
    assert(!"upload"@.contains('\\'));
    joined_is_exact(directory, name);
    joined_is_exact(directory, "upload"@);
}

/// The plan and the step that are handed out are those that were made.
pub proof fn plans_and_steps_are_handed_out_as_they_are(plan: UploadPlan<String>, task: DownloadTask)
    ensures
        plan is Skip <==> plan@ is Skip,
        plan matches UploadPlan::Directory { root } ==> plan@ == (UploadPlan::Directory {
            root: root@,
        }),
        plan matches UploadPlan::File { remote_path } ==> plan@ == (UploadPlan::File {
            remote_path: remote_path@,
        }),
        task@.is_directory == task.is_directory,
        task@.remote_path == task.remote_path@,
        task@.local.len() == task.local@.len(),
        forall|i: int|
            0 <= i < task.local@.len() ==> #[trigger] task@.local[i] == task.local@[i]@,
{
}

/// Whatever is found below a folder, its path relative to the folder is joined to the folder's
/// remote path whole.
pub proof fn walked_paths_are_joined(root: Seq<char>, relative: Seq<char>)
    requires
        relative.len() > 0,
    ensures
        walked_plan(root, Some(relative), LocalKind::Directory) == (UploadPlan::Directory {
            root: joined(root, relative),
        }),
        walked_plan(root, Some(relative), LocalKind::File) == (UploadPlan::File {
            remote_path: joined(root, relative),
        }),
        walked_plan(root, Some(relative), LocalKind::Other) is Skip,
{
}

/// Whatever its name, a file or a folder that was chosen is joined to the remote directory under it.
pub proof fn chosen_names_are_joined(directory: Seq<char>, name: Seq<char>, preserve: bool)
    ensures
        upload_plan(LocalKind::File, Some(name), directory, preserve) == (UploadPlan::File {
            remote_path: joined(directory, name),
        }),
        upload_plan(LocalKind::Directory, Some(name), directory, true) == (UploadPlan::Directory {
            root: joined(directory, name),
        }),
        upload_plan(LocalKind::Directory, Some(name), directory, false) == (UploadPlan::Directory {
            root: directory,
        }),
        upload_plan(LocalKind::Other, Some(name), directory, preserve) is Skip,
{
}

} // verus!

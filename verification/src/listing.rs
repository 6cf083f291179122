//! How the browser learns what is in a directory and what a path names: from the daemon, or,
//! where no daemon is connected, from the output of a shell command.

use crate::entry::{EntryView, FileSystemEntryKind, ServerFileBrowserEntry};
use crate::message::{
    CreateDirectoryResponse, DirEntry, DirEntryView, ListDirectoryResponse, ResolvePathResponse,
};
use crate::order::{filtered_comes_from, sort, sorted_from, sorting_keeps_items, views, Ranked};
use crate::paths::{
    file_name, file_name_is_the_last_component, file_name_of, is_component, join_extends,
    join_remote_path, joined,
};
use crate::status::{fails_with, Message, Status};
use crate::text::{
    concat, concat3, from_utf8_lossy, lossy_utf8, same_text, split, split_text, text_before,
    text_lt, text_order_is_total, text_order_is_transitive, texts, trim, trimmed,
};
use crate::tree::extends_directory;
use vstd::prelude::*;

verus! {

/// What a path names on the remote host.
#[derive(Debug)]
pub struct ResolvedRemotePath {
    pub canonical_path: String,
    pub kind: FileSystemEntryKind,
}

/// The kind that is meant: an unknown one counts as `Other`.
pub open spec fn known_kind(kind: Option<FileSystemEntryKind>) -> FileSystemEntryKind {
    match kind {
        Some(kind) => kind,
        None => FileSystemEntryKind::Other,
    }
}

/// The row for an entry that the daemon reported for the directory `directory`.
pub open spec fn reported_entry(directory: Seq<char>, entry: DirEntryView) -> EntryView {
    EntryView {
        name: entry.name,
        path: joined(directory, entry.name),
        kind: known_kind(entry.kind),
        size_bytes: entry.size_bytes,
        modified_epoch_millis: entry.modified_epoch_millis,
        depth: 0,
    }
}

/// The rows for the entries that the daemon reported for the directory `directory`.
pub open spec fn reported_entries(
    directory: Seq<char>,
    entries: Seq<DirEntryView>,
) -> Seq<EntryView> {
    entries.map_values(|entry: DirEntryView| reported_entry(directory, entry))
}

/// What the daemon's answer to a request to resolve a path says.
pub fn resolved_from_response(response: Result<ResolvePathResponse, String>) -> (resolved: Result<
    ResolvedRemotePath,
    Status<String>,
>)
    ensures
        match response {
            Err(error) => fails_with(resolved, Status::Text(error)),
            Ok(ResolvePathResponse { result: None }) => fails_with(resolved, Status::Message(Message::EmptyResponse)),
            Ok(ResolvePathResponse { result: Some(Err(error)) }) => fails_with(resolved, Status::Text(error.message)),
            Ok(ResolvePathResponse { result: Some(Ok(success)) }) => {
                &&& resolved matches Ok(found)
                &&& found == ResolvedRemotePath {
                    canonical_path: success.canonical_path,
                    kind: known_kind(success.kind),
                }
                &&& success.kind matches Some(kind) ==> found.kind == kind
                &&& success.kind is None ==> found.kind == FileSystemEntryKind::Other
            },
        },
{
    match response {
        Err(error) => Err(Status::Text(error)),
        Ok(response) => match response.result {
            None => Err(Status::Message(Message::EmptyResponse)),
            Some(Err(error)) => Err(Status::Text(error.message)),
            Some(Ok(success)) => Ok(
                ResolvedRemotePath {
                    canonical_path: success.canonical_path,
                    kind: success.kind.unwrap_or(FileSystemEntryKind::Other),
                },
            ),
        },
    }
}

/// What the daemon's answer to a request to list a directory says: the path of the directory,
/// and its entries in the order of the answer.
pub fn listing_from_response(response: Result<ListDirectoryResponse, String>) -> (listing: Result<
    (String, Vec<ServerFileBrowserEntry>),
    Status<String>,
>)
    ensures
        match response {
            Err(error) => fails_with(listing, Status::Text(error)),
            Ok(ListDirectoryResponse { result: None }) => fails_with(listing, Status::Message(Message::EmptyResponse)),
            Ok(ListDirectoryResponse { result: Some(Err(error)) }) => fails_with(listing, Status::Text(error.message)),
            Ok(ListDirectoryResponse { result: Some(Ok(success)) }) => {
                &&& listing matches Ok((path, entries))
                &&& path == success.canonical_path
                &&& views(entries@) == reported_entries(
                    success.canonical_path@,
                    views(success.entries@),
                )
                &&& entries@.len() == success.entries@.len()
                &&& forall|i: int|
                    #![trigger entries@[i]]
                    0 <= i < entries@.len() ==> {
                        let reported = success.entries@[i];
                        &&& entries@[i].name@ == reported.name@
                        &&& reported.kind matches Some(kind) ==> entries@[i].kind == kind
                        &&& reported.kind is None ==> entries@[i].kind
                            == FileSystemEntryKind::Other
                        &&& entries@[i].size_bytes == reported.size_bytes
                        &&& entries@[i].modified_epoch_millis == reported.modified_epoch_millis
                        &&& entries@[i].depth == 0
                    }
            },
        },
{
    match response {
        Err(error) => Err(Status::Text(error)),
        Ok(response) => match response.result {
            None => Err(Status::Message(Message::EmptyResponse)),
            Some(Err(error)) => Err(Status::Text(error.message)),
            Some(Ok(success)) => {
                let canonical_path: String = success.canonical_path;
                let reported: Vec<DirEntry> = success.entries;
                let ghost all = reported@;
                let mut entries: Vec<ServerFileBrowserEntry> = Vec::with_capacity(reported.len());
                for entry in it: reported
                    invariant
                        it.seq() == all,
                        entries@.len() == it.index(),
                        forall|j: int|
                            0 <= j < it.index() ==> (#[trigger] entries@[j])@ == reported_entry(
                                canonical_path@,
                                all[j]@,
                            ),
                {
                    let ghost reported_view = entry@;
                    let path: String = join_remote_path(
                        canonical_path.as_str(),
                        entry.name.as_str(),
                    );
                    entries.push(
                        ServerFileBrowserEntry {
                            path,
                            name: entry.name,
                            kind: entry.kind.unwrap_or(FileSystemEntryKind::Other),
                            size_bytes: entry.size_bytes,
                            modified_epoch_millis: entry.modified_epoch_millis,
                            depth: 0,
                        },
                    );
                }
                assert(views(entries@) =~= reported_entries(canonical_path@, views(all)));
                Ok((canonical_path, entries))
            },
        },
    }
}

/// What the daemon's answer to a request to create a directory says. An answer without a result
/// counts as success.
pub fn created_from_response(response: Result<CreateDirectoryResponse, String>) -> (created: Result<
    (),
    Status<String>,
>)
    ensures
        match response {
            Err(error) => fails_with(created, Status::Text(error)),
            Ok(CreateDirectoryResponse { result: Some(Err(error)) }) => fails_with(created, Status::Text(error.message)),
            Ok(_) => created is Ok,
        },
{
    match response {
        Err(error) => Err(Status::Text(error)),
        Ok(response) => match response.result {
            Some(Err(error)) => Err(Status::Text(error.message)),
            _ => Ok(()),
        },
    }
}

/// What a shell command left behind.
#[derive(Debug)]
pub struct CommandOutput {
    pub success: bool,
    pub stdout: Vec<u8>,
    pub stderr: Vec<u8>,
}

/// The command that lists a directory, whose path is given as one word of the shell: first the
/// directories, then an empty name, then everything else, each name followed by a zero character.
pub fn list_script(escaped_path: &str) -> (script: String)
    ensures
        script@ == "cd "@ + escaped_path@
            + " && find . -maxdepth 1 -type d -print0 && printf '\\000' && find . -maxdepth 1 -not -type d -print0"@,
{
    concat3(
        "cd ",
        escaped_path,
        " && find . -maxdepth 1 -type d -print0 && printf '\\000' && find . -maxdepth 1 -not -type d -print0",
    )
}

/// The command that tells what a path names, which is given as one word of the shell.
pub fn resolve_script(escaped_path: &str) -> (script: String)
    ensures
        script@ == "if [ -d "@ + escaped_path@ + " ]; then echo d; elif [ -f "@ + escaped_path@
            + " ]; then echo f; elif [ -L "@ + escaped_path@
            + " ]; then echo l; else echo o; fi"@,
{
    let mut script: String = concat3("if [ -d ", escaped_path, " ]; then echo d; elif [ -f ");
    script.append(escaped_path);
    script.append(" ]; then echo f; elif [ -L ");
    script.append(escaped_path);
    script.append(" ]; then echo l; else echo o; fi");
    script
}

/// The place of the first empty part, or the number of parts if none is empty.
pub open spec fn first_empty(parts: Seq<Seq<char>>) -> int
    decreases parts.len(),
{
    if parts.len() == 0 || parts[0].len() == 0 {
        0
    } else {
        1 + first_empty(parts.drop_first())
    }
}

/// The directories among the names that were listed: those before the first empty name, without
/// the listed directory itself.
pub open spec fn listed_directories(parts: Seq<Seq<char>>) -> Seq<Seq<char>> {
    parts.take(first_empty(parts)).filter(|part: Seq<char>| part != seq!['.'])
}

/// The files among the names that were listed: those behind the first empty name.
pub open spec fn listed_files(parts: Seq<Seq<char>>) -> Seq<Seq<char>> {
    if first_empty(parts) < parts.len() {
        parts.skip(first_empty(parts) + 1).filter(|part: Seq<char>| part.len() > 0)
    } else {
        Seq::empty()
    }
}

/// The name under which a listed path is shown: its file name if it has one.
pub open spec fn shown_name(part: Seq<char>) -> Seq<char> {
    match file_name_of(part) {
        Some(name) => name,
        None => part,
    }
}

/// The row for a path that the shell command listed for the directory `directory`.
pub open spec fn listed_entry(
    directory: Seq<char>,
    kind: FileSystemEntryKind,
    part: Seq<char>,
) -> EntryView {
    EntryView {
        name: shown_name(part),
        path: joined(directory, shown_name(part)),
        kind,
        size_bytes: None,
        modified_epoch_millis: None,
        depth: 0,
    }
}

/// The rows for what the shell command listed, in its order.
pub open spec fn listed_entries(directory: Seq<char>, stdout: Seq<char>) -> Seq<EntryView> {
    let parts = split(stdout, '\0');
    listed_directories(parts).map_values(
        |part: Seq<char>| listed_entry(directory, FileSystemEntryKind::Directory, part),
    ) + listed_files(parts).map_values(
        |part: Seq<char>| listed_entry(directory, FileSystemEntryKind::File, part),
    )
}

/// Directories rank before everything else; otherwise the name decides.
pub open spec fn listed_before(a: EntryView, b: EntryView) -> bool {
    if (a.kind is Directory) != (b.kind is Directory) {
        a.kind is Directory
    } else {
        text_lt(a.name, b.name)
    }
}

impl Ranked for ServerFileBrowserEntry {
    open spec fn ranks_before(a: EntryView, b: EntryView) -> bool {
        listed_before(a, b)
    }

    fn goes_before(&self, other: &Self) -> (before: bool) {
        let self_is_dir: bool = self.kind == FileSystemEntryKind::Directory;
        let other_is_dir: bool = other.kind == FileSystemEntryKind::Directory;
        if self_is_dir != other_is_dir {
            self_is_dir
        } else {
            text_before(self.name.as_str(), other.name.as_str())
        }
    }

    proof fn rank_is_asymmetric(a: EntryView, b: EntryView) {
        text_order_is_total(a.name, b.name);
    }

    proof fn rank_is_transitive(a: EntryView, b: EntryView, c: EntryView) {
        text_order_is_total(a.name, b.name);
        text_order_is_total(b.name, c.name);
        if text_lt(c.name, a.name) && text_lt(a.name, b.name) {
            text_order_is_transitive(c.name, a.name, b.name);
        }
    }
}

fn push_listed(
    entries: &mut Vec<ServerFileBrowserEntry>,
    directory: &str,
    kind: FileSystemEntryKind,
    part: &String,
)
    ensures
        views(final(entries)@) == views(old(entries)@).push(
            listed_entry(directory@, kind, part@),
        ),
{
    let name: String = match file_name(part.as_str()) {
        Some(name) => name,
        None => part.clone(),
    };
    let path: String = join_remote_path(directory, name.as_str());
    entries.push(
        ServerFileBrowserEntry {
            path,
            name,
            kind,
            size_bytes: None,
            modified_epoch_millis: None,
            depth: 0,
        },
    );
    assert(views(entries@) =~= views(old(entries)@).push(listed_entry(directory@, kind, part@)));
}

proof fn first_empty_is_reached(parts: Seq<Seq<char>>, n: int)
    requires
        0 <= n <= parts.len(),
        forall|j: int| 0 <= j < n ==> (#[trigger] parts[j]).len() > 0,
        n == parts.len() || parts[n].len() == 0,
    ensures
        first_empty(parts) == n,
    decreases parts.len(),
{
    if n > 0 {
        assert(parts[0].len() > 0);
        let rest = parts.drop_first();
        assert forall|j: int| 0 <= j < n - 1 implies (#[trigger] rest[j]).len() > 0 by {
            assert(rest[j] == parts[j + 1]);
        }
        first_empty_is_reached(rest, n - 1);
    }
}

/// The entries of the directory `directory` in the output of the shell command, in its order.
fn parse_listing(directory: &str, stdout: &str) -> (entries: Vec<ServerFileBrowserEntry>)
    ensures
        views(entries@) == listed_entries(directory@, stdout@),
{
    proof {
        reveal_strlit(".");
        assert("."@ == seq!['.']);
    }
    let parts: Vec<String> = split_text(stdout, '\0');
    let ghost all = texts(parts@);
    let ghost is_other = |part: Seq<char>| part != seq!['.'];
    let ghost is_named = |part: Seq<char>| part.len() > 0;
    let ghost as_directory = |part: Seq<char>|
        listed_entry(directory@, FileSystemEntryKind::Directory, part);
    let ghost as_file = |part: Seq<char>|
        listed_entry(directory@, FileSystemEntryKind::File, part);
    let mut entries: Vec<ServerFileBrowserEntry> = Vec::new();
    let mut i: usize = 0;
    reveal(Seq::filter);
    assert(views(entries@) =~= all.take(0).filter(is_other).map_values(as_directory));
    while i < parts.len() && !parts[i].as_str().is_empty()
        invariant
            i <= parts@.len(),
            all == texts(parts@),
            is_other == (|part: Seq<char>| part != seq!['.']),
            as_directory == (|part: Seq<char>|
                listed_entry(directory@, FileSystemEntryKind::Directory, part)),
            "."@ == seq!['.'],
            forall|j: int| 0 <= j < i ==> (#[trigger] all[j]).len() > 0,
            views(entries@) == all.take(i as int).filter(is_other).map_values(as_directory),
        decreases parts@.len() - i,
    {
        let ghost before = all.take(i as int).filter(is_other);
        let ghost part = all[i as int];
        assert(all.take(i + 1).drop_last() =~= all.take(i as int));
        reveal(Seq::filter);
        if !same_text(parts[i].as_str(), ".") {
            push_listed(&mut entries, directory, FileSystemEntryKind::Directory, &parts[i]);
            assert(all.take(i + 1).filter(is_other) == before.push(part));
            assert(before.push(part).map_values(as_directory) =~= before.map_values(
                as_directory,
            ).push(as_directory(part)));
        }
        i = i + 1;
    }
    proof {
        first_empty_is_reached(all, i as int);
    }
    let ghost directories = listed_directories(all).map_values(as_directory);
    assert(views(entries@) == directories);
    if i < parts.len() {
        let start: usize = i + 1;
        let ghost tail = all.skip(start as int);
        i = start;
        assert(tail.take(0).filter(is_named).map_values(as_file) =~= Seq::empty());
        assert(views(entries@) =~= directories + tail.take(0).filter(is_named).map_values(as_file));
        while i < parts.len()
            invariant
                start <= i <= parts@.len(),
                all == texts(parts@),
                tail == all.skip(start as int),
                is_named == (|part: Seq<char>| part.len() > 0),
                as_file == (|part: Seq<char>|
                    listed_entry(directory@, FileSystemEntryKind::File, part)),
                views(entries@) == directories + tail.take(i - start).filter(is_named).map_values(
                    as_file,
                ),
            decreases parts@.len() - i,
        {
            let ghost before = tail.take(i - start).filter(is_named);
            let ghost part = tail[i - start];
            assert(tail.take(i - start + 1).drop_last() =~= tail.take(i - start));
            reveal(Seq::filter);
            if !parts[i].as_str().is_empty() {
                push_listed(&mut entries, directory, FileSystemEntryKind::File, &parts[i]);
                assert(before.push(part).map_values(as_file) =~= before.map_values(as_file).push(
                    as_file(part),
                ));
                assert(views(entries@) =~= directories + before.push(part).map_values(as_file));
            }
            i = i + 1;
        }
        assert(tail.take(tail.len() as int) =~= tail);
    } else {
        assert(views(entries@) =~= directories + Seq::<Seq<char>>::empty().map_values(as_file));
    }
    entries
}

/// What the command of `list_script` says, once its output is text: the directory's path as it
/// was asked for, and its entries, directories first, sorted by name.
pub fn listing_from_text(path: String, success: bool, stdout: &str, stderr: &str) -> (listing: Result<
    (String, Vec<ServerFileBrowserEntry>),
    Status<String>,
>)
    ensures
        if success {
            &&& listing matches Ok((directory, entries))
            &&& directory == path
            &&& sorted_from::<ServerFileBrowserEntry>(
                listed_entries(path@, stdout@),
                views(entries@),
            )
        } else {
            &&& listing matches Err(Status::Text(error))
            &&& error@ == "ls failed: "@ + trimmed(stderr@)
        },
{
    if !success {
        return Err(Status::Text(concat("ls failed: ", trim(stderr).as_str())));
    }
    let entries: Vec<ServerFileBrowserEntry> = parse_listing(path.as_str(), stdout);
    Ok((path, sort(entries)))
}

/// What the output of the command of `list_script` says.
pub fn listing_from_output(path: String, output: Result<CommandOutput, String>) -> (listing: Result<
    (String, Vec<ServerFileBrowserEntry>),
    Status<String>,
>)
    ensures
        match output {
            Err(error) => fails_with(listing, Status::Text(error)),
            Ok(output) => if output.success {
                &&& listing matches Ok((directory, entries))
                &&& directory == path
                &&& sorted_from::<ServerFileBrowserEntry>(
                    listed_entries(path@, lossy_utf8(output.stdout@)),
                    views(entries@),
                )
            } else {
                &&& listing matches Err(Status::Text(error))
                &&& error@ == "ls failed: "@ + trimmed(lossy_utf8(output.stderr@))
            },
        },
{
    match output {
        Err(error) => Err(Status::Text(error)),
        Ok(output) => {
            let stdout: String = from_utf8_lossy(output.stdout.as_slice());
            let stderr: String = from_utf8_lossy(output.stderr.as_slice());
            listing_from_text(path, output.success, stdout.as_str(), stderr.as_str())
        },
    }
}

/// What the word that the command of `resolve_script` prints stands for.
pub open spec fn printed_kind(word: Seq<char>) -> FileSystemEntryKind {
    if word == "d"@ {
        FileSystemEntryKind::Directory
    } else if word == "f"@ {
        FileSystemEntryKind::File
    } else if word == "l"@ {
        FileSystemEntryKind::Symlink
    } else {
        FileSystemEntryKind::Other
    }
}

/// What the command of `resolve_script` says, once its output is text.
pub fn resolved_from_text(path: String, success: bool, stdout: &str, stderr: &str) -> (resolved:
    Result<ResolvedRemotePath, Status<String>>)
    ensures
        if success {
            &&& resolved matches Ok(found)
            &&& found == ResolvedRemotePath {
                canonical_path: path,
                kind: printed_kind(trimmed(stdout@)),
            }
        } else {
            &&& resolved matches Err(Status::Text(error))
            &&& error@ == "stat failed: "@ + trimmed(stderr@)
        },
{
    if !success {
        return Err(Status::Text(concat("stat failed: ", trim(stderr).as_str())));
    }
    let word: String = trim(stdout);
    let kind: FileSystemEntryKind = if same_text(word.as_str(), "d") {
        FileSystemEntryKind::Directory
    } else if same_text(word.as_str(), "f") {
        FileSystemEntryKind::File
    } else if same_text(word.as_str(), "l") {
        FileSystemEntryKind::Symlink
    } else {
        FileSystemEntryKind::Other
    };
    Ok(ResolvedRemotePath { canonical_path: path, kind })
}

/// What the output of the command of `resolve_script` says.
pub fn resolved_from_output(
    path: String,
    output: Result<CommandOutput, String>,
) -> (resolved: Result<ResolvedRemotePath, Status<String>>)
    ensures
        match output {
            Err(error) => fails_with(resolved, Status::Text(error)),
            Ok(output) => if output.success {
                &&& resolved matches Ok(found)
                &&& found == ResolvedRemotePath {
                    canonical_path: path,
                    kind: printed_kind(trimmed(lossy_utf8(output.stdout@))),
                }
            } else {
                &&& resolved matches Err(Status::Text(error))
                &&& error@ == "stat failed: "@ + trimmed(lossy_utf8(output.stderr@))
            },
        },
{
    match output {
        Err(error) => Err(Status::Text(error)),
        Ok(output) => {
            let stdout: String = from_utf8_lossy(output.stdout.as_slice());
            let stderr: String = from_utf8_lossy(output.stderr.as_slice());
            resolved_from_text(path, output.success, stdout.as_str(), stderr.as_str())
        },
    }
}

/// Rows made from names that are not empty lie below their directory.
pub proof fn reported_entries_extend_directory(
    directory: Seq<char>,
    reported: Seq<DirEntryView>,
    entries: Seq<ServerFileBrowserEntry>,
)
    requires
        views(entries) == reported_entries(directory, reported),
        forall|i: int| 0 <= i < reported.len() ==> (#[trigger] reported[i]).name.len() > 0,
    ensures
        extends_directory(directory, entries),
{
    assert(views(entries).len() == entries.len());
    assert(reported_entries(directory, reported).len() == reported.len());
    assert forall|i: int| 0 <= i < entries.len() implies (#[trigger] entries[i]).path@.len()
        > directory.len() by {
        assert(views(entries)[i] == entries[i]@);
        assert(reported[i].name.len() > 0);
        join_extends(directory, reported[i].name);
    }
}

proof fn last_component_is_named(parts: Seq<Seq<char>>)
    requires
        parts.filter(|part: Seq<char>| is_component(part)).len() > 0,
    ensures
        parts.filter(|part: Seq<char>| is_component(part)).last().len() > 0,
    decreases parts.len(),
{
    reveal(Seq::filter);
    if parts.len() > 0 && !is_component(parts.last()) {
        last_component_is_named(parts.drop_last());
    }
}

/// What is listed is never shown without a name.
pub proof fn shown_names_are_not_empty(part: Seq<char>)
    requires
        part.len() > 0,
    ensures
        shown_name(part).len() > 0,
{
    if file_name_of(part) is Some {
        last_component_is_named(split(part, '/'));
    }
}

proof fn first_empty_bounds(parts: Seq<Seq<char>>)
    ensures
        0 <= first_empty(parts) <= parts.len(),
        forall|i: int| 0 <= i < first_empty(parts) ==> (#[trigger] parts[i]).len() > 0,
    decreases parts.len(),
{
    if parts.len() > 0 && parts[0].len() > 0 {
        let rest = parts.drop_first();
        first_empty_bounds(rest);
        assert forall|i: int| 0 <= i < first_empty(parts) implies (#[trigger] parts[i]).len()
            > 0 by {
            if i > 0 {
                assert(rest[i - 1] == parts[i]);
            }
        }
    }
}

/// Rows made from the output of the shell command lie below their directory.
pub proof fn listed_entries_extend_directory(
    directory: Seq<char>,
    stdout: Seq<char>,
    entries: Seq<ServerFileBrowserEntry>,
)
    requires
        sorted_from::<ServerFileBrowserEntry>(listed_entries(directory, stdout), views(entries)),
    ensures
        extends_directory(directory, entries),
{
    let parts = split(stdout, '\0');
    let dirs = listed_directories(parts);
    let files = listed_files(parts);
    let all = listed_entries(directory, stdout);
    first_empty_bounds(parts);
    assert forall|i: int| 0 <= i < entries.len() implies (#[trigger] entries[i]).path@.len()
        > directory.len() by {
        let row = entries[i]@;
        assert(views(entries)[i] == row);
        assert(views(entries).contains(row));
        sorting_keeps_items::<ServerFileBrowserEntry>(all, views(entries), row);
        let k = all.index_of(row);
        assert(all[k] == row);
        if k < dirs.len() {
            let front = parts.take(first_empty(parts));
            assert(dirs.contains(dirs[k]));
            filtered_comes_from(front, |part: Seq<char>| part != seq!['.'], dirs[k]);
            let j = front.index_of(dirs[k]);
            assert(parts[j].len() > 0);
            shown_names_are_not_empty(dirs[k]);
            join_extends(directory, shown_name(dirs[k]));
        } else {
            let part = files[k - dirs.len()];
            let named = |part: Seq<char>| part.len() > 0;
            let tail = parts.skip(first_empty(parts) + 1);
            tail.lemma_filter_pred(named, k - dirs.len());
            shown_names_are_not_empty(part);
            join_extends(directory, shown_name(part));
        }
    }
}

/// The names, each followed by a zero character.
pub open spec fn terminated(names: Seq<Seq<char>>) -> Seq<char>
    decreases names.len(),
{
    if names.len() == 0 {
        Seq::empty()
    } else {
        terminated(names.drop_last()) + names.last().push('\0')
    }
}

proof fn split_after(front: Seq<char>, name: Seq<char>)
    requires
        split(front, '\0').len() > 0,
        split(front, '\0').last() == Seq::<char>::empty(),
        !name.contains('\0'),
    ensures
        split(front + name, '\0') == split(front, '\0').drop_last().push(name),
    decreases name.len(),
{
    let parts = split(front, '\0');
    if name.len() == 0 {
        assert(front + name =~= front);
        assert(name =~= Seq::<char>::empty());
        assert(parts =~= parts.drop_last().push(name));
    } else {
        let rest = name.drop_last();
        assert(name.contains(name.last()));
        assert(!rest.contains('\0')) by {
            if rest.contains('\0') {
                assert(name[rest.index_of('\0')] == '\0');
            }
        }
        split_after(front, rest);
        assert((front + name).drop_last() =~= front + rest);
        assert((front + name).last() == name.last());
        assert(parts.drop_last().push(rest).drop_last() =~= parts.drop_last());
        assert(rest.push(name.last()) =~= name);
    }
}

proof fn split_terminated(front: Seq<char>, names: Seq<Seq<char>>)
    requires
        split(front, '\0').len() > 0,
        split(front, '\0').last() == Seq::<char>::empty(),
        forall|i: int| 0 <= i < names.len() ==> !(#[trigger] names[i]).contains('\0'),
    ensures
        split(front + terminated(names), '\0') == split(front, '\0').drop_last() + names + seq![
            Seq::<char>::empty(),
        ],
    decreases names.len(),
{
    let parts = split(front, '\0');
    if names.len() == 0 {
        assert(front + terminated(names) =~= front);
        assert(parts =~= parts.drop_last() + names + seq![Seq::<char>::empty()]);
    } else {
        let before = names.drop_last();
        let name = names.last();
        assert(name == names[names.len() - 1]);
        assert forall|i: int| 0 <= i < before.len() implies !(#[trigger] before[i]).contains(
            '\0',
        ) by {
            assert(before[i] == names[i]);
        }
        split_terminated(front, before);
        let whole = front + terminated(before);
        split_after(whole, name);
        assert(split(whole, '\0').drop_last() =~= parts.drop_last() + before);
        assert(front + terminated(names) =~= (whole + name).push('\0'));
        assert((whole + name).push('\0').drop_last() =~= whole + name);
        assert(parts.drop_last() + names + seq![Seq::<char>::empty()] =~= (parts.drop_last()
            + before).push(name).push(Seq::empty()));
    }
}

proof fn printed_parts(directories: Seq<Seq<char>>, files: Seq<Seq<char>>)
    requires
        forall|i: int| 0 <= i < directories.len() ==> !(#[trigger] directories[i]).contains('\0'),
        forall|i: int| 0 <= i < files.len() ==> !(#[trigger] files[i]).contains('\0'),
    ensures
        split(terminated(directories) + seq!['\0'] + terminated(files), '\0') == directories + seq![
            Seq::<char>::empty(),
        ] + files + seq![Seq::<char>::empty()],
{
    let nothing = Seq::<char>::empty();
    let first = terminated(directories);
    let front = first + seq!['\0'];
    assert(split(nothing, '\0') == seq![nothing]);
    split_terminated(nothing, directories);
    assert(nothing + first =~= first);
    assert(split(first, '\0') =~= directories + seq![nothing]);
    assert(front.drop_last() =~= first);
    assert(split(front, '\0') =~= directories + seq![nothing] + seq![nothing]);
    split_terminated(front, files);
    assert(split(front, '\0').drop_last() =~= directories + seq![nothing]);
}

/// What the command of `list_script` prints is read back: the directories, without the listed
/// one itself, and the files.
#[verifier::spinoff_prover]
pub proof fn printed_names_are_read_back(
    directories: Seq<Seq<char>>,
    files: Seq<Seq<char>>,
)
    requires
        forall|i: int|
            0 <= i < directories.len() ==> (#[trigger] directories[i]).len() > 0
                && !directories[i].contains('\0'),
        forall|i: int|
            0 <= i < files.len() ==> (#[trigger] files[i]).len() > 0 && !files[i].contains('\0'),
    ensures
        ({
            let stdout = terminated(directories) + seq!['\0'] + terminated(files);
            &&& listed_directories(split(stdout, '\0')) == directories.filter(
                |part: Seq<char>| part != seq!['.'],
            )
            &&& listed_files(split(stdout, '\0')) == files
        }),
{
    let nothing = Seq::<char>::empty();
    let parts = directories + seq![nothing] + files + seq![nothing];
    printed_parts(directories, files);
    first_empty_is_reached(parts, directories.len() as int);
    assert(parts.take(directories.len() as int) =~= directories);
    assert(parts.skip(directories.len() as int + 1) =~= files.push(nothing));
    named_are_kept(files);
}

proof fn named_are_kept(names: Seq<Seq<char>>)
    requires
        forall|i: int| 0 <= i < names.len() ==> (#[trigger] names[i]).len() > 0,
    ensures
        names.push(Seq::empty()).filter(|part: Seq<char>| part.len() > 0) == names,
{
    reveal(Seq::filter);
    assert(names.push(Seq::empty()).drop_last() =~= names);
    all_named_are_kept(names);
}

proof fn all_named_are_kept(names: Seq<Seq<char>>)
    requires
        forall|i: int| 0 <= i < names.len() ==> (#[trigger] names[i]).len() > 0,
    ensures
        names.filter(|part: Seq<char>| part.len() > 0) == names,
    decreases names.len(),
{
    reveal(Seq::filter);
    if names.len() > 0 {
        let front = names.drop_last();
        assert forall|i: int| 0 <= i < front.len() implies (#[trigger] front[i]).len() > 0 by {
            assert(front[i] == names[i]);
        }
        all_named_are_kept(front);
        assert(names.last() == names[names.len() - 1]);
        assert(front.push(names.last()) =~= names);
    }
}

/// A row says what the daemon reported of the entry: its name, its kind, its size and the time of
/// its last change, at the path of the name in the directory. A kind that is not known counts as
/// `Other`.
pub proof fn reports_become_rows(directory: Seq<char>, reported: Seq<DirEntryView>, i: int)
    requires
        0 <= i < reported.len(),
    ensures
        reported_entries(directory, reported).len() == reported.len(),
        ({
            let row = reported_entries(directory, reported)[i];
            &&& row.name == reported[i].name
            &&& row.path == joined(directory, reported[i].name)
            &&& reported[i].kind matches Some(kind) ==> row.kind == kind
            &&& reported[i].kind is None ==> row.kind == FileSystemEntryKind::Other
            &&& row.size_bytes == reported[i].size_bytes
            &&& row.modified_epoch_millis == reported[i].modified_epoch_millis
            &&& row.depth == 0
        }),
{
}

/// A kind that is known is kept, and one that is not counts as `Other`.
pub proof fn known_kinds_are_kept(kind: FileSystemEntryKind)
    ensures
        known_kind(Some(kind)) == kind,
        known_kind(None) == FileSystemEntryKind::Other,
{
}

/// The words `d`, `f` and `l` stand for a directory, a file and a link, and anything else for
/// something else.
pub proof fn words_stand_for_kinds(word: Seq<char>)
    ensures
        word == seq!['d'] <==> printed_kind(word) == FileSystemEntryKind::Directory,
        word == seq!['f'] <==> printed_kind(word) == FileSystemEntryKind::File,
        word == seq!['l'] <==> printed_kind(word) == FileSystemEntryKind::Symlink,
        word != seq!['d'] && word != seq!['f'] && word != seq!['l'] <==> printed_kind(word)
            == FileSystemEntryKind::Other,
{
    reveal_strlit("d");
    reveal_strlit("f");
    reveal_strlit("l");
    assert("d"@ =~= seq!['d']);
    assert("f"@ =~= seq!['f']);
    assert("l"@ =~= seq!['l']);
    assert(seq!['d'][0] == 'd' && seq!['f'][0] == 'f' && seq!['l'][0] == 'l');
}

/// Directories stand before everything else, and otherwise the names decide.
pub proof fn directories_stand_first(a: EntryView, b: EntryView)
    ensures
        a.kind == FileSystemEntryKind::Directory && b.kind != FileSystemEntryKind::Directory
            ==> ServerFileBrowserEntry::ranks_before(a, b)
            && !ServerFileBrowserEntry::ranks_before(b, a),
        (a.kind == FileSystemEntryKind::Directory <==> b.kind == FileSystemEntryKind::Directory)
            ==> (ServerFileBrowserEntry::ranks_before(a, b) <==> text_lt(a.name, b.name)),
{
}

/// Each name that is printed is followed by a zero character.
pub proof fn one_more_name_is_printed(names: Seq<Seq<char>>, name: Seq<char>)
    ensures
        terminated(Seq::empty()) == Seq::<char>::empty(),
        terminated(names.push(name)) == terminated(names) + name + seq!['\0'],
{
    assert(names.push(name).drop_last() =~= names);
    assert(terminated(names) + name.push('\0') =~= terminated(names) + name + seq!['\0']);
}

/// The name of a file directly in the current directory, as `find` prints it.
spec fn printed(name: Seq<char>) -> Seq<char> {
    seq!['.', '/'] + name
}

proof fn printed_name_is_shown(name: Seq<char>)
    requires
        name.len() > 0,
        !name.contains('/'),
        name != seq!['.'],
        name != seq!['.', '.'],
    ensures
        shown_name(printed(name)) == name,
{
    assert(seq!['.'] + seq!['/'] + name =~= printed(name));
    file_name_is_the_last_component(seq!['.'], name);
}

proof fn printed_holds_no_zero(name: Seq<char>)
    requires
        name.len() > 0,
        !name.contains('\0'),
    ensures
        printed(name).len() > 2,
        !printed(name).contains('\0'),
{
    if printed(name).contains('\0') {
        let k = printed(name).index_of('\0');
        assert(name[k - 2] == '\0');
    }
}

proof fn long_names_are_kept(names: Seq<Seq<char>>)
    requires
        forall|i: int| 0 <= i < names.len() ==> (#[trigger] names[i]).len() > 2,
    ensures
        names.filter(|part: Seq<char>| part != seq!['.']) == names,
    decreases names.len(),
{
    reveal(Seq::filter);
    if names.len() > 0 {
        let front = names.drop_last();
        assert forall|i: int| 0 <= i < front.len() implies (#[trigger] front[i]).len() > 2 by {
            assert(front[i] == names[i]);
        }
        long_names_are_kept(front);
        assert(names.last() == names[names.len() - 1]);
        assert(front.push(names.last()) =~= names);
    }
}

/// What lies in a directory is listed through the shell as it is: each directory and each file that
/// is printed has one row, under its name and at its path in the directory, as a directory or as a
/// file; the directory itself, printed as `.`, has none.
#[verifier::spinoff_prover]
pub proof fn printed_entries_become_rows(
    directory: Seq<char>,
    directories: Seq<Seq<char>>,
    files: Seq<Seq<char>>,
    stdout: Seq<char>,
)
    requires
        stdout == terminated(
            seq![seq!['.']] + directories.map_values(|name: Seq<char>| seq!['.', '/'] + name),
        ) + seq!['\0'] + terminated(files.map_values(|name: Seq<char>| seq!['.', '/'] + name)),
        forall|i: int|
            0 <= i < directories.len() ==> (#[trigger] directories[i]).len() > 0
                && !directories[i].contains('/') && !directories[i].contains('\0')
                && directories[i] != seq!['.'] && directories[i] != seq!['.', '.'],
        forall|i: int|
            0 <= i < files.len() ==> (#[trigger] files[i]).len() > 0 && !files[i].contains('/')
                && !files[i].contains('\0') && files[i] != seq!['.'] && files[i] != seq!['.', '.'],
    ensures
        ({
            let rows = listed_entries(directory, stdout);
            &&& rows.len() == directories.len() + files.len()
            &&& forall|i: int|
                #![trigger rows[i]]
                0 <= i < rows.len() ==> {
                    let name = if i < directories.len() {
                        directories[i]
                    } else {
                        files[i - directories.len()]
                    };
                    &&& rows[i].name == name
                    &&& rows[i].path == joined(directory, name)
                    &&& rows[i].kind == if i < directories.len() {
                        FileSystemEntryKind::Directory
                    } else {
                        FileSystemEntryKind::File
                    }
                    &&& rows[i].size_bytes is None
                    &&& rows[i].modified_epoch_millis is None
                    &&& rows[i].depth == 0
                }
        }),
{
    let as_printed = |name: Seq<char>| printed(name);
    let all_dirs = directories.map_values(as_printed);
    let all_files = files.map_values(as_printed);
    assert(directories.map_values(|name: Seq<char>| seq!['.', '/'] + name) =~= all_dirs);
    assert(files.map_values(|name: Seq<char>| seq!['.', '/'] + name) =~= all_files);
    assert forall|i: int| 0 <= i < directories.len() implies (#[trigger] all_dirs[i]).len() > 2
        && !all_dirs[i].contains('\0') by {
        printed_holds_no_zero(directories[i]);
    }
    assert forall|i: int| 0 <= i < files.len() implies (#[trigger] all_files[i]).len() > 2
        && !all_files[i].contains('\0') by {
        printed_holds_no_zero(files[i]);
    }
    let first = seq![seq!['.']] + all_dirs;
    assert forall|i: int| 0 <= i < first.len() implies (#[trigger] first[i]).len() > 0
        && !first[i].contains('\0') by {
        if i > 0 {
            assert(first[i] == all_dirs[i - 1]);
        } else {
            assert(!seq!['.'].contains('\0'));
        }
    }
    printed_names_are_read_back(first, all_files);
    let other = |part: Seq<char>| part != seq!['.'];
    long_names_are_kept(all_dirs);
    assert(seq![seq!['.']].filter(other) =~= Seq::<Seq<char>>::empty()) by {
        reveal_with_fuel(Seq::filter, 2);
        let itself = seq![seq!['.']];
        assert(itself.drop_last() =~= Seq::<Seq<char>>::empty());
        assert(itself.last() =~= seq!['.']);
        assert(!other(itself.last()));
    }
    Seq::filter_distributes_over_add(seq![seq!['.']], all_dirs, other);
    assert(first.filter(other) =~= all_dirs);
    assert forall|i: int| 0 <= i < directories.len() implies shown_name(#[trigger] all_dirs[i])
        == directories[i] by {
        printed_name_is_shown(directories[i]);
    }
    assert forall|i: int| 0 <= i < files.len() implies shown_name(#[trigger] all_files[i])
        == files[i] by {
        printed_name_is_shown(files[i]);
    }
    assert(stdout == terminated(first) + seq!['\0'] + terminated(all_files));
    let rows = listed_entries(directory, stdout);
    assert forall|i: int| 0 <= i < rows.len() implies #[trigger] rows[i] == (if i
        < directories.len() {
        listed_entry(directory, FileSystemEntryKind::Directory, all_dirs[i])
    } else {
        listed_entry(
            directory,
            FileSystemEntryKind::File,
            all_files[i - directories.len()],
        )
    }) by {
    }
}

/// Of the names that are read, those before the first empty one are directories, but for `.`, and of
/// those behind it each that is not empty is a file. Without an empty one there are no files.
pub proof fn an_empty_name_parts_directories_from_files(
    before: Seq<Seq<char>>,
    behind: Seq<Seq<char>>,
)
    requires
        forall|i: int| 0 <= i < before.len() ==> (#[trigger] before[i]).len() > 0,
    ensures
        ({
            let parts = before + seq![Seq::<char>::empty()] + behind;
            &&& listed_directories(parts) == before.filter(|part: Seq<char>| part != seq!['.'])
            &&& listed_files(parts) == behind.filter(|part: Seq<char>| part.len() > 0)
            &&& listed_directories(before) == before.filter(|part: Seq<char>| part != seq!['.'])
            &&& listed_files(before) == Seq::<Seq<char>>::empty()
        }),
{
    let parts = before + seq![Seq::<char>::empty()] + behind;
    let n = before.len() as int;
    assert forall|i: int| 0 <= i < n implies (#[trigger] parts[i]).len() > 0 by {
        assert(parts[i] == before[i]);
    }
    first_empty_is_reached(parts, n);
    first_empty_is_reached(before, n);
    assert(parts.take(n) =~= before);
    assert(before.take(n) =~= before);
    assert(parts.skip(n + 1) =~= behind);
}

/// Each name that is read has one row, the directories first: under its file name if it has one and
/// as it is otherwise, at the path of that name in the directory, without a size and a time.
pub proof fn read_names_become_rows(directory: Seq<char>, stdout: Seq<char>, i: int)
    ensures
        ({
            let directories = listed_directories(split(stdout, '\0'));
            let files = listed_files(split(stdout, '\0'));
            let rows = listed_entries(directory, stdout);
            &&& rows.len() == directories.len() + files.len()
            &&& 0 <= i < rows.len() ==> {
                let part = if i < directories.len() {
                    directories[i]
                } else {
                    files[i - directories.len()]
                };
                let name = match file_name_of(part) {
                    Some(name) => name,
                    None => part,
                };
                &&& rows[i].name == name
                &&& rows[i].path == joined(directory, name)
                &&& rows[i].kind == if i < directories.len() {
                    FileSystemEntryKind::Directory
                } else {
                    FileSystemEntryKind::File
                }
                &&& rows[i].size_bytes is None && rows[i].modified_epoch_millis is None
                &&& rows[i].depth == 0
            }
        }),
{
}

} // verus!

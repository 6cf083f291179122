//! What the browser tells its user.

use vstd::prelude::*;

verus! {

/// A text that is looked up in the catalogue of the user's language.
#[derive(Clone, Copy, Debug, PartialEq, Eq, Structural)]
pub enum Message {
    PathPlaceholder,
    Empty,
    NoSession,
    UnsupportedPath,
    CopiedPath,
    TransferComplete,
    Loading,
    EmptyDirectory,
    Modified,
    EmptyResponse,
    MenuDownload,
    MenuUploadFile,
    MenuUploadFolder,
    MenuCopyPath,
    MenuJumpToPath,
}

impl Message {
    /// The key of the text in the catalogue.
    pub open spec fn catalogue_key(self) -> Seq<char> {
        match self {
            Message::PathPlaceholder => "server-file-browser-path-placeholder"@,
            Message::Empty => "server-file-browser-empty"@,
            Message::NoSession => "server-file-browser-no-session"@,
            Message::UnsupportedPath => "server-file-browser-unsupported-path"@,
            Message::CopiedPath => "server-file-browser-copied-path"@,
            Message::TransferComplete => "server-file-browser-transfer-complete"@,
            Message::Loading => "server-file-browser-loading"@,
            Message::EmptyDirectory => "server-file-browser-empty-directory"@,
            Message::Modified => "server-file-browser-modified"@,
            Message::EmptyResponse => "server-file-browser-empty-response"@,
            Message::MenuDownload => "server-file-browser-menu-download"@,
            Message::MenuUploadFile => "server-file-browser-menu-upload-file"@,
            Message::MenuUploadFolder => "server-file-browser-menu-upload-folder"@,
            Message::MenuCopyPath => "server-file-browser-menu-copy-path"@,
            Message::MenuJumpToPath => "server-file-browser-menu-jump-to-path"@,
        }
    }

    /// The key of the text in the catalogue.
    pub fn key(self) -> (key: &'static str)
        ensures
            key@ == self.catalogue_key(),
    {
        match self {
            Message::PathPlaceholder => "server-file-browser-path-placeholder",
            Message::Empty => "server-file-browser-empty",
            Message::NoSession => "server-file-browser-no-session",
            Message::UnsupportedPath => "server-file-browser-unsupported-path",
            Message::CopiedPath => "server-file-browser-copied-path",
            Message::TransferComplete => "server-file-browser-transfer-complete",
            Message::Loading => "server-file-browser-loading",
            Message::EmptyDirectory => "server-file-browser-empty-directory",
            Message::Modified => "server-file-browser-modified",
            Message::EmptyResponse => "server-file-browser-empty-response",
            Message::MenuDownload => "server-file-browser-menu-download",
            Message::MenuUploadFile => "server-file-browser-menu-upload-file",
            Message::MenuUploadFolder => "server-file-browser-menu-upload-folder",
            Message::MenuCopyPath => "server-file-browser-menu-copy-path",
            Message::MenuJumpToPath => "server-file-browser-menu-jump-to-path",
        }
    }
}

/// A text for the user: one of the catalogue, or one that came with an error.
#[derive(Debug)]
pub enum Status<T> {
    Message(Message),
    Text(T),
}

impl Clone for Status<String> {
    fn clone(&self) -> (status: Self)
        ensures
            status == *self,
    {
        match self {
            Status::Message(message) => Status::Message(*message),
            Status::Text(text) => Status::Text(text.clone()),
        }
    }
}

impl View for Status<String> {
    type V = Status<Seq<char>>;

    open spec fn view(&self) -> Status<Seq<char>> {
        match self {
            Status::Message(message) => Status::Message(*message),
            Status::Text(text) => Status::Text(text@),
        }
    }
}

/// The status with its text taken as a sequence of characters, if there is one.
pub open spec fn opt_status(status: Option<Status<String>>) -> Option<Status<Seq<char>>> {
    match status {
        Some(status) => Some(status@),
        None => None,
    }
}

/// Whether `result` is the error `status`.
pub open spec fn fails_with<T>(result: Result<T, Status<String>>, status: Status<String>) -> bool {
    result matches Err(error) && error == status
}

/// To fail with a status is to return just that status as the error.
pub proof fn failing_is_returning_the_error<T>(
    result: Result<T, Status<String>>,
    status: Status<String>,
)
    ensures
        fails_with(result, status) <==> result is Err && result->Err_0 == status,
{
}

/// Taking a status by its characters keeps it.
pub proof fn statuses_are_taken_whole(status: Status<String>)
    ensures
        status matches Status::Message(message) ==> status@ == Status::<Seq<char>>::Message(message),
        status matches Status::Text(text) ==> status@ == Status::Text(text@),
        opt_status(Some(status)) == Some(status@),
        opt_status(None) is None,
{
}

} // verus!

use vstd::prelude::*;

verus! {

/// A single file or directory as shown in a directory listing.
///
/// `size` is meaningful only when `is_dir` is false.
#[derive(Debug)]
pub struct FileNode {
    pub name: String,
    pub is_dir: bool,
    pub size: u64,
}

/// Mathematical image of a [`FileNode`]: the name as a character
/// sequence together with the plain fields.
pub ghost struct FileNodeV {
    pub name: Seq<char>,
    pub is_dir: bool,
    pub size: u64,
}

impl View for FileNode {
    type V = FileNodeV;

    open spec fn view(&self) -> FileNodeV {
        FileNodeV { name: self.name@, is_dir: self.is_dir, size: self.size }
    }
}

/// The complete snapshot handed to the UI after every operation:
/// the current path, the sorted entries, and navigation affordances.
#[derive(Debug)]
pub struct ExplorerView {
    pub current_path: String,
    pub items: Vec<FileNode>,
    pub can_go_back: bool,
    pub can_go_forward: bool,
    pub can_go_up: bool,
}

/// Mathematical image of an [`ExplorerView`].
pub ghost struct ExplorerViewV {
    pub current_path: Seq<char>,
    pub items: Seq<FileNodeV>,
    pub can_go_back: bool,
    pub can_go_forward: bool,
    pub can_go_up: bool,
}

impl View for ExplorerView {
    type V = ExplorerViewV;

    open spec fn view(&self) -> ExplorerViewV {
        ExplorerViewV {
            current_path: self.current_path@,
            items: self.items@.map_values(|n: FileNode| n@),
            can_go_back: self.can_go_back,
            can_go_forward: self.can_go_forward,
            can_go_up: self.can_go_up,
        }
    }
}

/// The uniform error payload exposed at every boundary.
#[derive(Debug)]
pub struct AppError {
    pub message: String,
}

/// Canonical message for a navigation target that is not a directory.
pub open spec fn msg_not_a_directory() -> Seq<char> {
    "Not a directory"@
}

/// Canonical message for a create conflict.
pub open spec fn msg_already_exists() -> Seq<char> {
    "Already exists"@
}

/// Canonical message for path text the OS path representation rejects.
pub open spec fn msg_invalid_input() -> Seq<char> {
    "Invalid input"@
}

impl AppError {
    /// Error for a navigation target that exists as a file or not at all.
    pub fn not_a_directory() -> (e: AppError)
        ensures
            e.message@ == msg_not_a_directory(),
    {
        AppError { message: "Not a directory".to_owned() }
    }

    /// Error for creating something that is already present.
    pub fn already_exists() -> (e: AppError)
        ensures
            e.message@ == msg_already_exists(),
    {
        AppError { message: "Already exists".to_owned() }
    }

    /// Error for malformed path text, such as an embedded NUL character.
    pub fn invalid_input() -> (e: AppError)
        ensures
            e.message@ == msg_invalid_input(),
    {
        AppError { message: "Invalid input".to_owned() }
    }

    /// Error wrapping an underlying OS failure, keeping its message.
    pub fn io_failure(message: String) -> (e: AppError)
        ensures
            e.message@ == message@,
    {
        AppError { message }
    }
}

} // verus!

//! File-dialog options and the choice of dialog mode.
//!
//! Showing the dialog is the desktop shell's work; what the library
//! settles is which kind of dialog the options ask for and which directory
//! it starts in.

use crate::paths::{parent_of, parent_path};
use vstd::prelude::*;

verus! {

/// One entry of the dialog's file-type filter list.
#[derive(Debug, Clone)]
pub struct FileFilter {
    /// The label shown for the filter.
    pub name: String,
    /// The file extensions the filter admits.
    pub extensions: Vec<String>,
}

/// What the frontend asks of a file dialog.
#[derive(Debug, Clone)]
pub struct FileDialogOptions {
    /// The dialog title, if any.
    pub title: Option<String>,
    /// A path whose parent directory the dialog starts in.
    pub starting_path: Option<String>,
    /// The file-type filters, if any.
    pub filters: Option<Vec<FileFilter>>,
    /// Allow picking several files.
    pub multiple: bool,
    /// Pick a folder instead of a file.
    pub folder: bool,
    /// Ask for a save location instead of an existing file.
    pub save: bool,
}

/// The kind of dialog a set of options asks for.
#[derive(Debug, Clone, Copy, PartialEq, Eq)]
pub enum DialogMode {
    /// Ask for a save location.
    SaveFile,
    /// Pick a folder.
    PickFolder,
    /// Pick several files.
    PickFiles,
    /// Pick one file.
    PickFile,
}

/// Which dialog the options select: saving wins over folder picking, which
/// wins over multiple selection; one file is the default.
pub open spec fn spec_dialog_mode(save: bool, folder: bool, multiple: bool) -> DialogMode {
    if save {
        DialogMode::SaveFile
    } else if folder {
        DialogMode::PickFolder
    } else if multiple {
        DialogMode::PickFiles
    } else {
        DialogMode::PickFile
    }
}

/// The kind of dialog to show for `options`.
pub fn dialog_mode(options: &FileDialogOptions) -> (r: DialogMode)
    ensures
        r == spec_dialog_mode(options.save, options.folder, options.multiple),
{
    if options.save {
        DialogMode::SaveFile
    } else if options.folder {
        DialogMode::PickFolder
    } else if options.multiple {
        DialogMode::PickFiles
    } else {
        DialogMode::PickFile
    }
}

/// The directory the dialog starts in: the parent of the starting path,
/// when one is given and has a parent.
pub fn dialog_start_dir(options: &FileDialogOptions) -> (r: Option<String>)
    ensures
        options.starting_path is None ==> r is None,
        options.starting_path matches Some(p) ==> (match parent_of(p@) {
            Some(q) => r matches Some(d) && d@ == q,
            None => r is None,
        }),
{
    match &options.starting_path {
        Some(p) => parent_path(p),
        None => None,
    }
}

} // verus!

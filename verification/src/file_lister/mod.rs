//! The file picker behind `@`: which directory is listed, which entries are
//! shown, and which replies count.

pub mod directory_lister_actor;
pub mod file_picker_state;

pub use crate::file_lister::directory_lister_actor::{
    DirectoryListerActor, DirectoryListing, ListDirectory,
};
pub use crate::file_lister::file_picker_state::{resolve_list_dir, FileEntry, FilePickerState};

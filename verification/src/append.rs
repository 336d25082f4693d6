//! The decisions of the `file append` command: which storage, of which
//! kind, and in which format the content is appended.

use vstd::prelude::*;

verus! {

/// How appended content is read.
#[derive(Clone, Copy, Debug, PartialEq, Eq, Structural)]
pub enum Format {
    /// Key-value JSON.
    KeyValue,
    /// Raw text.
    Raw,
}

/// How a storage is laid out on disk.
#[derive(Clone, Copy, Debug, PartialEq, Eq, Structural)]
pub enum StorageType {
    /// One file holding all entries.
    File,
    /// A folder with one file per entry.
    Folder,
}

/// Errors of the command line tool.
#[derive(Debug, PartialEq, Eq)]
pub enum AppError {
    /// No storage of this name was found.
    StorageNotFound(String),
    /// The home directory could not be determined.
    HomeDirNotFound,
    /// The `.ark` directory could not be created; the text says why.
    ArkDirectoryCreationError(String),
    /// The application id could not be loaded; the text says why.
    AppIdLoadError(String),
}

/// The arguments of the `file append` command.
pub struct Append {
    /// Root directory of the managed folder.
    pub root_dir: String,
    /// Storage name.
    pub storage: String,
    /// Id of the resource to append to.
    pub id: String,
    /// Content to append to the resource.
    pub content: String,
    /// Format of the resource, if given.
    pub format: Option<Format>,
    /// Storage kind of the resource, if given.
    pub kind: Option<StorageType>,
}

/// Where a storage name was found: the storage's path, and its kind when
/// the name fixes it.
pub struct StorageLocation {
    pub path: String,
    pub storage_type: Option<StorageType>,
}

/// What the command appends, and where.
pub struct AppendPlan {
    pub file_path: String,
    pub storage_type: StorageType,
    pub format: Format,
    pub id: String,
    pub content: String,
}

/// The kind of storage appended to: the one the location fixes, else the
/// one asked for, else a single file.
pub open spec fn chosen_type(found: Option<StorageType>, asked: Option<StorageType>) -> StorageType {
    match found {
        Some(t) => t,
        None => match asked {
            Some(t) => t,
            None => StorageType::File,
        },
    }
}

/// The format of the content: the one asked for, else raw.
pub open spec fn chosen_format(asked: Option<Format>) -> Format {
    match asked {
        Some(f) => f,
        None => Format::Raw,
    }
}

impl Append {
    /// Decides the append, given where the storage named `self.storage`
    /// was found under `self.root_dir` (`None` when it was not found).
    pub fn run(&self, found: Option<StorageLocation>) -> (res: Result<AppendPlan, AppError>)
        ensures
            match found {
                None => res matches Err(AppError::StorageNotFound(name)) && name@ == self.storage@,
                Some(loc) => res matches Ok(plan) && {
                    &&& plan.file_path@ == loc.path@
                    &&& plan.storage_type == chosen_type(loc.storage_type, self.kind)
                    &&& plan.format == chosen_format(self.format)
                    &&& plan.id@ == self.id@
                    &&& plan.content@ == self.content@
                },
            },
            res matches Ok(plan) ==> found matches Some(loc) && {
                &&& (loc.storage_type matches Some(t) ==> plan.storage_type == t)
                &&& (self.kind matches Some(k) ==> (loc.storage_type is None ==> plan.storage_type == k))
                &&& (loc.storage_type is None && self.kind is None ==> plan.storage_type == StorageType::File)
                &&& (self.format matches Some(f) ==> plan.format == f)
                &&& (self.format is None ==> plan.format == Format::Raw)
            },
    {
        let loc = match found {
            Some(loc) => loc,
            None => {
                return Err(AppError::StorageNotFound(self.storage.clone()));
            },
        };
        let storage_type = match loc.storage_type {
            Some(t) => t,
            None => match self.kind {
                Some(t) => t,
                None => StorageType::File,
            },
        };
        let format = match self.format {
            Some(f) => f,
            None => Format::Raw,
        };
        Ok(AppendPlan {
            file_path: loc.path,
            storage_type,
            format,
            id: self.id.clone(),
            content: self.content.clone(),
        })
    }
}

/// The kind fixed by the storage's location always wins; the kind asked
/// for is only used when the location fixes none, and a single file when
/// neither says.
pub proof fn location_kind_wins(found: StorageType, asked: Option<StorageType>, wanted: StorageType)
    ensures
        chosen_type(Some(found), asked) == found,
        chosen_type(None, Some(wanted)) == wanted,
        chosen_type(None, None) == StorageType::File,
{
}

/// The format asked for is always the one used; raw text only when none is
/// asked for.
pub proof fn asked_format_is_used(asked: Format)
    ensures
        chosen_format(Some(asked)) == asked,
        chosen_format(None) == Format::Raw,
{
}

} // verus!

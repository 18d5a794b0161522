//! Where the store keeps its files: a hidden directory under the user's home
//! directory, made on first use.

use std::path::PathBuf;
use vstd::prelude::*;
use crate::error::{Collection, IoOperation, StoreError};

verus! {

/// Name of the data directory under the home directory.
pub const APP_DIR_NAME: &'static str = ".notelist";

/// Name of the file that holds the note collection.
pub const NOTES_FILE: &'static str = "notes.json";

/// Name of the file that holds the category collection.
pub const CATEGORIES_FILE: &'static str = "categories.json";

/// The standard library's owned file-system path. The store hands paths on
/// and never looks inside one, so nothing is said of what a path holds.
#[verifier::external_type_specification]
#[verifier::external_body]
pub struct ExPathBuf(std::path::PathBuf);

/// Asks `dirs::home_dir` for the home directory of the current user. The
/// answer comes from the environment and the user database, so nothing is
/// claimed of it: it may be `None`, and two calls may differ.
#[verifier::external_body]
fn home_dir() -> Option<PathBuf> {
    dirs::home_dir()
}

/// The path that `Path::join` makes of a directory and a name. What is
/// inside a path is not modelled; the name says only that the same directory
/// and the same name give the same path.
pub uninterp spec fn joined(dir: PathBuf, name: Seq<char>) -> PathBuf;

/// Appends `name` to `dir` with `Path::join`. The path that comes back
/// depends on the directory and the name alone, and `joined` is its name.
#[verifier::external_body]
fn join(dir: &PathBuf, name: &str) -> (r: PathBuf)
    ensures
        r == joined(*dir, name@),
{
    dir.join(name)
}

/// Where the store keeps its state: the data directory and, inside it, one
/// file for each collection.
#[derive(Debug, PartialEq, Eq)]
pub struct StorageLocation {
    pub dir: PathBuf,
    pub notes_file: PathBuf,
    pub categories_file: PathBuf,
}

impl StorageLocation {
    /// The file that holds the given collection.
    pub fn file(&self, collection: Collection) -> (r: &PathBuf)
        ensures
            *r == match collection {
                Collection::Notes => self.notes_file,
                Collection::Categories => self.categories_file,
            },
    {
        match collection {
            Collection::Notes => &self.notes_file,
            Collection::Categories => &self.categories_file,
        }
    }
}

/// The location that belongs to a home directory: the directory
/// `APP_DIR_NAME` inside it, with the file of each collection inside that.
pub open spec fn location_of(home: PathBuf) -> StorageLocation {
    let dir = joined(home, APP_DIR_NAME@);
    StorageLocation {
        dir,
        notes_file: joined(dir, NOTES_FILE@),
        categories_file: joined(dir, CATEGORIES_FILE@),
    }
}

/// The location that the answer to the question for the home directory
/// gives: without a home directory there is none, which is an environment
/// failure.
pub open spec fn located(home: Option<PathBuf>) -> Result<StorageLocation, StoreError> {
    match home {
        Some(home_dir) => Ok(location_of(home_dir)),
        None => Err(StoreError::Environment),
    }
}

/// What is to be done about the data directory once it is known whether it
/// is there.
#[derive(Clone, Copy, Debug, PartialEq, Eq)]
pub enum DirectoryStep {
    /// The directory is there: nothing is made or changed.
    Keep,
    /// The directory is missing: it is to be made, with every missing parent.
    Create,
}

/// The step that the presence of the data directory calls for.
pub open spec fn step_for(exists: bool) -> DirectoryStep {
    if exists {
        DirectoryStep::Keep
    } else {
        DirectoryStep::Create
    }
}

/// What comes of a location once the directory step is done: the location
/// itself where the directory is there, an I/O failure with the system's
/// description where it could not be made.
pub open spec fn resolved(location: StorageLocation, made: Result<(), String>) -> Result<
    StorageLocation,
    StoreError,
> {
    match made {
        Ok(()) => Ok(location),
        Err(detail) => Err(StoreError::Io { operation: IoOperation::CreateDirectory, detail }),
    }
}

/// The whole of resolving the location, from the answer to the question for
/// the home directory and the outcome of the directory step.
pub open spec fn resolution(home: Option<PathBuf>, made: Result<(), String>) -> Result<
    StorageLocation,
    StoreError,
> {
    match located(home) {
        Ok(location) => resolved(location, made),
        Err(e) => Err(e),
    }
}

/// The location that belongs to a home directory: the directory
/// `APP_DIR_NAME` inside it, with the two files inside that. Without a home
/// directory there is none, which is an environment failure.
pub fn location_under(home: Option<PathBuf>) -> (r: Result<StorageLocation, StoreError>)
    ensures
        r == located(home),
{
    match home {
        Some(home_dir) => {
            let dir = join(&home_dir, APP_DIR_NAME);
            let notes_file = join(&dir, file_name(Collection::Notes));
            let categories_file = join(&dir, file_name(Collection::Categories));
            Ok(StorageLocation { dir, notes_file, categories_file })
        },
        None => Err(StoreError::Environment),
    }
}

/// Where the state of the current user is to be kept: the location that
/// belongs to the home directory that the system names. The only failure is
/// that the system names none.
pub fn find_location() -> (r: Result<StorageLocation, StoreError>)
    ensures
        r matches Ok(location) ==> exists|home_dir: PathBuf|
            location == #[trigger] location_of(home_dir),
        r matches Err(e) ==> e == StoreError::Environment,
{
    let home = home_dir();
    let r = location_under(home);
    assert(r == located(home));
    r
}

/// Tells what is to be done about the data directory: a directory that is
/// there is kept as it is, a missing one is to be made.
pub fn directory_step(exists: bool) -> (r: DirectoryStep)
    ensures
        r == step_for(exists),
{
    if exists {
        DirectoryStep::Keep
    } else {
        DirectoryStep::Create
    }
}

/// The location once the caller has seen to it that the data directory is
/// there: `made` is `Ok` where the directory was found or could be made, and
/// holds the system's description of the failure where it could not be made,
/// which is an I/O failure.
pub fn get_app_data_dir(location: StorageLocation, made: Result<(), String>) -> (r: Result<
    StorageLocation,
    StoreError,
>)
    ensures
        r == resolved(location, made),
{
    match made {
        Ok(()) => Ok(location),
        Err(detail) => Err(StoreError::Io { operation: IoOperation::CreateDirectory, detail }),
    }
}

/// The name of the file that holds the given collection.
pub fn file_name(collection: Collection) -> (r: &'static str)
    ensures
        r@ == match collection {
            Collection::Notes => NOTES_FILE@,
            Collection::Categories => CATEGORIES_FILE@,
        },
{
    match collection {
        Collection::Notes => NOTES_FILE,
        Collection::Categories => CATEGORIES_FILE,
    }
}

} // verus!

use std::path::{Path, PathBuf};

use notelist::location::{
    directory_step, file_name, find_location, get_app_data_dir, location_under, DirectoryStep,
    StorageLocation, APP_DIR_NAME, CATEGORIES_FILE, NOTES_FILE,
};
use notelist::{Collection, IoOperation, StoreError};

fn sample() -> StorageLocation {
    location_under(Some(PathBuf::from("/home/alice"))).unwrap()
}

#[test]
fn location_under_a_home_directory() {
    let location = sample();
    assert_eq!(location.dir, Path::new("/home/alice").join(".notelist"));
    assert_eq!(location.notes_file, Path::new("/home/alice").join(".notelist").join("notes.json"));
    assert_eq!(
        location.categories_file,
        Path::new("/home/alice").join(".notelist").join("categories.json")
    );
    assert_ne!(location.dir, PathBuf::from("/home/alice"));
    assert_ne!(location.notes_file, location.dir);
    assert_ne!(location.categories_file, location.notes_file);
}

#[test]
fn location_without_a_home_directory_is_an_environment_failure() {
    assert_eq!(location_under(None), Err(StoreError::Environment));
}

#[test]
fn location_names_the_file_of_each_collection() {
    let location = sample();
    assert_eq!(location.file(Collection::Notes), &location.notes_file);
    assert_eq!(location.file(Collection::Categories), &location.categories_file);
}

#[test]
fn find_location_fails_only_for_want_of_a_home_directory() {
    match find_location() {
        Ok(location) => {
            assert_eq!(location.dir.file_name().unwrap(), APP_DIR_NAME);
            assert_eq!(location.notes_file, location.dir.join(NOTES_FILE));
            assert_eq!(location.categories_file, location.dir.join(CATEGORIES_FILE));
        }
        Err(e) => assert_eq!(e, StoreError::Environment),
    }
}

#[test]
fn location_depends_on_the_home_directory_alone() {
    let home = PathBuf::from("/home/bob");
    assert_eq!(location_under(Some(home.clone())), location_under(Some(home.clone())));
    assert_ne!(location_under(Some(home)), Ok(sample()));
}

#[test]
fn directory_is_made_only_where_it_is_missing() {
    assert_eq!(directory_step(true), DirectoryStep::Keep);
    assert_eq!(directory_step(false), DirectoryStep::Create);
}

#[test]
fn data_directory_that_is_there_resolves_to_the_location() {
    assert_eq!(get_app_data_dir(sample(), Ok(())), Ok(sample()));
}

#[test]
fn data_directory_that_cannot_be_made_is_an_io_failure() {
    assert_eq!(
        get_app_data_dir(sample(), Err("Permission denied (os error 13)".to_string())),
        Err(StoreError::Io {
            operation: IoOperation::CreateDirectory,
            detail: "Permission denied (os error 13)".to_string(),
        })
    );
}

#[test]
fn file_and_directory_names() {
    assert_eq!(APP_DIR_NAME, ".notelist");
    assert_eq!(NOTES_FILE, "notes.json");
    assert_eq!(CATEGORIES_FILE, "categories.json");
    assert_eq!(file_name(Collection::Notes), "notes.json");
    assert_eq!(file_name(Collection::Categories), "categories.json");
}

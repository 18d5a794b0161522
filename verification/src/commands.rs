//! The commands of the store. Each one starts from what reading the backing
//! file gave, and answers with a value or with the failure to report. A
//! command that changes a collection answers with the whole collection as it
//! is to be written back.

use vstd::prelude::*;
use crate::category_store;
use crate::error::{Collection, IoOperation, StoreError};
use crate::lexical::strictly_ascending;
use crate::model::{Category, CategoryView, Note, NoteView};
use crate::note_store;

verus! {

/// What reading the backing file of a collection gave.
#[derive(Debug, PartialEq, Eq)]
pub enum ReadOutcome<T> {
    /// There is no such file.
    Absent,
    /// The file is there and could not be read; the text is the system's own
    /// description of the failure.
    Unreadable(String),
    /// The file was read and its text is not a list of records; the text is
    /// the decoder's description of the fault.
    Malformed(String),
    /// The records that the file holds, in their order.
    Records(Vec<T>),
}

/// The collection that the outcome stands for, or the failure that it means.
/// A missing file is an empty collection; a file that cannot be read or
/// decoded is a failure and never a collection.
pub open spec fn loaded<T: DeepView>(outcome: ReadOutcome<T>, collection: Collection) -> Result<
    Seq<T::V>,
    StoreError,
> {
    match outcome {
        ReadOutcome::Absent => Ok(Seq::empty()),
        ReadOutcome::Unreadable(detail) => Err(
            StoreError::Io { operation: IoOperation::Read(collection), detail },
        ),
        ReadOutcome::Malformed(detail) => Err(StoreError::Decode { collection, detail }),
        ReadOutcome::Records(records) => Ok(records.deep_view()),
    }
}

/// `r` holds the records that `expected` names, or fails as `expected` does.
pub open spec fn delivers<T: DeepView>(
    r: Result<Vec<T>, StoreError>,
    expected: Result<Seq<T::V>, StoreError>,
) -> bool {
    match expected {
        Ok(records) => r matches Ok(v) && v.deep_view() == records,
        Err(e) => r matches Err(x) && x == e,
    }
}

/// Turns the outcome of a read into the collection or the failure.
pub fn load_all<T: DeepView>(outcome: ReadOutcome<T>, collection: Collection) -> (r: Result<
    Vec<T>,
    StoreError,
>)
    ensures
        delivers(r, loaded(outcome, collection)),
{
    match outcome {
        ReadOutcome::Absent => {
            let none: Vec<T> = Vec::new();
            assert(none.deep_view() =~= Seq::<T::V>::empty());
            Ok(none)
        },
        ReadOutcome::Unreadable(detail) => Err(
            StoreError::Io { operation: IoOperation::Read(collection), detail },
        ),
        ReadOutcome::Malformed(detail) => Err(StoreError::Decode { collection, detail }),
        ReadOutcome::Records(records) => Ok(records),
    }
}

/// What becomes of the outcome of a write: a failed write is an I/O failure
/// that carries the system's description.
pub fn written(result: Result<(), String>, collection: Collection) -> (r: Result<(), StoreError>)
    ensures
        r == match result {
            Ok(()) => Ok::<(), StoreError>(()),
            Err(detail) => Err(StoreError::Io { operation: IoOperation::Write(collection), detail }),
        },
{
    match result {
        Ok(()) => Ok(()),
        Err(detail) => Err(StoreError::Io { operation: IoOperation::Write(collection), detail }),
    }
}

/// All notes, in their stored order.
pub fn get_notes(outcome: ReadOutcome<Note>) -> (r: Result<Vec<Note>, StoreError>)
    ensures
        delivers(r, loaded(outcome, Collection::Notes)),
{
    load_all(outcome, Collection::Notes)
}

/// The first note that carries `id`; no such note is `Ok(None)`.
pub fn get_note_by_id(outcome: ReadOutcome<Note>, id: u32) -> (r: Result<Option<Note>, StoreError>)
    ensures
        match loaded(outcome, Collection::Notes) {
            Ok(notes) => r matches Ok(found) && found.deep_view() == note_store::note_with_id(
                notes,
                id,
            ),
            Err(e) => r matches Err(x) && x == e,
        },
{
    match load_all(outcome, Collection::Notes) {
        Ok(notes) => Ok(note_store::get_by_id(notes, id)),
        Err(e) => Err(e),
    }
}

/// Every category name that some note carries, each once, in ascending
/// order.
pub fn get_all_categories(outcome: ReadOutcome<Note>) -> (r: Result<Vec<String>, StoreError>)
    ensures
        match loaded(outcome, Collection::Notes) {
            Ok(notes) => r matches Ok(names) && strictly_ascending(names.deep_view())
                && names.deep_view().to_set() == note_store::category_names(notes),
            Err(e) => r matches Err(x) && x == e,
        },
{
    match load_all(outcome, Collection::Notes) {
        Ok(notes) => Ok(note_store::list_categories(&notes)),
        Err(e) => Err(e),
    }
}

/// What a selection of categories shows of the outcome of a read.
pub open spec fn shown(outcome: ReadOutcome<Note>, selected: Seq<Seq<char>>) -> Result<
    Seq<NoteView>,
    StoreError,
> {
    match loaded(outcome, Collection::Notes) {
        Ok(notes) => Ok(note_store::filtered(notes, selected)),
        Err(e) => Err(e),
    }
}

/// The notes that have a category in common with the selection, in their
/// order; all notes when the selection is empty.
pub fn get_notes_by_categories(outcome: ReadOutcome<Note>, selected_categories: Vec<String>) -> (r:
    Result<Vec<Note>, StoreError>)
    ensures
        delivers(r, shown(outcome, selected_categories.deep_view())),
{
    match load_all(outcome, Collection::Notes) {
        Ok(notes) => Ok(note_store::filter_by_categories(notes, &selected_categories)),
        Err(e) => Err(e),
    }
}

/// All categories, in their stored order.
pub fn get_categories(outcome: ReadOutcome<Category>) -> (r: Result<Vec<Category>, StoreError>)
    ensures
        delivers(r, loaded(outcome, Collection::Categories)),
{
    load_all(outcome, Collection::Categories)
}

/// The category collection to write back when `category` is saved.
pub open spec fn categories_after_save(
    outcome: ReadOutcome<Category>,
    category: CategoryView,
) -> Result<Seq<CategoryView>, StoreError> {
    match loaded(outcome, Collection::Categories) {
        Ok(categories) => Ok(category_store::upserted(categories, category)),
        Err(e) => Err(e),
    }
}

/// Saves a category under its name and answers with the collection to write
/// back.
pub fn save_category(outcome: ReadOutcome<Category>, category: Category) -> (r: Result<
    Vec<Category>,
    StoreError,
>)
    ensures
        delivers(r, categories_after_save(outcome, category@)),
{
    match load_all(outcome, Collection::Categories) {
        Ok(categories) => Ok(category_store::upsert(categories, category)),
        Err(e) => Err(e),
    }
}

/// The category collection to write back when `name` is deleted.
pub open spec fn categories_after_delete(outcome: ReadOutcome<Category>, name: Seq<char>) -> Result<
    Seq<CategoryView>,
    StoreError,
> {
    match loaded(outcome, Collection::Categories) {
        Ok(categories) => Ok(category_store::without_name(categories, name)),
        Err(e) => Err(e),
    }
}

/// Deletes the category of the given name and answers with the collection to
/// write back; a name that no category has changes nothing and is no failure.
pub fn delete_category(outcome: ReadOutcome<Category>, category_name: String) -> (r: Result<
    Vec<Category>,
    StoreError,
>)
    ensures
        delivers(r, categories_after_delete(outcome, category_name@)),
{
    match load_all(outcome, Collection::Categories) {
        Ok(categories) => Ok(category_store::delete_by_name(categories, &category_name)),
        Err(e) => Err(e),
    }
}

/// The note collection to write back when the note with `id` is deleted.
pub open spec fn notes_after_delete(outcome: ReadOutcome<Note>, id: u32) -> Result<
    Seq<NoteView>,
    StoreError,
> {
    match loaded(outcome, Collection::Notes) {
        Ok(notes) => Ok(note_store::without_id(notes, id)),
        Err(e) => Err(e),
    }
}

/// Deletes the note with the given id and answers with the collection to
/// write back; an id that no note has changes nothing and is no failure.
pub fn delete_note(outcome: ReadOutcome<Note>, id: u32) -> (r: Result<Vec<Note>, StoreError>)
    ensures
        delivers(r, notes_after_delete(outcome, id)),
{
    match load_all(outcome, Collection::Notes) {
        Ok(notes) => Ok(note_store::delete_by_id(notes, id)),
        Err(e) => Err(e),
    }
}

/// The id to offer for the next new note.
pub open spec fn next_note_id(outcome: ReadOutcome<Note>) -> Result<int, StoreError> {
    match loaded(outcome, Collection::Notes) {
        Ok(notes) => note_store::next_id_of(notes),
        Err(e) => Err(e),
    }
}

/// The id to offer for the next new note: one more than the largest id in
/// use, 1 when there is no note. Where a note carries the largest id there
/// is, no id is left, and the answer is that failure.
pub fn get_next_note_id(outcome: ReadOutcome<Note>) -> (r: Result<u32, StoreError>)
    ensures
        match next_note_id(outcome) {
            Ok(id) => r matches Ok(next) && next == id,
            Err(e) => r matches Err(x) && x == e,
        },
{
    match load_all(outcome, Collection::Notes) {
        Ok(notes) => note_store::next_id(&notes),
        Err(e) => Err(e),
    }
}

/// The note collection to write back when `note` is saved.
pub open spec fn notes_after_save(outcome: ReadOutcome<Note>, note: NoteView) -> Result<
    Seq<NoteView>,
    StoreError,
> {
    match loaded(outcome, Collection::Notes) {
        Ok(notes) => Ok(note_store::upserted(notes, note)),
        Err(e) => Err(e),
    }
}

/// Saves a note under its id and answers with the collection to write back.
pub fn save_note(outcome: ReadOutcome<Note>, note: Note) -> (r: Result<Vec<Note>, StoreError>)
    ensures
        delivers(r, notes_after_save(outcome, note@)),
{
    match load_all(outcome, Collection::Notes) {
        Ok(notes) => Ok(note_store::upsert(notes, note)),
        Err(e) => Err(e),
    }
}

} // verus!

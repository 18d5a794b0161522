//! Laws that the rules of the store obey, each proved for every collection.

use std::path::PathBuf;
use vstd::prelude::*;
use crate::category_store;
use crate::commands::{loaded, notes_after_delete, notes_after_save, shown, ReadOutcome};
use crate::error::{Collection, IoOperation, StoreError};
use crate::lexical::{
    lemma_name_before_irreflexive, lemma_name_before_transitive, name_before, strictly_ascending,
};
use crate::location::{
    joined, location_of, resolution, step_for, DirectoryStep, StorageLocation, APP_DIR_NAME,
};
use crate::model::{CategoryView, Note, NoteView};
use crate::note_store::{
    carrying, filtered, has_id, lacks_id, lemma_first_with_id_is_position, lemma_max_id,
    lemma_note_with_id_push, lemma_position_of_id, max_id, next_id_of, note_with_id,
    position_of_id, sharing, unique_ids, upserted, without_id,
};
use crate::sequences::{lemma_filter_keeps_all, lemma_filter_keeps_order};

verus! {

/// A note that was saved is the note found under its id.
pub proof fn saved_note_is_found(notes: Seq<NoteView>, note: NoteView)
    ensures
        note_with_id(upserted(notes, note), note.id) == Some(note),
{
    lemma_position_of_id(notes, note.id);
    let after = upserted(notes, note);
    match position_of_id(notes, note.id) {
        Some(i) => lemma_first_with_id_is_position(after, note.id, i),
        None => lemma_first_with_id_is_position(after, note.id, notes.len() as int),
    }
}

/// A note that the save command stored is the note found under its id in
/// what was stored; the command fails only where the collection could not be
/// loaded.
pub proof fn stored_note_is_found(outcome: ReadOutcome<Note>, note: NoteView)
    ensures
        match notes_after_save(outcome, note) {
            Ok(stored) => note_with_id(stored, note.id) == Some(note),
            Err(e) => loaded(outcome, Collection::Notes) == Err::<Seq<NoteView>, StoreError>(e),
        },
{
    if let Ok(notes) = loaded(outcome, Collection::Notes) {
        saved_note_is_found(notes, note);
    }
}

/// Saving the same note twice in a row leaves the collection as saving it
/// once does.
pub proof fn saving_twice_is_saving_once(notes: Seq<NoteView>, note: NoteView)
    ensures
        upserted(upserted(notes, note), note) == upserted(notes, note),
{
    lemma_position_of_id(notes, note.id);
    let once = upserted(notes, note);
    match position_of_id(notes, note.id) {
        Some(i) => lemma_first_with_id_is_position(once, note.id, i),
        None => lemma_first_with_id_is_position(once, note.id, notes.len() as int),
    }
}

/// Saving a note changes the length of the collection by one when its id is
/// new, and not at all when it replaces a note.
pub proof fn saving_adds_at_most_one(notes: Seq<NoteView>, note: NoteView)
    ensures
        upserted(notes, note).len() == if has_id(notes, note.id) {
            notes.len()
        } else {
            notes.len() + 1
        },
{
    lemma_position_of_id(notes, note.id);
}

/// Saving a note leaves the notes under every other id as they were.
pub proof fn saving_leaves_other_ids(notes: Seq<NoteView>, note: NoteView, id: u32)
    requires
        id != note.id,
    ensures
        note_with_id(upserted(notes, note), id) == note_with_id(notes, id),
{
    let after = upserted(notes, note);
    lemma_position_of_id(notes, note.id);
    lemma_position_of_id(notes, id);
    match position_of_id(notes, id) {
        Some(i) => lemma_first_with_id_is_position(after, id, i),
        None => lemma_position_of_id(after, id),
    }
}

/// The next id of an empty collection is 1, and after a note was saved the
/// next id, where there is one, lies above the id of that note; there is
/// none only where a note carries the largest id there is.
pub proof fn next_id_lies_above_saved(notes: Seq<NoteView>, note: NoteView)
    ensures
        next_id_of(Seq::<NoteView>::empty()) == Ok::<int, StoreError>(1),
        match next_id_of(upserted(notes, note)) {
            Ok(id) => id > note.id && id == max_id(upserted(notes, note)) + 1,
            Err(e) => e == StoreError::IdsExhausted && has_id(upserted(notes, note), u32::MAX),
        },
{
    let after = upserted(notes, note);
    saved_note_is_found(notes, note);
    lemma_position_of_id(after, note.id);
    lemma_max_id(after);
}

/// An empty selection shows every note, in the stored order, and so a query
/// with an empty selection answers as listing all notes does.
pub proof fn empty_selection_shows_all(outcome: ReadOutcome<Note>, notes: Seq<NoteView>)
    ensures
        filtered(notes, Seq::<Seq<char>>::empty()) == notes,
        shown(outcome, Seq::<Seq<char>>::empty()) == loaded(outcome, Collection::Notes),
{
}

/// A selection of one category shows exactly the notes that carry that
/// category, in the stored order.
pub proof fn single_selection_shows_carriers(notes: Seq<NoteView>, name: Seq<char>)
    ensures
        filtered(notes, seq![name]) == notes.filter(carrying(name)),
{
    let selected = seq![name];
    assert forall|n: NoteView| #[trigger] sharing(selected)(n) == carrying(name)(n) by {
        assert(selected[0] == name);
    }
    assert(sharing(selected) =~= carrying(name));
}

/// Deleting an id that no note carries leaves the collection unchanged, and
/// the command answers with that unchanged collection.
pub proof fn deleting_absent_id_changes_nothing(
    outcome: ReadOutcome<Note>,
    notes: Seq<NoteView>,
    id: u32,
)
    requires
        !has_id(notes, id),
    ensures
        without_id(notes, id) == notes,
        loaded(outcome, Collection::Notes) == Ok::<Seq<NoteView>, StoreError>(notes) ==> notes_after_delete(
            outcome,
            id,
        ) == Ok::<Seq<NoteView>, StoreError>(notes),
{
    lemma_filter_keeps_all(notes, lacks_id(id));
}

/// After an id was deleted no note carries it.
pub proof fn deleted_id_is_gone(notes: Seq<NoteView>, id: u32)
    ensures
        !has_id(without_id(notes, id), id),
        note_with_id(without_id(notes, id), id) is None,
{
    let after = without_id(notes, id);
    assert forall|i: int| 0 <= i < after.len() implies after[i].id != id by {
        notes.lemma_filter_pred(lacks_id(id), i);
    }
    lemma_position_of_id(after, id);
}

/// Deleting an id leaves the notes under every other id as they were.
pub proof fn deleting_leaves_other_ids(notes: Seq<NoteView>, id: u32, other: u32)
    requires
        other != id,
    ensures
        note_with_id(without_id(notes, id), other) == note_with_id(notes, other),
    decreases notes.len(),
{
    reveal(Seq::filter);
    if notes.len() > 0 {
        let rest = notes.drop_last();
        let last = notes.last();
        deleting_leaves_other_ids(rest, id, other);
        assert(rest.push(last) =~= notes);
        lemma_note_with_id_push(rest, last, other);
        if last.id != id {
            lemma_note_with_id_push(without_id(rest, id), last, other);
        }
    }
}

/// What is left after a deletion stands in the order in which it stood: two
/// notes that are left come from two places of the collection in the same
/// order.
pub proof fn deleting_keeps_order(notes: Seq<NoteView>, id: u32, i: int, j: int) -> (at: (int, int))
    requires
        0 <= i < j < without_id(notes, id).len(),
    ensures
        0 <= at.0 < at.1 < notes.len(),
        notes[at.0] == without_id(notes, id)[i],
        notes[at.1] == without_id(notes, id)[j],
{
    lemma_filter_keeps_order(notes, lacks_id(id), i, j)
}

/// Saving a note into a collection whose ids are unique leaves them unique.
pub proof fn saving_keeps_ids_unique(notes: Seq<NoteView>, note: NoteView)
    requires
        unique_ids(notes),
    ensures
        unique_ids(upserted(notes, note)),
{
    lemma_position_of_id(notes, note.id);
}

/// Deleting from a collection whose ids are unique leaves them unique.
pub proof fn deleting_keeps_ids_unique(notes: Seq<NoteView>, id: u32)
    requires
        unique_ids(notes),
    ensures
        unique_ids(without_id(notes, id)),
{
    let after = without_id(notes, id);
    assert forall|i: int, j: int| 0 <= i < j < after.len() implies after[i].id != after[j].id by {
        let at = lemma_filter_keeps_order(notes, lacks_id(id), i, j);
    }
}

/// A category that was saved stands in the collection under its name.
pub proof fn saved_category_is_found(categories: Seq<CategoryView>, category: CategoryView)
    ensures
        category_store::position_of_name(
            category_store::upserted(categories, category),
            category.name,
        ) matches Some(i) && category_store::upserted(categories, category)[i] == category,
{
    category_store::lemma_position_of_name(categories, category.name);
    let after = category_store::upserted(categories, category);
    match category_store::position_of_name(categories, category.name) {
        Some(i) => category_store::lemma_first_with_name_is_position(after, category.name, i),
        None => category_store::lemma_first_with_name_is_position(
            after,
            category.name,
            categories.len() as int,
        ),
    }
}

/// Saving the same category twice in a row leaves the collection as saving
/// it once does.
pub proof fn saving_category_twice_is_saving_once(
    categories: Seq<CategoryView>,
    category: CategoryView,
)
    ensures
        category_store::upserted(category_store::upserted(categories, category), category)
            == category_store::upserted(categories, category),
{
    saved_category_is_found(categories, category);
    let once = category_store::upserted(categories, category);
    category_store::lemma_position_of_name(once, category.name);
}

/// Deleting a name that no category has leaves the collection unchanged.
pub proof fn deleting_absent_name_changes_nothing(categories: Seq<CategoryView>, name: Seq<char>)
    requires
        !category_store::has_name(categories, name),
    ensures
        category_store::without_name(categories, name) == categories,
{
    lemma_filter_keeps_all(categories, category_store::lacks_name(name));
}

/// After a name was deleted no category has it.
pub proof fn deleted_name_is_gone(categories: Seq<CategoryView>, name: Seq<char>)
    ensures
        !category_store::has_name(category_store::without_name(categories, name), name),
{
    let after = category_store::without_name(categories, name);
    assert forall|i: int| 0 <= i < after.len() implies after[i].name != name by {
        categories.lemma_filter_pred(category_store::lacks_name(name), i);
    }
}

/// Saving a category into a collection whose names are unique leaves them
/// unique.
pub proof fn saving_keeps_names_unique(categories: Seq<CategoryView>, category: CategoryView)
    requires
        category_store::unique_names(categories),
    ensures
        category_store::unique_names(category_store::upserted(categories, category)),
{
    category_store::lemma_position_of_name(categories, category.name);
}

/// Deleting from a collection whose names are unique leaves them unique.
pub proof fn deleting_keeps_names_unique(categories: Seq<CategoryView>, name: Seq<char>)
    requires
        category_store::unique_names(categories),
    ensures
        category_store::unique_names(category_store::without_name(categories, name)),
{
    let after = category_store::without_name(categories, name);
    assert forall|i: int, j: int| 0 <= i < j < after.len() implies after[i].name
        != after[j].name by {
        let at = lemma_filter_keeps_order(categories, category_store::lacks_name(name), i, j);
    }
}

/// Resolving the location: without a home directory it is an environment
/// failure; with one, the directory is the home directory with the fixed
/// name appended, whether it was there or had to be made, and it is the same
/// for every call with that home directory; a directory that is there is
/// kept, and one that could not be made is an I/O failure.
pub proof fn resolving_the_location(home_dir: PathBuf, made: Result<(), String>)
    ensures
        resolution(None, made) == Err::<StorageLocation, StoreError>(StoreError::Environment),
        resolution(Some(home_dir), Ok(())) == Ok::<StorageLocation, StoreError>(
            location_of(home_dir),
        ),
        location_of(home_dir).dir == joined(home_dir, APP_DIR_NAME@),
        made matches Err(detail) ==> resolution(Some(home_dir), made) == Err::<
            StorageLocation,
            StoreError,
        >(StoreError::Io { operation: IoOperation::CreateDirectory, detail }),
        step_for(true) == DirectoryStep::Keep,
        step_for(false) == DirectoryStep::Create,
{
}

/// Two strictly ascending lists of the same names are the same list: the
/// names in use determine the list of categories.
pub proof fn ascending_lists_of_same_names_agree(a: Seq<Seq<char>>, b: Seq<Seq<char>>)
    requires
        strictly_ascending(a),
        strictly_ascending(b),
        a.to_set() == b.to_set(),
    ensures
        a == b,
    decreases a.len(),
{
    if a.len() == 0 {
        if b.len() > 0 {
            assert(b.to_set().contains(b[0]));
            assert(a.to_set().contains(b[0]));
        }
        assert(a =~= b);
    } else {
        assert(a.to_set().contains(a[0]));
        assert(b.to_set().contains(a[0]));
        let k = choose|k: int| 0 <= k < b.len() && b[k] == a[0];
        assert(b.to_set().contains(b[0]));
        assert(a.to_set().contains(b[0]));
        let m = choose|m: int| 0 <= m < a.len() && a[m] == b[0];
        lemma_name_before_irreflexive(a[0]);
        if k > 0 {
            assert(name_before(b[0], b[k]));
            if m > 0 {
                assert(name_before(a[0], a[m]));
                lemma_name_before_transitive(a[0], b[0], a[0]);
            }
        }
        assert(a[0] == b[0]);
        let ta = a.drop_first();
        let tb = b.drop_first();
        assert forall|x: Seq<char>| ta.to_set().contains(x) <==> tb.to_set().contains(x) by {
            lemma_name_before_irreflexive(x);
            if ta.to_set().contains(x) {
                let i = choose|i: int| 0 <= i < ta.len() && ta[i] == x;
                assert(a[i + 1] == x);
                assert(name_before(a[0], a[i + 1]));
                assert(a.to_set().contains(x));
                assert(b.to_set().contains(x));
                let j = choose|j: int| 0 <= j < b.len() && b[j] == x;
                assert(j > 0);
                assert(tb[j - 1] == x);
            }
            if tb.to_set().contains(x) {
                let i = choose|i: int| 0 <= i < tb.len() && tb[i] == x;
                assert(b[i + 1] == x);
                assert(name_before(b[0], b[i + 1]));
                assert(b.to_set().contains(x));
                assert(a.to_set().contains(x));
                let j = choose|j: int| 0 <= j < a.len() && a[j] == x;
                assert(j > 0);
                assert(ta[j - 1] == x);
            }
        }
        assert(ta.to_set() =~= tb.to_set());
        assert forall|i: int, j: int| 0 <= i < j < ta.len() implies name_before(ta[i], ta[j]) by {
            assert(name_before(a[i + 1], a[j + 1]));
        }
        assert forall|i: int, j: int| 0 <= i < j < tb.len() implies name_before(tb[i], tb[j]) by {
            assert(name_before(b[i + 1], b[j + 1]));
        }
        ascending_lists_of_same_names_agree(ta, tb);
        assert(a =~= seq![a[0]] + ta);
        assert(b =~= seq![b[0]] + tb);
    }
}

} // verus!

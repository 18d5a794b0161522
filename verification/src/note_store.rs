//! The note collection: lookup by id, replacement or insertion by id, removal
//! by id, the next free id, filtering by category and the list of all
//! category names in use.

use vstd::prelude::*;
use crate::error::StoreError;
use crate::lexical::{insert_name, strictly_ascending};
use crate::model::{Note, NoteView};

verus! {

/// Index of the first note that carries `id`, if any does.
pub open spec fn position_of_id(notes: Seq<NoteView>, id: u32) -> Option<int>
    decreases notes.len(),
{
    if notes.len() == 0 {
        None
    } else if notes[0].id == id {
        Some(0)
    } else {
        match position_of_id(notes.drop_first(), id) {
            Some(i) => Some(i + 1),
            None => None,
        }
    }
}

/// `i` is the index of the first note that carries `id`.
pub open spec fn is_first_with_id(notes: Seq<NoteView>, id: u32, i: int) -> bool {
    &&& 0 <= i < notes.len()
    &&& notes[i].id == id
    &&& forall|j: int| 0 <= j < i ==> notes[j].id != id
}

/// Some note carries `id`.
pub open spec fn has_id(notes: Seq<NoteView>, id: u32) -> bool {
    exists|i: int| 0 <= i < notes.len() && notes[i].id == id
}

/// No two notes of the collection carry the same id.
pub open spec fn unique_ids(notes: Seq<NoteView>) -> bool {
    forall|i: int, j: int| 0 <= i < j < notes.len() ==> notes[i].id != notes[j].id
}

/// The collection after `note` was saved: `note` stands where the first note
/// with its id stood, or at the end if there was none.
pub open spec fn upserted(notes: Seq<NoteView>, note: NoteView) -> Seq<NoteView> {
    match position_of_id(notes, note.id) {
        Some(i) => notes.update(i, note),
        None => notes.push(note),
    }
}

/// `position_of_id` finds the first note with the id, and finds one whenever
/// there is one.
pub proof fn lemma_position_of_id(notes: Seq<NoteView>, id: u32)
    ensures
        match position_of_id(notes, id) {
            Some(i) => is_first_with_id(notes, id, i),
            None => !has_id(notes, id),
        },
    decreases notes.len(),
{
    if notes.len() > 0 && notes[0].id != id {
        let rest = notes.drop_first();
        lemma_position_of_id(rest, id);
        match position_of_id(rest, id) {
            Some(i) => {
                assert forall|j: int| 0 <= j < i + 1 implies notes[j].id != id by {
                    if j > 0 {
                        assert(notes[j] == rest[j - 1]);
                    }
                }
            },
            None => {
                assert forall|j: int| 0 <= j < notes.len() implies notes[j].id != id by {
                    if j > 0 {
                        assert(notes[j] == rest[j - 1]);
                    }
                }
            },
        }
    }
}

/// The first note with the id stands at `i`, and nowhere else.
pub proof fn lemma_first_with_id_is_position(notes: Seq<NoteView>, id: u32, i: int)
    requires
        is_first_with_id(notes, id, i),
    ensures
        position_of_id(notes, id) == Some(i),
{
    lemma_position_of_id(notes, id);
}

/// Index of the first note that carries `id`.
pub fn find_by_id(notes: &Vec<Note>, id: u32) -> (r: Option<usize>)
    ensures
        match r {
            Some(i) => i < notes.len() && position_of_id(notes.deep_view(), id) == Some(i as int),
            None => position_of_id(notes.deep_view(), id) is None,
        },
{
    let mut i: usize = 0;
    while i < notes.len()
        invariant
            0 <= i <= notes.len(),
            forall|j: int| 0 <= j < i ==> notes.deep_view()[j].id != id,
        decreases notes.len() - i,
    {
        if notes[i].id == id {
            proof {
                lemma_first_with_id_is_position(notes.deep_view(), id, i as int);
            }
            return Some(i);
        }
        i += 1;
    }
    proof {
        lemma_position_of_id(notes.deep_view(), id);
    }
    None
}

/// Saves `note`: it replaces the first note with its id where that note
/// stands, or is added at the end when no note has its id.
pub fn upsert(notes: Vec<Note>, note: Note) -> (r: Vec<Note>)
    ensures
        r.deep_view() == upserted(notes.deep_view(), note@),
{
    let mut notes = notes;
    match find_by_id(&notes, note.id) {
        Some(i) => notes.set(i, note),
        None => notes.push(note),
    }
    notes
}

/// Tells the notes to keep when `id` is removed.
pub open spec fn lacks_id(id: u32) -> spec_fn(NoteView) -> bool {
    |n: NoteView| n.id != id
}

/// The collection without the notes that carry `id`; the others keep their
/// order.
pub open spec fn without_id(notes: Seq<NoteView>, id: u32) -> Seq<NoteView> {
    notes.filter(lacks_id(id))
}

/// Removes every note that carries `id` and leaves the others in place.
pub fn delete_by_id(notes: Vec<Note>, id: u32) -> (r: Vec<Note>)
    ensures
        r.deep_view() == without_id(notes.deep_view(), id),
{
    let ghost all = notes.deep_view();
    let mut kept: Vec<Note> = Vec::new();
    assert(kept.deep_view() =~= without_id(all.take(0), id)) by {
        reveal(Seq::filter);
    }
    for note in it: notes.into_iter()
        invariant
            it.seq().len() == all.len(),
            forall|k: int| 0 <= k < all.len() ==> it.seq()[k]@ == all[k],
            kept.deep_view() == without_id(all.take(it.index()), id),
    {
        proof {
            let seen = all.take(it.index());
            assert(all.take(it.index() + 1) =~= seen.push(note@));
            seen.lemma_filter_push(note@, lacks_id(id));
        }
        if note.id != id {
            kept.push(note);
        }
    }
    assert(all.take(all.len() as int) =~= all);
    kept
}

/// The first note that carries `id`, if any does.
pub open spec fn note_with_id(notes: Seq<NoteView>, id: u32) -> Option<NoteView> {
    match position_of_id(notes, id) {
        Some(i) => Some(notes[i]),
        None => None,
    }
}

/// The note found under an id in a collection with one more note at its end
/// is the note found before, or that last note where none was found and it
/// carries the id.
pub proof fn lemma_note_with_id_push(notes: Seq<NoteView>, note: NoteView, id: u32)
    ensures
        note_with_id(notes.push(note), id) == match note_with_id(notes, id) {
            Some(found) => Some(found),
            None => if note.id == id {
                Some(note)
            } else {
                None
            },
        },
{
    let more = notes.push(note);
    lemma_position_of_id(notes, id);
    lemma_position_of_id(more, id);
    match position_of_id(notes, id) {
        Some(i) => {
            lemma_first_with_id_is_position(more, id, i);
        },
        None => {
            if note.id == id {
                lemma_first_with_id_is_position(more, id, notes.len() as int);
            }
        },
    }
}

/// Looks up the first note that carries `id`; `None` when no note does.
pub fn get_by_id(notes: Vec<Note>, id: u32) -> (r: Option<Note>)
    ensures
        r.deep_view() == note_with_id(notes.deep_view(), id),
{
    let mut notes = notes;
    match find_by_id(&notes, id) {
        Some(i) => Some(notes.swap_remove(i)),
        None => None,
    }
}

/// The largest id in the collection; 0 when the collection is empty.
pub open spec fn max_id(notes: Seq<NoteView>) -> int
    decreases notes.len(),
{
    if notes.len() == 0 {
        0
    } else {
        let rest = max_id(notes.drop_last());
        if notes.last().id > rest {
            notes.last().id as int
        } else {
            rest
        }
    }
}

/// No id is larger than `max_id`, and in a collection that is not empty some
/// note carries it.
pub proof fn lemma_max_id(notes: Seq<NoteView>)
    ensures
        0 <= max_id(notes) <= u32::MAX,
        forall|i: int| 0 <= i < notes.len() ==> notes[i].id <= max_id(notes),
        notes.len() > 0 ==> has_id(notes, max_id(notes) as u32),
    decreases notes.len(),
{
    if notes.len() > 0 {
        let rest = notes.drop_last();
        lemma_max_id(rest);
        assert forall|i: int| 0 <= i < notes.len() implies notes[i].id <= max_id(notes) by {
            if i < rest.len() {
                assert(notes[i] == rest[i]);
            }
        }
    }
}

/// The largest id in the collection; 0 when the collection is empty.
pub fn highest_id(notes: &Vec<Note>) -> (r: u32)
    ensures
        r == max_id(notes.deep_view()),
{
    let ghost all = notes.deep_view();
    let mut highest: u32 = 0;
    for i in 0..notes.len()
        invariant
            all == notes.deep_view(),
            highest == max_id(all.take(i as int)),
    {
        assert(all.take(i + 1).drop_last() =~= all.take(i as int));
        if notes[i].id > highest {
            highest = notes[i].id;
        }
    }
    assert(all.take(notes.len() as int) =~= all);
    highest
}

/// The id to give to the next new note: one more than the largest id in the
/// collection, and so 1 for an empty collection. Where a note carries the
/// largest id there is, no id is left, which is a failure.
pub open spec fn next_id_of(notes: Seq<NoteView>) -> Result<int, StoreError> {
    if max_id(notes) < u32::MAX {
        Ok(max_id(notes) + 1)
    } else {
        Err(StoreError::IdsExhausted)
    }
}

/// The id to give to the next new note: one more than the largest id in the
/// collection, and 1 for an empty collection. A collection that holds the
/// largest id there is has no next id, and the answer says so.
pub fn next_id(notes: &Vec<Note>) -> (r: Result<u32, StoreError>)
    ensures
        match next_id_of(notes.deep_view()) {
            Ok(id) => r matches Ok(next) && next == id,
            Err(e) => r matches Err(x) && x == e,
        },
{
    let highest = highest_id(notes);
    if highest < u32::MAX {
        Ok(highest + 1)
    } else {
        Err(StoreError::IdsExhausted)
    }
}

/// The note has at least one category in common with `selected`.
pub open spec fn shares_category(note: NoteView, selected: Seq<Seq<char>>) -> bool {
    exists|j: int| 0 <= j < note.categories.len() && selected.contains(#[trigger] note.categories[j])
}

/// Tells the notes that a selection of categories admits.
pub open spec fn sharing(selected: Seq<Seq<char>>) -> spec_fn(NoteView) -> bool {
    |n: NoteView| shares_category(n, selected)
}

/// Tells the notes that carry the category `name`.
pub open spec fn carrying(name: Seq<char>) -> spec_fn(NoteView) -> bool {
    |n: NoteView| n.categories.contains(name)
}

/// The notes that a selection of categories shows: all of them for an empty
/// selection, else those with a category in the selection, in their order.
pub open spec fn filtered(notes: Seq<NoteView>, selected: Seq<Seq<char>>) -> Seq<NoteView> {
    if selected.len() == 0 {
        notes
    } else {
        notes.filter(sharing(selected))
    }
}

/// Tells whether `name` is one of `names`.
pub fn holds_name(names: &Vec<String>, name: &String) -> (r: bool)
    ensures
        r == names.deep_view().contains(name@),
{
    for i in 0..names.len()
        invariant
            forall|k: int| 0 <= k < i ==> names.deep_view()[k] != name@,
    {
        if names[i] == *name {
            assert(names.deep_view()[i as int] == name@);
            return true;
        }
    }
    false
}

/// Tells whether the note has a category in common with `selected`.
pub fn has_selected_category(note: &Note, selected: &Vec<String>) -> (r: bool)
    ensures
        r == shares_category(note@, selected.deep_view()),
{
    for j in 0..note.categories.len()
        invariant
            forall|k: int| 0 <= k < j ==> !selected.deep_view().contains(#[trigger] note@.categories[k]),
    {
        if holds_name(selected, &note.categories[j]) {
            assert(selected.deep_view().contains(note@.categories[j as int]));
            return true;
        }
    }
    false
}

/// Keeps the notes that have a category in common with `selected`, in their
/// order; an empty selection keeps every note.
pub fn filter_by_categories(notes: Vec<Note>, selected: &Vec<String>) -> (r: Vec<Note>)
    ensures
        r.deep_view() == filtered(notes.deep_view(), selected.deep_view()),
{
    if selected.is_empty() {
        return notes;
    }
    let ghost all = notes.deep_view();
    let ghost chosen = selected.deep_view();
    let mut kept: Vec<Note> = Vec::new();
    assert(kept.deep_view() =~= all.take(0).filter(sharing(chosen))) by {
        reveal(Seq::filter);
    }
    for note in it: notes.into_iter()
        invariant
            chosen == selected.deep_view(),
            it.seq().len() == all.len(),
            forall|k: int| 0 <= k < all.len() ==> it.seq()[k]@ == all[k],
            kept.deep_view() == all.take(it.index()).filter(sharing(chosen)),
    {
        proof {
            let seen = all.take(it.index());
            assert(all.take(it.index() + 1) =~= seen.push(note@));
            seen.lemma_filter_push(note@, sharing(chosen));
        }
        if has_selected_category(&note, selected) {
            kept.push(note);
        }
    }
    assert(all.take(all.len() as int) =~= all);
    kept
}

/// The category names that the notes carry.
pub open spec fn category_names(notes: Seq<NoteView>) -> Set<Seq<char>> {
    Set::new(
        |name: Seq<char>|
            exists|i: int| 0 <= i < notes.len() && (#[trigger] notes[i]).categories.contains(name),
    )
}

/// One more note adds its own categories to the names in use.
pub proof fn lemma_category_names_push(notes: Seq<NoteView>, note: NoteView)
    ensures
        category_names(notes.push(note)) == category_names(notes).union(note.categories.to_set()),
{
    let more = notes.push(note);
    assert forall|name: Seq<char>| category_names(more).contains(name) <==> category_names(
        notes,
    ).union(note.categories.to_set()).contains(name) by {
        if category_names(notes).contains(name) {
            let i = choose|i: int| 0 <= i < notes.len() && (#[trigger] notes[i]).categories.contains(name);
            assert(more[i].categories.contains(name));
        }
        if note.categories.contains(name) {
            assert(more[notes.len() as int].categories.contains(name));
        }
    }
}

/// Lists every category name that some note carries, each once, in ascending
/// order.
pub fn list_categories(notes: &Vec<Note>) -> (r: Vec<String>)
    ensures
        strictly_ascending(r.deep_view()),
        r.deep_view().to_set() == category_names(notes.deep_view()),
        notes.len() == 0 ==> r.len() == 0,
{
    let ghost all = notes.deep_view();
    let mut names: Vec<String> = Vec::new();
    for i in 0..notes.len()
        invariant
            all == notes.deep_view(),
            notes.len() == 0 ==> names.len() == 0,
            strictly_ascending(names.deep_view()),
            names.deep_view().to_set() == category_names(all.take(i as int)),
    {
        let categories = &notes[i].categories;
        let ghost own = all[i as int].categories;
        assert(names.deep_view().to_set() =~= category_names(all.take(i as int)).union(
            own.take(0).to_set(),
        ));
        for j in 0..categories.len()
            invariant
                i < notes.len(),
                own == categories.deep_view(),
                strictly_ascending(names.deep_view()),
                names.deep_view().to_set() == category_names(all.take(i as int)).union(
                    own.take(j as int).to_set(),
                ),
        {
            assert(own.take(j + 1) =~= own.take(j as int).push(own[j as int]));
            assert(own.take(j + 1).to_set() =~= own.take(j as int).to_set().insert(own[j as int])) by {
                own.take(j as int).lemma_push_to_set_commute(own[j as int]);
            }
            insert_name(&mut names, categories[j].clone());
            assert(names.deep_view().to_set() =~= category_names(all.take(i as int)).union(
                own.take(j + 1).to_set(),
            ));
        }
        proof {
            assert(own.take(own.len() as int) =~= own);
            assert(all.take(i + 1) =~= all.take(i as int).push(all[i as int]));
            lemma_category_names_push(all.take(i as int), all[i as int]);
        }
    }
    assert(all.take(all.len() as int) =~= all);
    names
}

} // verus!

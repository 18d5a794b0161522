use std::collections::BTreeSet;

use notelist::category_store;
use notelist::note_store::{
    delete_by_id, filter_by_categories, get_by_id, highest_id, list_categories, next_id, upsert,
};
use notelist::{Category, Note};

struct Dice(u64);

impl Dice {
    fn roll(&mut self, sides: u64) -> u64 {
        self.0 = self.0.wrapping_mul(6364136223846793005).wrapping_add(1442695040888963407);
        (self.0 >> 33) % sides
    }
}

const NAMES: [&str; 8] = ["work", "home", "Work", "", "idea", "été", "10", "9"];

fn some_note(dice: &mut Dice) -> Note {
    let id = dice.roll(6) as u32;
    let count = dice.roll(4) as usize;
    let categories = (0..count).map(|_| NAMES[dice.roll(8) as usize].to_string()).collect();
    Note {
        id,
        title: format!("title {}", dice.roll(100)),
        description: format!("description {}", dice.roll(100)),
        content: format!("content {}", dice.roll(100)),
        img: if dice.roll(2) == 0 { None } else { Some(format!("img{}.png", dice.roll(9))) },
        categories,
        created_at: format!("2024-01-{:02}", 1 + dice.roll(28)),
    }
}

fn some_notes(dice: &mut Dice) -> Vec<Note> {
    let count = dice.roll(7) as usize;
    (0..count).map(|_| some_note(dice)).collect()
}

fn some_category(dice: &mut Dice) -> Category {
    Category {
        name: NAMES[dice.roll(8) as usize].to_string(),
        color: format!("#{:06x}", dice.roll(0x1000000)),
    }
}

#[test]
fn upsert_on_many_collections() {
    let mut dice = Dice(1);
    for _ in 0..300 {
        let notes = some_notes(&mut dice);
        let note = some_note(&mut dice);

        let mut expected = notes.clone();
        match expected.iter().position(|n| n.id == note.id) {
            Some(i) => expected[i] = note.clone(),
            None => expected.push(note.clone()),
        }
        let after = upsert(notes, note.clone());
        assert_eq!(after, expected);
        assert_eq!(get_by_id(after.clone(), note.id), Some(note.clone()));
        assert_eq!(upsert(after.clone(), note.clone()), after);
        assert!(next_id(&after).unwrap() > note.id);
    }
}

#[test]
fn delete_on_many_collections() {
    let mut dice = Dice(2);
    for _ in 0..300 {
        let notes = some_notes(&mut dice);
        let id = dice.roll(7) as u32;

        let expected: Vec<Note> = notes.iter().filter(|n| n.id != id).cloned().collect();
        let after = delete_by_id(notes.clone(), id);
        assert_eq!(after, expected);
        assert_eq!(get_by_id(after.clone(), id), None);
        if notes.iter().all(|n| n.id != id) {
            assert_eq!(after, notes);
        }
    }
}

#[test]
fn lookup_and_next_id_on_many_collections() {
    let mut dice = Dice(3);
    for _ in 0..300 {
        let notes = some_notes(&mut dice);
        let id = dice.roll(7) as u32;

        assert_eq!(get_by_id(notes.clone(), id), notes.iter().find(|n| n.id == id).cloned());
        let largest = notes.iter().map(|n| n.id).max().unwrap_or(0);
        assert_eq!(highest_id(&notes), largest);
        assert_eq!(next_id(&notes), Ok(largest + 1));
    }
}

#[test]
fn filter_on_many_collections() {
    let mut dice = Dice(4);
    for _ in 0..300 {
        let notes = some_notes(&mut dice);
        let count = dice.roll(3) as usize;
        let selected: Vec<String> =
            (0..count).map(|_| NAMES[dice.roll(8) as usize].to_string()).collect();

        let expected: Vec<Note> = if selected.is_empty() {
            notes.clone()
        } else {
            notes
                .iter()
                .filter(|n| n.categories.iter().any(|c| selected.contains(c)))
                .cloned()
                .collect()
        };
        assert_eq!(filter_by_categories(notes, &selected), expected);
    }
}

#[test]
fn list_categories_on_many_collections() {
    let mut dice = Dice(5);
    for _ in 0..300 {
        let notes = some_notes(&mut dice);
        let expected: Vec<String> = notes
            .iter()
            .flat_map(|n| n.categories.iter().cloned())
            .collect::<BTreeSet<String>>()
            .into_iter()
            .collect();
        assert_eq!(list_categories(&notes), expected);
    }
}

#[test]
fn categories_on_many_collections() {
    let mut dice = Dice(6);
    for _ in 0..300 {
        let count = dice.roll(6) as usize;
        let categories: Vec<Category> = (0..count).map(|_| some_category(&mut dice)).collect();
        let category = some_category(&mut dice);

        let mut expected = categories.clone();
        match expected.iter().position(|c| c.name == category.name) {
            Some(i) => expected[i] = category.clone(),
            None => expected.push(category.clone()),
        }
        let after = category_store::upsert(categories.clone(), category.clone());
        assert_eq!(after, expected);
        assert_eq!(category_store::upsert(after.clone(), category.clone()), after);

        let expected: Vec<Category> =
            categories.iter().filter(|c| c.name != category.name).cloned().collect();
        assert_eq!(category_store::delete_by_name(categories, &category.name), expected);
    }
}

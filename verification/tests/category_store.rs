use notelist::category_store::{delete_by_name, find_by_name, upsert};
use notelist::Category;

fn category(name: &str, color: &str) -> Category {
    Category { name: name.to_string(), color: color.to_string() }
}

#[test]
fn category_upsert_into_empty_collection_appends() {
    let c = category("work", "#ff0000");
    assert_eq!(upsert(Vec::new(), c.clone()), vec![c]);
}

#[test]
fn category_upsert_of_new_name_appends_at_the_end() {
    let start = vec![category("work", "red"), category("home", "blue")];
    let c = category("play", "green");
    let after = upsert(start.clone(), c.clone());
    assert_eq!(after, vec![start[0].clone(), start[1].clone(), c]);
}

#[test]
fn category_upsert_of_known_name_replaces_in_place() {
    let start = vec![category("work", "red"), category("home", "blue"), category("play", "green")];
    let c = category("home", "black");
    let after = upsert(start.clone(), c.clone());
    assert_eq!(after, vec![start[0].clone(), c, start[2].clone()]);
}

#[test]
fn category_names_are_told_apart_by_case() {
    let start = vec![category("work", "red")];
    let c = category("Work", "blue");
    let after = upsert(start.clone(), c.clone());
    assert_eq!(after, vec![start[0].clone(), c]);
}

#[test]
fn category_upsert_twice_is_upsert_once() {
    let start = vec![category("work", "red"), category("home", "blue")];
    for c in [category("home", "black"), category("new", "white")] {
        let once = upsert(start.clone(), c.clone());
        let twice = upsert(once.clone(), c);
        assert_eq!(twice, once);
    }
}

#[test]
fn category_find_by_name_gives_the_first_index() {
    let list = vec![category("a", "1"), category("b", "2"), category("a", "3")];
    assert_eq!(find_by_name(&list, &"a".to_string()), Some(0));
    assert_eq!(find_by_name(&list, &"b".to_string()), Some(1));
    assert_eq!(find_by_name(&list, &"c".to_string()), None);
    assert_eq!(find_by_name(&Vec::new(), &"a".to_string()), None);
}

#[test]
fn category_delete_of_absent_name_leaves_collection_unchanged() {
    let start = vec![category("work", "red"), category("home", "blue")];
    assert_eq!(delete_by_name(start.clone(), &"play".to_string()), start);
    assert_eq!(delete_by_name(Vec::new(), &"play".to_string()), Vec::new());
}

#[test]
fn category_delete_removes_the_name_and_keeps_the_order() {
    let start = vec![category("work", "red"), category("home", "blue"), category("play", "green")];
    let after = delete_by_name(start.clone(), &"home".to_string());
    assert_eq!(after, vec![start[0].clone(), start[2].clone()]);
}

#[test]
fn category_delete_removes_every_category_of_the_name() {
    let start = vec![category("a", "1"), category("b", "2"), category("a", "3")];
    let after = delete_by_name(start.clone(), &"a".to_string());
    assert_eq!(after, vec![start[1].clone()]);
}

#[test]
fn clone_of_a_category_equals_the_category() {
    let c = category("work", "#123456");
    assert_eq!(c.clone(), c);
}

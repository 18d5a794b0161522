use notelist::lexical::{comes_before, insert_name};

const SAMPLES: [&str; 16] = [
    "", "a", "A", "ab", "abc", "abd", "b", "B", "work", "Work", "home", "10", "9", "été", "zoo",
    "日本",
];

#[test]
fn comes_before_agrees_with_string_order() {
    for a in SAMPLES {
        for b in SAMPLES {
            assert_eq!(comes_before(a, b), a < b, "{:?} before {:?}", a, b);
        }
    }
}

#[test]
fn comes_before_on_named_cases() {
    assert!(comes_before("a", "b"));
    assert!(!comes_before("b", "a"));
    assert!(!comes_before("a", "a"));
    assert!(comes_before("", "a"));
    assert!(!comes_before("a", ""));
    assert!(!comes_before("", ""));
    assert!(comes_before("ab", "abc"));
    assert!(!comes_before("abc", "ab"));
    assert!(comes_before("B", "a"));
    assert!(comes_before("zoo", "été"));
}

#[test]
fn insert_name_keeps_the_list_ascending_and_free_of_repeats() {
    let mut list: Vec<String> = Vec::new();
    for name in ["m", "c", "x", "c", "a", "m", "z", "a"] {
        insert_name(&mut list, name.to_string());
    }
    let expected: Vec<String> = ["a", "c", "m", "x", "z"].iter().map(|s| s.to_string()).collect();
    assert_eq!(list, expected);
}

#[test]
fn insert_name_of_a_held_name_changes_nothing() {
    let mut list: Vec<String> = vec!["a".to_string(), "b".to_string()];
    insert_name(&mut list, "b".to_string());
    assert_eq!(list, vec!["a".to_string(), "b".to_string()]);
    insert_name(&mut list, "a".to_string());
    assert_eq!(list, vec!["a".to_string(), "b".to_string()]);
}

#[test]
fn insert_name_adds_at_front_middle_and_end() {
    let mut list: Vec<String> = vec!["b".to_string(), "d".to_string()];
    insert_name(&mut list, "c".to_string());
    insert_name(&mut list, "a".to_string());
    insert_name(&mut list, "e".to_string());
    let expected: Vec<String> = ["a", "b", "c", "d", "e"].iter().map(|s| s.to_string()).collect();
    assert_eq!(list, expected);
}

use try_rs::dates::Date;
use try_rs::resolve::matching_folders;
use try_rs::resolve::resolve;
use try_rs::resolve::resolve_selection;
use try_rs::resolve::SelectionResult;

fn names(list: &[&str]) -> Vec<String> {
    list.iter().map(|s| s.to_string()).collect()
}

fn some_date() -> Date {
    Date { year: 2024, month: 6, day: 15 }
}

#[test]
fn matching_folders_exact_and_dated() {
    let folders = names(&["foo", "2024-01-15 foo", "bar"]);
    let matches = matching_folders("foo", &folders);
    assert!(matches.contains(&"foo".to_string()));
    assert!(matches.contains(&"2024-01-15 foo".to_string()));
    assert!(!matches.contains(&"bar".to_string()));
}

#[test]
fn utils_test_matching_folders_exact_and_dated() {
    let folders = names(&["foo", "2024-01-15 foo", "bar"]);
    let matches = matching_folders("foo", &folders);
    assert!(matches.contains(&"foo".to_string()));
    assert!(matches.contains(&"2024-01-15 foo".to_string()));
    assert!(!matches.contains(&"bar".to_string()));
}

#[test]
fn matching_folders_empty_dir() {
    let matches = matching_folders("anything", &names(&[]));
    assert!(matches.is_empty());
}

#[test]
fn matching_folders_no_match() {
    let matches = matching_folders("gamma", &names(&["alpha", "beta"]));
    assert!(matches.is_empty());
}

#[test]
fn matching_folders_multiple_dated() {
    let folders = names(&["2024-01-01 proj", "2024-06-15 proj", "other"]);
    let matches = matching_folders("proj", &folders);
    assert_eq!(matches.len(), 2);
    assert!(matches.iter().all(|m| m.contains("proj")));
}

#[test]
fn matching_folders_nonexistent_path() {
    // An unreadable base directory yields an empty folder list.
    let matches = matching_folders("foo", &names(&[]));
    assert!(matches.is_empty());
}

#[test]
fn exact_folder_exists() {
    let r = resolve(&names(&["existing"]), &"existing".to_string(), false, &some_date());
    match r {
        SelectionResult::Folder(name) => assert_eq!(name, "existing"),
        _ => panic!("expected an existing folder"),
    }
}

#[test]
fn folder_with_date_exists() {
    let r = resolve(
        &names(&["2020-02-02 existing"]),
        &"existing".to_string(),
        false,
        &some_date(),
    );
    match r {
        SelectionResult::Folder(name) => assert_eq!(name, "2020-02-02 existing"),
        _ => panic!("expected the date-prefixed folder"),
    }
}

#[test]
fn exact_match_takes_priority_over_dated() {
    let r = resolve(
        &names(&["2020-02-02 existing", "existing"]),
        &"existing".to_string(),
        false,
        &some_date(),
    );
    match r {
        SelectionResult::Folder(name) => assert_eq!(name, "existing"),
        _ => panic!("expected the literal folder"),
    }
}

#[test]
fn new_name() {
    let r = resolve(&names(&[]), &"foo".to_string(), false, &some_date());
    match r {
        SelectionResult::New(name) => assert_eq!(name, "foo"),
        _ => panic!("expected a new folder"),
    }
}

#[test]
fn new_name_with_date() {
    let r = resolve(&names(&[]), &"newname".to_string(), true, &some_date());
    match r {
        SelectionResult::New(name) => assert_eq!(name, "2024-06-15 newname"),
        _ => panic!("expected a new dated folder"),
    }
}

#[test]
fn new_name_with_date_does_not_double_prefix() {
    let r = resolve(
        &names(&[]),
        &"2024-06-15 newname".to_string(),
        true,
        &some_date(),
    );
    match r {
        SelectionResult::New(name) => assert_eq!(name, "2024-06-15 newname"),
        _ => panic!("expected a new folder"),
    }
}

#[test]
fn abort_yields_none_outcome() {
    let r = resolve_selection(&names(&["existing"]), &None, true, &some_date());
    assert!(matches!(r, SelectionResult::Aborted));
}

#[test]
fn chosen_name_is_resolved() {
    let r = resolve_selection(
        &names(&["existing"]),
        &Some("existing".to_string()),
        false,
        &some_date(),
    );
    assert!(matches!(r, SelectionResult::Folder(n) if n == "existing"));
}

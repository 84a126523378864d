use try_rs::entries::Entry;
use try_rs::filter::filter_entries;
use try_rs::selection::App;
use try_rs::selection::InputEvent;

fn entry(name: &str, modified: u64) -> Entry {
    Entry::new(name.to_string(), modified)
}

fn sample_entries() -> Vec<Entry> {
    vec![
        entry("alpha", 30),
        entry("beta", 20),
        entry("gamma", 10),
    ]
}

fn entry_names(list: &[Entry]) -> Vec<String> {
    list.iter().map(|e| e.name.clone()).collect()
}

#[test]
fn filter_empty_query_returns_all_unchanged() {
    let all = sample_entries();
    let filtered = filter_entries(&all, "");
    assert_eq!(entry_names(&filtered), vec!["alpha", "beta", "gamma"]);
    assert_eq!(filtered[0].modified, 30);
}

#[test]
fn filter_excludes_nonmatching_names() {
    let all = sample_entries();
    let filtered = filter_entries(&all, "alp");
    assert_eq!(entry_names(&filtered), vec!["alpha"]);
}

#[test]
fn filter_no_match_is_empty() {
    let all = sample_entries();
    let filtered = filter_entries(&all, "zzz");
    assert!(filtered.is_empty());
}

#[test]
fn filter_rerun_yields_identical_output() {
    let all = sample_entries();
    let once = filter_entries(&all, "a");
    let twice = filter_entries(&once, "a");
    assert_eq!(entry_names(&once), entry_names(&twice));
    for (a, b) in once.iter().zip(twice.iter()) {
        assert_eq!(a.score, b.score);
        assert_eq!(a.modified, b.modified);
    }
}

#[test]
fn filter_ranks_best_first() {
    let all = vec![entry("a-x-b", 1), entry("ab", 2), entry("axxxb", 3)];
    let filtered = filter_entries(&all, "ab");
    assert!(!filtered.is_empty());
    for pair in filtered.windows(2) {
        assert!(pair[0].score >= pair[1].score);
    }
}

#[test]
fn new_session_sorts_most_recent_first() {
    let app = App::new(vec![entry("old", 5), entry("newest", 50), entry("mid", 25)]);
    assert_eq!(entry_names(&app.all_entries), vec!["newest", "mid", "old"]);
    assert_eq!(entry_names(&app.filtered_entries), vec!["newest", "mid", "old"]);
    assert_eq!(app.selected_index, 0);
    assert!(app.query.is_empty());
    assert!(!app.should_quit);
    assert!(app.final_selection.is_none());
}

#[test]
fn typing_filters_and_resets_cursor() {
    let mut app = App::new(sample_entries());
    app.handle_event(InputEvent::CursorDown);
    assert_eq!(app.selected_index, 1);
    app.handle_event(InputEvent::Character('b'));
    assert_eq!(app.query, "b");
    assert_eq!(app.selected_index, 0);
    assert!(entry_names(&app.filtered_entries).contains(&"beta".to_string()));
    assert!(!entry_names(&app.filtered_entries).contains(&"gamma".to_string()));
}

#[test]
fn backspace_to_empty_restores_recents_order() {
    let mut app = App::new(sample_entries());
    app.handle_event(InputEvent::Character('b'));
    app.handle_event(InputEvent::Character('e'));
    assert_eq!(entry_names(&app.filtered_entries), vec!["beta"]);
    app.handle_event(InputEvent::Backspace);
    app.handle_event(InputEvent::Backspace);
    assert_eq!(app.query, "");
    assert_eq!(entry_names(&app.filtered_entries), vec!["alpha", "beta", "gamma"]);
}

#[test]
fn backspace_on_empty_query_is_noop() {
    let mut app = App::new(sample_entries());
    app.handle_event(InputEvent::Backspace);
    assert_eq!(app.query, "");
    assert_eq!(app.filtered_entries.len(), 3);
}

#[test]
fn cursor_clamps_at_both_ends() {
    let mut app = App::new(sample_entries());
    app.handle_event(InputEvent::CursorUp);
    assert_eq!(app.selected_index, 0);
    app.handle_event(InputEvent::CursorDown);
    app.handle_event(InputEvent::CursorDown);
    app.handle_event(InputEvent::CursorDown);
    app.handle_event(InputEvent::CursorDown);
    assert_eq!(app.selected_index, 2);
    app.handle_event(InputEvent::CursorUp);
    assert_eq!(app.selected_index, 1);
}

#[test]
fn cursor_stays_zero_on_empty_list() {
    let mut app = App::new(Vec::new());
    app.handle_event(InputEvent::CursorDown);
    assert_eq!(app.selected_index, 0);
    app.handle_event(InputEvent::CursorUp);
    assert_eq!(app.selected_index, 0);
}

#[test]
fn confirm_selects_highlighted_entry() {
    let mut app = App::new(sample_entries());
    app.handle_event(InputEvent::CursorDown);
    app.handle_event(InputEvent::Confirm);
    assert!(app.should_quit);
    assert_eq!(app.final_selection.as_deref(), Some("beta"));
}

#[test]
fn confirm_uses_query_when_nothing_matches() {
    let mut app = App::new(sample_entries());
    for c in "zzz".chars() {
        app.handle_event(InputEvent::Character(c));
    }
    assert!(app.filtered_entries.is_empty());
    app.handle_event(InputEvent::Confirm);
    assert!(app.should_quit);
    assert_eq!(app.final_selection.as_deref(), Some("zzz"));
}

#[test]
fn confirm_with_nothing_yields_no_outcome() {
    let mut app = App::new(Vec::new());
    app.handle_event(InputEvent::Confirm);
    assert!(app.should_quit);
    assert!(app.final_selection.is_none());
}

#[test]
fn abort_always_yields_no_outcome() {
    let mut app = App::new(sample_entries());
    for c in "alp".chars() {
        app.handle_event(InputEvent::Character(c));
    }
    app.handle_event(InputEvent::CursorDown);
    app.handle_event(InputEvent::Abort);
    assert!(app.should_quit);
    assert!(app.final_selection.is_none());
}

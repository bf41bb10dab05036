use trinity::clipboard::{
    page_count, page_range, ClipboardManager, ClipboardState, ClipboardUiAction, ClipboardWatcher,
};
use trinity::persistence::{ClipboardConfig, PathStyle};
use trinity::text::preview_text;

#[test]
fn add_entry_deduplicates_by_moving_existing_text_to_top() {
    let mut state = ClipboardState::new(
        ClipboardConfig {
            capacity: 10,
            panel_page_size: 3,
        },
        vec!["one".to_string(), "two".to_string(), "three".to_string()],
    );

    assert!(state.add_entry("two".to_string()));

    assert_eq!(state.entries(), ["two", "one", "three"]);
    assert_eq!(state.selected_index(), 0);
    assert_eq!(state.page(), 0);
}

#[test]
fn add_entry_trims_to_capacity() {
    let mut state = ClipboardState::new(
        ClipboardConfig {
            capacity: 2,
            panel_page_size: 3,
        },
        Vec::new(),
    );

    state.add_entry("one".to_string());
    state.add_entry("two".to_string());
    state.add_entry("three".to_string());

    assert_eq!(state.entries(), ["three", "two"]);
}

#[test]
fn pagination_handles_empty_and_last_page() {
    assert_eq!(page_count(0, 10), 0);
    assert_eq!(page_count(21, 10), 3);
    assert_eq!(page_range(0, 10, 0), 0..0);
    assert_eq!(page_range(21, 10, 0), 0..10);
    assert_eq!(page_range(21, 10, 2), 20..21);
}

#[test]
fn add_entry_trims_text_and_ignores_blank_text() {
    let mut state = ClipboardState::new(ClipboardConfig::default(), vec!["a".to_string()]);
    assert!(!state.add_entry(" \t\n ".to_string()));
    assert_eq!(state.entries(), ["a"]);
    assert!(state.add_entry("  b \n".to_string()));
    assert_eq!(state.entries(), ["b", "a"]);
}

#[test]
fn adding_the_same_text_twice_is_adding_it_once() {
    let mut once = ClipboardState::new(
        ClipboardConfig {
            capacity: 3,
            panel_page_size: 2,
        },
        vec!["x".to_string(), "y".to_string(), "z".to_string()],
    );
    let mut twice = once.clone();
    once.add_entry("y".to_string());
    twice.add_entry("y".to_string());
    twice.add_entry("y".to_string());
    assert_eq!(once.entries(), twice.entries());
    assert_eq!(once.entries(), ["y", "x", "z"]);
}

#[test]
fn page_count_rounds_up_and_treats_zero_page_size_as_one() {
    assert_eq!(page_count(20, 10), 2);
    assert_eq!(page_count(1, 10), 1);
    assert_eq!(page_count(5, 0), 5);
    assert_eq!(page_range(5, 0, 3), 3..4);
    assert_eq!(page_range(21, 10, 7), 21..21);
    assert_eq!(page_range(usize::MAX, 10, usize::MAX), usize::MAX..usize::MAX);
}

fn state_with(n: usize, page_size: usize) -> ClipboardState {
    ClipboardState::new(
        ClipboardConfig {
            capacity: 100,
            panel_page_size: page_size,
        },
        (0..n).map(|i| format!("entry {i}")).collect(),
    )
}

#[test]
fn selection_moves_within_bounds_and_follows_its_page() {
    let mut state = state_with(5, 2);
    state.move_selection_up();
    assert_eq!((state.selected_index(), state.page()), (0, 0));
    state.move_selection_down();
    state.move_selection_down();
    assert_eq!((state.selected_index(), state.page()), (2, 1));
    state.move_selection_down();
    state.move_selection_down();
    state.move_selection_down();
    assert_eq!((state.selected_index(), state.page()), (4, 2));
    assert_eq!(state.selected_text(), Some("entry 4".to_string()));
}

#[test]
fn pages_turn_and_select_their_first_entry() {
    let mut state = state_with(5, 2);
    state.next_page();
    assert_eq!((state.selected_index(), state.page()), (2, 1));
    state.next_page();
    assert_eq!((state.selected_index(), state.page()), (4, 2));
    state.next_page();
    assert_eq!((state.selected_index(), state.page()), (4, 2));
    state.previous_page();
    assert_eq!((state.selected_index(), state.page()), (2, 1));
    state.previous_page();
    state.previous_page();
    assert_eq!((state.selected_index(), state.page()), (0, 0));
    assert_eq!(state.current_page_range(), 0..2);
    assert_eq!(state.page_indicator(), (1, 3));
}

#[test]
fn empty_history_has_no_selection() {
    let mut state = state_with(0, 10);
    state.move_selection_down();
    state.next_page();
    assert_eq!(state.selected_text(), None);
    assert_eq!(state.page_indicator(), (0, 0));
    assert_eq!(state.picker_action(false, true), ClipboardUiAction::Close);
}

#[test]
fn reload_config_normalizes_and_cuts_history() {
    let mut state = state_with(5, 2);
    state.move_selection_down();
    state.move_selection_down();
    state.move_selection_down();
    assert!(state.reload_config(ClipboardConfig {
        capacity: 2,
        panel_page_size: 0,
    }));
    assert_eq!(state.entries(), ["entry 0", "entry 1"]);
    assert_eq!(
        state.config(),
        ClipboardConfig {
            capacity: 2,
            panel_page_size: 1
        }
    );
    assert_eq!(state.selected_index(), 1);
    assert!(!state.reload_config(ClipboardConfig {
        capacity: 2,
        panel_page_size: 1,
    }));
}

#[test]
fn normalized_clamps_both_settings() {
    let c = ClipboardConfig {
        capacity: 0,
        panel_page_size: 1000,
    }
    .normalized();
    assert_eq!(c.capacity, 1);
    assert_eq!(c.panel_page_size, 100);
    let c = ClipboardConfig {
        capacity: 50_000,
        panel_page_size: 0,
    }
    .normalized();
    assert_eq!(c.capacity, 10_000);
    assert_eq!(c.panel_page_size, 1);
    assert_eq!(c.normalized(), c);
    assert_eq!(ClipboardConfig::default().normalized(), ClipboardConfig::default());
}

#[test]
fn picker_keys_then_enter_pastes_the_selection() {
    let mut manager = ClipboardManager::new_with_path(
        ClipboardConfig::default(),
        "history.json".to_string(),
        Some(vec!["a".to_string(), String::new(), "b".to_string()]),
    );
    assert_eq!(manager.entries(), vec!["a".to_string(), "b".to_string()]);
    assert_eq!(
        manager.show_inside(false, true, false, false, false, false),
        ClipboardUiAction::Stay
    );
    assert_eq!(
        manager.show_inside(false, false, false, false, false, true),
        ClipboardUiAction::Paste("b".to_string())
    );
    assert_eq!(
        manager.show_inside(false, false, false, false, true, true),
        ClipboardUiAction::Close
    );
}

#[test]
fn manager_loads_cut_history_and_records_copies() {
    let loaded: Vec<String> = (0..5).map(|i| format!("t{i}")).collect();
    let mut manager = ClipboardManager::new_with_path(
        ClipboardConfig {
            capacity: 3,
            panel_page_size: 10,
        },
        "h.json".to_string(),
        Some(loaded),
    );
    assert_eq!(manager.entries(), vec!["t0", "t1", "t2"]);
    assert!(manager.record("t2".to_string()));
    assert_eq!(manager.entries(), vec!["t2", "t0", "t1"]);
    assert!(!manager.record("   ".to_string()));
    assert!(manager.start_monitoring());
    assert!(!manager.start_monitoring());
    let missing = ClipboardManager::new_with_path(ClipboardConfig::default(), "h.json".to_string(), None);
    assert!(missing.entries().is_empty());
}

#[test]
fn default_history_location_is_under_home() {
    let manager = ClipboardManager::new(ClipboardConfig::default(), PathStyle::Unix, Some("/home/u"), None);
    assert_eq!(manager.history_path(), "/home/u/.trinity/clipboard_history.json");
}

#[test]
fn watcher_offers_each_new_clipboard_text_once() {
    let mut watcher = ClipboardWatcher::new();
    assert_eq!(watcher.observe("a".to_string()), Some("a".to_string()));
    assert_eq!(watcher.observe("a".to_string()), None);
    assert_eq!(watcher.observe("b".to_string()), Some("b".to_string()));
    assert_eq!(watcher.observe(String::new()), Some(String::new()));
}

#[test]
fn preview_collapses_whitespace_and_cuts_long_text() {
    assert_eq!(preview_text("  hello \n\t world  "), "hello world");
    assert_eq!(preview_text(""), "");
    let long = "x".repeat(130);
    let expected = format!("{}...", "x".repeat(120));
    assert_eq!(preview_text(&long), expected);
    assert_eq!(preview_text(&"y".repeat(120)), "y".repeat(120));
}

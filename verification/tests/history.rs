use paper_cli::line_reader::history::History;
use paper_cli::line_reader::line::Line;

fn push(history: &mut History, text: &str) {
    let mut line = Line::new();
    line.set(text);
    history.push(&line);
}

fn owned(entry: Option<&str>) -> Option<String> {
    entry.map(|text| text.to_string())
}

#[test]
fn new_history_recalls_nothing() {
    let mut history = History::new();
    assert_eq!(history.len(), 0);
    assert_eq!(history.prev(), None);
    assert_eq!(history.next(), None);
}

#[test]
fn pushing_same_line_twice_stores_it_once() {
    let mut history = History::new();
    push(&mut history, "get a");
    push(&mut history, "get a");
    assert_eq!(history.len(), 1);
    assert_eq!(owned(history.prev()), Some("get a".to_string()));
    assert_eq!(history.prev(), None);
}

#[test]
fn same_line_is_stored_again_after_another() {
    let mut history = History::new();
    push(&mut history, "get a");
    push(&mut history, "get b");
    push(&mut history, "get a");
    assert_eq!(history.len(), 3);
}

#[test]
fn empty_line_is_not_stored() {
    let mut history = History::new();
    push(&mut history, "");
    assert_eq!(history.len(), 0);
    push(&mut history, "ping");
    push(&mut history, "");
    assert_eq!(history.len(), 1);
}

#[test]
fn prev_walks_back_to_oldest_and_stops() {
    let mut history = History::new();
    push(&mut history, "one");
    push(&mut history, "two");
    push(&mut history, "three");
    assert_eq!(owned(history.prev()), Some("three".to_string()));
    assert_eq!(owned(history.prev()), Some("two".to_string()));
    assert_eq!(owned(history.prev()), Some("one".to_string()));
    for _ in 0..10 {
        assert_eq!(history.prev(), None);
    }
    assert_eq!(owned(history.next()), Some("two".to_string()));
}

#[test]
fn next_walks_forward_and_ends_at_live_edit() {
    let mut history = History::new();
    push(&mut history, "one");
    push(&mut history, "two");
    push(&mut history, "three");
    history.prev();
    history.prev();
    history.prev();
    assert_eq!(owned(history.next()), Some("two".to_string()));
    assert_eq!(owned(history.next()), Some("three".to_string()));
    assert_eq!(history.next(), None);
    assert_eq!(history.next(), None);
    assert_eq!(owned(history.prev()), Some("three".to_string()));
}

#[test]
fn move_to_end_ends_recall_and_keeps_entries() {
    let mut history = History::new();
    push(&mut history, "one");
    push(&mut history, "two");
    history.prev();
    history.prev();
    history.move_to_end();
    assert_eq!(history.len(), 2);
    assert_eq!(owned(history.prev()), Some("two".to_string()));
}

#[test]
fn push_ends_recall_even_when_nothing_is_stored() {
    let mut history = History::new();
    push(&mut history, "one");
    push(&mut history, "two");
    history.prev();
    history.prev();
    push(&mut history, "two");
    assert_eq!(history.len(), 2);
    assert_eq!(owned(history.prev()), Some("two".to_string()));
    history.prev();
    push(&mut history, "");
    assert_eq!(owned(history.prev()), Some("two".to_string()));
}

#[test]
fn move_to_end_of_empty_history_changes_nothing() {
    let mut history = History::new();
    history.move_to_end();
    assert_eq!(history.len(), 0);
    assert_eq!(history.prev(), None);
}

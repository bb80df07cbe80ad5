use todo_md::manager::{SpaceListing, TodoManager};
use todo_md::model::{Priority, StatusFilter, TodoError, TodoItem, TodoSpace};
use todo_md::parse::parse_markdown_todos;
use todo_md::render::format_todos_as_markdown;

fn item(text: &str, status: bool, priority: Priority) -> TodoItem {
    TodoItem { item: text.to_string(), status, priority }
}

fn space(name: &str, todos: Vec<TodoItem>) -> TodoSpace {
    TodoSpace { name: name.to_string(), todos }
}

fn assert_spaces_eq(actual: &[TodoSpace], expected: &[TodoSpace]) {
    assert_eq!(actual.len(), expected.len());
    for (a, e) in actual.iter().zip(expected.iter()) {
        assert_eq!(a.name, e.name);
        assert_eq!(a.todos.len(), e.todos.len());
        for (at, et) in a.todos.iter().zip(e.todos.iter()) {
            assert_eq!(at.item, et.item);
            assert_eq!(at.status, et.status);
            assert_eq!(at.priority, et.priority);
        }
    }
}

#[test]
fn priority_tags_are_exact() {
    assert_eq!(Priority::Low.to_markdown(), "{LOW}");
    assert_eq!(Priority::Medium.to_markdown(), "{MEDIUM}");
    assert_eq!(Priority::High.to_markdown(), "{HIGH}");
    assert_eq!(Priority::Urgent.to_markdown(), "{URGENT}");
}

#[test]
fn priority_decode_round_trip() {
    for p in [Priority::Low, Priority::Medium, Priority::High, Priority::Urgent] {
        assert_eq!(Priority::from_markdown(p.to_markdown()), p);
    }
}

#[test]
fn unknown_tag_defaults_to_medium() {
    assert_eq!(Priority::from_markdown("water the plants"), Priority::Medium);
    assert_eq!(Priority::from_markdown(""), Priority::Medium);
    assert_eq!(Priority::from_markdown("{URGENT"), Priority::Medium);
    let spaces = parse_markdown_todos("- [ ] water the plants\n".to_string());
    assert_eq!(spaces.len(), 1);
    assert_eq!(spaces[0].todos[0].priority, Priority::Medium);
}

#[test]
fn priority_decode_precedence() {
    assert_eq!(Priority::from_markdown("a {LOW} b {URGENT}"), Priority::Urgent);
    assert_eq!(Priority::from_markdown("{MEDIUM} then {HIGH}"), Priority::High);
    assert_eq!(Priority::from_markdown("{LOW} and {MEDIUM}"), Priority::Medium);
    assert_eq!(Priority::from_markdown("anywhere {LOW} in the line"), Priority::Low);
}

#[test]
fn format_single_default_space() {
    let spaces = vec![space("Default", vec![])];
    assert_eq!(format_todos_as_markdown(&spaces), "\n");
}

#[test]
fn default_space_omission_round_trip() {
    // formatting the fresh store and parsing it back keeps the one empty
    // Default space rather than yielding no spaces at all
    let spaces = vec![space("Default", vec![])];
    let blob = format_todos_as_markdown(&spaces);
    let back = parse_markdown_todos(blob);
    assert_eq!(back.len(), 1);
    assert_eq!(back[0].name, "Default");
    assert!(back[0].todos.is_empty());
}

#[test]
fn format_emits_headers_and_tags() {
    let spaces = vec![
        space("Default", vec![item("buy milk", false, Priority::Medium)]),
        space("Work", vec![item("ship release", true, Priority::Urgent)]),
    ];
    assert_eq!(
        format_todos_as_markdown(&spaces),
        "- [ ] buy milk {MEDIUM}\n\n[[Work]]\n- [x] ship release {URGENT}\n\n"
    );
}

#[test]
fn round_trip_preserves_everything() {
    let spaces = vec![
        space(
            "Default",
            vec![
                item("buy milk", false, Priority::Medium),
                item("call home", true, Priority::Low),
            ],
        ),
        space(
            "Work",
            vec![
                item("ship release", false, Priority::Urgent),
                item("review patch", true, Priority::High),
            ],
        ),
        space("Garden", vec![]),
    ];
    let blob = format_todos_as_markdown(&spaces);
    let back = parse_markdown_todos(blob);
    assert_spaces_eq(&back, &spaces);
}

#[test]
fn parse_tasks_before_header_go_to_default() {
    let blob = "- [ ] early task {LOW}\n[[Later]]\n- [x] other {HIGH}\n";
    let spaces = parse_markdown_todos(blob.to_string());
    assert_eq!(spaces.len(), 2);
    assert_eq!(spaces[0].name, "Default");
    assert_eq!(spaces[0].todos[0].item, "early task");
    assert_eq!(spaces[0].todos[0].priority, Priority::Low);
    assert_eq!(spaces[1].name, "Later");
    assert!(spaces[1].todos[0].status);
}

#[test]
fn parse_ignores_malformed_headers_and_noise() {
    let blob = "[[unterminated\nsome commentary\n\n- [ ] real task {HIGH}\n";
    let spaces = parse_markdown_todos(blob.to_string());
    assert_eq!(spaces.len(), 1);
    assert_eq!(spaces[0].name, "Default");
    assert_eq!(spaces[0].todos.len(), 1);
    assert_eq!(spaces[0].todos[0].item, "real task");
}

#[test]
fn parse_keeps_empty_description() {
    let spaces = parse_markdown_todos("- [ ] {MEDIUM}\n".to_string());
    assert_eq!(spaces.len(), 1);
    assert_eq!(spaces[0].todos.len(), 1);
    assert_eq!(spaces[0].todos[0].item, "");
}

#[test]
fn parse_strips_all_tags_from_description() {
    let spaces = parse_markdown_todos("- [ ] buy {LOW} milk {URGENT}\n".to_string());
    assert_eq!(spaces[0].todos[0].item, "buy  milk");
    assert_eq!(spaces[0].todos[0].priority, Priority::Urgent);
}

#[test]
fn fresh_store_renders_blank_line() {
    let manager = TodoManager::new_store();
    assert_eq!(manager.render(), "\n");
}

#[test]
fn add_to_default_and_new_space() {
    let mut manager = TodoManager::new_store();
    manager.add_todo("buy milk".to_string(), None, None);
    assert_eq!(manager.current_todo_spaces.len(), 1);
    assert_eq!(manager.current_todo_spaces[0].todos[0].item, "buy milk");
    assert_eq!(manager.current_todo_spaces[0].todos[0].priority, Priority::Medium);
    assert!(!manager.current_todo_spaces[0].todos[0].status);
    manager.add_todo("ship release".to_string(), Some("Work".to_string()), Some(Priority::Urgent));
    assert_eq!(manager.current_todo_spaces.len(), 2);
    assert_eq!(manager.current_todo_spaces[1].name, "Work");
    // a second add to the same space reuses it instead of duplicating it
    manager.add_todo("review patch".to_string(), Some("Work".to_string()), None);
    assert_eq!(manager.current_todo_spaces.len(), 2);
    assert_eq!(manager.current_todo_spaces[1].todos.len(), 2);
}

#[test]
fn toggle_flips_status() {
    let mut manager = TodoManager::new_store();
    manager.add_todo("buy milk".to_string(), None, None);
    assert_eq!(manager.toggle_todo(0, None), Ok(()));
    assert!(manager.current_todo_spaces[0].todos[0].status);
    assert_eq!(manager.toggle_todo(0, None), Ok(()));
    assert!(!manager.current_todo_spaces[0].todos[0].status);
}

#[test]
fn delete_shifts_indices() {
    let mut manager = TodoManager::new_store();
    manager.add_todo("first".to_string(), None, None);
    manager.add_todo("second".to_string(), None, None);
    manager.add_todo("third".to_string(), None, None);
    assert_eq!(manager.delete_todo(1, None), Ok(()));
    let todos = &manager.current_todo_spaces[0].todos;
    assert_eq!(todos.len(), 2);
    assert_eq!(todos[0].item, "first");
    assert_eq!(todos[1].item, "third");
}

#[test]
fn failed_operations_do_not_mutate() {
    let mut manager = TodoManager::new_store();
    manager.add_todo("only task".to_string(), None, None);
    let before = manager.render();
    assert_eq!(manager.toggle_todo(5, None), Err(TodoError::IndexOutOfRange));
    assert_eq!(manager.render(), before);
    assert_eq!(manager.toggle_todo(0, Some("Nowhere".to_string())), Err(TodoError::SpaceNotFound));
    assert_eq!(manager.render(), before);
    assert_eq!(manager.delete_todo(1, None), Err(TodoError::IndexOutOfRange));
    assert_eq!(manager.render(), before);
    assert_eq!(manager.delete_todo(0, Some("Nowhere".to_string())), Err(TodoError::SpaceNotFound));
    assert_eq!(manager.render(), before);
}

fn listings_eq(a: &[SpaceListing], b: &[SpaceListing]) -> bool {
    a.len() == b.len() && a.iter().zip(b.iter()).all(|(x, y)| {
        x.name == y.name && x.entries.len() == y.entries.len() && x.entries.iter().zip(
            y.entries.iter(),
        ).all(|(p, q)| {
            p.index == q.index && p.item == q.item && p.status == q.status && p.priority
                == q.priority
        })
    })
}

#[test]
fn list_is_read_only_and_stable() {
    let mut manager = TodoManager::new_store();
    manager.add_todo("a".to_string(), None, None);
    manager.add_todo("b".to_string(), None, Some(Priority::High));
    manager.toggle_todo(0, None).unwrap();
    let before = manager.render();
    let first = manager.list_todos(StatusFilter::All);
    let second = manager.list_todos(StatusFilter::All);
    assert!(listings_eq(&first, &second));
    assert_eq!(manager.render(), before);
    let pending_once = manager.list_todos(StatusFilter::Pending);
    let pending_again = manager.list_todos(StatusFilter::Pending);
    assert!(listings_eq(&pending_once, &pending_again));
    assert_eq!(manager.render(), before);
}

#[test]
fn list_filters_keep_original_indices() {
    let mut manager = TodoManager::new_store();
    manager.add_todo("a".to_string(), None, None);
    manager.add_todo("b".to_string(), None, None);
    manager.add_todo("c".to_string(), None, None);
    manager.toggle_todo(1, None).unwrap();
    let completed = manager.list_todos(StatusFilter::Completed);
    assert_eq!(completed.len(), 1);
    assert_eq!(completed[0].entries.len(), 1);
    assert_eq!(completed[0].entries[0].index, 1);
    assert_eq!(completed[0].entries[0].item, "b");
    let pending = manager.list_todos(StatusFilter::Pending);
    assert_eq!(pending[0].entries.len(), 2);
    assert_eq!(pending[0].entries[0].index, 0);
    assert_eq!(pending[0].entries[1].index, 2);
    let all = manager.list_todos(StatusFilter::All);
    assert_eq!(all[0].entries.len(), 3);
}

#[test]
fn list_workspaces_counts() {
    let mut manager = TodoManager::new_store();
    manager.add_todo("a".to_string(), None, None);
    manager.add_todo("b".to_string(), None, None);
    manager.add_todo("c".to_string(), Some("Work".to_string()), None);
    manager.toggle_todo(0, None).unwrap();
    let summaries = manager.list_workspaces();
    assert_eq!(summaries.len(), 2);
    assert_eq!(summaries[0].name, "Default");
    assert_eq!(summaries[0].completed, 1);
    assert_eq!(summaries[0].total, 2);
    assert_eq!(summaries[1].name, "Work");
    assert_eq!(summaries[1].completed, 0);
    assert_eq!(summaries[1].total, 1);
}

#[test]
fn end_to_end_scenario() {
    // a fresh store persists as a single blank separator line
    let mut manager = TodoManager::new_store();
    assert_eq!(manager.render(), "\n");
    manager.add_todo("buy milk".to_string(), None, None);
    assert_eq!(manager.render(), "- [ ] buy milk {MEDIUM}\n\n");
    manager.toggle_todo(0, None).unwrap();
    assert_eq!(manager.render(), "- [x] buy milk {MEDIUM}\n\n");
    manager.add_todo("ship release".to_string(), Some("Work".to_string()), Some(Priority::Urgent));
    assert_eq!(
        manager.render(),
        "- [x] buy milk {MEDIUM}\n\n[[Work]]\n- [ ] ship release {URGENT}\n\n"
    );
    // and loading what was persisted restores the same store
    let reloaded = TodoManager::from_content(manager.render());
    assert_spaces_eq(&reloaded.current_todo_spaces, &manager.current_todo_spaces);
}

#[test]
fn from_content_of_unstructured_text_gives_empty_default() {
    let manager = TodoManager::from_content("nothing recognizable here\n".to_string());
    assert_eq!(manager.current_todo_spaces.len(), 1);
    assert_eq!(manager.current_todo_spaces[0].name, "Default");
    assert!(manager.current_todo_spaces[0].todos.is_empty());
}

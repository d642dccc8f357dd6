use btd::todos::{TodoItem, TodoList};

#[test]
fn new_list_is_empty() {
    let list = TodoList::new();
    assert!(list.get_items().is_empty());
}

#[test]
fn add_item_appends_in_order() {
    let mut list = TodoList::new();
    list.add_item("write docs".to_string());
    list.add_item("test plugin".to_string());
    assert_eq!(list.get_items(), &vec!["write docs".to_string(), "test plugin".to_string()]);
}

#[test]
fn remove_item_in_range_shifts_later_entries() {
    let mut list = TodoList::new();
    list.add_item("a".to_string());
    list.add_item("b".to_string());
    list.add_item("c".to_string());
    list.remove_item(1);
    assert_eq!(list.get_items(), &vec!["a".to_string(), "c".to_string()]);
    list.remove_item(0);
    assert_eq!(list.get_items(), &vec!["c".to_string()]);
}

#[test]
fn remove_item_past_end_changes_nothing() {
    let mut list = TodoList::new();
    list.add_item("a".to_string());
    list.remove_item(1);
    list.remove_item(usize::MAX);
    assert_eq!(list.get_items(), &vec!["a".to_string()]);
    let mut empty = TodoList::new();
    empty.remove_item(0);
    assert!(empty.get_items().is_empty());
}

#[test]
fn remove_undoes_add() {
    let mut list = TodoList::new();
    list.add_item("a".to_string());
    list.add_item("b".to_string());
    let before = list.get_items().clone();
    list.add_item("c".to_string());
    list.remove_item(before.len());
    assert_eq!(list.get_items(), &before);
}

#[test]
fn new_item_is_not_completed() {
    let item = TodoItem::new(1, "Do some work".to_string());
    assert_eq!(item.description, "Do some work");
    assert!(!item.completed);
    assert!(item == TodoItem::new(1, "Do some work".to_string()));
    assert!(item != TodoItem::new(2, "Do some work".to_string()));
}

#[test]
fn mark_completed_then_incomplete_round_trips() {
    let original = TodoItem::new(7, "Buy milk".to_string());
    let mut item = original.clone();
    item.mark_completed();
    assert!(item.completed);
    assert_eq!(item.description, "Buy milk");
    assert!(item != original);
    item.mark_incomplete();
    assert!(!item.completed);
    assert!(item == original);
}

#[test]
fn marking_twice_is_marking_once() {
    let mut item = TodoItem::new(3, "x".to_string());
    item.mark_completed();
    let once = item.clone();
    item.mark_completed();
    assert!(item == once);
    item.mark_incomplete();
    item.mark_incomplete();
    assert!(item == TodoItem::new(3, "x".to_string()));
}

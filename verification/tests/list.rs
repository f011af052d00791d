use shared_tasks::document::{Entry, Write};
use shared_tasks::error::ListError;
use shared_tasks::list::{add_task, delete_task, toggle_task, update_task, write_task};
use shared_tasks::notifier::{on_next, ChangeEvent, Step, REMOTE_INSERT_DELAY_MILLIS};
use shared_tasks::tasks::{Opening, Task, Tasks};
use shared_tasks::ticket::Ticket;
use shared_tasks::todo::{todos_from_tasks, Todo};
use shared_tasks::todos::{get_todo_lists_names, Todos, TodosOpening, TodosType};

fn list_ticket() -> Ticket {
    Ticket { topic: [8; 32], peers: vec![vec![9, 9]] }
}

fn list_task(id: &str, label: &str, created: u64, done: bool, is_delete: bool) -> Task {
    Task { label: label.to_string(), created, done, is_delete, id: id.to_string() }
}

fn list_put(doc: &mut Vec<Entry>, write: Write) {
    let timestamp = doc.len() as u64 + 1;
    doc.push(write.into_entry([2; 32], timestamp));
}

#[test]
fn a_task_is_stored_under_the_key_of_its_identifier() {
    let task = list_task("a", "milk", 10, false, false);
    let write = write_task(b"task/", "a", task.clone()).unwrap();
    assert_eq!(write.key, b"task/a".to_vec());
    assert_eq!(write.content, task.as_vec().unwrap());
    assert_eq!(write.content.len(), 2048);
}

#[test]
fn a_written_value_becomes_an_entry() {
    let write = Write { key: vec![1, 2], content: vec![3, 4, 5] };
    let entry = write.into_entry([6; 32], 77);
    assert_eq!(
        entry,
        Entry { key: vec![1, 2], author: [6; 32], timestamp: 77, content: Some(vec![3, 4, 5]) }
    );
}

#[test]
fn a_new_task_is_neither_done_nor_deleted() {
    let write = add_task(b"task/", "a".to_string(), "milk".to_string(), 1234).unwrap();
    assert_eq!(write.key, b"task/a".to_vec());
    assert_eq!(Task::from_bytes(&write.content), Ok(list_task("a", "milk", 1234, false, false)));
}

#[test]
fn adding_refuses_a_label_that_is_too_long() {
    assert_eq!(
        add_task(b"task/", "a".to_string(), "x".repeat(2001), 1),
        Err(ListError::LabelTooLong)
    );
    assert!(add_task(b"task/", "a".to_string(), "x".repeat(2000), 1).is_ok());
    assert_eq!(
        add_task(b"task/", "i".repeat(64), "x".repeat(2000), 1),
        Err(ListError::RecordTooLarge)
    );
}

#[test]
fn toggling_turns_done_on_and_off() {
    let mut doc = vec![];
    let write = add_task(b"task/", "a".to_string(), "milk".to_string(), 5).unwrap();
    list_put(&mut doc, write);
    let write = toggle_task(b"task/", &doc, "a").unwrap();
    assert_eq!(write.key, b"task/a".to_vec());
    assert_eq!(Task::from_bytes(&write.content), Ok(list_task("a", "milk", 5, true, false)));
    let write = write;
    list_put(&mut doc, write);
    let write = toggle_task(b"task/", &doc, "a").unwrap();
    assert_eq!(Task::from_bytes(&write.content), Ok(list_task("a", "milk", 5, false, false)));
}

#[test]
fn deleting_marks_the_task_and_keeps_the_rest() {
    let mut doc = vec![];
    let write = add_task(b"task/", "a".to_string(), "milk".to_string(), 5).unwrap();
    list_put(&mut doc, write);
    let write = toggle_task(b"task/", &doc, "a").unwrap();
    list_put(&mut doc, write);
    let write = delete_task(b"task/", &doc, "a").unwrap();
    assert_eq!(write.key, b"task/a".to_vec());
    assert_eq!(Task::from_bytes(&write.content), Ok(list_task("a", "milk", 5, true, true)));
}

#[test]
fn updating_changes_the_label_only() {
    let mut doc = vec![];
    let write = add_task(b"task/", "a".to_string(), "milk".to_string(), 5).unwrap();
    list_put(&mut doc, write);
    let write = toggle_task(b"task/", &doc, "a").unwrap();
    list_put(&mut doc, write);
    let write = update_task(b"task/", &doc, "a", "oat milk".to_string()).unwrap();
    assert_eq!(write.key, b"task/a".to_vec());
    assert_eq!(Task::from_bytes(&write.content), Ok(list_task("a", "oat milk", 5, true, false)));
}

#[test]
fn updating_refuses_a_label_that_is_too_long_before_it_looks_for_the_task() {
    let mut doc = vec![];
    assert_eq!(update_task(b"task/", &doc, "a", "x".repeat(2001)), Err(ListError::LabelTooLong));
    assert_eq!(update_task(b"task/", &doc, "a", "x".repeat(2000)), Err(ListError::NotFound));
    let write = add_task(b"task/", "a".to_string(), "milk".to_string(), 5).unwrap();
    list_put(&mut doc, write);
    assert!(update_task(b"task/", &doc, "a", "x".repeat(2000)).is_ok());
    assert_eq!(update_task(b"task/", &doc, "a", "x".repeat(2001)), Err(ListError::LabelTooLong));
}

#[test]
fn changing_a_task_that_is_not_there_fails() {
    let mut doc = vec![];
    let write = add_task(b"task/", "a".to_string(), "milk".to_string(), 5).unwrap();
    list_put(&mut doc, write);
    assert_eq!(toggle_task(b"task/", &doc, "b"), Err(ListError::NotFound));
    assert_eq!(delete_task(b"task/", &doc, "b"), Err(ListError::NotFound));
    assert_eq!(update_task(b"task/", &doc, "b", "x".to_string()), Err(ListError::NotFound));
    assert_eq!(toggle_task(b"todo/", &doc, "a"), Err(ListError::NotFound));
}

#[test]
fn changing_a_task_with_malformed_content_fails() {
    let doc =
        vec![Entry { key: b"task/a".to_vec(), author: [0; 32], timestamp: 1, content: Some(vec![7]) }];
    assert_eq!(toggle_task(b"task/", &doc, "a"), Err(ListError::Decode));
    assert_eq!(delete_task(b"task/", &doc, "a"), Err(ListError::Decode));
    assert_eq!(update_task(b"task/", &doc, "a", "x".to_string()), Err(ListError::Decode));
}

#[test]
fn changing_a_task_whose_content_is_missing_writes_the_placeholder() {
    let doc = vec![Entry { key: b"task/a".to_vec(), author: [0; 32], timestamp: 1, content: None }];
    let write = toggle_task(b"task/", &doc, "a").unwrap();
    assert_eq!(
        Task::from_bytes(&write.content),
        Ok(list_task("a", "Missing Content", 0, true, false))
    );
}

#[test]
fn opening_a_list_of_tasks() {
    assert_eq!(Tasks::opening(None), Ok(Opening::Create));
    let text = list_ticket().to_text();
    assert_eq!(Tasks::opening(Some(&text)), Ok(Opening::Join(list_ticket())));
    assert_eq!(Tasks::opening(Some("no ticket")), Err(ListError::Decode));
    assert_eq!(Tasks::opening(Some("")), Err(ListError::Decode));
}

#[test]
fn a_list_of_tasks_knows_its_ticket_and_author() {
    let tasks = Tasks::new([2; 32], &list_ticket()).unwrap();
    assert_eq!(tasks.ticket(), list_ticket().to_text());
    assert_eq!(Ticket::from_text(&tasks.ticket()), Ok(list_ticket()));
    assert_eq!(tasks.author(), [2; 32]);
}

#[test]
fn groceries_from_creation_to_deletion() {
    let mut docs: Vec<Vec<Entry>> = vec![];
    let name = "Groceries".to_string();
    let write = match Todos::opening(&TodosType::New(name.clone()), &docs) {
        Ok(TodosOpening::Create(write)) => write,
        other => panic!("unexpected: {other:?}"),
    };
    docs.push(vec![write.into_entry([2; 32], 1)]);
    assert_eq!(get_todo_lists_names(&docs), Ok(vec![name.clone()]));
    let todos = Todos::new([2; 32], &list_ticket(), &docs[0]).unwrap();
    assert_eq!(todos.name(&docs[0]), Some(name));
    let doc = &mut docs[0];

    let write = todos.add("a".to_string(), "milk".to_string(), 1_700_000_000).unwrap();
    list_put(doc, write);
    let list = todos.get_todos(doc).unwrap();
    assert_eq!(list, vec![list_task("a", "milk", 1_700_000_000, false, false)]);
    assert_eq!(list[0].id, "a");
    assert_eq!(list[0].label, "milk");
    assert!(!list[0].done);

    let write = todos.toggle_done(doc, "a".to_string()).unwrap();
    list_put(doc, write);
    let list = todos.get_todos(doc).unwrap();
    assert_eq!(list.len(), 1);
    assert_eq!(list[0].id, "a");
    assert!(list[0].done);

    let write = todos.delete(doc, "a".to_string()).unwrap();
    list_put(doc, write);
    assert_eq!(todos.get_todos(doc), Ok(vec![]));
    let kept = todos.get_todo(doc, "a".to_string()).unwrap();
    assert!(kept.is_delete);
    assert_eq!(kept, list_task("a", "milk", 1_700_000_000, true, true));
    assert_eq!(doc.len(), 4);
    assert_eq!(doc.iter().filter(|e| e.key == b"todo/a".to_vec()).count(), 3);
    let last = doc.last().unwrap();
    assert!(Task::from_bytes(last.content.as_ref().unwrap()).unwrap().is_delete);
}

#[test]
fn tasks_from_creation_to_deletion() {
    let tasks = Tasks::new([2; 32], &list_ticket()).unwrap();
    let mut doc: Vec<Entry> = vec![];
    let write = tasks.add("b".to_string(), "bread".to_string(), 20).unwrap();
    list_put(&mut doc, write);
    let write = tasks.add("a".to_string(), "milk".to_string(), 10).unwrap();
    list_put(&mut doc, write);
    assert_eq!(
        tasks.get_tasks(&doc),
        Ok(vec![list_task("a", "milk", 10, false, false), list_task("b", "bread", 20, false, false)])
    );
    let write = tasks.toggle_done(&doc, "a".to_string()).unwrap();
    list_put(&mut doc, write);
    let write = tasks.update(&doc, "b".to_string(), "rye bread".to_string()).unwrap();
    list_put(&mut doc, write);
    assert_eq!(
        tasks.get_tasks(&doc),
        Ok(vec![
            list_task("a", "milk", 10, true, false),
            list_task("b", "rye bread", 20, false, false)
        ])
    );
    assert_eq!(tasks.get_task(&doc, "b".to_string()), Ok(list_task("b", "rye bread", 20, false, false)));
    let write = tasks.delete(&doc, "a".to_string()).unwrap();
    list_put(&mut doc, write);
    assert_eq!(tasks.get_tasks(&doc), Ok(vec![list_task("b", "rye bread", 20, false, false)]));
    assert_eq!(tasks.get_task(&doc, "c".to_string()), Err(ListError::NotFound));
    assert_eq!(doc.len(), 5);
}

#[test]
fn every_event_is_signalled_once() {
    assert_eq!(REMOTE_INSERT_DELAY_MILLIS, 100);
    assert_eq!(on_next(Some(Ok(ChangeEvent::InsertRemote))), Step::Signal { delay_millis: 100 });
    assert_eq!(on_next(Some(Ok(ChangeEvent::InsertLocal))), Step::Signal { delay_millis: 0 });
    assert_eq!(on_next(Some(Ok(ChangeEvent::Other))), Step::Signal { delay_millis: 0 });
}

#[test]
fn the_end_or_a_failure_of_the_stream_stops_the_signals() {
    assert_eq!(on_next(None), Step::Stop);
    assert_eq!(on_next(Some(Err(()))), Step::Stop);
}

#[test]
fn a_task_is_shown_as_a_todo() {
    let tasks =
        vec![list_task("a", "milk", 10, true, false), list_task("b", "bread", 20, false, true)];
    assert_eq!(
        Todo::from_task(&tasks[0]),
        Todo { id: "a".to_string(), label: "milk".to_string(), done: true, is_delete: false }
    );
    assert_eq!(
        todos_from_tasks(&tasks),
        vec![
            Todo { id: "a".to_string(), label: "milk".to_string(), done: true, is_delete: false },
            Todo { id: "b".to_string(), label: "bread".to_string(), done: false, is_delete: true },
        ]
    );
    assert_eq!(todos_from_tasks(&vec![]), vec![]);
}

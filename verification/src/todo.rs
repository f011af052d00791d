//! A todo as it is shown: what a view needs of a task, and no more.

use crate::tasks::Task;
use vstd::prelude::*;

verus! {

/// A todo as it is shown.
#[derive(Clone, Debug, PartialEq, Eq)]
pub struct Todo {
    pub id: String,
    pub label: String,
    pub done: bool,
    pub is_delete: bool,
}

/// A todo as it is shown, as a mathematical value.
pub struct TodoView {
    pub id: Seq<char>,
    pub label: Seq<char>,
    pub done: bool,
    pub is_delete: bool,
}

impl View for Todo {
    type V = TodoView;

    open spec fn view(&self) -> TodoView {
        TodoView { id: self.id@, label: self.label@, done: self.done, is_delete: self.is_delete }
    }
}

impl TodoView {
    /// What is shown of a task.
    pub open spec fn of(task: Task) -> TodoView {
        TodoView {
            id: task.id@,
            label: task.label@,
            done: task.done,
            is_delete: task.is_delete,
        }
    }
}

impl Todo {
    /// What is shown of a task.
    pub fn from_task(task: &Task) -> (t: Todo)
        ensures
            t@ == TodoView::of(*task),
    {
        Todo {
            id: task.id.clone(),
            label: task.label.clone(),
            done: task.done,
            is_delete: task.is_delete,
        }
    }
}

/// What is shown of a list of tasks: one todo for each task, in the same
/// order.
pub fn todos_from_tasks(tasks: &Vec<Task>) -> (todos: Vec<Todo>)
    ensures
        todos@.len() == tasks@.len(),
        forall|i: int| 0 <= i < tasks@.len() ==> (#[trigger] todos@[i])@ == TodoView::of(tasks@[i]),
{
    let mut todos: Vec<Todo> = Vec::new();
    let mut i: usize = 0;
    while i < tasks.len()
        invariant
            i <= tasks@.len(),
            todos@.len() == i,
            forall|k: int| 0 <= k < i ==> (#[trigger] todos@[k])@ == TodoView::of(tasks@[k]),
        decreases tasks@.len() - i,
    {
        todos.push(Todo::from_task(&tasks[i]));
        i += 1;
    }
    todos
}

} // verus!

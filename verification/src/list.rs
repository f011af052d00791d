//! The changes to a list: each is one value written under the key of a
//! record. Nothing is ever removed from the document. A record is changed by
//! writing it again, and deleted by writing it again marked as deleted.

use crate::document::{Entry, Write};
use crate::error::ListError;
use crate::keys::{record_key, record_key_spec};
use crate::projection::{get_one, get_one_spec};
use crate::tasks::{Task, TaskView};
use crate::wire::MAX_LABEL_LEN;
use vstd::prelude::*;
use vstd::utf8::encode_utf8;

verus! {

/// The value that stores the task `t` under the identifier `id`: the key of
/// `id` and the payload of `t`, or the reason why `t` cannot be stored.
pub open spec fn write_of(prefix: Seq<u8>, id: Seq<char>, t: TaskView) -> Result<
    (Seq<u8>, Seq<u8>),
    ListError,
> {
    match t.encoded() {
        Ok(payload) => Ok((record_key_spec(prefix, id), payload)),
        Err(e) => Err(e),
    }
}

/// Whether `r` is the outcome that `expected` describes.
pub open spec fn is_write(r: Result<Write, ListError>, expected: Result<(Seq<u8>, Seq<u8>), ListError>) -> bool {
    match expected {
        Ok(w) => r is Ok && r->Ok_0@ == w,
        Err(e) => r == Err::<Write, ListError>(e),
    }
}

/// A new task: not done, not deleted.
pub open spec fn fresh(id: Seq<char>, label: Seq<char>, created: u64) -> TaskView {
    TaskView { label, created, done: false, is_delete: false, id }
}

/// The value that adds a task.
pub open spec fn added(prefix: Seq<u8>, id: Seq<char>, label: Seq<char>, created: u64) -> Result<
    (Seq<u8>, Seq<u8>),
    ListError,
> {
    write_of(prefix, id, fresh(id, label, created))
}

/// The value that turns a task that is done into one that is not, and back.
pub open spec fn toggled(prefix: Seq<u8>, entries: Seq<Entry>, id: Seq<char>) -> Result<
    (Seq<u8>, Seq<u8>),
    ListError,
> {
    match get_one_spec(prefix, entries, id) {
        Err(e) => Err(e),
        Ok(t) => write_of(prefix, id, TaskView { done: !t.done, ..t }),
    }
}

/// The value that marks a task as deleted.
pub open spec fn deleted(prefix: Seq<u8>, entries: Seq<Entry>, id: Seq<char>) -> Result<
    (Seq<u8>, Seq<u8>),
    ListError,
> {
    match get_one_spec(prefix, entries, id) {
        Err(e) => Err(e),
        Ok(t) => write_of(prefix, id, TaskView { is_delete: true, ..t }),
    }
}

/// The value that gives a task a new label. A label that is too long is
/// refused before the task is looked for.
pub open spec fn relabelled(
    prefix: Seq<u8>,
    entries: Seq<Entry>,
    id: Seq<char>,
    label: Seq<char>,
) -> Result<(Seq<u8>, Seq<u8>), ListError> {
    if encode_utf8(label).len() > MAX_LABEL_LEN {
        Err(ListError::LabelTooLong)
    } else {
        match get_one_spec(prefix, entries, id) {
            Err(e) => Err(e),
            Ok(t) => write_of(prefix, id, TaskView { label, ..t }),
        }
    }
}

/// The value that stores `task` under the identifier `id`.
pub fn write_task(prefix: &[u8], id: &str, task: Task) -> (r: Result<Write, ListError>)
    ensures
        is_write(r, write_of(prefix@, id@, task@)),
{
    let key = record_key(prefix, id);
    match task.as_vec() {
        Ok(content) => Ok(Write { key, content }),
        Err(e) => Err(e),
    }
}

/// The value that adds a task with the given label, created at `created`.
pub fn add_task(prefix: &[u8], id: String, label: String, created: u64) -> (r: Result<
    Write,
    ListError,
>)
    ensures
        is_write(r, added(prefix@, id@, label@, created)),
{
    let key = record_key(prefix, id.as_str());
    let task = Task { label, created, done: false, is_delete: false, id };
    match task.as_vec() {
        Ok(content) => Ok(Write { key, content }),
        Err(e) => Err(e),
    }
}

/// The value that toggles whether the task `id` is done.
pub fn toggle_task(prefix: &[u8], entries: &Vec<Entry>, id: &str) -> (r: Result<Write, ListError>)
    ensures
        is_write(r, toggled(prefix@, entries@, id@)),
{
    match get_one(prefix, entries, id) {
        Err(e) => Err(e),
        Ok(task) => {
            let mut task = task;
            task.done = !task.done;
            write_task(prefix, id, task)
        },
    }
}

/// The value that marks the task `id` as deleted.
pub fn delete_task(prefix: &[u8], entries: &Vec<Entry>, id: &str) -> (r: Result<Write, ListError>)
    ensures
        is_write(r, deleted(prefix@, entries@, id@)),
{
    match get_one(prefix, entries, id) {
        Err(e) => Err(e),
        Ok(task) => {
            let mut task = task;
            task.is_delete = true;
            write_task(prefix, id, task)
        },
    }
}

/// The value that gives the task `id` the label `label`.
pub fn update_task(prefix: &[u8], entries: &Vec<Entry>, id: &str, label: String) -> (r: Result<
    Write,
    ListError,
>)
    ensures
        is_write(r, relabelled(prefix@, entries@, id@, label@)),
{
    if label.as_str().as_bytes().len() > MAX_LABEL_LEN {
        return Err(ListError::LabelTooLong);
    }
    match get_one(prefix, entries, id) {
        Err(e) => Err(e),
        Ok(task) => {
            let mut task = task;
            task.label = label;
            write_task(prefix, id, task)
        },
    }
}

} // verus!

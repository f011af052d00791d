//! What holds of a list after it has been changed.
//!
//! A change is a value written under the key of a record. Once the store has
//! taken it, a scan shows it as one more entry, later than all entries under
//! that key. The laws here say what the list then is.

use crate::document::{has_key, lemma_latest_wins, lemma_one_winner, wins, Entry};
use crate::keys::{law_key_holds_its_id, record_key_spec};
use crate::list::{added, deleted, fresh, relabelled, toggled, write_of};
use crate::projection::{get_one_spec, project_spec, resolve_spec};
use crate::projection_laws::{law_list_members, shows};
use crate::tasks::{law_written_task_is_read, TaskView};
use crate::wire::{zeros, MAX_RECORD_SIZE};
use vstd::prelude::*;

verus! {

/// Whether `e` is the entry that a scan shows for the value `w`, written at
/// `timestamp`, once its content is at hand.
pub open spec fn is_entry_of(e: Entry, w: (Seq<u8>, Seq<u8>), timestamp: u64) -> bool {
    &&& e.key@ == w.0
    &&& e.timestamp == timestamp
    &&& e.content matches Some(c) && c@ == w.1
}

/// Whether `timestamp` is later than every entry under `key`.
pub open spec fn later_than_all(entries: Seq<Entry>, key: Seq<u8>, timestamp: u64) -> bool {
    forall|j: int|
        0 <= j < entries.len() && #[trigger] entries[j].key@ == key ==> entries[j].timestamp
            < timestamp
}

/// A value that has been written counts, and no earlier entry under its key
/// does any more.
proof fn lemma_written_entry_counts(entries: Seq<Entry>, e: Entry)
    requires
        later_than_all(entries, e.key@, e.timestamp),
    ensures
        wins(entries.push(e), entries.len() as int),
        has_key(entries.push(e), e.key@),
        forall|j: int|
            0 <= j < entries.len() && #[trigger] entries.push(e)[j].key@ == e.key@ ==> !wins(
                entries.push(e),
                j,
            ),
{
    let after = entries.push(e);
    let n = entries.len() as int;
    assert(after[n] == e);
    assert forall|j: int| 0 <= j < after.len() && j != n && #[trigger] after[j].key@ == after[n].key@
        implies after[j].timestamp < after[n].timestamp by {
        assert(after[j] == entries[j]);
    }
    lemma_latest_wins(after, n);
}

/// A task that has been written is the task that is read: once the value
/// that stores `t` under `id` stands in the document, later than all entries
/// under its key, the task stored under `id` is `t`.
pub proof fn law_written_task_is_found(
    prefix: Seq<u8>,
    entries: Seq<Entry>,
    id: Seq<char>,
    t: TaskView,
    e: Entry,
)
    requires
        write_of(prefix, id, t) is Ok,
        is_entry_of(e, write_of(prefix, id, t)->Ok_0, e.timestamp),
        later_than_all(entries, e.key@, e.timestamp),
    ensures
        get_one_spec(prefix, entries.push(e), id) is Ok,
        get_one_spec(prefix, entries.push(e), id)->Ok_0 == t,
        resolve_spec(prefix, e) is Ok,
        resolve_spec(prefix, e)->Ok_0 == t,
{
    let after = entries.push(e);
    let n = entries.len() as int;
    lemma_written_entry_counts(entries, e);
    law_key_holds_its_id(prefix, id);
    law_written_task_is_read(t, zeros((MAX_RECORD_SIZE - t.wire().len()) as nat));
    assert(after[n] == e);
    let c = choose|c: int| wins(after, c) && #[trigger] after[c].key@ == record_key_spec(prefix, id);
    lemma_one_winner(after, c, n);
}

/// A task that has been added is found, not done and not deleted.
pub proof fn law_added_task_is_found(
    prefix: Seq<u8>,
    entries: Seq<Entry>,
    id: Seq<char>,
    label: Seq<char>,
    created: u64,
    e: Entry,
)
    requires
        added(prefix, id, label, created) is Ok,
        is_entry_of(e, added(prefix, id, label, created)->Ok_0, e.timestamp),
        later_than_all(entries, e.key@, e.timestamp),
    ensures
        get_one_spec(prefix, entries.push(e), id) is Ok,
        get_one_spec(prefix, entries.push(e), id)->Ok_0 == fresh(id, label, created),
{
    law_written_task_is_found(prefix, entries, id, fresh(id, label, created), e);
}

/// Toggling changes whether the task is done, and nothing else.
pub proof fn law_toggled_task_is_found(
    prefix: Seq<u8>,
    entries: Seq<Entry>,
    id: Seq<char>,
    e: Entry,
)
    requires
        toggled(prefix, entries, id) is Ok,
        is_entry_of(e, toggled(prefix, entries, id)->Ok_0, e.timestamp),
        later_than_all(entries, e.key@, e.timestamp),
    ensures
        get_one_spec(prefix, entries, id) is Ok,
        get_one_spec(prefix, entries.push(e), id) is Ok,
        get_one_spec(prefix, entries.push(e), id)->Ok_0 == (TaskView {
            done: !get_one_spec(prefix, entries, id)->Ok_0.done,
            ..get_one_spec(prefix, entries, id)->Ok_0
        }),
{
    let t = get_one_spec(prefix, entries, id)->Ok_0;
    law_written_task_is_found(prefix, entries, id, TaskView { done: !t.done, ..t }, e);
}

/// Updating changes the label of the task, and nothing else.
pub proof fn law_relabelled_task_is_found(
    prefix: Seq<u8>,
    entries: Seq<Entry>,
    id: Seq<char>,
    label: Seq<char>,
    e: Entry,
)
    requires
        relabelled(prefix, entries, id, label) is Ok,
        is_entry_of(e, relabelled(prefix, entries, id, label)->Ok_0, e.timestamp),
        later_than_all(entries, e.key@, e.timestamp),
    ensures
        get_one_spec(prefix, entries, id) is Ok,
        get_one_spec(prefix, entries.push(e), id) is Ok,
        get_one_spec(prefix, entries.push(e), id)->Ok_0 == (TaskView {
            label,
            ..get_one_spec(prefix, entries, id)->Ok_0
        }),
{
    let t = get_one_spec(prefix, entries, id)->Ok_0;
    law_written_task_is_found(prefix, entries, id, TaskView { label, ..t }, e);
}

/// Deleting marks the task as deleted, and changes nothing else. The task
/// stays in the document.
pub proof fn law_deleted_task_is_kept(
    prefix: Seq<u8>,
    entries: Seq<Entry>,
    id: Seq<char>,
    e: Entry,
)
    requires
        deleted(prefix, entries, id) is Ok,
        is_entry_of(e, deleted(prefix, entries, id)->Ok_0, e.timestamp),
        later_than_all(entries, e.key@, e.timestamp),
    ensures
        get_one_spec(prefix, entries, id) is Ok,
        get_one_spec(prefix, entries.push(e), id) is Ok,
        get_one_spec(prefix, entries.push(e), id)->Ok_0 == (TaskView {
            is_delete: true,
            ..get_one_spec(prefix, entries, id)->Ok_0
        }),
        forall|j: int| 0 <= j < entries.len() ==> entries.push(e)[j] == entries[j],
{
    let t = get_one_spec(prefix, entries, id)->Ok_0;
    law_written_task_is_found(prefix, entries, id, TaskView { is_delete: true, ..t }, e);
}

/// A task that has been written and is not marked as deleted is in the
/// list.
pub proof fn law_written_task_is_listed(
    prefix: Seq<u8>,
    entries: Seq<Entry>,
    id: Seq<char>,
    t: TaskView,
    e: Entry,
)
    requires
        write_of(prefix, id, t) is Ok,
        is_entry_of(e, write_of(prefix, id, t)->Ok_0, e.timestamp),
        later_than_all(entries, e.key@, e.timestamp),
        !t.is_delete,
        project_spec(prefix, entries.push(e)) is Ok,
    ensures
        project_spec(prefix, entries.push(e))->Ok_0.contains(t),
{
    let after = entries.push(e);
    let n = entries.len() as int;
    law_written_task_is_found(prefix, entries, id, t, e);
    lemma_written_entry_counts(entries, e);
    law_key_holds_its_id(prefix, id);
    assert(after[n] == e);
    assert(shows(prefix, after, n, t));
    law_list_members(prefix, after, t);
}

/// Once a task has been deleted, no entry under its key puts a task into
/// the list.
pub proof fn law_deleted_task_is_not_listed(
    prefix: Seq<u8>,
    entries: Seq<Entry>,
    id: Seq<char>,
    e: Entry,
    j: int,
    shown: TaskView,
)
    requires
        deleted(prefix, entries, id) is Ok,
        is_entry_of(e, deleted(prefix, entries, id)->Ok_0, e.timestamp),
        later_than_all(entries, e.key@, e.timestamp),
        0 <= j <= entries.len(),
        entries.push(e)[j].key@ == record_key_spec(prefix, id),
    ensures
        !shows(prefix, entries.push(e), j, shown),
{
    let after = entries.push(e);
    let n = entries.len() as int;
    let t = get_one_spec(prefix, entries, id)->Ok_0;
    law_written_task_is_found(prefix, entries, id, TaskView { is_delete: true, ..t }, e);
    lemma_written_entry_counts(entries, e);
    assert(after[n] == e);
}

} // verus!

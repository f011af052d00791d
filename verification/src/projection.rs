//! The list that a document's entries stand for.
//!
//! A document keeps every version of every record. The list shows, for each
//! key, the record of the entry that counts, leaves out the records that are
//! marked as deleted, and orders the rest by their time of creation.

use crate::document::{has_key, lemma_one_winner, wins, Entry};
use crate::error::ListError;
use crate::keys::{
    id_from_record_key, id_of_key, record_key, record_key_spec, same_bytes, starts_with,
};
use crate::tasks::{decoded, Task, TaskView};
use crate::wire::has_prefix;
use vstd::prelude::*;

verus! {

/// The tasks of a sequence as mathematical values.
pub open spec fn views(tasks: Seq<Task>) -> Seq<TaskView> {
    tasks.map_values(|t: Task| t@)
}

/// The task that an entry stands for. An entry whose content could not be
/// fetched stands for a placeholder with the identifier that its key holds;
/// content that is present and malformed is an error.
pub open spec fn resolve_spec(prefix: Seq<u8>, e: Entry) -> Result<TaskView, ListError> {
    match id_of_key(prefix, e.key@) {
        Err(err) => Err(err),
        Ok(id) => match e.content {
            None => Ok(TaskView::missing(id)),
            Some(bytes) => match decoded(bytes@) {
                Some(t) => Ok(t),
                None => Err(ListError::Decode),
            },
        },
    }
}

/// Whether entry `i` is the entry of a record that counts for its key.
pub open spec fn counts(prefix: Seq<u8>, entries: Seq<Entry>, i: int) -> bool {
    has_prefix(prefix, entries[i].key@) && wins(entries, i)
}

/// The tasks to show among the first `n` entries, in the order of the scan:
/// for each entry that counts the task it stands for, unless that task is
/// marked as deleted. The first entry that counts and stands for no task
/// makes the whole an error.
pub open spec fn visible(prefix: Seq<u8>, entries: Seq<Entry>, n: nat) -> Result<
    Seq<TaskView>,
    ListError,
>
    decreases n,
{
    if n == 0 {
        Ok(Seq::empty())
    } else {
        match visible(prefix, entries, (n - 1) as nat) {
            Err(e) => Err(e),
            Ok(shown) => if !counts(prefix, entries, n - 1) {
                Ok(shown)
            } else {
                match resolve_spec(prefix, entries[n - 1]) {
                    Err(e) => Err(e),
                    Ok(t) => if t.is_delete {
                        Ok(shown)
                    } else {
                        Ok(shown.push(t))
                    },
                }
            },
        }
    }
}

/// Where a task created at `created` goes into `s`: behind the last task
/// that was created no later.
pub open spec fn insertion_point(s: Seq<TaskView>, created: u64) -> int
    decreases s.len(),
{
    if s.len() == 0 {
        0
    } else if s.last().created <= created {
        s.len() as int
    } else {
        insertion_point(s.drop_last(), created)
    }
}

/// `s` with `t` put in at its insertion point.
pub open spec fn insert_by_created(s: Seq<TaskView>, t: TaskView) -> Seq<TaskView> {
    s.insert(insertion_point(s, t.created), t)
}

/// `s` ordered by time of creation, tasks created at the same time in the
/// order in which they stand in `s`.
pub open spec fn sort_by_created(s: Seq<TaskView>) -> Seq<TaskView>
    decreases s.len(),
{
    if s.len() == 0 {
        Seq::empty()
    } else {
        insert_by_created(sort_by_created(s.drop_last()), s.last())
    }
}

/// Whether `s` is in ascending order of creation.
pub open spec fn ordered(s: Seq<TaskView>) -> bool {
    forall|i: int, j: int| 0 <= i <= j < s.len() ==> s[i].created <= s[j].created
}

/// The list that the entries stand for.
pub open spec fn project_spec(prefix: Seq<u8>, entries: Seq<Entry>) -> Result<
    Seq<TaskView>,
    ListError,
> {
    match visible(prefix, entries, entries.len()) {
        Err(e) => Err(e),
        Ok(shown) => Ok(sort_by_created(shown)),
    }
}

/// The task stored under the identifier `id`: what the entry that counts for
/// its key stands for, deleted or not.
pub open spec fn get_one_spec(prefix: Seq<u8>, entries: Seq<Entry>, id: Seq<char>) -> Result<
    TaskView,
    ListError,
> {
    if has_key(entries, record_key_spec(prefix, id)) {
        let i = choose|i: int| wins(entries, i) && #[trigger] entries[i].key@ == record_key_spec(prefix, id);
        resolve_spec(prefix, entries[i])
    } else {
        Err(ListError::NotFound)
    }
}

/// The place of the entry that counts for `key`, or `None` where no entry is
/// stored under `key`. The entries are gone through one by one, in the
/// order of the scan, so that of entries written at the same time the first
/// is found.
pub fn latest_for_key(entries: &Vec<Entry>, key: &[u8]) -> (r: Option<usize>)
    ensures
        match r {
            Some(i) => wins(entries@, i as int) && entries@[i as int].key@ == key@,
            None => !has_key(entries@, key@),
        },
{
    let mut best: Option<usize> = None;
    let mut i: usize = 0;
    while i < entries.len()
        invariant
            i <= entries@.len(),
            match best {
                Some(b) => {
                    &&& b < i
                    &&& entries@[b as int].key@ == key@
                    &&& forall|j: int|
                        0 <= j < i && #[trigger] entries@[j].key@ == key@ ==> {
                            ||| entries@[j].timestamp < entries@[b as int].timestamp
                            ||| (entries@[j].timestamp == entries@[b as int].timestamp && b <= j)
                        }
                },
                None => forall|j: int| 0 <= j < i ==> #[trigger] entries@[j].key@ != key@,
            },
        decreases entries@.len() - i,
    {
        if same_bytes(entries[i].key.as_slice(), key) {
            match best {
                Some(b) => {
                    if entries[i].timestamp > entries[b].timestamp {
                        best = Some(i);
                    }
                },
                None => {
                    best = Some(i);
                },
            }
        }
        i += 1;
    }
    best
}

/// The task that an entry stands for.
pub fn task_from_entry(prefix: &[u8], entry: &Entry) -> (r: Result<Task, ListError>)
    ensures
        match r {
            Ok(t) => resolve_spec(prefix@, *entry) == Ok::<TaskView, ListError>(t@),
            Err(e) => resolve_spec(prefix@, *entry) == Err::<TaskView, ListError>(e),
        },
{
    match id_from_record_key(prefix, entry.key.as_slice()) {
        Err(e) => Err(e),
        Ok(id) => match &entry.content {
            None => Ok(Task::missing_task(id)),
            Some(bytes) => Task::from_bytes(bytes.as_slice()),
        },
    }
}

/// Puts `t` into `out` at its insertion point.
pub fn insert_task(out: &mut Vec<Task>, t: Task)
    ensures
        views(final(out)@) == insert_by_created(views(old(out)@), t@),
{
    let ghost before = views(out@);
    let mut p: usize = out.len();
    assert(before.subrange(0, p as int) =~= before);
    while p > 0 && out[p - 1].created > t.created
        invariant
            p <= out@.len(),
            before == views(out@),
            insertion_point(before, t.created) == insertion_point(
                before.subrange(0, p as int),
                t.created,
            ),
        decreases p,
    {
        assert(before.subrange(0, p as int).drop_last() =~= before.subrange(0, p - 1));
        p -= 1;
    }
    out.insert(p, t);
}

/// The list that the entries stand for: for each key that begins with
/// `prefix` the task of the entry that counts, without the tasks that are
/// marked as deleted, in ascending order of creation.
///
/// Content that could not be fetched gives a placeholder and no error.
/// Content that is present and malformed, or a key that holds no
/// identifier, fails the whole projection with the error of the first such
/// entry in the scan.
pub fn project(prefix: &[u8], entries: &Vec<Entry>) -> (r: Result<Vec<Task>, ListError>)
    ensures
        match r {
            Ok(tasks) => project_spec(prefix@, entries@) == Ok::<Seq<TaskView>, ListError>(
                views(tasks@),
            ),
            Err(e) => project_spec(prefix@, entries@) == Err::<Seq<TaskView>, ListError>(e),
        },
{
    let mut out: Vec<Task> = Vec::new();
    let ghost mut shown: Seq<TaskView> = Seq::empty();
    let mut i: usize = 0;
    while i < entries.len()
        invariant
            i <= entries@.len(),
            visible(prefix@, entries@, i as nat) == Ok::<Seq<TaskView>, ListError>(shown),
            views(out@) == sort_by_created(shown),
        decreases entries@.len() - i,
    {
        let entry = &entries[i];
        let mut counted = false;
        if starts_with(entry.key.as_slice(), prefix) {
            match latest_for_key(entries, entry.key.as_slice()) {
                Some(b) => {
                    proof {
                        if wins(entries@, i as int) {
                            lemma_one_winner(entries@, i as int, b as int);
                        }
                    }
                    counted = b == i;
                },
                None => {},
            }
        }
        if counted {
            match task_from_entry(prefix, entry) {
                Err(e) => {
                    proof {
                        lemma_visible_error_stays(prefix@, entries@, (i + 1) as nat, entries@.len());
                    }
                    return Err(e);
                },
                Ok(t) => {
                    if !t.is_delete {
                        proof {
                            assert(shown.push(t@).drop_last() =~= shown);
                            shown = shown.push(t@);
                        }
                        insert_task(&mut out, t);
                    }
                },
            }
        }
        i += 1;
    }
    Ok(out)
}

/// The task stored under the identifier `id`, deleted or not: what the
/// entry that counts for the key of `id` stands for. Fails with
/// `ListError::NotFound` where no entry is stored under that key.
pub fn get_one(prefix: &[u8], entries: &Vec<Entry>, id: &str) -> (r: Result<Task, ListError>)
    ensures
        match r {
            Ok(t) => get_one_spec(prefix@, entries@, id@) == Ok::<TaskView, ListError>(t@),
            Err(e) => get_one_spec(prefix@, entries@, id@) == Err::<TaskView, ListError>(e),
        },
{
    let key = record_key(prefix, id);
    match latest_for_key(entries, key.as_slice()) {
        None => Err(ListError::NotFound),
        Some(i) => {
            proof {
                let c = choose|c: int|
                    wins(entries@, c) && #[trigger] entries@[c].key@ == record_key_spec(
                        prefix@,
                        id@,
                    );
                lemma_one_winner(entries@, i as int, c);
            }
            task_from_entry(prefix, &entries[i])
        },
    }
}

/// Once an entry has made the projection an error, later entries do not
/// change that.
pub proof fn lemma_visible_error_stays(prefix: Seq<u8>, entries: Seq<Entry>, n: nat, m: nat)
    requires
        n <= m,
        visible(prefix, entries, n) is Err,
    ensures
        visible(prefix, entries, m) == visible(prefix, entries, n),
    decreases m,
{
    if n < m {
        lemma_visible_error_stays(prefix, entries, n, (m - 1) as nat);
    }
}

} // verus!

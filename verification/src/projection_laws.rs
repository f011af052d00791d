//! What holds of every projection.

use crate::document::{lemma_latest_wins, wins, Entry};
use crate::error::ListError;
use crate::keys::id_of_key;
use crate::projection::{
    counts, insert_by_created, insertion_point, ordered, project_spec, resolve_spec,
    sort_by_created, visible,
};
use crate::tasks::{decoded, TaskView};
use crate::wire::has_prefix;
use vstd::prelude::*;

verus! {

/// Behind its insertion point every task was created later.
proof fn lemma_later_behind(s: Seq<TaskView>, created: u64)
    ensures
        0 <= insertion_point(s, created) <= s.len(),
        forall|k: int| insertion_point(s, created) <= k < s.len() ==> s[k].created > created,
        insertion_point(s, created) > 0 ==> s[insertion_point(s, created) - 1].created <= created,
    decreases s.len(),
{
    if s.len() > 0 && s.last().created > created {
        lemma_later_behind(s.drop_last(), created);
        let p = insertion_point(s, created);
        assert forall|k: int| p <= k < s.len() implies s[k].created > created by {
            if k < s.len() - 1 {
                assert(s.drop_last()[k] == s[k]);
            }
        }
    }
}

/// Putting a task into an ordered sequence at its insertion point leaves the
/// sequence ordered.
proof fn lemma_insert_ordered(s: Seq<TaskView>, t: TaskView)
    requires
        ordered(s),
    ensures
        ordered(insert_by_created(s, t)),
{
    lemma_later_behind(s, t.created);
    let p = insertion_point(s, t.created);
    let r = insert_by_created(s, t);
    assert forall|i: int, j: int| 0 <= i <= j < r.len() implies r[i].created <= r[j].created by {
        if i < p {
            assert(r[i] == s[i]);
            assert(s[i].created <= s[p - 1].created);
        }
        if j > p {
            assert(r[j] == s[j - 1]);
        }
    }
}

/// Putting a task in adds that task and changes nothing else.
proof fn lemma_insert_permutes(s: Seq<TaskView>, t: TaskView)
    ensures
        insert_by_created(s, t).to_multiset() == s.to_multiset().insert(t),
{
    lemma_later_behind(s, t.created);
    let p = insertion_point(s, t.created);
    let r = insert_by_created(s, t);
    assert(r.remove(p) =~= s);
    vstd::seq_lib::to_multiset_remove(r, p);
    r.to_multiset_ensures();
    assert(r.contains(t)) by {
        assert(r[p] == t);
    }
    assert(r.to_multiset() =~= s.to_multiset().insert(t));
}

/// A sorted list is in ascending order of creation.
pub proof fn lemma_sort_ordered(s: Seq<TaskView>)
    ensures
        ordered(sort_by_created(s)),
    decreases s.len(),
{
    if s.len() > 0 {
        lemma_sort_ordered(s.drop_last());
        lemma_insert_ordered(sort_by_created(s.drop_last()), s.last());
    }
}

/// Sorting neither adds, drops nor repeats a task.
pub proof fn lemma_sort_permutes(s: Seq<TaskView>)
    ensures
        sort_by_created(s).to_multiset() == s.to_multiset(),
        sort_by_created(s).len() == s.len(),
        forall|t: TaskView| sort_by_created(s).contains(t) <==> s.contains(t),
    decreases s.len(),
{
    if s.len() > 0 {
        lemma_sort_permutes(s.drop_last());
        lemma_insert_permutes(sort_by_created(s.drop_last()), s.last());
        vstd::seq_lib::to_multiset_build(s.drop_last(), s.last());
        assert(s.drop_last().push(s.last()) =~= s);
    }
    s.to_multiset_ensures();
    sort_by_created(s).to_multiset_ensures();
    assert forall|t: TaskView| sort_by_created(s).contains(t) <==> s.contains(t) by {
        assert(sort_by_created(s).to_multiset().count(t) == s.to_multiset().count(t));
    }
}

/// Whether entry `i` puts the task `t` into the list: it counts, stands for
/// `t`, and `t` is not marked as deleted.
pub open spec fn shows(prefix: Seq<u8>, entries: Seq<Entry>, i: int, t: TaskView) -> bool {
    &&& counts(prefix, entries, i)
    &&& resolve_spec(prefix, entries[i]) == Ok::<TaskView, ListError>(t)
    &&& !t.is_delete
}

/// The tasks to show among the first `n` entries are those that one of these
/// entries puts into the list.
proof fn lemma_visible_members(prefix: Seq<u8>, entries: Seq<Entry>, n: nat)
    requires
        n <= entries.len(),
        visible(prefix, entries, n) is Ok,
    ensures
        forall|t: TaskView|
            visible(prefix, entries, n)->Ok_0.contains(t) <==> exists|i: int|
                0 <= i < n && #[trigger] shows(prefix, entries, i, t),
    decreases n,
{
    let now = visible(prefix, entries, n)->Ok_0;
    if n == 0 {
        assert forall|t: TaskView| !now.contains(t) by {}
    } else {
        lemma_visible_members(prefix, entries, (n - 1) as nat);
        let before = visible(prefix, entries, (n - 1) as nat)->Ok_0;
        assert forall|t: TaskView|
            now.contains(t) <==> exists|i: int|
                0 <= i < n && #[trigger] shows(prefix, entries, i, t) by {
            if now.contains(t) {
                let k = choose|k: int| 0 <= k < now.len() && now[k] == t;
                if k < before.len() {
                    assert(before[k] == t);
                    assert(before.contains(t));
                    let i = choose|i: int| 0 <= i < n - 1 && #[trigger] shows(prefix, entries, i, t);
                    assert(shows(prefix, entries, i, t));
                } else {
                    assert(shows(prefix, entries, n - 1, t));
                }
            }
            if exists|i: int| 0 <= i < n && #[trigger] shows(prefix, entries, i, t) {
                let i = choose|i: int| 0 <= i < n && #[trigger] shows(prefix, entries, i, t);
                if i < n - 1 {
                    assert(before.contains(t));
                    let k = choose|k: int| 0 <= k < before.len() && before[k] == t;
                    assert(now[k] == t);
                } else {
                    assert(now == before.push(t));
                    assert(now[before.len() as int] == t);
                }
            }
        }
    }
}

/// The projection fails only where an entry that counts stands for no task.
proof fn lemma_visible_ok(prefix: Seq<u8>, entries: Seq<Entry>, n: nat)
    requires
        n <= entries.len(),
        forall|i: int|
            0 <= i < n && counts(prefix, entries, i) ==> #[trigger] resolve_spec(
                prefix,
                entries[i],
            ) is Ok,
    ensures
        visible(prefix, entries, n) is Ok,
    decreases n,
{
    if n > 0 {
        lemma_visible_ok(prefix, entries, (n - 1) as nat);
    }
}

/// A list is in ascending order of creation.
pub proof fn law_list_is_ordered(prefix: Seq<u8>, entries: Seq<Entry>)
    requires
        project_spec(prefix, entries) is Ok,
    ensures
        ordered(project_spec(prefix, entries)->Ok_0),
{
    lemma_sort_ordered(visible(prefix, entries, entries.len())->Ok_0);
}

/// A list holds exactly the tasks that some entry puts into it: a task is in
/// the list if and only if it is what an entry that counts for a record's
/// key stands for, and is not marked as deleted.
pub proof fn law_list_members(prefix: Seq<u8>, entries: Seq<Entry>, t: TaskView)
    requires
        project_spec(prefix, entries) is Ok,
    ensures
        project_spec(prefix, entries)->Ok_0.contains(t) <==> exists|i: int|
            0 <= i < entries.len() && #[trigger] shows(prefix, entries, i, t),
{
    let shown = visible(prefix, entries, entries.len())->Ok_0;
    lemma_visible_members(prefix, entries, entries.len());
    lemma_sort_permutes(shown);
    assert(sort_by_created(shown).contains(t) <==> shown.contains(t));
    assert(shown.contains(t) <==> exists|i: int|
        0 <= i < entries.len() && #[trigger] shows(prefix, entries, i, t));
}

/// A list has one task for each entry that puts one into it, no more.
pub proof fn law_list_is_a_permutation(prefix: Seq<u8>, entries: Seq<Entry>)
    requires
        project_spec(prefix, entries) is Ok,
    ensures
        project_spec(prefix, entries)->Ok_0.to_multiset() == visible(
            prefix,
            entries,
            entries.len(),
        )->Ok_0.to_multiset(),
{
    lemma_sort_permutes(visible(prefix, entries, entries.len())->Ok_0);
}

/// No task in a list is marked as deleted.
pub proof fn law_no_deleted_task_is_listed(prefix: Seq<u8>, entries: Seq<Entry>)
    requires
        project_spec(prefix, entries) is Ok,
    ensures
        forall|k: int|
            0 <= k < project_spec(prefix, entries)->Ok_0.len() ==> !(#[trigger] project_spec(
                prefix,
                entries,
            )->Ok_0[k]).is_delete,
{
    let list = project_spec(prefix, entries)->Ok_0;
    assert forall|k: int| 0 <= k < list.len() implies !(#[trigger] list[k]).is_delete by {
        law_list_members(prefix, entries, list[k]);
        assert(list.contains(list[k]));
    }
}

/// The last write wins, wherever it stands in the scan: where one entry
/// under a record's key is later than all others under that key, it is the
/// only one of them that counts, and the list holds the task it stands for
/// unless that task is marked as deleted.
pub proof fn law_last_write_wins(prefix: Seq<u8>, entries: Seq<Entry>, i: int)
    requires
        0 <= i < entries.len(),
        has_prefix(prefix, entries[i].key@),
        forall|j: int|
            0 <= j < entries.len() && j != i && #[trigger] entries[j].key@ == entries[i].key@
                ==> entries[j].timestamp < entries[i].timestamp,
        project_spec(prefix, entries) is Ok,
    ensures
        counts(prefix, entries, i),
        forall|j: int|
            0 <= j < entries.len() && j != i && #[trigger] entries[j].key@ == entries[i].key@
                ==> !counts(prefix, entries, j),
        resolve_spec(prefix, entries[i]) is Ok,
        !resolve_spec(prefix, entries[i])->Ok_0.is_delete ==> project_spec(
            prefix,
            entries,
        )->Ok_0.contains(resolve_spec(prefix, entries[i])->Ok_0),
{
    lemma_latest_wins(entries, i);
    lemma_counting_entry_resolves(prefix, entries, entries.len(), i);
    let t = resolve_spec(prefix, entries[i])->Ok_0;
    if !t.is_delete {
        assert(shows(prefix, entries, i, t));
        law_list_members(prefix, entries, t);
    }
}

/// Content that is present and malformed is not passed over: an entry that
/// counts and whose content holds no task fails the whole projection.
pub proof fn law_malformed_content_fails(prefix: Seq<u8>, entries: Seq<Entry>, i: int)
    requires
        0 <= i < entries.len(),
        counts(prefix, entries, i),
        entries[i].content matches Some(bytes) && decoded(bytes@) is None,
    ensures
        resolve_spec(prefix, entries[i]) is Err,
        project_spec(prefix, entries) is Err,
{
    if project_spec(prefix, entries) is Ok {
        lemma_counting_entry_resolves(prefix, entries, entries.len(), i);
    }
}

/// An entry that counts and stands for no task fails the whole projection,
/// whatever the other entries hold.
pub proof fn law_one_failure_fails_all(prefix: Seq<u8>, entries: Seq<Entry>, i: int)
    requires
        0 <= i < entries.len(),
        counts(prefix, entries, i),
        resolve_spec(prefix, entries[i]) is Err,
    ensures
        project_spec(prefix, entries) is Err,
{
    if project_spec(prefix, entries) is Ok {
        lemma_counting_entry_resolves(prefix, entries, entries.len(), i);
    }
}

/// The first entry of the scan that counts and stands for no task decides
/// the error of the projection: `ListError::Decode` where its content is
/// malformed, `ListError::InvalidKey` where its key holds no identifier.
pub proof fn law_first_failure_is_reported(prefix: Seq<u8>, entries: Seq<Entry>, i: int)
    requires
        0 <= i < entries.len(),
        counts(prefix, entries, i),
        resolve_spec(prefix, entries[i]) is Err,
        forall|j: int|
            0 <= j < i && counts(prefix, entries, j) ==> #[trigger] resolve_spec(
                prefix,
                entries[j],
            ) is Ok,
    ensures
        project_spec(prefix, entries) is Err,
        project_spec(prefix, entries)->Err_0 == resolve_spec(prefix, entries[i])->Err_0,
        id_of_key(prefix, entries[i].key@) is Ok ==> project_spec(prefix, entries)->Err_0
            == ListError::Decode,
{
    lemma_visible_ok(prefix, entries, i as nat);
    crate::projection::lemma_visible_error_stays(
        prefix,
        entries,
        (i + 1) as nat,
        entries.len(),
    );
}

/// Where the projection succeeds, every entry that counts stands for a task.
proof fn lemma_counting_entry_resolves(prefix: Seq<u8>, entries: Seq<Entry>, n: nat, i: int)
    requires
        0 <= i < n <= entries.len(),
        counts(prefix, entries, i),
        visible(prefix, entries, n) is Ok,
    ensures
        resolve_spec(prefix, entries[i]) is Ok,
    decreases n,
{
    if i < n - 1 {
        lemma_counting_entry_resolves(prefix, entries, (n - 1) as nat, i);
    }
}

/// Of two entries under one key of a record the later one decides, in either
/// order of the scan: the list is that of the later entry alone.
pub proof fn law_later_of_two_decides(prefix: Seq<u8>, early: Entry, late: Entry)
    requires
        early.key@ == late.key@,
        has_prefix(prefix, late.key@),
        early.timestamp < late.timestamp,
    ensures
        project_spec(prefix, seq![early, late]) == project_spec(prefix, seq![late]),
        project_spec(prefix, seq![late, early]) == project_spec(prefix, seq![late]),
{
    reveal_with_fuel(visible, 3);
    reveal_with_fuel(sort_by_created, 3);
    let a = seq![early, late];
    let b = seq![late, early];
    let c = seq![late];
    assert(wins(c, 0));
    assert(wins(a, 1));
    assert(!wins(a, 0)) by {
        assert(a[1].key@ == a[0].key@);
    }
    assert(wins(b, 0));
    assert(!wins(b, 1)) by {
        assert(b[0].key@ == b[1].key@);
    }
    assert(a[1] == late && b[0] == late && c[0] == late);
}

/// A task that is marked as deleted is not in the list, and neither is any
/// task of its identifier, where the entry that stands for it counts and no
/// other entry that counts stands for a task of that identifier.
pub proof fn law_deleted_task_is_hidden(prefix: Seq<u8>, entries: Seq<Entry>, i: int, t: TaskView)
    requires
        0 <= i < entries.len(),
        counts(prefix, entries, i),
        resolve_spec(prefix, entries[i]) is Ok,
        resolve_spec(prefix, entries[i])->Ok_0 == t,
        t.is_delete,
        forall|j: int|
            0 <= j < entries.len() && j != i && counts(prefix, entries, j) && (
            #[trigger] resolve_spec(prefix, entries[j])) is Ok ==> resolve_spec(
                prefix,
                entries[j],
            )->Ok_0.id != t.id,
        project_spec(prefix, entries) is Ok,
    ensures
        forall|k: int|
            0 <= k < project_spec(prefix, entries)->Ok_0.len() ==> (#[trigger] project_spec(
                prefix,
                entries,
            )->Ok_0[k]).id != t.id,
{
    let list = project_spec(prefix, entries)->Ok_0;
    assert forall|k: int| 0 <= k < list.len() implies (#[trigger] list[k]).id != t.id by {
        law_list_members(prefix, entries, list[k]);
        assert(list.contains(list[k]));
        let j = choose|j: int| 0 <= j < entries.len() && #[trigger] shows(prefix, entries, j, list[k]);
        assert(shows(prefix, entries, j, list[k]));
        if j != i {
            assert(resolve_spec(prefix, entries[j]) is Ok);
        }
    }
}

/// An entry whose content could not be fetched stands for the placeholder
/// with the identifier that its key holds, and is no error.
pub proof fn law_missing_content_is_no_error(prefix: Seq<u8>, e: Entry)
    requires
        e.content is None,
        id_of_key(prefix, e.key@) is Ok,
    ensures
        resolve_spec(prefix, e) is Ok,
        resolve_spec(prefix, e)->Ok_0 == TaskView::missing(id_of_key(prefix, e.key@)->Ok_0),
        TaskView::missing(id_of_key(prefix, e.key@)->Ok_0).label == "Missing Content"@,
        TaskView::missing(id_of_key(prefix, e.key@)->Ok_0).id == id_of_key(prefix, e.key@)->Ok_0,
{
}

/// The projection succeeds where every entry that counts stands for a task;
/// entries whose content could not be fetched do.
pub proof fn law_project_succeeds(prefix: Seq<u8>, entries: Seq<Entry>)
    requires
        forall|i: int|
            0 <= i < entries.len() && counts(prefix, entries, i) ==> #[trigger] resolve_spec(
                prefix,
                entries[i],
            ) is Ok,
    ensures
        project_spec(prefix, entries) is Ok,
{
    lemma_visible_ok(prefix, entries, entries.len());
}

/// Where the content of an entry that counts could not be fetched, the list
/// holds the placeholder with the identifier that the entry's key holds.
pub proof fn law_placeholder_is_listed(prefix: Seq<u8>, entries: Seq<Entry>, i: int)
    requires
        0 <= i < entries.len(),
        counts(prefix, entries, i),
        entries[i].content is None,
        project_spec(prefix, entries) is Ok,
    ensures
        id_of_key(prefix, entries[i].key@) is Ok,
        project_spec(prefix, entries)->Ok_0.contains(
            TaskView::missing(id_of_key(prefix, entries[i].key@)->Ok_0),
        ),
{
    lemma_counting_entry_resolves(prefix, entries, entries.len(), i);
    let t = TaskView::missing(id_of_key(prefix, entries[i].key@)->Ok_0);
    assert(shows(prefix, entries, i, t));
    law_list_members(prefix, entries, t);
}

/// The tasks of `s` that were created at `created`, in their order in `s`.
pub open spec fn created_at(s: Seq<TaskView>, created: u64) -> Seq<TaskView>
    decreases s.len(),
{
    if s.len() == 0 {
        Seq::empty()
    } else if s.last().created == created {
        created_at(s.drop_last(), created).push(s.last())
    } else {
        created_at(s.drop_last(), created)
    }
}

/// Putting a task in at its insertion point puts it behind the tasks
/// created at the same time and leaves all others as they stood.
proof fn lemma_insert_is_stable(s: Seq<TaskView>, t: TaskView, created: u64)
    ensures
        created_at(insert_by_created(s, t), created) == if t.created == created {
            created_at(s, created).push(t)
        } else {
            created_at(s, created)
        },
    decreases s.len(),
{
    let p = insertion_point(s, t.created);
    let r = insert_by_created(s, t);
    if s.len() == 0 || s.last().created <= t.created {
        assert(r =~= s.push(t));
        assert(r.drop_last() =~= s);
    } else {
        let front = s.drop_last();
        lemma_later_behind(front, t.created);
        lemma_insert_is_stable(front, t, created);
        assert(r =~= insert_by_created(front, t).push(s.last()));
        assert(r.drop_last() =~= insert_by_created(front, t));
    }
}

/// Sorting keeps tasks that were created at the same time in the order in
/// which they stood.
pub proof fn lemma_sort_is_stable(s: Seq<TaskView>, created: u64)
    ensures
        created_at(sort_by_created(s), created) == created_at(s, created),
    decreases s.len(),
{
    if s.len() > 0 {
        lemma_sort_is_stable(s.drop_last(), created);
        lemma_insert_is_stable(sort_by_created(s.drop_last()), s.last(), created);
    }
}

/// Tasks of a list that were created at the same time stand in the order
/// in which the scan met the entries that put them into the list.
pub proof fn law_ties_keep_the_order_of_the_scan(
    prefix: Seq<u8>,
    entries: Seq<Entry>,
    created: u64,
)
    requires
        project_spec(prefix, entries) is Ok,
    ensures
        created_at(project_spec(prefix, entries)->Ok_0, created) == created_at(
            visible(prefix, entries, entries.len())->Ok_0,
            created,
        ),
{
    lemma_sort_is_stable(visible(prefix, entries, entries.len())->Ok_0, created);
}

/// Whether no two entries under one key were written at the same time.
pub open spec fn distinct_times(entries: Seq<Entry>) -> bool {
    forall|i: int, j: int|
        0 <= i < entries.len() && 0 <= j < entries.len() && i != j && #[trigger] entries[i].key@
            == #[trigger] entries[j].key@ ==> entries[i].timestamp != entries[j].timestamp
}

/// Every entry of a scan stands somewhere in a scan of the same entries.
proof fn lemma_entry_is_in_both(a: Seq<Entry>, b: Seq<Entry>, i: int) -> (j: int)
    requires
        a.to_multiset() == b.to_multiset(),
        0 <= i < a.len(),
    ensures
        0 <= j < b.len(),
        b[j] == a[i],
{
    a.to_multiset_ensures();
    b.to_multiset_ensures();
    assert(a.contains(a[i]));
    assert(a.to_multiset().count(a[i]) > 0);
    assert(b.to_multiset().count(a[i]) > 0);
    assert(b.contains(a[i]));
    choose|j: int| 0 <= j < b.len() && b[j] == a[i]
}

/// An entry that counts in one scan counts in every scan of the same
/// entries, where no two entries under one key were written at the same
/// time.
proof fn lemma_winner_in_both(a: Seq<Entry>, b: Seq<Entry>, i: int, j: int)
    requires
        a.to_multiset() == b.to_multiset(),
        distinct_times(b),
        wins(a, i),
        0 <= j < b.len(),
        b[j] == a[i],
    ensures
        wins(b, j),
{
    assert forall|k: int| 0 <= k < b.len() && #[trigger] b[k].key@ == b[j].key@ implies (b[k].timestamp
        < b[j].timestamp || (b[k].timestamp == b[j].timestamp && j <= k)) by {
        if k != j {
            let m = lemma_entry_is_in_both(b, a, k);
            assert(a[m].key@ == a[i].key@);
            assert(b[k].key@ == b[j].key@);
            assert(b[k].timestamp != b[j].timestamp);
        }
    }
}

/// The order of the scan does not matter, where no two entries under one
/// key were written at the same time: two scans of the same entries give
/// lists of the same tasks, and where one of them gives a list the other
/// does too.
pub proof fn law_scan_order_does_not_matter(
    prefix: Seq<u8>,
    a: Seq<Entry>,
    b: Seq<Entry>,
    t: TaskView,
)
    requires
        a.to_multiset() == b.to_multiset(),
        distinct_times(a),
        distinct_times(b),
        project_spec(prefix, a) is Ok,
    ensures
        project_spec(prefix, b) is Ok,
        project_spec(prefix, a)->Ok_0.contains(t) <==> project_spec(prefix, b)->Ok_0.contains(t),
{
    assert forall|j: int| 0 <= j < b.len() && counts(prefix, b, j) implies #[trigger] resolve_spec(
        prefix,
        b[j],
    ) is Ok by {
        let i = lemma_entry_is_in_both(b, a, j);
        lemma_winner_in_both(b, a, j, i);
        lemma_counting_entry_resolves(prefix, a, a.len(), i);
    }
    law_project_succeeds(prefix, b);
    law_list_members(prefix, a, t);
    law_list_members(prefix, b, t);
    if exists|i: int| 0 <= i < a.len() && #[trigger] shows(prefix, a, i, t) {
        let i = choose|i: int| 0 <= i < a.len() && #[trigger] shows(prefix, a, i, t);
        let j = lemma_entry_is_in_both(a, b, i);
        lemma_winner_in_both(a, b, i, j);
        assert(shows(prefix, b, j, t));
    }
    if exists|j: int| 0 <= j < b.len() && #[trigger] shows(prefix, b, j, t) {
        let j = choose|j: int| 0 <= j < b.len() && #[trigger] shows(prefix, b, j, t);
        let i = lemma_entry_is_in_both(b, a, j);
        lemma_winner_in_both(b, a, j, i);
        assert(shows(prefix, a, i, t));
    }
}

} // verus!

//! A task, its payload, and the list of tasks that a document holds.

use crate::codec::{postcard_record, read_record, write_record};
use crate::document::{Entry, Write};
use crate::error::ListError;
use crate::keys::{task_prefix, task_prefix_spec};
use crate::list::{
    add_task, added, delete_task, deleted, is_write, relabelled, toggle_task, toggled, update_task,
};
use crate::projection::{get_one, get_one_spec, project, project_spec, views};
use crate::ticket::{read_text, Ticket};
use crate::wire::{
    cut_short, has_prefix, lemma_record_fits, record_wire, zeros, ID_LEN_THAT_ALWAYS_FITS,
    MAX_LABEL_LEN, MAX_RECORD_SIZE,
};
use vstd::prelude::*;
use vstd::string::StringExecFns;
use vstd::utf8::encode_utf8;

verus! {

/// Task in a list of tasks.
#[derive(Clone, Debug, PartialEq, Eq)]
pub struct Task {
    /// Description of the task, at most `MAX_LABEL_LEN` bytes of UTF-8.
    pub label: String,
    /// When the task was created, in seconds since the Unix epoch.
    pub created: u64,
    /// Whether the task has been completed.
    pub done: bool,
    /// Whether the task has been deleted. A deleted task stays in the
    /// document and is left out of the list.
    pub is_delete: bool,
    /// The identifier that the caller chose for the task.
    pub id: String,
}

/// A task as a mathematical value.
pub struct TaskView {
    pub label: Seq<char>,
    pub created: u64,
    pub done: bool,
    pub is_delete: bool,
    pub id: Seq<char>,
}

impl View for Task {
    type V = TaskView;

    open spec fn view(&self) -> TaskView {
        TaskView {
            label: self.label@,
            created: self.created,
            done: self.done,
            is_delete: self.is_delete,
            id: self.id@,
        }
    }
}

impl TaskView {
    /// The length of the label, in bytes of its UTF-8 form.
    pub open spec fn label_len(self) -> nat {
        encode_utf8(self.label).len()
    }

    /// The task on the wire, without the zeros that fill the payload.
    pub open spec fn wire(self) -> Seq<u8> {
        record_wire(self.label, self.created, self.done, self.is_delete, self.id)
    }

    /// Whether the task can be stored: its label is short enough and it fits
    /// into a payload.
    pub open spec fn storable(self) -> bool {
        self.label_len() <= MAX_LABEL_LEN && self.wire().len() <= MAX_RECORD_SIZE
    }

    /// The payload of a storable task: the task on the wire, then zeros up
    /// to `MAX_RECORD_SIZE` bytes.
    pub open spec fn payload(self) -> Seq<u8> {
        self.wire() + zeros((MAX_RECORD_SIZE - self.wire().len()) as nat)
    }

    /// What writing the task gives: its payload, or the reason why it cannot
    /// be stored. The label is looked at first.
    pub open spec fn encoded(self) -> Result<Seq<u8>, ListError> {
        if self.label_len() > MAX_LABEL_LEN {
            Err(ListError::LabelTooLong)
        } else if self.wire().len() > MAX_RECORD_SIZE {
            Err(ListError::RecordTooLarge)
        } else {
            Ok(self.payload())
        }
    }

    /// The task that stands in for content that could not be fetched.
    pub open spec fn missing(id: Seq<char>) -> TaskView {
        TaskView { label: "Missing Content"@, created: 0, done: false, is_delete: false, id }
    }
}

/// The task that bytes hold, or `None` where they are malformed.
///
/// Bytes that begin with a task on the wire hold that task, whatever
/// follows. Bytes that end before a task on the wire does hold none. For all
/// other bytes, `postcard` decides.
pub open spec fn decoded(bytes: Seq<u8>) -> Option<TaskView> {
    if exists|t: TaskView| has_prefix(#[trigger] t.wire(), bytes) {
        Some(choose|t: TaskView| has_prefix(#[trigger] t.wire(), bytes))
    } else if exists|t: TaskView| cut_short(bytes, #[trigger] t.wire()) {
        None
    } else {
        match postcard_record(bytes) {
            Some(f) => Some(
                TaskView { label: f.0, created: f.1, done: f.2, is_delete: f.3, id: f.4 },
            ),
            None => None,
        }
    }
}

/// Bytes begin with one task on the wire at most.
pub proof fn lemma_one_task_in_front(bytes: Seq<u8>, a: TaskView, b: TaskView)
    requires
        has_prefix(a.wire(), bytes),
        has_prefix(b.wire(), bytes),
    ensures
        a == b,
{
    let rest_a = bytes.subrange(a.wire().len() as int, bytes.len() as int);
    let rest_b = bytes.subrange(b.wire().len() as int, bytes.len() as int);
    assert(bytes =~= a.wire() + rest_a);
    assert(bytes =~= b.wire() + rest_b);
    crate::wire_laws::law_record_wire_is_unambiguous(
        a.label,
        a.created,
        a.done,
        a.is_delete,
        a.id,
        rest_a,
        b.label,
        b.created,
        b.done,
        b.is_delete,
        b.id,
        rest_b,
    );
}

/// What was written is read again: bytes that begin with a task on the wire
/// hold that task, whatever follows.
pub proof fn law_written_task_is_read(t: TaskView, rest: Seq<u8>)
    ensures
        decoded(t.wire() + rest) == Some(t),
{
    let bytes = t.wire() + rest;
    assert(bytes.subrange(0, t.wire().len() as int) =~= t.wire());
    assert(has_prefix(t.wire(), bytes));
    let c = choose|c: TaskView| has_prefix(#[trigger] c.wire(), bytes);
    lemma_one_task_in_front(bytes, t, c);
}

/// A payload that was cut short holds no task: bytes that end before a task
/// on the wire does are malformed.
pub proof fn law_cut_short_is_refused(t: TaskView, bytes: Seq<u8>)
    requires
        cut_short(bytes, t.wire()),
    ensures
        decoded(bytes) is None,
{
    if exists|a: TaskView| has_prefix(#[trigger] a.wire(), bytes) {
        let a = choose|a: TaskView| has_prefix(#[trigger] a.wire(), bytes);
        let behind_a = bytes.subrange(a.wire().len() as int, bytes.len() as int);
        let missing = t.wire().subrange(bytes.len() as int, t.wire().len() as int);
        assert(t.wire() =~= a.wire() + (behind_a + missing));
        assert(t.wire() =~= t.wire() + Seq::<u8>::empty());
        crate::wire_laws::law_record_wire_is_unambiguous(
            a.label,
            a.created,
            a.done,
            a.is_delete,
            a.id,
            behind_a + missing,
            t.label,
            t.created,
            t.done,
            t.is_delete,
            t.id,
            Seq::empty(),
        );
        assert((behind_a + missing).len() > 0);
    }
}

/// The payload of a task that can be stored holds that task.
pub proof fn law_payload_round_trip(t: TaskView)
    requires
        t.storable(),
    ensures
        t.encoded() is Ok,
        decoded(t.encoded()->Ok_0) == Some(t),
{
    law_written_task_is_read(t, zeros((MAX_RECORD_SIZE - t.wire().len()) as nat));
}

/// The length of the label alone decides whether a task can be stored,
/// where the identifier has at most `ID_LEN_THAT_ALWAYS_FITS` bytes: the task
/// can be stored if and only if its label has at most `MAX_LABEL_LEN` bytes.
pub proof fn law_label_limit_decides(t: TaskView)
    requires
        encode_utf8(t.id).len() <= ID_LEN_THAT_ALWAYS_FITS,
    ensures
        t.storable() <==> t.label_len() <= MAX_LABEL_LEN,
{
    if t.label_len() <= MAX_LABEL_LEN {
        lemma_record_fits(t.label, t.created, t.done, t.is_delete, t.id);
    }
}

/// A payload is `MAX_RECORD_SIZE` bytes long and begins with the task on the
/// wire.
pub proof fn law_payload_size(t: TaskView)
    requires
        t.storable(),
    ensures
        t.payload().len() == MAX_RECORD_SIZE,
        t.payload().subrange(0, t.wire().len() as int) == t.wire(),
        forall|i: int| t.wire().len() <= i < MAX_RECORD_SIZE ==> t.payload()[i] == 0,
{
}

/// A payload holds one task and no other: tasks with the same payload are
/// the same task.
pub proof fn law_payload_holds_one_task(a: TaskView, b: TaskView)
    requires
        a.payload() == b.payload(),
    ensures
        a == b,
{
    crate::wire_laws::law_record_wire_is_unambiguous(
        a.label,
        a.created,
        a.done,
        a.is_delete,
        a.id,
        zeros((MAX_RECORD_SIZE - a.wire().len()) as nat),
        b.label,
        b.created,
        b.done,
        b.is_delete,
        b.id,
        zeros((MAX_RECORD_SIZE - b.wire().len()) as nat),
    );
}

impl Task {
    /// Reads a task from a payload.
    ///
    /// Bytes that begin with a task on the wire give that task, whatever
    /// follows: what `as_vec` wrote is read again, and the zeros that fill a
    /// payload are never interpreted. Other bytes give the task that
    /// `postcard` finds in them, or `ListError::Decode` where it finds none.
    pub fn from_bytes(bytes: &[u8]) -> (r: Result<Task, ListError>)
        ensures
            match r {
                Ok(t) => decoded(bytes@) == Some(t@),
                Err(e) => e == ListError::Decode && decoded(bytes@) is None,
            },
    {
        let r = read_record(bytes);
        proof {
            if exists|t: TaskView| has_prefix(#[trigger] t.wire(), bytes@) {
                let t = choose|t: TaskView| has_prefix(#[trigger] t.wire(), bytes@);
                let rest = bytes@.subrange(t.wire().len() as int, bytes@.len() as int);
                assert(bytes@ =~= record_wire(t.label, t.created, t.done, t.is_delete, t.id)
                    + rest);
            } else if exists|t: TaskView| cut_short(bytes@, #[trigger] t.wire()) {
                let t = choose|t: TaskView| cut_short(bytes@, #[trigger] t.wire());
                assert(cut_short(
                    bytes@,
                    record_wire(t.label, t.created, t.done, t.is_delete, t.id),
                ));
            }
        }
        match r {
            Ok(f) => {
                let (label, created, done, is_delete, id) = f;
                Ok(Task { label, created, done, is_delete, id })
            },
            Err(_) => Err(ListError::Decode),
        }
    }

    /// Writes the task as a payload of `MAX_RECORD_SIZE` bytes.
    ///
    /// A label of more than `MAX_LABEL_LEN` bytes is refused, and so is a
    /// task that does not fit: nothing is ever cut off.
    pub fn as_vec(self) -> (r: Result<Vec<u8>, ListError>)
        ensures
            match self@.encoded() {
                Ok(payload) => r is Ok && r->Ok_0@ == payload,
                Err(e) => r is Err && r->Err_0 == e,
            },
    {
        if self.label.as_str().as_bytes().len() > MAX_LABEL_LEN {
            return Err(ListError::LabelTooLong);
        }
        let mut buf: Vec<u8> = vec![0u8; MAX_RECORD_SIZE];
        match write_record(
            self.label.as_str(),
            self.created,
            self.done,
            self.is_delete,
            self.id.as_str(),
            &mut buf,
        ) {
            Ok(_) => Ok(buf),
            Err(_) => Err(ListError::RecordTooLarge),
        }
    }

    /// The task shown in place of one whose content could not be fetched.
    pub fn missing_task(id: String) -> (t: Task)
        ensures
            t@ == TaskView::missing(id@),
    {
        Task {
            label: String::from_str("Missing Content"),
            created: 0,
            done: false,
            is_delete: false,
            id,
        }
    }
}

/// What a caller is to do with the store to open a list of tasks.
#[derive(Clone, Debug, PartialEq, Eq)]
pub enum Opening {
    /// Create a new document.
    Create,
    /// Import the document that the ticket names.
    Join(Ticket),
}

/// List of tasks, including completed tasks and tasks marked as deleted,
/// kept in one document under keys that begin with `task/`.
#[derive(Clone, Debug, PartialEq, Eq)]
pub struct Tasks {
    ticket: String,
    author: [u8; 32],
}

impl Tasks {
    /// The text of the ticket by which this list is shared.
    pub closed spec fn ticket_text(&self) -> Seq<char> {
        self.ticket@
    }

    /// The author under whose name this list writes.
    pub closed spec fn author_id(&self) -> Seq<u8> {
        self.author@
    }

    /// What to do with the store to open a list: create a document where
    /// no ticket is given, else import the document that the ticket names.
    /// Text that holds no ticket fails with `ListError::Decode`, text too
    /// long to be read with `ListError::TextTooLong`.
    pub fn opening(ticket: Option<&str>) -> (r: Result<Opening, ListError>)
        ensures
            match ticket {
                None => r == Ok::<Opening, ListError>(Opening::Create),
                Some(text) => match read_text(text@) {
                    Ok(t) => r matches Ok(Opening::Join(got)) && got@ == t,
                    Err(e) => r == Err::<Opening, ListError>(e),
                },
            },
    {
        match ticket {
            None => Ok(Opening::Create),
            Some(text) => match Ticket::from_text(text) {
                Ok(t) => Ok(Opening::Join(t)),
                Err(e) => Err(e),
            },
        }
    }

    /// The list kept in a document that has been created or imported:
    /// `author` is the author that the store made for this list, `ticket`
    /// the ticket by which the store shares the document. A ticket too large
    /// to be written as text fails with `ListError::TicketTooLarge`.
    pub fn new(author: [u8; 32], ticket: &Ticket) -> (r: Result<Tasks, ListError>)
        ensures
            match r {
                Ok(tasks) => tasks.ticket_text() == ticket@.text() && tasks.author_id()
                    == author@,
                Err(e) => e == ListError::TicketTooLarge,
            },
            r is Ok <==> ticket@.wire().len() <= crate::text::max_encodable(),
    {
        match ticket.try_to_text() {
            Some(text) => Ok(Tasks { ticket: text, author }),
            None => Err(ListError::TicketTooLarge),
        }
    }

    /// The ticket by which this list is shared, as text.
    pub fn ticket(&self) -> (text: String)
        ensures
            text@ == self.ticket_text(),
    {
        self.ticket.clone()
    }

    /// The author under whose name this list writes.
    pub fn author(&self) -> (a: [u8; 32])
        ensures
            a@ == self.author_id(),
    {
        self.author
    }

    /// The value to write in order to add a task created at `created`. A
    /// label of more than `MAX_LABEL_LEN` bytes is refused.
    pub fn add(&self, id: String, label: String, created: u64) -> (r: Result<Write, ListError>)
        ensures
            is_write(r, added(task_prefix_spec(), id@, label@, created)),
    {
        let prefix = task_prefix();
        add_task(prefix.as_slice(), id, label, created)
    }

    /// The value to write in order to toggle whether the task `id` is done,
    /// given the entries of the document.
    pub fn toggle_done(&self, entries: &Vec<Entry>, id: String) -> (r: Result<Write, ListError>)
        ensures
            is_write(r, toggled(task_prefix_spec(), entries@, id@)),
    {
        let prefix = task_prefix();
        toggle_task(prefix.as_slice(), entries, id.as_str())
    }

    /// The value to write in order to delete the task `id`, given the
    /// entries of the document.
    pub fn delete(&self, entries: &Vec<Entry>, id: String) -> (r: Result<Write, ListError>)
        ensures
            is_write(r, deleted(task_prefix_spec(), entries@, id@)),
    {
        let prefix = task_prefix();
        delete_task(prefix.as_slice(), entries, id.as_str())
    }

    /// The value to write in order to give the task `id` a new label, given
    /// the entries of the document.
    pub fn update(&self, entries: &Vec<Entry>, id: String, label: String) -> (r: Result<Write, ListError>)
        ensures
            is_write(r, relabelled(task_prefix_spec(), entries@, id@, label@)),
    {
        let prefix = task_prefix();
        update_task(prefix.as_slice(), entries, id.as_str(), label)
    }

    /// The tasks to show, given the entries of the document.
    pub fn get_tasks(&self, entries: &Vec<Entry>) -> (r: Result<Vec<Task>, ListError>)
        ensures
            match r {
                Ok(tasks) => project_spec(task_prefix_spec(), entries@) == Ok::<
                    Seq<TaskView>,
                    ListError,
                >(views(tasks@)),
                Err(e) => project_spec(task_prefix_spec(), entries@) == Err::<
                    Seq<TaskView>,
                    ListError,
                >(e),
            },
    {
        let prefix = task_prefix();
        project(prefix.as_slice(), entries)
    }

    /// The task stored under `id`, deleted or not, given the entries of the
    /// document.
    pub fn get_task(&self, entries: &Vec<Entry>, id: String) -> (r: Result<Task, ListError>)
        ensures
            match r {
                Ok(t) => get_one_spec(task_prefix_spec(), entries@, id@) == Ok::<
                    TaskView,
                    ListError,
                >(t@),
                Err(e) => get_one_spec(task_prefix_spec(), entries@, id@) == Err::<
                    TaskView,
                    ListError,
                >(e),
            },
    {
        let prefix = task_prefix();
        get_one(prefix.as_slice(), entries, id.as_str())
    }
}

} // verus!

//! Lists of todos that carry a name, and the register of the lists that a
//! node knows.
//!
//! A list of todos is kept in one document, its todos under keys that begin
//! with `todo/` and its name under the key `metadata/todo_list_name`. The
//! register is nothing but the documents of the node: the names of the lists
//! are read from them each time.

use crate::document::{has_key, lemma_one_winner, wins, Entry, Write};
use crate::error::ListError;
use crate::keys::{metadata_key, metadata_key_spec, text_from_utf8, todo_prefix, todo_prefix_spec};
use crate::list::{
    add_task, added, delete_task, deleted, is_write, relabelled, toggle_task, toggled, update_task,
};
use crate::projection::{get_one, get_one_spec, latest_for_key, project, project_spec, views};
use crate::tasks::{Task, TaskView};
use crate::text::max_encodable;
use crate::ticket::{read_text, Ticket};
use vstd::prelude::*;
use vstd::slice::slice_to_vec;
use vstd::utf8::{decode_utf8, encode_utf8, valid_utf8};

verus! {

/// Single todo in a list of todos. A todo is stored as a task is.
pub type Todo = Task;

impl Todo {
    /// The todo shown in place of one whose content could not be fetched.
    pub fn missing_todo(id: String) -> (t: Todo)
        ensures
            t@ == TaskView::missing(id@),
    {
        Task::missing_task(id)
    }
}

/// How to open the todo list.
#[derive(Clone, Debug, PartialEq, Eq)]
pub enum TodosType {
    /// Create a new todo list with the given name.
    New(String),
    /// Open the todo list with the given name.
    Open(String),
    /// Join an existing todo list using the ticket.
    Join(String),
}

/// What a caller is to do with the store to open a list of todos.
#[derive(Clone, Debug, PartialEq, Eq)]
pub enum TodosOpening {
    /// Create a new document and write this value to it: the name of the
    /// list under the key of the name.
    Create(Write),
    /// Use the document at this place among the documents of the node.
    Use(usize),
    /// Import the document that the ticket names.
    Import(Ticket),
}

/// The name of the list that a document holds: the content of the entry that
/// counts under the key of the name, read as UTF-8.
pub open spec fn list_name_spec(entries: Seq<Entry>) -> Result<Seq<char>, ListError> {
    if !has_key(entries, metadata_key_spec()) {
        Err(ListError::NameMissing)
    } else {
        let i = choose|i: int| wins(entries, i) && #[trigger] entries[i].key@ == metadata_key_spec();
        match entries[i].content {
            None => Err(ListError::ContentUnavailable),
            Some(bytes) => if valid_utf8(bytes@) {
                Ok(decode_utf8(bytes@))
            } else {
                Err(ListError::Decode)
            },
        }
    }
}

/// The names of the lists in the first `n` documents, in the order of the
/// documents. The first document that yields no name makes the whole an
/// error.
pub open spec fn names_of_first(docs: Seq<Vec<Entry>>, n: nat) -> Result<Seq<Seq<char>>, ListError>
    decreases n,
{
    if n == 0 {
        Ok(Seq::empty())
    } else {
        match names_of_first(docs, (n - 1) as nat) {
            Err(e) => Err(e),
            Ok(names) => match list_name_spec(docs[n - 1]@) {
                Err(e) => Err(e),
                Ok(name) => Ok(names.push(name)),
            },
        }
    }
}

/// The names of the lists that the documents hold.
pub open spec fn list_names_spec(docs: Seq<Vec<Entry>>) -> Result<Seq<Seq<char>>, ListError> {
    names_of_first(docs, docs.len())
}

/// Whether `i` is the first place at which `name` stands in `names`.
pub open spec fn first_of_name(names: Seq<Seq<char>>, name: Seq<char>, i: int) -> bool {
    &&& 0 <= i < names.len()
    &&& names[i] == name
    &&& forall|j: int| 0 <= j < i ==> names[j] != name
}

/// The name of the list that a document holds, given the entries of the
/// document. A document without an entry for the name fails with
/// `ListError::NameMissing`, one whose name could not be fetched with
/// `ListError::ContentUnavailable`, one whose name is not UTF-8 with
/// `ListError::Decode`.
pub fn get_list_name_from_doc(entries: &Vec<Entry>) -> (r: Result<String, ListError>)
    ensures
        match r {
            Ok(name) => list_name_spec(entries@) == Ok::<Seq<char>, ListError>(name@),
            Err(e) => list_name_spec(entries@) == Err::<Seq<char>, ListError>(e),
        },
{
    let key = metadata_key();
    match latest_for_key(entries, key.as_slice()) {
        None => Err(ListError::NameMissing),
        Some(i) => {
            proof {
                let c = choose|c: int|
                    wins(entries@, c) && #[trigger] entries@[c].key@ == metadata_key_spec();
                lemma_one_winner(entries@, i as int, c);
            }
            match &entries[i].content {
                None => Err(ListError::ContentUnavailable),
                Some(bytes) => match text_from_utf8(slice_to_vec(bytes.as_slice())) {
                    Some(name) => Ok(name),
                    None => Err(ListError::Decode),
                },
            }
        },
    }
}

/// The names of the todo lists of a node, given the entries of each of its
/// documents. A document that yields no name is not passed over: it fails
/// the whole.
pub fn get_todo_lists_names(docs: &Vec<Vec<Entry>>) -> (r: Result<Vec<String>, ListError>)
    ensures
        match r {
            Ok(names) => list_names_spec(docs@) == Ok::<Seq<Seq<char>>, ListError>(
                names.deep_view(),
            ),
            Err(e) => list_names_spec(docs@) == Err::<Seq<Seq<char>>, ListError>(e),
        },
{
    let mut names: Vec<String> = Vec::new();
    let mut i: usize = 0;
    assert(names.deep_view() =~= Seq::<Seq<char>>::empty());
    while i < docs.len()
        invariant
            i <= docs@.len(),
            names_of_first(docs@, i as nat) == Ok::<Seq<Seq<char>>, ListError>(names.deep_view()),
        decreases docs@.len() - i,
    {
        match get_list_name_from_doc(&docs[i]) {
            Err(e) => {
                proof {
                    lemma_names_error_stays(docs@, (i + 1) as nat, docs@.len());
                }
                return Err(e);
            },
            Ok(name) => {
                let ghost before = names.deep_view();
                names.push(name);
                assert(names.deep_view() =~= before.push(name@));
            },
        }
        i += 1;
    }
    Ok(names)
}

/// The names of the todo lists of a node, each with the place of its
/// document among the documents given.
pub fn get_todo_lists_docs(docs: &Vec<Vec<Entry>>) -> (r: Result<Vec<(String, usize)>, ListError>)
    ensures
        match r {
            Ok(pairs) => {
                &&& list_names_spec(docs@) is Ok
                &&& pairs@.len() == docs@.len()
                &&& forall|i: int|
                    0 <= i < pairs@.len() ==> (#[trigger] pairs@[i]).1 == i && pairs@[i].0@
                        == list_names_spec(docs@)->Ok_0[i]
            },
            Err(e) => list_names_spec(docs@) == Err::<Seq<Seq<char>>, ListError>(e),
        },
{
    let mut pairs: Vec<(String, usize)> = Vec::new();
    let ghost mut seen: Seq<Seq<char>> = Seq::empty();
    let mut i: usize = 0;
    while i < docs.len()
        invariant
            i <= docs@.len(),
            names_of_first(docs@, i as nat) == Ok::<Seq<Seq<char>>, ListError>(seen),
            pairs@.len() == i,
            seen.len() == i,
            forall|k: int| 0 <= k < i ==> (#[trigger] pairs@[k]).1 == k && pairs@[k].0@ == seen[k],
        decreases docs@.len() - i,
    {
        match get_list_name_from_doc(&docs[i]) {
            Err(e) => {
                proof {
                    lemma_names_error_stays(docs@, (i + 1) as nat, docs@.len());
                }
                return Err(e);
            },
            Ok(name) => {
                proof {
                    seen = seen.push(name@);
                }
                pairs.push((name, i));
            },
        }
        i += 1;
    }
    Ok(pairs)
}

/// The first place at which `name` stands in `names`, if it stands there.
pub fn find_name(names: &Vec<String>, name: &String) -> (r: Option<usize>)
    ensures
        match r {
            Some(i) => first_of_name(names.deep_view(), name@, i as int),
            None => !names.deep_view().contains(name@),
        },
{
    let mut i: usize = 0;
    while i < names.len()
        invariant
            i <= names@.len(),
            forall|j: int| 0 <= j < i ==> names.deep_view()[j] != name@,
        decreases names@.len() - i,
    {
        if names[i] == *name {
            return Some(i);
        }
        i += 1;
    }
    None
}

/// Once a document has made the names an error, later documents do not
/// change that.
pub proof fn lemma_names_error_stays(docs: Seq<Vec<Entry>>, n: nat, m: nat)
    requires
        n <= m,
        names_of_first(docs, n) is Err,
    ensures
        names_of_first(docs, m) == names_of_first(docs, n),
    decreases m,
{
    if n < m {
        lemma_names_error_stays(docs, n, (m - 1) as nat);
    }
}

/// List of todos, including completed todos and todos marked as deleted.
#[derive(Clone, Debug, PartialEq, Eq)]
pub struct Todos {
    ticket: String,
    author: [u8; 32],
    name: Option<String>,
}

impl Todos {
    /// The text of the ticket by which this list is shared.
    pub closed spec fn ticket_text(&self) -> Seq<char> {
        self.ticket@
    }

    /// The author under whose name this list writes.
    pub closed spec fn author_id(&self) -> Seq<u8> {
        self.author@
    }

    /// The name of this list, where it is known.
    pub closed spec fn known_name(&self) -> Option<Seq<char>> {
        match self.name {
            Some(name) => Some(name@),
            None => None,
        }
    }

    /// What to do with the store to open a list, given the entries of each
    /// document of the node.
    ///
    /// A new list is refused with `ListError::AlreadyExists` where a list of
    /// its name exists; else a document is to be created and the name
    /// written to it. A list is opened by its name, at the first document
    /// that holds a list of that name, and `ListError::NotFound` says that
    /// there is none. In both cases a document that yields no name fails
    /// the whole. A list is joined by its ticket, whatever lists the node
    /// has; text that holds no ticket fails with `ListError::Decode`, text
    /// too long to be read with `ListError::TextTooLong`.
    pub fn opening(typ: &TodosType, docs: &Vec<Vec<Entry>>) -> (r: Result<TodosOpening, ListError>)
        ensures
            match *typ {
                TodosType::New(name) => match list_names_spec(docs@) {
                    Err(e) => r == Err::<TodosOpening, ListError>(e),
                    Ok(names) => if names.contains(name@) {
                        r == Err::<TodosOpening, ListError>(ListError::AlreadyExists)
                    } else {
                        r matches Ok(TodosOpening::Create(w)) && w@ == (
                            metadata_key_spec(),
                            encode_utf8(name@),
                        )
                    },
                },
                TodosType::Open(name) => match list_names_spec(docs@) {
                    Err(e) => r == Err::<TodosOpening, ListError>(e),
                    Ok(names) => if names.contains(name@) {
                        r matches Ok(TodosOpening::Use(i)) && first_of_name(names, name@, i as int)
                    } else {
                        r == Err::<TodosOpening, ListError>(ListError::NotFound)
                    },
                },
                TodosType::Join(text) => match read_text(text@) {
                    Ok(t) => r matches Ok(TodosOpening::Import(got)) && got@ == t,
                    Err(e) => r == Err::<TodosOpening, ListError>(e),
                },
            },
    {
        match typ {
            TodosType::New(name) => {
                let names = match get_todo_lists_names(docs) {
                    Ok(names) => names,
                    Err(e) => {
                        return Err(e);
                    },
                };
                match find_name(&names, name) {
                    Some(_) => Err(ListError::AlreadyExists),
                    None => Ok(
                        TodosOpening::Create(
                            Write { key: metadata_key(), content: name.as_str().as_bytes_vec() },
                        ),
                    ),
                }
            },
            TodosType::Open(name) => {
                let names = match get_todo_lists_names(docs) {
                    Ok(names) => names,
                    Err(e) => {
                        return Err(e);
                    },
                };
                match find_name(&names, name) {
                    Some(i) => Ok(TodosOpening::Use(i)),
                    None => Err(ListError::NotFound),
                }
            },
            TodosType::Join(text) => match Ticket::from_text(text.as_str()) {
                Ok(t) => Ok(TodosOpening::Import(t)),
                Err(e) => Err(e),
            },
        }
    }

    /// The list kept in a document that has been created, found or
    /// imported: `author` is the author that the store made for this list,
    /// `ticket` the ticket by which the store shares the document, `entries`
    /// the entries of the document, from which the name of the list is read.
    pub fn new(author: [u8; 32], ticket: &Ticket, entries: &Vec<Entry>) -> (r: Result<Todos, ListError>)
        ensures
            match r {
                Ok(todos) => {
                    &&& ticket@.wire().len() <= max_encodable()
                    &&& todos.ticket_text() == ticket@.text()
                    &&& todos.author_id() == author@
                    &&& list_name_spec(entries@) == Ok::<Seq<char>, ListError>(
                        todos.known_name()->Some_0,
                    )
                    &&& todos.known_name() is Some
                },
                Err(e) => if ticket@.wire().len() > max_encodable() {
                    e == ListError::TicketTooLarge
                } else {
                    list_name_spec(entries@) == Err::<Seq<char>, ListError>(e)
                },
            },
    {
        let text = match ticket.try_to_text() {
            Some(text) => text,
            None => {
                return Err(ListError::TicketTooLarge);
            },
        };
        match get_list_name_from_doc(entries) {
            Ok(name) => Ok(Todos { ticket: text, author, name: Some(name) }),
            Err(e) => Err(e),
        }
    }

    /// The name of this list: the name that is known, else the name that
    /// the entries of the document give, else `None`.
    pub fn name(&self, entries: &Vec<Entry>) -> (r: Option<String>)
        ensures
            match self.known_name() {
                Some(name) => r is Some && r->Some_0@ == name,
                None => match list_name_spec(entries@) {
                    Ok(name) => r is Some && r->Some_0@ == name,
                    Err(_) => r is None,
                },
            },
    {
        match &self.name {
            Some(name) => Some(name.clone()),
            None => match get_list_name_from_doc(entries) {
                Ok(name) => Some(name),
                Err(_) => None,
            },
        }
    }

    /// The ticket by which this list is shared, as text.
    pub fn ticket(&self) -> (text: String)
        ensures
            text@ == self.ticket_text(),
    {
        self.ticket.clone()
    }

    /// The author under whose name this list writes.
    pub fn author(&self) -> (a: [u8; 32])
        ensures
            a@ == self.author_id(),
    {
        self.author
    }

    /// The value to write in order to add a todo created at `created`. A
    /// label of more than `MAX_LABEL_LEN` bytes is refused.
    pub fn add(&self, id: String, label: String, created: u64) -> (r: Result<Write, ListError>)
        ensures
            is_write(r, added(todo_prefix_spec(), id@, label@, created)),
    {
        let prefix = todo_prefix();
        add_task(prefix.as_slice(), id, label, created)
    }

    /// The value to write in order to toggle whether the todo `id` is done,
    /// given the entries of the document.
    pub fn toggle_done(&self, entries: &Vec<Entry>, id: String) -> (r: Result<Write, ListError>)
        ensures
            is_write(r, toggled(todo_prefix_spec(), entries@, id@)),
    {
        let prefix = todo_prefix();
        toggle_task(prefix.as_slice(), entries, id.as_str())
    }

    /// The value to write in order to delete the todo `id`, given the
    /// entries of the document.
    pub fn delete(&self, entries: &Vec<Entry>, id: String) -> (r: Result<Write, ListError>)
        ensures
            is_write(r, deleted(todo_prefix_spec(), entries@, id@)),
    {
        let prefix = todo_prefix();
        delete_task(prefix.as_slice(), entries, id.as_str())
    }

    /// The value to write in order to give the todo `id` a new label, given
    /// the entries of the document.
    pub fn update(&self, entries: &Vec<Entry>, id: String, label: String) -> (r: Result<Write, ListError>)
        ensures
            is_write(r, relabelled(todo_prefix_spec(), entries@, id@, label@)),
    {
        let prefix = todo_prefix();
        update_task(prefix.as_slice(), entries, id.as_str(), label)
    }

    /// The todos to show, given the entries of the document.
    pub fn get_todos(&self, entries: &Vec<Entry>) -> (r: Result<Vec<Todo>, ListError>)
        ensures
            match r {
                Ok(todos) => project_spec(todo_prefix_spec(), entries@) == Ok::<
                    Seq<TaskView>,
                    ListError,
                >(views(todos@)),
                Err(e) => project_spec(todo_prefix_spec(), entries@) == Err::<
                    Seq<TaskView>,
                    ListError,
                >(e),
            },
    {
        let prefix = todo_prefix();
        project(prefix.as_slice(), entries)
    }

    /// The todo stored under `id`, deleted or not, given the entries of the
    /// document.
    pub fn get_todo(&self, entries: &Vec<Entry>, id: String) -> (r: Result<Todo, ListError>)
        ensures
            match r {
                Ok(t) => get_one_spec(todo_prefix_spec(), entries@, id@) == Ok::<
                    TaskView,
                    ListError,
                >(t@),
                Err(e) => get_one_spec(todo_prefix_spec(), entries@, id@) == Err::<
                    TaskView,
                    ListError,
                >(e),
            },
    {
        let prefix = todo_prefix();
        get_one(prefix.as_slice(), entries, id.as_str())
    }
}

/// The names of the first documents do not depend on the documents behind
/// them.
proof fn lemma_names_of_longer(docs: Seq<Vec<Entry>>, more: Vec<Entry>, n: nat)
    requires
        n <= docs.len(),
    ensures
        names_of_first(docs.push(more), n) == names_of_first(docs, n),
    decreases n,
{
    if n > 0 {
        lemma_names_of_longer(docs, more, (n - 1) as nat);
    }
}

/// A document that holds one entry, the name of a list under the key of the
/// name, has that name.
pub proof fn lemma_name_of_new_document(doc: Seq<Entry>, name: Seq<char>)
    requires
        doc.len() == 1,
        doc[0].key@ == metadata_key_spec(),
        doc[0].content matches Some(bytes) && bytes@ == encode_utf8(name),
    ensures
        list_name_spec(doc) is Ok,
        list_name_spec(doc)->Ok_0 == name,
{
    vstd::utf8::encode_utf8_valid_utf8(name);
    vstd::utf8::encode_utf8_decode_utf8(name);
}

/// Once a list has been created its name is among the names of the lists:
/// where the new document holds what `Todos::opening` said to write, the
/// names are those from before and the new name.
pub proof fn law_created_list_is_named(docs: Seq<Vec<Entry>>, doc: Vec<Entry>, name: Seq<char>)
    requires
        list_names_spec(docs) is Ok,
        doc@.len() == 1,
        doc@[0].key@ == metadata_key_spec(),
        doc@[0].content matches Some(bytes) && bytes@ == encode_utf8(name),
    ensures
        list_names_spec(docs.push(doc)) is Ok,
        list_names_spec(docs.push(doc))->Ok_0 == list_names_spec(docs)->Ok_0.push(name),
        list_names_spec(docs.push(doc))->Ok_0.contains(name),
{
    lemma_names_of_longer(docs, doc, docs.len());
    lemma_name_of_new_document(doc@, name);
    let names = list_names_spec(docs)->Ok_0.push(name);
    assert(names[names.len() - 1] == name);
}

} // verus!

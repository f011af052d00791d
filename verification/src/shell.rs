//! The commands that a shell sends, and what each of them comes to.
//!
//! A shell first has to say which list it wants: a new one, or the one that
//! a ticket names. From then on it adds, changes and lists tasks. The
//! functions here decide what a command comes to: what is to be written,
//! which answer is sent, and whether the command has failed. The caller
//! reads the document before, writes to it after, and sends the answer.

use crate::document::{Entry, Write};
use crate::error::ListError;
use crate::keys::task_prefix_spec;
use crate::list::{added, deleted, relabelled, toggled};
use crate::projection::{project_spec, views};
use crate::tasks::{Opening, Task, TaskView, Tasks};
use crate::ticket::{read_text, TicketView};
use vstd::prelude::*;

verus! {

/// A command of the shell.
#[derive(Clone, Debug, PartialEq, Eq)]
pub enum Cmd {
    /// Create a new todo.
    Add { id: String, label: String },
    /// Change the description of the todo.
    Update { id: String, label: String },
    /// Toggle whether or not the todo is done.
    ToggleDone { id: String },
    /// Remove a todo.
    Delete { id: String },
    /// List all the todos.
    Ls,
    /// Get the ticket for the current list.
    GetTicket,
    /// Join a todo list.
    SetTicket { ticket: String },
    /// Create a new todo list.
    NewList,
}

/// The answer to a command.
#[derive(Clone, Debug, PartialEq, Eq)]
pub enum CmdAnswer {
    /// The command was carried out.
    Done,
    /// The command cannot be given now.
    UnexpectedCmd,
    /// The tasks of the list.
    Ls(Vec<Task>),
    /// The ticket of the list.
    Ticket(String),
}

/// What a command comes to while no list is open: the list to open, if the
/// command asks for one, and the answer to send. Where a list is to be
/// opened, the answer is sent once that has been done.
#[derive(Clone, Debug, PartialEq, Eq)]
pub struct Start {
    pub opening: Option<Opening>,
    pub answer: CmdAnswer,
}

/// What a command that succeeds comes to once a list is open: the value to
/// write, if any, and the answer to send when that has been done.
#[derive(Clone, Debug, PartialEq, Eq)]
pub struct Reaction {
    pub write: Option<Write>,
    pub answer: CmdAnswer,
}

/// What a command that fails comes to: the failure, and the answer to send
/// before the failure is reported, if any. Nothing is written.
#[derive(Clone, Debug, PartialEq, Eq)]
pub struct Failure {
    pub error: ListError,
    pub answer: Option<CmdAnswer>,
}

/// Whether `r` is the outcome of a command that fails with `error` and is
/// not answered.
pub open spec fn fails_unanswered(r: Result<Reaction, Failure>, error: ListError) -> bool {
    match r {
        Err(Failure { error: e, answer: None }) => e == error,
        _ => false,
    }
}

/// Whether `r` is the outcome of a command that changes the list: the value
/// that `expected` describes is to be written and `CmdAnswer::Done` sent,
/// or the command fails as `expected` does and is not answered.
pub open spec fn is_change(r: Result<Reaction, Failure>, expected: Result<(Seq<u8>, Seq<u8>), ListError>) -> bool {
    match expected {
        Ok(w) => match r {
            Ok(Reaction { write: Some(got), answer: CmdAnswer::Done }) => got@ == w,
            _ => false,
        },
        Err(e) => fails_unanswered(r, e),
    }
}

/// Whether `r` is the outcome of a command that asks for the list: nothing
/// is to be written, and the tasks of `list` are the answer.
pub open spec fn answers_list(r: Result<Reaction, Failure>, list: Seq<TaskView>) -> bool {
    match r {
        Ok(Reaction { write: None, answer: CmdAnswer::Ls(shown) }) => views(shown@) == list,
        _ => false,
    }
}

/// Whether `r` is the outcome of a command that asks for the ticket:
/// nothing is to be written, and `text` is the answer.
pub open spec fn answers_ticket(r: Result<Reaction, Failure>, text: Seq<char>) -> bool {
    match r {
        Ok(Reaction { write: None, answer: CmdAnswer::Ticket(got) }) => got@ == text,
        _ => false,
    }
}

/// Whether `r` is the outcome of a command that cannot be given now: the
/// command fails with `ListError::UnexpectedCommand`, and
/// `CmdAnswer::UnexpectedCmd` is sent before the failure is reported.
pub open spec fn is_unexpected(r: Result<Reaction, Failure>) -> bool {
    match r {
        Err(Failure { error: ListError::UnexpectedCommand, answer: Some(CmdAnswer::UnexpectedCmd) }) => true,
        _ => false,
    }
}

/// Whether `r` says to create a list and to answer `CmdAnswer::Done` once
/// that has been done.
pub open spec fn opens_new(r: Result<Start, ListError>) -> bool {
    match r {
        Ok(Start { opening: Some(Opening::Create), answer: CmdAnswer::Done }) => true,
        _ => false,
    }
}

/// Whether `r` says to join the list that the ticket `t` names and to
/// answer `CmdAnswer::Done` once that has been done.
pub open spec fn opens_joined(r: Result<Start, ListError>, t: TicketView) -> bool {
    match r {
        Ok(Start { opening: Some(Opening::Join(got)), answer: CmdAnswer::Done }) => got@ == t,
        _ => false,
    }
}

/// Whether `r` says that the command is unexpected while no list is open:
/// nothing is opened, `CmdAnswer::UnexpectedCmd` is the answer, and the
/// command has not failed.
pub open spec fn waits_on(r: Result<Start, ListError>) -> bool {
    match r {
        Ok(Start { opening: None, answer: CmdAnswer::UnexpectedCmd }) => true,
        _ => false,
    }
}

/// What a command comes to while no list is open. A new list and a ticket
/// open one, and `CmdAnswer::Done` is sent once the list is open. A ticket
/// that cannot be read fails, and nothing is answered. Every other command
/// is answered with `CmdAnswer::UnexpectedCmd`, and the shell goes on
/// waiting.
pub fn handle_start_command(cmd: &Cmd) -> (r: Result<Start, ListError>)
    ensures
        match *cmd {
            Cmd::NewList => opens_new(r),
            Cmd::SetTicket { ticket } => match read_text(ticket@) {
                Ok(t) => opens_joined(r, t),
                Err(e) => r == Err::<Start, ListError>(e),
            },
            _ => waits_on(r),
        },
{
    match cmd {
        Cmd::NewList => match Tasks::opening(None) {
            Ok(opening) => Ok(Start { opening: Some(opening), answer: CmdAnswer::Done }),
            Err(e) => Err(e),
        },
        Cmd::SetTicket { ticket } => match Tasks::opening(Some(ticket.as_str())) {
            Ok(opening) => Ok(Start { opening: Some(opening), answer: CmdAnswer::Done }),
            Err(e) => Err(e),
        },
        _ => Ok(Start { opening: None, answer: CmdAnswer::UnexpectedCmd }),
    }
}

/// What a command comes to once a list is open, given the entries of its
/// document and the time in seconds since the Unix epoch.
///
/// A command that changes the list gives the value to write and is
/// answered with `CmdAnswer::Done`. A command that asks for the list or the
/// ticket is answered with it. Where the list cannot be changed or read
/// the command fails and is not answered. Asking for another list is
/// unexpected now: it is answered with `CmdAnswer::UnexpectedCmd`, and
/// fails with `ListError::UnexpectedCommand`.
pub fn handle_command(cmd: Cmd, tasks: &Tasks, entries: &Vec<Entry>, now: u64) -> (r: Result<Reaction, Failure>)
    ensures
        match cmd {
            Cmd::Add { id, label } => is_change(r, added(task_prefix_spec(), id@, label@, now)),
            Cmd::ToggleDone { id } => is_change(r, toggled(task_prefix_spec(), entries@, id@)),
            Cmd::Delete { id } => is_change(r, deleted(task_prefix_spec(), entries@, id@)),
            Cmd::Update { id, label } => is_change(
                r,
                relabelled(task_prefix_spec(), entries@, id@, label@),
            ),
            Cmd::Ls => match project_spec(task_prefix_spec(), entries@) {
                Ok(list) => answers_list(r, list),
                Err(e) => fails_unanswered(r, e),
            },
            Cmd::GetTicket => answers_ticket(r, tasks.ticket_text()),
            _ => is_unexpected(r),
        },
{
    match cmd {
        Cmd::Add { id, label } => changed(tasks.add(id, label, now)),
        Cmd::ToggleDone { id } => changed(tasks.toggle_done(entries, id)),
        Cmd::Delete { id } => changed(tasks.delete(entries, id)),
        Cmd::Update { id, label } => changed(tasks.update(entries, id, label)),
        Cmd::Ls => match tasks.get_tasks(entries) {
            Ok(shown) => Ok(Reaction { write: None, answer: CmdAnswer::Ls(shown) }),
            Err(e) => Err(Failure { error: e, answer: None }),
        },
        Cmd::GetTicket => Ok(Reaction { write: None, answer: CmdAnswer::Ticket(tasks.ticket()) }),
        _ => Err(
            Failure {
                error: ListError::UnexpectedCommand,
                answer: Some(CmdAnswer::UnexpectedCmd),
            },
        ),
    }
}

/// The outcome of a command that changes the list, from the value that the
/// list says to write.
fn changed(write: Result<Write, ListError>) -> (r: Result<Reaction, Failure>)
    ensures
        match write {
            Ok(w) => r matches Ok(reaction) && reaction.write == Some(w) && reaction.answer
                == CmdAnswer::Done,
            Err(e) => fails_unanswered(r, e),
        },
{
    match write {
        Ok(w) => Ok(Reaction { write: Some(w), answer: CmdAnswer::Done }),
        Err(e) => Err(Failure { error: e, answer: None }),
    }
}

} // verus!

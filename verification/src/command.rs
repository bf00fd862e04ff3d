//! The commands a user issues against the task store.

use vstd::prelude::*;
use crate::ids::EntityId;
use crate::query::Priority;

verus! {

/// A calendar date as the user entered it.
#[derive(Clone, Copy, Debug, PartialEq, Eq, Structural, Hash)]
pub struct LocalDate {
    pub year: i32,
    pub month: u8,
    pub day: u8,
}

/// A wall-clock time as the user entered it.
#[derive(Clone, Copy, Debug, PartialEq, Eq, Structural, Hash)]
pub struct LocalTime {
    pub hour: u8,
    pub minute: u8,
}

/// A settable field of a task.
#[derive(Clone, Debug, PartialEq, Eq)]
pub enum TaskField {
    Title(String),
    Description(String),
    DueDate(Option<LocalDate>),
    DueTime(Option<LocalTime>),
    Priority(Priority),
    List(Option<EntityId>),
}

/// A settable field of a subtask.
#[derive(Clone, Debug, PartialEq, Eq)]
pub enum SubtaskField {
    Title(String),
    Completed(bool),
}

/// A settable field of a list.
#[derive(Clone, Debug, PartialEq, Eq)]
pub enum ListField {
    Name(String),
    Color(String),
    Icon(String),
}

/// A settable field of a tag.
#[derive(Clone, Debug, PartialEq, Eq)]
pub enum TagField {
    Name(String),
}

/// A user command against the task store.
#[derive(Clone, Debug, PartialEq, Eq)]
pub enum Command {
    CreateTask {
        title: String,
        description: String,
        due_date: Option<LocalDate>,
        due_time: Option<LocalTime>,
        priority: Priority,
        list_id: Option<EntityId>,
        tags: Vec<EntityId>,
    },
    SetTaskField { task: EntityId, field: TaskField },
    SetTaskCompleted { task: EntityId, completed: bool },
    DeleteTask { task: EntityId },
    RestoreTask { task: EntityId },
    PurgeTask { task: EntityId },
    CreateSubtask { parent: EntityId, title: String },
    SetSubtaskField { subtask: EntityId, field: SubtaskField },
    DeleteSubtask { subtask: EntityId },
    RestoreSubtask { subtask: EntityId },
    MoveSubtask { subtask: EntityId, parent: EntityId },
    CreateList { name: String },
    SetListField { list: EntityId, field: ListField },
    DeleteList { list: EntityId },
    RestoreList { list: EntityId },
    MoveList { list: EntityId, before: Option<EntityId> },
    CreateTag { name: String },
    SetTagField { tag: EntityId, field: TagField },
    DeleteTag { tag: EntityId },
    RestoreTag { tag: EntityId },
    MoveTask { task: EntityId, before: Option<EntityId> },
    SetTaskTag { task: EntityId, tag: EntityId, attached: bool },
}

} // verus!

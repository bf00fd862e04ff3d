//! Local command dispatch: the operations a command turns into, in order,
//! the keys their registers are stored under, the sequence numbers and
//! generations they are stamped with, and the replica's guards (free space,
//! accepted members).

use vstd::prelude::*;
use crate::command::{Command, ListField, LocalDate, LocalTime, SubtaskField, TagField, TaskField};
use crate::error::CoreError;
use crate::devmap::DeviceMap;
use crate::dto::{id_text, uuid_text};
use crate::text::{chars_of, string_from_chars};
use crate::ids::{DeviceId, EntityId};
use crate::query::Priority;
use crate::recovery::ReplicaState;

verus! {

/// The kind of entity an operation addresses.
#[derive(Clone, Copy, Debug, PartialEq, Eq, Structural, Hash)]
pub enum EntityKind {
    Task,
    Subtask,
    List,
    Tag,
}

/// The register an operation sets.
#[derive(Clone, Copy, Debug, PartialEq, Eq, Structural, Hash)]
pub enum FieldName {
    Title,
    Description,
    Priority,
    Completed,
    DueDate,
    DueTime,
    ListId,
    Tags,
    Parent,
    Name,
    Color,
    Icon,
    RankBefore,
    /// Whether the task carries this tag.
    TagLink(EntityId),
}

/// The value an operation stores in a register.
#[derive(Clone, Debug, PartialEq, Eq)]
pub enum FieldValue {
    Text(String),
    Flag(bool),
    Null,
    Date(LocalDate),
    Time(LocalTime),
    Priority(Priority),
    Id(EntityId),
    Ids(Vec<EntityId>),
}

/// What an operation does to its entity.
#[derive(Clone, Debug, PartialEq, Eq)]
pub enum Payload {
    SetField { field: FieldName, value: FieldValue },
    Delete,
    Restore,
}

/// One operation to be stamped, signed and stored.
#[derive(Clone, Debug, PartialEq, Eq)]
pub struct OpSpec {
    pub entity: EntityId,
    pub kind: EntityKind,
    pub parent: Option<EntityId>,
    pub new_entity: bool,
    pub payload: Payload,
}

/// The key under which a register is stored.
pub open spec fn field_key_text(f: FieldName) -> Seq<char> {
    match f {
        FieldName::Title => "title"@,
        FieldName::Description => "description"@,
        FieldName::Priority => "priority"@,
        FieldName::Completed => "completed"@,
        FieldName::DueDate => "due_date"@,
        FieldName::DueTime => "due_time"@,
        FieldName::ListId => "list_id"@,
        FieldName::Tags => "tags"@,
        FieldName::Parent => "parent"@,
        FieldName::Name => "name"@,
        FieldName::Color => "color"@,
        FieldName::Icon => "icon"@,
        FieldName::RankBefore => "rank_before"@,
        FieldName::TagLink(tag) => "tag:"@ + uuid_text(tag.bits),
    }
}

/// The storage key of a register.
pub fn field_key(f: &FieldName) -> (s: String)
    ensures
        s@ == field_key_text(*f),
{
    match f {
        FieldName::Title => "title".to_string(),
        FieldName::Description => "description".to_string(),
        FieldName::Priority => "priority".to_string(),
        FieldName::Completed => "completed".to_string(),
        FieldName::DueDate => "due_date".to_string(),
        FieldName::DueTime => "due_time".to_string(),
        FieldName::ListId => "list_id".to_string(),
        FieldName::Tags => "tags".to_string(),
        FieldName::Parent => "parent".to_string(),
        FieldName::Name => "name".to_string(),
        FieldName::Color => "color".to_string(),
        FieldName::Icon => "icon".to_string(),
        FieldName::RankBefore => "rank_before".to_string(),
        FieldName::TagLink(tag) => {
            let mut cs = chars_of("tag:");
            let id = id_text(tag);
            let rest = chars_of(id.as_str());
            let ghost start = cs@;
            let mut i: usize = 0;
            while i < rest.len()
                invariant
                    i <= rest@.len(),
                    cs@ == start + rest@.take(i as int),
                decreases rest@.len() - i,
            {
                cs.push(rest[i]);
                i = i + 1;
                assert(cs@ =~= start + rest@.take(i as int));
            }
            assert(rest@.take(rest@.len() as int) =~= rest@);
            string_from_chars(&cs)
        },
    }
}

/// Which naming rule a command's name must pass.
#[derive(Clone, Copy, Debug, PartialEq, Eq, Structural, Hash)]
pub enum NameRule {
    Title,
    ListName,
    TagName,
}

/// The name a command introduces or changes, with the rule it must pass,
/// if any: titles of tasks and subtasks, names of lists and tags.
pub open spec fn name_rule_of(cmd: Command) -> Option<(NameRule, String)> {
    match cmd {
        Command::CreateTask { title, .. } => Some((NameRule::Title, title)),
        Command::SetTaskField { field: TaskField::Title(t), .. } => Some((NameRule::Title, t)),
        Command::CreateSubtask { title, .. } => Some((NameRule::Title, title)),
        Command::SetSubtaskField { field: SubtaskField::Title(t), .. } => Some((NameRule::Title, t)),
        Command::CreateList { name } => Some((NameRule::ListName, name)),
        Command::SetListField { field: ListField::Name(n), .. } => Some((NameRule::ListName, n)),
        Command::CreateTag { name } => Some((NameRule::TagName, name)),
        Command::SetTagField { field: TagField::Name(n), .. } => Some((NameRule::TagName, n)),
        _ => None,
    }
}

/// The name of `cmd` to validate, and the rule to validate it by.
pub fn name_to_validate(cmd: &Command) -> (r: Option<(NameRule, &String)>)
    ensures
        match name_rule_of(*cmd) {
            Some((rule, name)) => r matches Some((q, n)) && q == rule && *n == name,
            None => r is None,
        },
{
    match cmd {
        Command::CreateTask { title, .. } => Some((NameRule::Title, title)),
        Command::SetTaskField { field: TaskField::Title(t), .. } => Some((NameRule::Title, t)),
        Command::CreateSubtask { title, .. } => Some((NameRule::Title, title)),
        Command::SetSubtaskField { field: SubtaskField::Title(t), .. } => Some((NameRule::Title, t)),
        Command::CreateList { name } => Some((NameRule::ListName, name)),
        Command::SetListField { field: ListField::Name(n), .. } => Some((NameRule::ListName, n)),
        Command::CreateTag { name } => Some((NameRule::TagName, name)),
        Command::SetTagField { field: TagField::Name(n), .. } => Some((NameRule::TagName, n)),
        _ => None,
    }
}

/// An operation that sets `field` of an existing entity to `value`.
pub open spec fn set_op(entity: EntityId, kind: EntityKind, field: FieldName, value: FieldValue) -> OpSpec {
    OpSpec {
        entity,
        kind,
        parent: None,
        new_entity: false,
        payload: Payload::SetField { field, value },
    }
}

fn spec_set(entity: EntityId, kind: EntityKind, field: FieldName, value: FieldValue) -> (s: OpSpec)
    ensures
        s == set_op(entity, kind, field, value),
{
    OpSpec { entity, kind, parent: None, new_entity: false, payload: Payload::SetField { field, value } }
}

/// An operation that deletes or restores an existing entity.
pub open spec fn life_op(entity: EntityId, kind: EntityKind, payload: Payload) -> OpSpec {
    OpSpec { entity, kind, parent: None, new_entity: false, payload }
}

/// An operation that creates entity `id` by setting its first field.
pub open spec fn create_op(id: EntityId, kind: EntityKind, parent: Option<EntityId>, field: FieldName, value: FieldValue) -> OpSpec {
    OpSpec { entity: id, kind, parent, new_entity: true, payload: Payload::SetField { field, value } }
}

/// A reference as a register value: the id, or null for none.
pub open spec fn id_or_null(id: Option<EntityId>) -> FieldValue {
    match id {
        Some(i) => FieldValue::Id(i),
        None => FieldValue::Null,
    }
}

/// The operations a command turns into, in order; `new_id` names the entity
/// a creating command creates. Creating a task sets its title, description,
/// priority and an unset completion, then its due date, due time, list and
/// tags where given. Purging a task deletes it.
pub open spec fn specs_for(cmd: Command, new_id: EntityId) -> Seq<OpSpec> {
    match cmd {
        Command::CreateTask { title, description, due_date, due_time, priority, list_id, tags } => {
            let base = seq![
                create_op(new_id, EntityKind::Task, None, FieldName::Title, FieldValue::Text(title)),
                set_op(new_id, EntityKind::Task, FieldName::Description, FieldValue::Text(description)),
                set_op(new_id, EntityKind::Task, FieldName::Priority, FieldValue::Priority(priority)),
                set_op(new_id, EntityKind::Task, FieldName::Completed, FieldValue::Flag(false)),
            ];
            let s1 = match due_date {
                Some(d) => base.push(set_op(new_id, EntityKind::Task, FieldName::DueDate, FieldValue::Date(d))),
                None => base,
            };
            let s2 = match due_time {
                Some(t) => s1.push(set_op(new_id, EntityKind::Task, FieldName::DueTime, FieldValue::Time(t))),
                None => s1,
            };
            let s3 = match list_id {
                Some(l) => s2.push(set_op(new_id, EntityKind::Task, FieldName::ListId, FieldValue::Id(l))),
                None => s2,
            };
            if tags@.len() > 0 {
                s3.push(set_op(new_id, EntityKind::Task, FieldName::Tags, FieldValue::Ids(tags)))
            } else {
                s3
            }
        },
        Command::SetTaskField { task, field } => {
            let (name, value) = match field {
                TaskField::Title(t) => (FieldName::Title, FieldValue::Text(t)),
                TaskField::Description(d) => (FieldName::Description, FieldValue::Text(d)),
                TaskField::DueDate(d) => (FieldName::DueDate, match d {
                    Some(x) => FieldValue::Date(x),
                    None => FieldValue::Null,
                }),
                TaskField::DueTime(t) => (FieldName::DueTime, match t {
                    Some(x) => FieldValue::Time(x),
                    None => FieldValue::Null,
                }),
                TaskField::Priority(p) => (FieldName::Priority, FieldValue::Priority(p)),
                TaskField::List(l) => (FieldName::ListId, id_or_null(l)),
            };
            seq![set_op(task, EntityKind::Task, name, value)]
        },
        Command::SetTaskCompleted { task, completed } => seq![
            set_op(task, EntityKind::Task, FieldName::Completed, FieldValue::Flag(completed)),
        ],
        Command::DeleteTask { task } => seq![life_op(task, EntityKind::Task, Payload::Delete)],
        Command::RestoreTask { task } => seq![life_op(task, EntityKind::Task, Payload::Restore)],
        Command::PurgeTask { task } => seq![life_op(task, EntityKind::Task, Payload::Delete)],
        Command::CreateSubtask { parent, title } => seq![
            create_op(new_id, EntityKind::Subtask, Some(parent), FieldName::Title, FieldValue::Text(title)),
        ],
        Command::SetSubtaskField { subtask, field } => {
            let (name, value) = match field {
                SubtaskField::Title(t) => (FieldName::Title, FieldValue::Text(t)),
                SubtaskField::Completed(b) => (FieldName::Completed, FieldValue::Flag(b)),
            };
            seq![set_op(subtask, EntityKind::Subtask, name, value)]
        },
        Command::DeleteSubtask { subtask } => seq![life_op(subtask, EntityKind::Subtask, Payload::Delete)],
        Command::RestoreSubtask { subtask } => seq![life_op(subtask, EntityKind::Subtask, Payload::Restore)],
        Command::MoveSubtask { subtask, parent } => seq![
            set_op(subtask, EntityKind::Subtask, FieldName::Parent, FieldValue::Id(parent)),
        ],
        Command::CreateList { name } => seq![
            create_op(new_id, EntityKind::List, None, FieldName::Name, FieldValue::Text(name)),
        ],
        Command::SetListField { list, field } => {
            let (name, value) = match field {
                ListField::Name(n) => (FieldName::Name, FieldValue::Text(n)),
                ListField::Color(c) => (FieldName::Color, FieldValue::Text(c)),
                ListField::Icon(i) => (FieldName::Icon, FieldValue::Text(i)),
            };
            seq![set_op(list, EntityKind::List, name, value)]
        },
        Command::DeleteList { list } => seq![life_op(list, EntityKind::List, Payload::Delete)],
        Command::RestoreList { list } => seq![life_op(list, EntityKind::List, Payload::Restore)],
        Command::MoveList { list, before } => seq![
            set_op(list, EntityKind::List, FieldName::RankBefore, id_or_null(before)),
        ],
        Command::CreateTag { name } => seq![
            create_op(new_id, EntityKind::Tag, None, FieldName::Name, FieldValue::Text(name)),
        ],
        Command::SetTagField { tag, field } => {
            let TagField::Name(n) = field;
            seq![set_op(tag, EntityKind::Tag, FieldName::Name, FieldValue::Text(n))]
        },
        Command::DeleteTag { tag } => seq![life_op(tag, EntityKind::Tag, Payload::Delete)],
        Command::RestoreTag { tag } => seq![life_op(tag, EntityKind::Tag, Payload::Restore)],
        Command::MoveTask { task, before } => seq![
            set_op(task, EntityKind::Task, FieldName::RankBefore, id_or_null(before)),
        ],
        Command::SetTaskTag { task, tag, attached } => seq![
            set_op(task, EntityKind::Task, FieldName::TagLink(tag), FieldValue::Flag(attached)),
        ],
    }
}

/// Only a command that introduces or renames something has a name to
/// check: task and subtask titles by the title rule, list names by the
/// list-name rule, tag names by the tag-name rule; the name checked is the
/// one the command carries.
pub proof fn lemma_names_checked(cmd: Command)
    ensures
        cmd matches Command::CreateTask { title, .. } ==> name_rule_of(cmd) == Some((NameRule::Title, title)),
        cmd matches Command::SetTaskField { field: TaskField::Title(t), .. } ==> name_rule_of(cmd) == Some(
            (NameRule::Title, t),
        ),
        cmd matches Command::CreateSubtask { title, .. } ==> name_rule_of(cmd) == Some((NameRule::Title, title)),
        cmd matches Command::SetSubtaskField { field: SubtaskField::Title(t), .. } ==> name_rule_of(cmd) == Some(
            (NameRule::Title, t),
        ),
        cmd matches Command::CreateList { name } ==> name_rule_of(cmd) == Some((NameRule::ListName, name)),
        cmd matches Command::SetListField { field: ListField::Name(n), .. } ==> name_rule_of(cmd) == Some(
            (NameRule::ListName, n),
        ),
        cmd matches Command::CreateTag { name } ==> name_rule_of(cmd) == Some((NameRule::TagName, name)),
        cmd matches Command::SetTagField { field: TagField::Name(n), .. } ==> name_rule_of(cmd) == Some(
            (NameRule::TagName, n),
        ),
        name_rule_of(cmd) is Some ==> (cmd is CreateTask || cmd is CreateSubtask || cmd is CreateList
            || cmd is CreateTag || cmd matches Command::SetTaskField { field: TaskField::Title(_), .. }
            || cmd matches Command::SetSubtaskField { field: SubtaskField::Title(_), .. }
            || cmd matches Command::SetListField { field: ListField::Name(_), .. } || cmd is SetTagField),
{
}

/// Editing a task writes exactly one register of that task, the one the
/// edit names, with the value the command carries: marking a task done or
/// not done stores that flag, a title or description its text, a due date
/// or time the given one (null when cleared), a list its id (null for none),
/// a move its successor, and a tag link whether the tag is attached.
pub proof fn lemma_task_edits_write_what_they_carry(task: EntityId, new_id: EntityId, cmd: Command)
    ensures
        cmd matches Command::SetTaskCompleted { task: t, completed } ==> specs_for(cmd, new_id) == seq![
            OpSpec {
                entity: t,
                kind: EntityKind::Task,
                parent: None,
                new_entity: false,
                payload: Payload::SetField { field: FieldName::Completed, value: FieldValue::Flag(completed) },
            },
        ],
        cmd matches Command::SetTaskField { task: t, field: TaskField::Title(x) } ==> specs_for(cmd, new_id)
            == seq![
            OpSpec {
                entity: t,
                kind: EntityKind::Task,
                parent: None,
                new_entity: false,
                payload: Payload::SetField { field: FieldName::Title, value: FieldValue::Text(x) },
            },
        ],
        cmd matches Command::SetTaskField { task: t, field: TaskField::Description(x) } ==> specs_for(
            cmd,
            new_id,
        ) == seq![
            OpSpec {
                entity: t,
                kind: EntityKind::Task,
                parent: None,
                new_entity: false,
                payload: Payload::SetField { field: FieldName::Description, value: FieldValue::Text(x) },
            },
        ],
        cmd matches Command::SetTaskField { task: t, field: TaskField::Priority(x) } ==> specs_for(cmd, new_id)
            == seq![
            OpSpec {
                entity: t,
                kind: EntityKind::Task,
                parent: None,
                new_entity: false,
                payload: Payload::SetField { field: FieldName::Priority, value: FieldValue::Priority(x) },
            },
        ],
        cmd matches Command::SetTaskField { task: t, field: TaskField::DueDate(Some(d)) } ==> specs_for(
            cmd,
            new_id,
        ) == seq![
            OpSpec {
                entity: t,
                kind: EntityKind::Task,
                parent: None,
                new_entity: false,
                payload: Payload::SetField { field: FieldName::DueDate, value: FieldValue::Date(d) },
            },
        ],
        cmd matches Command::SetTaskField { task: t, field: TaskField::DueDate(None) } ==> specs_for(
            cmd,
            new_id,
        ) == seq![
            OpSpec {
                entity: t,
                kind: EntityKind::Task,
                parent: None,
                new_entity: false,
                payload: Payload::SetField { field: FieldName::DueDate, value: FieldValue::Null },
            },
        ],
        cmd matches Command::SetTaskField { task: t, field: TaskField::DueTime(Some(x)) } ==> specs_for(
            cmd,
            new_id,
        ) == seq![
            OpSpec {
                entity: t,
                kind: EntityKind::Task,
                parent: None,
                new_entity: false,
                payload: Payload::SetField { field: FieldName::DueTime, value: FieldValue::Time(x) },
            },
        ],
        cmd matches Command::SetTaskField { task: t, field: TaskField::DueTime(None) } ==> specs_for(
            cmd,
            new_id,
        ) == seq![
            OpSpec {
                entity: t,
                kind: EntityKind::Task,
                parent: None,
                new_entity: false,
                payload: Payload::SetField { field: FieldName::DueTime, value: FieldValue::Null },
            },
        ],
        cmd matches Command::SetTaskField { task: t, field: TaskField::List(Some(l)) } ==> specs_for(
            cmd,
            new_id,
        ) == seq![
            OpSpec {
                entity: t,
                kind: EntityKind::Task,
                parent: None,
                new_entity: false,
                payload: Payload::SetField { field: FieldName::ListId, value: FieldValue::Id(l) },
            },
        ],
        cmd matches Command::SetTaskField { task: t, field: TaskField::List(None) } ==> specs_for(
            cmd,
            new_id,
        ) == seq![
            OpSpec {
                entity: t,
                kind: EntityKind::Task,
                parent: None,
                new_entity: false,
                payload: Payload::SetField { field: FieldName::ListId, value: FieldValue::Null },
            },
        ],
        cmd matches Command::MoveTask { task: t, before: Some(b) } ==> specs_for(cmd, new_id) == seq![
            OpSpec {
                entity: t,
                kind: EntityKind::Task,
                parent: None,
                new_entity: false,
                payload: Payload::SetField { field: FieldName::RankBefore, value: FieldValue::Id(b) },
            },
        ],
        cmd matches Command::MoveTask { task: t, before: None } ==> specs_for(cmd, new_id) == seq![
            OpSpec {
                entity: t,
                kind: EntityKind::Task,
                parent: None,
                new_entity: false,
                payload: Payload::SetField { field: FieldName::RankBefore, value: FieldValue::Null },
            },
        ],
        cmd matches Command::SetTaskTag { task: t, tag, attached } ==> specs_for(cmd, new_id) == seq![
            OpSpec {
                entity: t,
                kind: EntityKind::Task,
                parent: None,
                new_entity: false,
                payload: Payload::SetField { field: FieldName::TagLink(tag), value: FieldValue::Flag(attached) },
            },
        ],
{
}

/// Editing a subtask, list or tag writes exactly one register of it, the
/// one the edit names, with the value the command carries; moving a
/// subtask sets its parent, moving a list its successor (null for none).
pub proof fn lemma_other_edits_write_what_they_carry(new_id: EntityId, cmd: Command)
    ensures
        cmd matches Command::SetSubtaskField { subtask: t, field: SubtaskField::Title(x) } ==> specs_for(
            cmd,
            new_id,
        ) == seq![
            OpSpec {
                entity: t,
                kind: EntityKind::Subtask,
                parent: None,
                new_entity: false,
                payload: Payload::SetField { field: FieldName::Title, value: FieldValue::Text(x) },
            },
        ],
        cmd matches Command::SetSubtaskField { subtask: t, field: SubtaskField::Completed(b) } ==> specs_for(
            cmd,
            new_id,
        ) == seq![
            OpSpec {
                entity: t,
                kind: EntityKind::Subtask,
                parent: None,
                new_entity: false,
                payload: Payload::SetField { field: FieldName::Completed, value: FieldValue::Flag(b) },
            },
        ],
        cmd matches Command::MoveSubtask { subtask: t, parent: p } ==> specs_for(cmd, new_id) == seq![
            OpSpec {
                entity: t,
                kind: EntityKind::Subtask,
                parent: None,
                new_entity: false,
                payload: Payload::SetField { field: FieldName::Parent, value: FieldValue::Id(p) },
            },
        ],
        cmd matches Command::SetListField { list: l, field: ListField::Name(x) } ==> specs_for(cmd, new_id)
            == seq![
            OpSpec {
                entity: l,
                kind: EntityKind::List,
                parent: None,
                new_entity: false,
                payload: Payload::SetField { field: FieldName::Name, value: FieldValue::Text(x) },
            },
        ],
        cmd matches Command::SetListField { list: l, field: ListField::Color(x) } ==> specs_for(cmd, new_id)
            == seq![
            OpSpec {
                entity: l,
                kind: EntityKind::List,
                parent: None,
                new_entity: false,
                payload: Payload::SetField { field: FieldName::Color, value: FieldValue::Text(x) },
            },
        ],
        cmd matches Command::SetListField { list: l, field: ListField::Icon(x) } ==> specs_for(cmd, new_id)
            == seq![
            OpSpec {
                entity: l,
                kind: EntityKind::List,
                parent: None,
                new_entity: false,
                payload: Payload::SetField { field: FieldName::Icon, value: FieldValue::Text(x) },
            },
        ],
        cmd matches Command::MoveList { list: l, before: Some(b) } ==> specs_for(cmd, new_id) == seq![
            OpSpec {
                entity: l,
                kind: EntityKind::List,
                parent: None,
                new_entity: false,
                payload: Payload::SetField { field: FieldName::RankBefore, value: FieldValue::Id(b) },
            },
        ],
        cmd matches Command::MoveList { list: l, before: None } ==> specs_for(cmd, new_id) == seq![
            OpSpec {
                entity: l,
                kind: EntityKind::List,
                parent: None,
                new_entity: false,
                payload: Payload::SetField { field: FieldName::RankBefore, value: FieldValue::Null },
            },
        ],
        cmd matches Command::SetTagField { tag: g, field: TagField::Name(x) } ==> specs_for(cmd, new_id)
            == seq![
            OpSpec {
                entity: g,
                kind: EntityKind::Tag,
                parent: None,
                new_entity: false,
                payload: Payload::SetField { field: FieldName::Name, value: FieldValue::Text(x) },
            },
        ],
{
}

/// Deleting and purging an entity is one delete of it, restoring one
/// restore of it, each addressed to the entity's own kind.
pub proof fn lemma_deletes_and_restores(new_id: EntityId, cmd: Command)
    ensures
        cmd matches Command::DeleteTask { task: t } ==> specs_for(cmd, new_id) == seq![
            OpSpec { entity: t, kind: EntityKind::Task, parent: None, new_entity: false, payload: Payload::Delete },
        ],
        cmd matches Command::PurgeTask { task: t } ==> specs_for(cmd, new_id) == seq![
            OpSpec { entity: t, kind: EntityKind::Task, parent: None, new_entity: false, payload: Payload::Delete },
        ],
        cmd matches Command::RestoreTask { task: t } ==> specs_for(cmd, new_id) == seq![
            OpSpec { entity: t, kind: EntityKind::Task, parent: None, new_entity: false, payload: Payload::Restore },
        ],
        cmd matches Command::DeleteSubtask { subtask: t } ==> specs_for(cmd, new_id) == seq![
            OpSpec {
                entity: t,
                kind: EntityKind::Subtask,
                parent: None,
                new_entity: false,
                payload: Payload::Delete,
            },
        ],
        cmd matches Command::RestoreSubtask { subtask: t } ==> specs_for(cmd, new_id) == seq![
            OpSpec {
                entity: t,
                kind: EntityKind::Subtask,
                parent: None,
                new_entity: false,
                payload: Payload::Restore,
            },
        ],
        cmd matches Command::DeleteList { list: t } ==> specs_for(cmd, new_id) == seq![
            OpSpec { entity: t, kind: EntityKind::List, parent: None, new_entity: false, payload: Payload::Delete },
        ],
        cmd matches Command::RestoreList { list: t } ==> specs_for(cmd, new_id) == seq![
            OpSpec { entity: t, kind: EntityKind::List, parent: None, new_entity: false, payload: Payload::Restore },
        ],
        cmd matches Command::DeleteTag { tag: t } ==> specs_for(cmd, new_id) == seq![
            OpSpec { entity: t, kind: EntityKind::Tag, parent: None, new_entity: false, payload: Payload::Delete },
        ],
        cmd matches Command::RestoreTag { tag: t } ==> specs_for(cmd, new_id) == seq![
            OpSpec { entity: t, kind: EntityKind::Tag, parent: None, new_entity: false, payload: Payload::Restore },
        ],
{
}

/// Creating a subtask, list or tag is one operation that creates the new
/// entity (under its parent, for a subtask) by setting its title or name.
pub proof fn lemma_small_creations(new_id: EntityId, cmd: Command)
    ensures
        cmd matches Command::CreateSubtask { parent: p, title } ==> specs_for(cmd, new_id) == seq![
            OpSpec {
                entity: new_id,
                kind: EntityKind::Subtask,
                parent: Some(p),
                new_entity: true,
                payload: Payload::SetField { field: FieldName::Title, value: FieldValue::Text(title) },
            },
        ],
        cmd matches Command::CreateList { name } ==> specs_for(cmd, new_id) == seq![
            OpSpec {
                entity: new_id,
                kind: EntityKind::List,
                parent: None,
                new_entity: true,
                payload: Payload::SetField { field: FieldName::Name, value: FieldValue::Text(name) },
            },
        ],
        cmd matches Command::CreateTag { name } ==> specs_for(cmd, new_id) == seq![
            OpSpec {
                entity: new_id,
                kind: EntityKind::Tag,
                parent: None,
                new_entity: true,
                payload: Payload::SetField { field: FieldName::Name, value: FieldValue::Text(name) },
            },
        ],
{
}

/// Whether some operation of `ops` sets register `field` of a task.
pub open spec fn sets_task_field(ops: Seq<OpSpec>, field: FieldName, value: FieldValue) -> bool {
    exists|i: int|
        0 <= i < ops.len() && #[trigger] ops[i] == (OpSpec {
            entity: ops[i].entity,
            kind: EntityKind::Task,
            parent: None,
            new_entity: ops[i].new_entity,
            payload: Payload::SetField { field, value },
        })
}

/// Creating a task creates the new task by its title first, then sets its
/// description, its priority and an open completion; every operation is
/// for the new task, and only the first creates it. A due date, due time
/// and list are set exactly when given, and the tags exactly when there
/// are some.
pub proof fn lemma_task_creation(
    new_id: EntityId,
    title: String,
    description: String,
    due_date: Option<LocalDate>,
    due_time: Option<LocalTime>,
    priority: Priority,
    list_id: Option<EntityId>,
    tags: Vec<EntityId>,
)
    ensures
        ({
            let ops = specs_for(
                Command::CreateTask { title, description, due_date, due_time, priority, list_id, tags },
                new_id,
            );
            &&& ops.len() == 4 + (if due_date is Some { 1int } else { 0 }) + (if due_time is Some { 1int } else { 0 })
                + (if list_id is Some { 1int } else { 0 }) + (if tags@.len() > 0 { 1int } else { 0 })
            &&& ops[0] == (OpSpec {
                entity: new_id,
                kind: EntityKind::Task,
                parent: None,
                new_entity: true,
                payload: Payload::SetField { field: FieldName::Title, value: FieldValue::Text(title) },
            })
            &&& ops[1].payload == (Payload::SetField {
                field: FieldName::Description,
                value: FieldValue::Text(description),
            })
            &&& ops[2].payload == (Payload::SetField {
                field: FieldName::Priority,
                value: FieldValue::Priority(priority),
            })
            &&& ops[3].payload == (Payload::SetField { field: FieldName::Completed, value: FieldValue::Flag(false) })
            &&& forall|i: int|
                0 <= i < ops.len() ==> (#[trigger] ops[i]).entity == new_id && ops[i].kind == EntityKind::Task
                    && ops[i].parent is None && (ops[i].new_entity <==> i == 0)
            &&& forall|d: LocalDate| sets_task_field(ops, FieldName::DueDate, FieldValue::Date(d)) <==> due_date == Some(d)
            &&& forall|t: LocalTime| sets_task_field(ops, FieldName::DueTime, FieldValue::Time(t)) <==> due_time == Some(t)
            &&& forall|l: EntityId| sets_task_field(ops, FieldName::ListId, FieldValue::Id(l)) <==> list_id == Some(l)
            &&& sets_task_field(ops, FieldName::Tags, FieldValue::Ids(tags)) <==> tags@.len() > 0
        }),
{
    let ops = specs_for(
        Command::CreateTask { title, description, due_date, due_time, priority, list_id, tags },
        new_id,
    );
    assert forall|i: int| 0 <= i < ops.len() implies (#[trigger] ops[i]).entity == new_id && ops[i].kind
        == EntityKind::Task && ops[i].parent is None && (ops[i].new_entity <==> i == 0) by {
    }
    assert forall|d: LocalDate| sets_task_field(ops, FieldName::DueDate, FieldValue::Date(d)) <==> due_date == Some(d) by {
        if due_date == Some(d) {
            assert(ops[4].payload == (Payload::SetField { field: FieldName::DueDate, value: FieldValue::Date(d) }));
        }
        if sets_task_field(ops, FieldName::DueDate, FieldValue::Date(d)) {
            let i = choose|i: int|
                0 <= i < ops.len() && #[trigger] ops[i] == (OpSpec {
                    entity: ops[i].entity,
                    kind: EntityKind::Task,
                    parent: None,
                    new_entity: ops[i].new_entity,
                    payload: Payload::SetField { field: FieldName::DueDate, value: FieldValue::Date(d) },
                });
            assert(i == 4);
        }
    }
    assert forall|t: LocalTime| sets_task_field(ops, FieldName::DueTime, FieldValue::Time(t)) <==> due_time == Some(t) by {
        let k: int = if due_date is Some { 5 } else { 4 };
        if due_time == Some(t) {
            assert(ops[k].payload == (Payload::SetField { field: FieldName::DueTime, value: FieldValue::Time(t) }));
        }
        if sets_task_field(ops, FieldName::DueTime, FieldValue::Time(t)) {
            let i = choose|i: int|
                0 <= i < ops.len() && #[trigger] ops[i] == (OpSpec {
                    entity: ops[i].entity,
                    kind: EntityKind::Task,
                    parent: None,
                    new_entity: ops[i].new_entity,
                    payload: Payload::SetField { field: FieldName::DueTime, value: FieldValue::Time(t) },
                });
            assert(i == k);
        }
    }
    assert forall|l: EntityId| sets_task_field(ops, FieldName::ListId, FieldValue::Id(l)) <==> list_id == Some(l) by {
        let k: int = 4 + (if due_date is Some { 1int } else { 0 }) + (if due_time is Some { 1int } else { 0 });
        if list_id == Some(l) {
            assert(ops[k].payload == (Payload::SetField { field: FieldName::ListId, value: FieldValue::Id(l) }));
        }
        if sets_task_field(ops, FieldName::ListId, FieldValue::Id(l)) {
            let i = choose|i: int|
                0 <= i < ops.len() && #[trigger] ops[i] == (OpSpec {
                    entity: ops[i].entity,
                    kind: EntityKind::Task,
                    parent: None,
                    new_entity: ops[i].new_entity,
                    payload: Payload::SetField { field: FieldName::ListId, value: FieldValue::Id(l) },
                });
            assert(i == k);
        }
    }
    let last: int = ops.len() - 1;
    if tags@.len() > 0 {
        assert(ops[last].payload == (Payload::SetField { field: FieldName::Tags, value: FieldValue::Ids(tags) }));
    }
    if sets_task_field(ops, FieldName::Tags, FieldValue::Ids(tags)) {
        let i = choose|i: int|
            0 <= i < ops.len() && #[trigger] ops[i] == (OpSpec {
                entity: ops[i].entity,
                kind: EntityKind::Task,
                parent: None,
                new_entity: ops[i].new_entity,
                payload: Payload::SetField { field: FieldName::Tags, value: FieldValue::Ids(tags) },
            });
        assert(tags@.len() > 0 && i == last);
    }
}

fn id_value(id: Option<EntityId>) -> (v: FieldValue)
    ensures
        v == id_or_null(id),
{
    match id {
        Some(i) => FieldValue::Id(i),
        None => FieldValue::Null,
    }
}

fn one(s: OpSpec) -> (v: Vec<OpSpec>)
    ensures
        v@ == seq![s],
{
    let mut v = Vec::new();
    v.push(s);
    assert(v@ =~= seq![s]);
    v
}

/// Turn a command into the operations that carry it out. `name_check` is
/// the verdict of the naming rule on the command's name (see
/// `name_to_validate`); a command whose name fails it is refused with that
/// verdict's message, as a domain error. `new_id` names the entity a
/// creating command creates.
pub fn command_to_specs(cmd: Command, name_check: Result<(), String>, new_id: EntityId) -> (r: Result<
    Vec<OpSpec>,
    CoreError,
>)
    ensures
        match (name_rule_of(cmd), name_check) {
            (Some(_), Err(msg)) => r == Err::<Vec<OpSpec>, CoreError>(CoreError::Domain(msg)),
            _ => r matches Ok(v) && v@ == specs_for(cmd, new_id),
        },
{
    let ghost given = cmd;
    let refused = match name_to_validate(&cmd) {
        Some(_) => match name_check {
            Err(msg) => Some(msg),
            Ok(()) => None,
        },
        None => None,
    };
    if let Some(msg) = refused {
        return Err(CoreError::Domain(msg));
    }
    let specs = match cmd {
        Command::CreateTask { title, description, due_date, due_time, priority, list_id, tags } => {
            let mut s: Vec<OpSpec> = Vec::new();
            s.push(OpSpec {
                entity: new_id,
                kind: EntityKind::Task,
                parent: None,
                new_entity: true,
                payload: Payload::SetField { field: FieldName::Title, value: FieldValue::Text(title) },
            });
            s.push(spec_set(new_id, EntityKind::Task, FieldName::Description, FieldValue::Text(description)));
            s.push(spec_set(new_id, EntityKind::Task, FieldName::Priority, FieldValue::Priority(priority)));
            s.push(spec_set(new_id, EntityKind::Task, FieldName::Completed, FieldValue::Flag(false)));
            if let Some(d) = due_date {
                s.push(spec_set(new_id, EntityKind::Task, FieldName::DueDate, FieldValue::Date(d)));
            }
            if let Some(t) = due_time {
                s.push(spec_set(new_id, EntityKind::Task, FieldName::DueTime, FieldValue::Time(t)));
            }
            if let Some(l) = list_id {
                s.push(spec_set(new_id, EntityKind::Task, FieldName::ListId, FieldValue::Id(l)));
            }
            if tags.len() > 0 {
                s.push(spec_set(new_id, EntityKind::Task, FieldName::Tags, FieldValue::Ids(tags)));
            }
            proof {
                assert(s@ =~= specs_for(given, new_id));
            }
            s
        },
        Command::SetTaskField { task, field } => {
            let (name, value) = match field {
                TaskField::Title(t) => (FieldName::Title, FieldValue::Text(t)),
                TaskField::Description(d) => (FieldName::Description, FieldValue::Text(d)),
                TaskField::DueDate(d) => (FieldName::DueDate, match d {
                    Some(x) => FieldValue::Date(x),
                    None => FieldValue::Null,
                }),
                TaskField::DueTime(t) => (FieldName::DueTime, match t {
                    Some(x) => FieldValue::Time(x),
                    None => FieldValue::Null,
                }),
                TaskField::Priority(p) => (FieldName::Priority, FieldValue::Priority(p)),
                TaskField::List(l) => (FieldName::ListId, id_value(l)),
            };
            one(spec_set(task, EntityKind::Task, name, value))
        },
        Command::SetTaskCompleted { task, completed } => one(
            spec_set(task, EntityKind::Task, FieldName::Completed, FieldValue::Flag(completed)),
        ),
        Command::DeleteTask { task } => one(
            OpSpec { entity: task, kind: EntityKind::Task, parent: None, new_entity: false, payload: Payload::Delete },
        ),
        Command::RestoreTask { task } => one(
            OpSpec { entity: task, kind: EntityKind::Task, parent: None, new_entity: false, payload: Payload::Restore },
        ),
        Command::PurgeTask { task } => one(
            OpSpec { entity: task, kind: EntityKind::Task, parent: None, new_entity: false, payload: Payload::Delete },
        ),
        Command::CreateSubtask { parent, title } => one(
            OpSpec {
                entity: new_id,
                kind: EntityKind::Subtask,
                parent: Some(parent),
                new_entity: true,
                payload: Payload::SetField { field: FieldName::Title, value: FieldValue::Text(title) },
            },
        ),
        Command::SetSubtaskField { subtask, field } => {
            let (name, value) = match field {
                SubtaskField::Title(t) => (FieldName::Title, FieldValue::Text(t)),
                SubtaskField::Completed(b) => (FieldName::Completed, FieldValue::Flag(b)),
            };
            one(spec_set(subtask, EntityKind::Subtask, name, value))
        },
        Command::DeleteSubtask { subtask } => one(
            OpSpec { entity: subtask, kind: EntityKind::Subtask, parent: None, new_entity: false, payload: Payload::Delete },
        ),
        Command::RestoreSubtask { subtask } => one(
            OpSpec { entity: subtask, kind: EntityKind::Subtask, parent: None, new_entity: false, payload: Payload::Restore },
        ),
        Command::MoveSubtask { subtask, parent } => one(
            spec_set(subtask, EntityKind::Subtask, FieldName::Parent, FieldValue::Id(parent)),
        ),
        Command::CreateList { name } => one(
            OpSpec {
                entity: new_id,
                kind: EntityKind::List,
                parent: None,
                new_entity: true,
                payload: Payload::SetField { field: FieldName::Name, value: FieldValue::Text(name) },
            },
        ),
        Command::SetListField { list, field } => {
            let (name, value) = match field {
                ListField::Name(n) => (FieldName::Name, FieldValue::Text(n)),
                ListField::Color(c) => (FieldName::Color, FieldValue::Text(c)),
                ListField::Icon(i) => (FieldName::Icon, FieldValue::Text(i)),
            };
            one(spec_set(list, EntityKind::List, name, value))
        },
        Command::DeleteList { list } => one(
            OpSpec { entity: list, kind: EntityKind::List, parent: None, new_entity: false, payload: Payload::Delete },
        ),
        Command::RestoreList { list } => one(
            OpSpec { entity: list, kind: EntityKind::List, parent: None, new_entity: false, payload: Payload::Restore },
        ),
        Command::MoveList { list, before } => one(
            spec_set(list, EntityKind::List, FieldName::RankBefore, id_value(before)),
        ),
        Command::CreateTag { name } => one(
            OpSpec {
                entity: new_id,
                kind: EntityKind::Tag,
                parent: None,
                new_entity: true,
                payload: Payload::SetField { field: FieldName::Name, value: FieldValue::Text(name) },
            },
        ),
        Command::SetTagField { tag, field } => {
            let TagField::Name(n) = field;
            one(spec_set(tag, EntityKind::Tag, FieldName::Name, FieldValue::Text(n)))
        },
        Command::DeleteTag { tag } => one(
            OpSpec { entity: tag, kind: EntityKind::Tag, parent: None, new_entity: false, payload: Payload::Delete },
        ),
        Command::RestoreTag { tag } => one(
            OpSpec { entity: tag, kind: EntityKind::Tag, parent: None, new_entity: false, payload: Payload::Restore },
        ),
        Command::MoveTask { task, before } => one(
            spec_set(task, EntityKind::Task, FieldName::RankBefore, id_value(before)),
        ),
        Command::SetTaskTag { task, tag, attached } => one(
            spec_set(task, EntityKind::Task, FieldName::TagLink(tag), FieldValue::Flag(attached)),
        ),
    };
    Ok(specs)
}

/// The sequence numbers of `count` new operations of this device after
/// `last`: `last + 1` to `last + count`, or exhaustion when they would pass
/// `u64::MAX`.
pub fn operation_sequences(last: u64, count: usize) -> (r: Result<Vec<u64>, CoreError>)
    ensures
        last + count > u64::MAX ==> r == Err::<Vec<u64>, CoreError>(CoreError::SequenceExhausted),
        last + count <= u64::MAX ==> (r matches Ok(v) && v@.len() == count && forall|i: int|
            0 <= i < count ==> #[trigger] v@[i] == last + i + 1),
{
    let mut v: Vec<u64> = Vec::new();
    let mut seq = last;
    let mut i: usize = 0;
    while i < count
        invariant
            i <= count,
            seq == last + i,
            v@.len() == i,
            forall|j: int| 0 <= j < i ==> #[trigger] v@[j] == last + j + 1,
        decreases count - i,
    {
        match seq.checked_add(1) {
            Some(next) => {
                v.push(next);
                seq = next;
            },
            None => {
                return Err(CoreError::SequenceExhausted);
            },
        }
        i = i + 1;
    }
    Ok(v)
}

/// The lifecycle generation an operation is stamped with: 1 for a new
/// entity, else the entity's stored generation.
pub fn stamp_generation(new_entity: bool, stored: u64) -> (g: u64)
    ensures
        g == if new_entity { 1 } else { stored },
{
    if new_entity {
        1
    } else {
        stored
    }
}


/// The free-space guard of a replica: once a write finds less free space
/// than the reserve, the replica turns read-only, and stays so until the
/// platform reports that space was recovered.
pub struct SpaceGuard {
    reserve_bytes: u64,
    read_only: bool,
}

impl SpaceGuard {
    pub closed spec fn spec_reserve(&self) -> u64 {
        self.reserve_bytes
    }

    pub closed spec fn spec_read_only(&self) -> bool {
        self.read_only
    }

    /// A writable guard that keeps `reserve_bytes` free.
    pub fn new(reserve_bytes: u64) -> (g: Self)
        ensures
            g.spec_reserve() == reserve_bytes,
            !g.spec_read_only(),
    {
        SpaceGuard { reserve_bytes, read_only: false }
    }

    /// Check `available_bytes` before a write: below the reserve the replica
    /// turns read-only and the write is refused. Enough space does not by
    /// itself lift an earlier read-only state.
    pub fn check_space(&mut self, available_bytes: u64) -> (r: Result<(), CoreError>)
        ensures
            r == if available_bytes < old(self).spec_reserve() {
                Err::<(), CoreError>(CoreError::ReadOnlyLowSpace)
            } else {
                Ok::<(), CoreError>(())
            },
            final(self).spec_read_only() == (old(self).spec_read_only() || available_bytes
                < old(self).spec_reserve()),
            final(self).spec_reserve() == old(self).spec_reserve(),
    {
        if available_bytes < self.reserve_bytes {
            self.read_only = true;
            return Err(CoreError::ReadOnlyLowSpace);
        }
        Ok(())
    }

    pub fn replica_state(&self) -> (st: ReplicaState)
        ensures
            st == if self.spec_read_only() {
                ReplicaState::ReadOnlyLowSpace
            } else {
                ReplicaState::Ready
            },
    {
        if self.read_only {
            ReplicaState::ReadOnlyLowSpace
        } else {
            ReplicaState::Ready
        }
    }

    /// The platform reports that free space was recovered.
    pub fn note_space_recovered(&mut self)
        ensures
            !final(self).spec_read_only(),
            final(self).spec_reserve() == old(self).spec_reserve(),
    {
        self.read_only = false;
    }
}

/// The devices whose operations this replica accepts: itself, and every
/// member added since.
pub struct MemberSet {
    members: DeviceMap<()>,
}

impl MemberSet {
    pub closed spec fn spec_members(&self) -> Set<Seq<u8>> {
        self.members.map().dom()
    }

    /// The set holding only the local device.
    pub fn new(local: DeviceId) -> (m: Self)
        ensures
            m.spec_members() == Set::<Seq<u8>>::empty().insert(local.bytes@),
    {
        let mut members = DeviceMap::new();
        members.insert(local, ());
        let m = MemberSet { members };
        assert(m.spec_members() =~= Set::<Seq<u8>>::empty().insert(local.bytes@));
        m
    }

    pub fn add_member(&mut self, device: DeviceId)
        ensures
            final(self).spec_members() == old(self).spec_members().insert(device.bytes@),
    {
        self.members.insert(device, ());
        assert(self.spec_members() =~= old(self).spec_members().insert(device.bytes@));
    }

    pub fn is_member(&self, device: &DeviceId) -> (r: bool)
        ensures
            r == self.spec_members().contains(device.bytes@),
    {
        self.members.contains_key(device)
    }
}

} // verus!

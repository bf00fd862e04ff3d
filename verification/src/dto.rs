//! The data shapes exchanged with the user interface, and the parsing of
//! the plain text it sends.

use vstd::prelude::*;
use crate::command::{Command, LocalDate, LocalTime, TaskField};
use crate::ids::EntityId;
use crate::query::{
    ListScope, Priority, TaskSummary, date_parts_of, date_read, parse_date, parse_time, priority_of,
    time_parts_of, time_read,
};
use crate::text::{
    all_digits, decimal_digits, is_digit, decimal_of, digits_value, lemma_decimal_of, lemma_leading_zeros,
    lemma_split_append_plain, lemma_split_append_sep, parse_int, split_on, str_eq, string_from_chars,
};

verus! {

/// A mutation requested by the user interface.
#[derive(Clone, Debug, PartialEq, Eq)]
pub enum CommandDto {
    CreateTask {
        title: String,
        description: String,
        due_date: Option<String>,
        due_time: Option<String>,
        priority: String,
        list_id: Option<String>,
        tags: Vec<String>,
    },
    SetTaskField { task: String, field: String, value: String },
    SetTaskCompleted { task: String, completed: bool },
    DeleteTask { task: String },
    RestoreTask { task: String },
    CreateList { name: String },
    DeleteList { list: String },
    CreateTag { name: String },
    SetTaskTag { task: String, tag: String, attached: bool },
}

#[derive(Clone, Debug, PartialEq, Eq)]
pub struct TaskQueryDto {
    pub list: String,
    pub active_only: bool,
}

#[derive(Clone, Debug, PartialEq, Eq)]
pub struct PageDto {
    pub cursor: Option<String>,
    pub limit: u32,
}

#[derive(Clone, Debug, PartialEq, Eq)]
pub struct TaskSummaryDto {
    pub id: String,
    pub title: String,
    pub completed: bool,
    pub due_date: Option<String>,
    pub priority: String,
    pub list_id: Option<String>,
}

#[derive(Clone, Debug, PartialEq, Eq)]
pub struct PagedTasksDto {
    pub items: Vec<TaskSummaryDto>,
    pub next_cursor: Option<String>,
}

#[derive(Clone, Debug, PartialEq, Eq)]
pub struct SearchHitDto {
    pub task_id: String,
    pub title: String,
}

#[derive(Clone, Debug, PartialEq, Eq)]
pub struct MutationReceiptDto {
    pub operation_ids: Vec<String>,
    pub affected_entities: Vec<String>,
    pub projection_revision: u64,
}

#[derive(Clone, Debug, PartialEq, Eq)]
pub struct PeerStatusDto {
    pub device_id: String,
    pub reachable: bool,
}

#[derive(Clone, Debug, PartialEq, Eq)]
pub struct RuntimeStatusDto {
    pub replica: String,
    pub peers: Vec<PeerStatusDto>,
}

/// The 128 bits of the UUID that `text` spells, if it spells one.
pub uninterp spec fn uuid_parsed(text: Seq<char>) -> Option<u128>;

/// `uuid::Uuid::parse_str` followed by `as_u128`. Its contract: the result
/// is the named parse of the text.
#[verifier::external_body]
fn parse_uuid(text: &str) -> (r: Option<u128>)
    ensures
        r == uuid_parsed(text@),
{
    match uuid::Uuid::parse_str(text) {
        Ok(u) => Some(u.as_u128()),
        Err(_) => None,
    }
}

/// The entity id a UUID text names, if it names one.
pub fn parse_id(text: &str) -> (r: Option<EntityId>)
    ensures
        r == match uuid_parsed(text@) {
            Some(bits) => Some(EntityId { bits }),
            None => None::<EntityId>,
        },
{
    match parse_uuid(text) {
        Some(bits) => Some(EntityId { bits }),
        None => None,
    }
}

/// The list scope a name selects: a smart-list name, else a user list by
/// its UUID, else every task.
pub open spec fn scope_of(list: Seq<char>) -> ListScope {
    if list == "inbox"@ {
        ListScope::Inbox
    } else if list == "today"@ {
        ListScope::Today
    } else if list == "tomorrow"@ {
        ListScope::Tomorrow
    } else if list == "next7"@ {
        ListScope::Next7Days
    } else if list == "completed"@ {
        ListScope::Completed
    } else if list == "all"@ {
        ListScope::All
    } else {
        match uuid_parsed(list) {
            Some(bits) => ListScope::List(EntityId { bits }),
            None => ListScope::All,
        }
    }
}

/// The list scope a list name from the user interface selects.
pub fn to_scope(list: &str) -> (s: ListScope)
    ensures
        s == scope_of(list@),
{
    if str_eq(list, "inbox") {
        ListScope::Inbox
    } else if str_eq(list, "today") {
        ListScope::Today
    } else if str_eq(list, "tomorrow") {
        ListScope::Tomorrow
    } else if str_eq(list, "next7") {
        ListScope::Next7Days
    } else if str_eq(list, "completed") {
        ListScope::Completed
    } else if str_eq(list, "all") {
        ListScope::All
    } else {
        match parse_id(list) {
            Some(id) => ListScope::List(id),
            None => ListScope::All,
        }
    }
}

/// Why a command from the user interface could not be read.
#[derive(Clone, Debug, PartialEq, Eq)]
pub enum DtoError {
    /// The text does not name an entity id.
    BadId(String),
    /// The task field name is unknown.
    UnknownField(String),
}

/// The priority a label from the user interface selects; anything else
/// leaves the priority unset.
pub open spec fn priority_label(s: Seq<char>) -> Priority {
    if s == "low"@ {
        Priority::Low
    } else if s == "medium"@ {
        Priority::Medium
    } else if s == "high"@ {
        Priority::High
    } else {
        Priority::Unset
    }
}

/// Read a priority label from the user interface.
pub fn parse_priority_label(s: &str) -> (p: Priority)
    ensures
        p == priority_label(s@),
{
    if str_eq(s, "low") {
        Priority::Low
    } else if str_eq(s, "medium") {
        Priority::Medium
    } else if str_eq(s, "high") {
        Priority::High
    } else {
        Priority::Unset
    }
}

fn read_date<D: Fn(i32, u8, u8) -> bool>(s: Option<&str>, ok: &D) -> (r: Option<LocalDate>)
    requires
        forall|y: i32, m: u8, d: u8| ok.requires((y, m, d)),
    ensures
        date_read(match s { Some(t) => Some(t@), None => None::<Seq<char>> }, *ok, r),
{
    match s {
        None => None,
        Some(t) => parse_date(t, ok),
    }
}

fn read_time<T: Fn(u8, u8) -> bool>(s: Option<&str>, ok: &T) -> (r: Option<LocalTime>)
    requires
        forall|h: u8, m: u8| ok.requires((h, m)),
    ensures
        time_read(match s { Some(t) => Some(t@), None => None::<Seq<char>> }, *ok, r),
{
    match s {
        None => None,
        Some(t) => parse_time(t, ok),
    }
}

/// The ids a list of texts names, or the first text that names none.
pub open spec fn ids_of(texts: Seq<String>) -> Result<Seq<EntityId>, String>
    decreases texts.len(),
{
    if texts.len() == 0 {
        Ok(Seq::empty())
    } else {
        match ids_of(texts.drop_last()) {
            Err(e) => Err(e),
            Ok(prev) => match uuid_parsed(texts.last()@) {
                Some(bits) => Ok(prev.push(EntityId { bits })),
                None => Err(texts.last()),
            },
        }
    }
}

fn read_ids(texts: Vec<String>) -> (r: Result<Vec<EntityId>, String>)
    ensures
        match ids_of(texts@) {
            Ok(ids) => r matches Ok(v) && v@ == ids,
            Err(t) => r == Err::<Vec<EntityId>, String>(t),
        },
{
    let ghost all = texts@;
    let mut rest = texts;
    let mut ids: Vec<EntityId> = Vec::new();
    let n = rest.len();
    let mut i: usize = 0;
    while i < n
        invariant
            all == texts@,
            n == all.len(),
            i <= n,
            rest@ == all.skip(i as int),
            ids_of(all.take(i as int)) == Ok::<Seq<EntityId>, String>(ids@),
        decreases n - i,
    {
        let t = rest.remove(0);
        assert(all.skip(i as int).drop_first() =~= all.skip(i + 1));
        assert(all.take(i + 1).drop_last() =~= all.take(i as int));
        assert(all.take(i + 1).last() == t);
        match parse_id(t.as_str()) {
            Some(id) => {
                ids.push(id);
            },
            None => {
                proof {
                    assert(uuid_parsed(t@) is None);
                    assert(ids_of(all.take(i + 1)) == Err::<Seq<EntityId>, String>(t));
                    lemma_ids_err_persists(all, i + 1);
                }
                return Err(t);
            },
        }
        i = i + 1;
    }
    assert(all.take(n as int) =~= all);
    Ok(ids)
}

/// Once a prefix of texts fails to name ids, so does the whole list.
proof fn lemma_ids_err_persists(all: Seq<String>, k: int)
    requires
        0 <= k <= all.len(),
        ids_of(all.take(k)) is Err,
    ensures
        ids_of(all) == ids_of(all.take(k)),
    decreases all.len() - k,
{
    if k < all.len() {
        assert(all.take(k + 1).drop_last() =~= all.take(k));
        lemma_ids_err_persists(all, k + 1);
    } else {
        assert(all.take(k) =~= all);
    }
}

/// The id an optional text names: none for no text, else the id it names,
/// or the text itself when it names none.
pub open spec fn opt_id_of(s: Option<String>) -> Result<Option<EntityId>, String> {
    match s {
        None => Ok(None),
        Some(t) => match uuid_parsed(t@) {
            Some(bits) => Ok(Some(EntityId { bits })),
            None => Err(t),
        },
    }
}

/// The id a text names, or the text itself when it names none.
pub open spec fn id_of(t: String) -> Result<EntityId, String> {
    match uuid_parsed(t@) {
        Some(bits) => Ok(EntityId { bits }),
        None => Err(t),
    }
}

fn read_id(t: String) -> (r: Result<EntityId, String>)
    ensures
        r == id_of(t),
{
    match parse_id(t.as_str()) {
        Some(id) => Ok(id),
        None => Err(t),
    }
}

/// The task field a field name and value text set, under the date and time
/// judges; `None` for an unknown field name.
pub open spec fn task_field_read<D: Fn(i32, u8, u8) -> bool, T: Fn(u8, u8) -> bool>(
    field: Seq<char>,
    value: String,
    date_ok: D,
    time_ok: T,
    r: Option<TaskField>,
) -> bool {
    if field == "title"@ {
        r == Some(TaskField::Title(value))
    } else if field == "description"@ {
        r == Some(TaskField::Description(value))
    } else if field == "priority"@ {
        r == Some(TaskField::Priority(priority_label(value@)))
    } else if field == "due_date"@ {
        r matches Some(TaskField::DueDate(d)) && date_read(Some(value@), date_ok, d)
    } else if field == "due_time"@ {
        r matches Some(TaskField::DueTime(t)) && time_read(Some(value@), time_ok, t)
    } else {
        r is None
    }
}

/// `r` is what reading `dto` may give, when `date_ok` and `time_ok` judge
/// whether numbers form a calendar date and a time of day. Ids are read in
/// the order the command lists them; the first text that names no id
/// refuses the command.
pub open spec fn command_read<D: Fn(i32, u8, u8) -> bool, T: Fn(u8, u8) -> bool>(
    dto: CommandDto,
    date_ok: D,
    time_ok: T,
    r: Result<Command, DtoError>,
) -> bool {
    match dto {
        CommandDto::CreateTask { title, description, due_date, due_time, priority, list_id, tags } => {
            match opt_id_of(list_id) {
                Err(t) => r == Err::<Command, DtoError>(DtoError::BadId(t)),
                Ok(list) => match ids_of(tags@) {
                    Err(t) => r == Err::<Command, DtoError>(DtoError::BadId(t)),
                    Ok(ids) => r matches Ok(Command::CreateTask {
                        title: ti,
                        description: de,
                        due_date: dd,
                        due_time: dt,
                        priority: pr,
                        list_id: li,
                        tags: tg,
                    }) && ti == title && de == description && date_read(
                        match due_date { Some(t) => Some(t@), None => None::<Seq<char>> },
                        date_ok,
                        dd,
                    ) && time_read(
                        match due_time { Some(t) => Some(t@), None => None::<Seq<char>> },
                        time_ok,
                        dt,
                    ) && pr == priority_label(priority@) && li == list && tg@ == ids,
                },
            }
        },
        CommandDto::SetTaskField { task, field, value } => match id_of(task) {
            Err(t) => r == Err::<Command, DtoError>(DtoError::BadId(t)),
            Ok(id) => {
                if field@ == "title"@ || field@ == "description"@ || field@ == "priority"@ || field@
                    == "due_date"@ || field@ == "due_time"@ {
                    r matches Ok(Command::SetTaskField { task: tk, field: f }) && tk == id
                        && task_field_read(field@, value, date_ok, time_ok, Some(f))
                } else {
                    r == Err::<Command, DtoError>(DtoError::UnknownField(field))
                }
            },
        },
        CommandDto::SetTaskCompleted { task, completed } => match id_of(task) {
            Err(t) => r == Err::<Command, DtoError>(DtoError::BadId(t)),
            Ok(id) => r == Ok::<Command, DtoError>(Command::SetTaskCompleted { task: id, completed }),
        },
        CommandDto::DeleteTask { task } => match id_of(task) {
            Err(t) => r == Err::<Command, DtoError>(DtoError::BadId(t)),
            Ok(id) => r == Ok::<Command, DtoError>(Command::DeleteTask { task: id }),
        },
        CommandDto::RestoreTask { task } => match id_of(task) {
            Err(t) => r == Err::<Command, DtoError>(DtoError::BadId(t)),
            Ok(id) => r == Ok::<Command, DtoError>(Command::RestoreTask { task: id }),
        },
        CommandDto::CreateList { name } => r == Ok::<Command, DtoError>(Command::CreateList { name }),
        CommandDto::DeleteList { list } => match id_of(list) {
            Err(t) => r == Err::<Command, DtoError>(DtoError::BadId(t)),
            Ok(id) => r == Ok::<Command, DtoError>(Command::DeleteList { list: id }),
        },
        CommandDto::CreateTag { name } => r == Ok::<Command, DtoError>(Command::CreateTag { name }),
        CommandDto::SetTaskTag { task, tag, attached } => match id_of(task) {
            Err(t) => r == Err::<Command, DtoError>(DtoError::BadId(t)),
            Ok(tid) => match id_of(tag) {
                Err(t) => r == Err::<Command, DtoError>(DtoError::BadId(t)),
                Ok(gid) => r == Ok::<Command, DtoError>(Command::SetTaskTag { task: tid, tag: gid, attached }),
            },
        },
    }
}

/// Setting a task field by name: a task text that names no id refuses
/// the command with that text; otherwise each field name sets the task
/// field of the same name on that task, carrying the value text (read as a
/// priority label, a date or a time where the field is one), and any other
/// name is refused as unknown.
pub proof fn lemma_task_field_names_pick_their_field<D: Fn(i32, u8, u8) -> bool, T: Fn(u8, u8) -> bool>(
    task: String,
    field: String,
    value: String,
    date_ok: D,
    time_ok: T,
    r: Result<Command, DtoError>,
)
    requires
        command_read(CommandDto::SetTaskField { task, field, value }, date_ok, time_ok, r),
    ensures
        uuid_parsed(task@) is None ==> r == Err::<Command, DtoError>(DtoError::BadId(task)),
        uuid_parsed(task@) matches Some(bits) ==> {
            let id = EntityId { bits };
            &&& field@ == "title"@ ==> r == Ok::<Command, DtoError>(
                Command::SetTaskField { task: id, field: TaskField::Title(value) },
            )
            &&& field@ == "description"@ ==> r == Ok::<Command, DtoError>(
                Command::SetTaskField { task: id, field: TaskField::Description(value) },
            )
            &&& field@ == "priority"@ ==> r == Ok::<Command, DtoError>(
                Command::SetTaskField { task: id, field: TaskField::Priority(priority_label(value@)) },
            )
            &&& field@ == "due_date"@ ==> (r matches Ok(Command::SetTaskField { task: t, field: TaskField::DueDate(dd) })
                && t == id && (dd matches Some(d) ==> date_parts_of(value@) == Some((d.year, d.month, d.day))))
            &&& field@ == "due_time"@ ==> (r matches Ok(Command::SetTaskField { task: t, field: TaskField::DueTime(dt) })
                && t == id && (dt matches Some(x) ==> time_parts_of(value@) == Some((x.hour, x.minute))))
            &&& (field@ != "title"@ && field@ != "description"@ && field@ != "priority"@ && field@ != "due_date"@
                && field@ != "due_time"@) ==> r == Err::<Command, DtoError>(DtoError::UnknownField(field))
        },
{
    reveal_strlit("title");
    reveal_strlit("description");
    reveal_strlit("priority");
    reveal_strlit("due_date");
    reveal_strlit("due_time");
    assert("title"@.len() == 5 && "description"@.len() == 11 && "priority"@.len() == 8);
    assert("due_date"@.len() == 8 && "due_time"@.len() == 8);
    assert("priority"@[0] != "due_date"@[0] && "priority"@[0] != "due_time"@[0]);
    assert("due_date"@[4] != "due_time"@[4]);
}

/// The priority labels: "low", "medium" and "high" name their priority,
/// and any other text leaves the priority unset.
pub proof fn lemma_priority_labels(s: Seq<char>)
    ensures
        s == "low"@ ==> priority_label(s) == Priority::Low,
        s == "medium"@ ==> priority_label(s) == Priority::Medium,
        s == "high"@ ==> priority_label(s) == Priority::High,
        s != "low"@ && s != "medium"@ && s != "high"@ ==> priority_label(s) == Priority::Unset,
{
    reveal_strlit("low");
    reveal_strlit("medium");
    reveal_strlit("high");
    assert("low"@.len() == 3 && "medium"@.len() == 6 && "high"@.len() == 4);
}

/// The other commands keep what they carry: the flag of a completion, the
/// name of a new list or tag, and the ids their texts name, read in the
/// order given; the first text that names no id refuses the command.
pub proof fn lemma_commands_keep_what_they_carry<D: Fn(i32, u8, u8) -> bool, T: Fn(u8, u8) -> bool>(
    dto: CommandDto,
    date_ok: D,
    time_ok: T,
    r: Result<Command, DtoError>,
)
    requires
        command_read(dto, date_ok, time_ok, r),
    ensures
        dto matches CommandDto::SetTaskCompleted { task, completed } ==> r == match uuid_parsed(task@) {
            Some(bits) => Ok::<Command, DtoError>(
                Command::SetTaskCompleted { task: EntityId { bits }, completed },
            ),
            None => Err::<Command, DtoError>(DtoError::BadId(task)),
        },
        dto matches CommandDto::DeleteTask { task } ==> r == match uuid_parsed(task@) {
            Some(bits) => Ok::<Command, DtoError>(Command::DeleteTask { task: EntityId { bits } }),
            None => Err::<Command, DtoError>(DtoError::BadId(task)),
        },
        dto matches CommandDto::RestoreTask { task } ==> r == match uuid_parsed(task@) {
            Some(bits) => Ok::<Command, DtoError>(Command::RestoreTask { task: EntityId { bits } }),
            None => Err::<Command, DtoError>(DtoError::BadId(task)),
        },
        dto matches CommandDto::DeleteList { list } ==> r == match uuid_parsed(list@) {
            Some(bits) => Ok::<Command, DtoError>(Command::DeleteList { list: EntityId { bits } }),
            None => Err::<Command, DtoError>(DtoError::BadId(list)),
        },
        dto matches CommandDto::CreateList { name } ==> r == Ok::<Command, DtoError>(Command::CreateList { name }),
        dto matches CommandDto::CreateTag { name } ==> r == Ok::<Command, DtoError>(Command::CreateTag { name }),
        dto matches CommandDto::SetTaskTag { task, tag, attached } ==> r == match (
            uuid_parsed(task@),
            uuid_parsed(tag@),
        ) {
            (None, _) => Err::<Command, DtoError>(DtoError::BadId(task)),
            (Some(_), None) => Err::<Command, DtoError>(DtoError::BadId(tag)),
            (Some(a), Some(b)) => Ok::<Command, DtoError>(
                Command::SetTaskTag { task: EntityId { bits: a }, tag: EntityId { bits: b }, attached },
            ),
        },
        dto matches CommandDto::CreateTask { due_date, due_time, .. } ==> (r matches Ok(
            Command::CreateTask { due_date: dd, due_time: dt, .. },
        ) ==> {
            &&& (due_date is None ==> dd is None)
            &&& (dd matches Some(d) ==> due_date is Some && date_parts_of(due_date->0@) == Some(
                (d.year, d.month, d.day),
            ))
            &&& (due_time is None ==> dt is None)
            &&& (dt matches Some(t) ==> due_time is Some && time_parts_of(due_time->0@) == Some((t.hour, t.minute)))
        }),
        dto matches CommandDto::CreateTask { title, description, priority, list_id, tags, .. } ==> {
            &&& forall|t: String| list_id == Some(t) && uuid_parsed(t@) is None ==> r == Err::<Command, DtoError>(
                DtoError::BadId(t),
            )
            &&& r is Ok ==> r->Ok_0 is CreateTask
            &&& r matches Ok(Command::CreateTask { title: ti, description: de, priority: pr, list_id: li, tags: tg, .. })
                ==> ti == title && de == description && pr == priority_label(priority@) && li == match list_id {
                Some(t) => Some(EntityId { bits: uuid_parsed(t@)->0 }),
                None => None::<EntityId>,
            } && tg@.len() == tags@.len() && forall|i: int|
                0 <= i < tags@.len() ==> uuid_parsed(tags@[i]@) == Some(#[trigger] tg@[i].bits)
        },
{
    match dto {
        CommandDto::CreateTask { tags, .. } => {
            lemma_ids_of_reads_each(tags@);
        },
        _ => {},
    }
}

/// Reading a list of id texts succeeds with one id per text, each the one
/// its text names.
proof fn lemma_ids_of_reads_each(texts: Seq<String>)
    ensures
        ids_of(texts) matches Ok(ids) ==> ids.len() == texts.len() && forall|i: int|
            0 <= i < texts.len() ==> uuid_parsed(texts[i]@) == Some(#[trigger] ids[i].bits),
    decreases texts.len(),
{
    if texts.len() > 0 {
        lemma_ids_of_reads_each(texts.drop_last());
        if ids_of(texts) is Ok {
            let ids = ids_of(texts)->Ok_0;
            let prev = ids_of(texts.drop_last())->Ok_0;
            assert forall|i: int| 0 <= i < texts.len() implies uuid_parsed(texts[i]@) == Some(
                #[trigger] ids[i].bits,
            ) by {
                if i < texts.len() - 1 {
                    assert(texts[i] == texts.drop_last()[i]);
                    assert(ids[i] == prev[i]);
                }
            }
        }
    }
}

/// Read a command from the user interface into a store command. `date_ok`
/// and `time_ok` judge whether parsed numbers form a calendar date and a
/// time of day; dates and times they refuse, or that cannot be read, are
/// left out.
pub fn to_command<D: Fn(i32, u8, u8) -> bool, T: Fn(u8, u8) -> bool>(
    dto: CommandDto,
    date_ok: &D,
    time_ok: &T,
) -> (r: Result<Command, DtoError>)
    requires
        forall|y: i32, m: u8, d: u8| date_ok.requires((y, m, d)),
        forall|h: u8, m: u8| time_ok.requires((h, m)),
    ensures
        command_read(dto, *date_ok, *time_ok, r),
{
    proof {
        reveal_strlit("title");
        reveal_strlit("description");
        reveal_strlit("priority");
        reveal_strlit("due_date");
        reveal_strlit("due_time");
    }
    match dto {
        CommandDto::CreateTask { title, description, due_date, due_time, priority, list_id, tags } => {
            let list = match list_id {
                Some(t) => match read_id(t) {
                    Ok(id) => Some(id),
                    Err(t) => return Err(DtoError::BadId(t)),
                },
                None => None,
            };
            let ids = match read_ids(tags) {
                Ok(v) => v,
                Err(t) => return Err(DtoError::BadId(t)),
            };
            let dd = read_date(match &due_date { Some(t) => Some(t.as_str()), None => None }, date_ok);
            let dt = read_time(match &due_time { Some(t) => Some(t.as_str()), None => None }, time_ok);
            Ok(Command::CreateTask {
                title,
                description,
                due_date: dd,
                due_time: dt,
                priority: parse_priority_label(priority.as_str()),
                list_id: list,
                tags: ids,
            })
        },
        CommandDto::SetTaskField { task, field, value } => {
            let id = match read_id(task) {
                Ok(id) => id,
                Err(t) => return Err(DtoError::BadId(t)),
            };
            let f = if str_eq(field.as_str(), "title") {
                TaskField::Title(value)
            } else if str_eq(field.as_str(), "description") {
                TaskField::Description(value)
            } else if str_eq(field.as_str(), "priority") {
                TaskField::Priority(parse_priority_label(value.as_str()))
            } else if str_eq(field.as_str(), "due_date") {
                TaskField::DueDate(read_date(Some(value.as_str()), date_ok))
            } else if str_eq(field.as_str(), "due_time") {
                TaskField::DueTime(read_time(Some(value.as_str()), time_ok))
            } else {
                return Err(DtoError::UnknownField(field));
            };
            Ok(Command::SetTaskField { task: id, field: f })
        },
        CommandDto::SetTaskCompleted { task, completed } => match read_id(task) {
            Ok(id) => Ok(Command::SetTaskCompleted { task: id, completed }),
            Err(t) => Err(DtoError::BadId(t)),
        },
        CommandDto::DeleteTask { task } => match read_id(task) {
            Ok(id) => Ok(Command::DeleteTask { task: id }),
            Err(t) => Err(DtoError::BadId(t)),
        },
        CommandDto::RestoreTask { task } => match read_id(task) {
            Ok(id) => Ok(Command::RestoreTask { task: id }),
            Err(t) => Err(DtoError::BadId(t)),
        },
        CommandDto::CreateList { name } => Ok(Command::CreateList { name }),
        CommandDto::DeleteList { list } => match read_id(list) {
            Ok(id) => Ok(Command::DeleteList { list: id }),
            Err(t) => Err(DtoError::BadId(t)),
        },
        CommandDto::CreateTag { name } => Ok(Command::CreateTag { name }),
        CommandDto::SetTaskTag { task, tag, attached } => {
            let tid = match read_id(task) {
                Ok(id) => id,
                Err(t) => return Err(DtoError::BadId(t)),
            };
            match read_id(tag) {
                Ok(gid) => Ok(Command::SetTaskTag { task: tid, tag: gid, attached }),
                Err(t) => Err(DtoError::BadId(t)),
            }
        },
    }
}

/// The lower-case hexadecimal digit of `n`, which is below 16.
pub open spec fn hex_char(n: int) -> char {
    seq!['0', '1', '2', '3', '4', '5', '6', '7', '8', '9', 'a', 'b', 'c', 'd', 'e', 'f'][n]
}

/// The last `count` hexadecimal digits of `n`, most significant first.
pub open spec fn hex_digits(n: nat, count: nat) -> Seq<char>
    decreases count,
{
    if count == 0 {
        Seq::empty()
    } else {
        hex_digits(n / 16, (count - 1) as nat).push(hex_char((n % 16) as int))
    }
}

/// The hyphenated, lower-case text of a UUID: its 32 hexadecimal digits,
/// most significant first, in groups of 8, 4, 4, 4 and 12.
pub open spec fn uuid_text(bits: u128) -> Seq<char> {
    let h = hex_digits(bits as nat, 32);
    h.subrange(0, 8) + seq!['-'] + h.subrange(8, 12) + seq!['-'] + h.subrange(12, 16) + seq!['-']
        + h.subrange(16, 20) + seq!['-'] + h.subrange(20, 32)
}

/// `uuid::Uuid::from_u128(bits).to_string()`. Its contract: the result is
/// the hyphenated lower-case hexadecimal text of the bits (`from_u128`
/// takes them big-endian, and `Display` writes that form), and
/// `Uuid::parse_str` reads those bits back from it.
#[verifier::external_body]
fn format_uuid(bits: u128) -> (s: String)
    ensures
        s@ == uuid_text(bits),
        uuid_parsed(s@) == Some(bits),
{
    uuid::Uuid::from_u128(bits).to_string()
}

/// The text of an entity id; reading it back gives the same id.
pub fn id_text(id: &EntityId) -> (s: String)
    ensures
        s@ == uuid_text(id.bits),
        uuid_parsed(s@) == Some(id.bits),
{
    format_uuid(id.bits)
}

/// The label of a priority.
pub open spec fn priority_name(p: Priority) -> Seq<char> {
    match p {
        Priority::Unset => "none"@,
        Priority::Low => "low"@,
        Priority::Medium => "medium"@,
        Priority::High => "high"@,
    }
}

/// The label of a priority at the user-interface boundary.
pub fn priority_text(p: Priority) -> (s: &'static str)
    ensures
        s@ == priority_name(p),
{
    match p {
        Priority::Unset => "none",
        Priority::Low => "low",
        Priority::Medium => "medium",
        Priority::High => "high",
    }
}

/// A priority's label reads back as that priority, both as a stored label
/// and as a label from the user interface.
pub proof fn lemma_priority_label_round_trip(p: Priority)
    ensures
        priority_of(priority_name(p)) == Some(p),
        priority_label(priority_name(p)) == p,
{
    reveal_strlit("none");
    reveal_strlit("low");
    reveal_strlit("medium");
    reveal_strlit("high");
    assert("none"@ =~= seq!['n', 'o', 'n', 'e']);
    assert("low"@ =~= seq!['l', 'o', 'w']);
    assert("medium"@ =~= seq!['m', 'e', 'd', 'i', 'u', 'm']);
    assert("high"@ =~= seq!['h', 'i', 'g', 'h']);
}

/// `s` with zeros in front, up to `w` characters.
pub open spec fn padded(s: Seq<char>, w: nat) -> Seq<char> {
    if s.len() >= w {
        s
    } else {
        Seq::new((w - s.len()) as nat, |_i: int| '0') + s
    }
}

/// A year as `{:04}` writes it: at least four characters, a sign counted.
pub open spec fn year_text(y: i32) -> Seq<char> {
    if y < 0 {
        seq!['-'] + padded(decimal_of((-y) as nat), 3)
    } else {
        padded(decimal_of(y as nat), 4)
    }
}

/// A date as `year-month-day`, month and day in two digits.
pub open spec fn date_text(d: LocalDate) -> Seq<char> {
    year_text(d.year) + seq!['-'] + padded(decimal_of(d.month as nat), 2) + seq!['-'] + padded(
        decimal_of(d.day as nat),
        2,
    )
}

fn push_padded(out: &mut Vec<char>, n: u64, w: usize)
    requires
        w <= 4,
    ensures
        final(out)@ == old(out)@ + padded(decimal_of(n as nat), w as nat),
{
    let digits = decimal_digits(n);
    let ghost start = out@;
    let mut z: usize = digits.len();
    while z < w
        invariant
            digits.len() <= z <= w || (z == digits.len() && z >= w),
            out@ == start + Seq::new((z - digits.len()) as nat, |_i: int| '0'),
        decreases w - z,
    {
        out.push('0');
        z = z + 1;
        assert(out@ =~= start + Seq::new((z - digits.len()) as nat, |_i: int| '0'));
    }
    let ghost mid = out@;
    let mut i: usize = 0;
    while i < digits.len()
        invariant
            i <= digits@.len(),
            out@ == mid + digits@.take(i as int),
        decreases digits@.len() - i,
    {
        out.push(digits[i]);
        i = i + 1;
        assert(out@ =~= mid + digits@.take(i as int));
    }
    assert(digits@.take(digits@.len() as int) =~= digits@);
    if digits.len() >= w {
        assert(mid =~= start);
    } else {
        assert(mid =~= start + Seq::new((w - digits@.len()) as nat, |_i: int| '0'));
    }
    assert(out@ =~= start + padded(decimal_of(n as nat), w as nat));
}

/// The text of a date, `year-month-day`.
pub fn date_string(d: LocalDate) -> (s: String)
    ensures
        s@ == date_text(d),
{
    let mut out: Vec<char> = Vec::new();
    if d.year < 0 {
        out.push('-');
        let y: i64 = d.year as i64;
        push_padded(&mut out, (0 - y) as u64, 3);
    } else {
        push_padded(&mut out, d.year as u64, 4);
    }
    out.push('-');
    push_padded(&mut out, d.month as u64, 2);
    out.push('-');
    push_padded(&mut out, d.day as u64, 2);
    proof {
        assert(out@ =~= date_text(d));
    }
    string_from_chars(&out)
}

/// A time of day as `hour:minute`, each in two digits.
pub open spec fn time_text(t: LocalTime) -> Seq<char> {
    padded(decimal_of(t.hour as nat), 2) + seq![':'] + padded(decimal_of(t.minute as nat), 2)
}

/// The text of a time of day, `hour:minute`.
pub fn time_string(t: LocalTime) -> (s: String)
    ensures
        s@ == time_text(t),
{
    let mut out: Vec<char> = Vec::new();
    push_padded(&mut out, t.hour as u64, 2);
    out.push(':');
    push_padded(&mut out, t.minute as u64, 2);
    proof {
        assert(out@ =~= time_text(t));
    }
    string_from_chars(&out)
}

/// The user-interface form of a task summary: ids as UUID text, the due
/// date as `year-month-day`, the priority by its label.
pub fn task_summary_to_dto(t: &TaskSummary) -> (d: TaskSummaryDto)
    ensures
        d.id@ == uuid_text(t.id.bits),
        d.title@ == t.title@,
        d.completed == t.completed,
        match t.due_date {
            Some(x) => d.due_date matches Some(s) && s@ == date_text(x),
            None => d.due_date is None,
        },
        d.priority@ == priority_name(t.priority),
        match t.list_id {
            Some(l) => d.list_id matches Some(s) && s@ == uuid_text(l.bits),
            None => d.list_id is None,
        },
{
    TaskSummaryDto {
        id: id_text(&t.id),
        title: t.title.clone(),
        completed: t.completed,
        due_date: match t.due_date {
            Some(x) => Some(date_string(x)),
            None => None,
        },
        priority: priority_text(t.priority).to_string(),
        list_id: match &t.list_id {
            Some(l) => Some(id_text(l)),
            None => None,
        },
    }
}

/// Padded digits of a number are digits, free of `-`, and read back as the
/// number.
proof fn lemma_padded_reads_back(n: nat, w: nat)
    requires
        n <= i64::MAX,
    ensures
        all_digits(padded(decimal_of(n), w)),
        forall|i: int| 0 <= i < padded(decimal_of(n), w).len() ==> #[trigger] padded(decimal_of(n), w)[i] != '-',
        parse_int(padded(decimal_of(n), w), i64::MIN as int, i64::MAX as int) == Some(n as int),
{
    lemma_decimal_of(n);
    let dg = decimal_of(n);
    let p = padded(dg, w);
    if dg.len() < w {
        let z = Seq::new((w - dg.len()) as nat, |_i: int| '0');
        lemma_leading_zeros((w - dg.len()) as nat, dg);
        assert forall|i: int| 0 <= i < p.len() implies ('0' <= #[trigger] p[i] && p[i] <= '9') by {
            if i >= z.len() {
                assert(p[i] == dg[i - z.len()]);
            }
        }
    }
    assert(all_digits(p));
    assert(p.len() > 0);
    assert('0' <= p[0] && p[0] <= '9');
}

/// A date whose year is not negative reads back from its text as the
/// numbers it was written from.
pub proof fn lemma_date_text_round_trip(d: LocalDate)
    requires
        d.year >= 0,
    ensures
        date_parts_of(date_text(d)) == Some((d.year, d.month, d.day)),
{
    let a = padded(decimal_of(d.year as nat), 4);
    let b = padded(decimal_of(d.month as nat), 2);
    let c = padded(decimal_of(d.day as nat), 2);
    lemma_padded_reads_back(d.year as nat, 4);
    lemma_padded_reads_back(d.month as nat, 2);
    lemma_padded_reads_back(d.day as nat, 2);
    let e = Seq::<char>::empty();
    lemma_split_append_plain(e, a, '-');
    assert(e + a =~= a);
    assert(split_on(e, '-') =~= seq![e]);
    assert(split_on(a, '-') =~= seq![a]);
    lemma_split_append_sep(a, '-');
    let s1 = a + seq!['-'];
    lemma_split_append_plain(s1, b, '-');
    assert(split_on(s1 + b, '-') =~= seq![a, b]);
    lemma_split_append_sep(s1 + b, '-');
    let s2 = s1 + b + seq!['-'];
    lemma_split_append_plain(s2, c, '-');
    assert(split_on(s2 + c, '-') =~= seq![a, b, c]);
    assert(date_text(d) =~= s2 + c);
    assert((d.year as i64) as i32 == d.year);
    assert((d.month as i64) as u8 == d.month);
    assert((d.day as i64) as u8 == d.day);
}

/// A time of day reads back from its text as the numbers it was written
/// from.
pub proof fn lemma_time_text_round_trip(t: LocalTime)
    ensures
        time_parts_of(time_text(t)) == Some((t.hour, t.minute)),
{
    let a = padded(decimal_of(t.hour as nat), 2);
    let b = padded(decimal_of(t.minute as nat), 2);
    lemma_padded_reads_back(t.hour as nat, 2);
    lemma_padded_reads_back(t.minute as nat, 2);
    assert forall|i: int| 0 <= i < a.len() implies #[trigger] a[i] != ':' by {
        assert(is_digit(a[i]));
    }
    assert forall|i: int| 0 <= i < b.len() implies #[trigger] b[i] != ':' by {
        assert(is_digit(b[i]));
    }
    let e = Seq::<char>::empty();
    lemma_split_append_plain(e, a, ':');
    assert(e + a =~= a);
    assert(split_on(e, ':') =~= seq![e]);
    assert(split_on(a, ':') =~= seq![a]);
    lemma_split_append_sep(a, ':');
    let s1 = a + seq![':'];
    lemma_split_append_plain(s1, b, ':');
    assert(split_on(s1 + b, ':') =~= seq![a, b]);
    assert(time_text(t) =~= s1 + b);
    assert((t.hour as i64) as u8 == t.hour);
    assert((t.minute as i64) as u8 == t.minute);
}

} // verus!

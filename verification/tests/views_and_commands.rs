//! Read views, user-interface commands, command dispatch, remote admission,
//! backups and the background status helpers.

use todo_core::apply::{admit_remote, classify_remote, ApplyBatchReceipt, RemoteVerdict};
use todo_core::background_sync::{
    converge_cycle, endpoint_label, hint_to_device_id, peer_snapshot, status_state, SyncPeer, SyncState,
};
use todo_core::backup::{open_backup, seal_backup, HEADER_LEN};
use todo_core::command::{Command, LocalDate, LocalTime, TaskField};
use todo_core::discovery::{Candidate, Endpoint};
use todo_core::dispatch::{
    command_to_specs, field_key, name_to_validate, operation_sequences, stamp_generation, EntityKind,
    FieldName, FieldValue, NameRule, OpSpec, Payload,
};
use todo_core::dto::{
    date_string, id_text, parse_id, time_string, parse_priority_label, priority_text, task_summary_to_dto,
    to_command, to_scope, CommandDto, DtoError, TaskSummaryDto,
};
use todo_core::error::CoreError;
use todo_core::ids::EntityId;
use todo_core::orchestrator::{SyncOrchestrator, SyncPhase};
use todo_core::ranges::SeqRange;
use todo_core::query::{
    details_of, highlight_ranges, html_escape, list_filter, next_cursor, page_limit, page_of,
    parse_date, parse_date_parts, parse_priority, parse_time, parse_time_parts, search_hit,
    summarize, trash_entries, CodePointRange, DetailsRow, ListScope, Priority, TaskQuery, TaskRow,
    TaskScope, TrashEntry, MAX_PAGE_LIMIT,
};

fn id(n: u128) -> EntityId {
    EntityId { bits: n }
}

fn valid_date(y: i32, m: u8, d: u8) -> bool {
    let days = match m {
        1 | 3 | 5 | 7 | 8 | 10 | 12 => 31,
        4 | 6 | 9 | 11 => 30,
        2 => {
            if (y % 4 == 0 && y % 100 != 0) || y % 400 == 0 {
                29
            } else {
                28
            }
        }
        _ => 0,
    };
    d >= 1 && d <= days
}

fn valid_time(h: u8, m: u8) -> bool {
    h < 24 && m < 60
}

#[test]
fn html_escape_replaces_the_five_special_characters() {
    assert_eq!(html_escape("<b>\"Tom\" & 'Jerry'</b>"), "&lt;b&gt;&quot;Tom&quot; &amp; &#39;Jerry&#39;&lt;/b&gt;");
    assert_eq!(html_escape("plain"), "plain");
    assert_eq!(html_escape(""), "");
    assert_eq!(html_escape("é<"), "é&lt;");
}

#[test]
fn highlights_mark_every_occurrence_in_code_points() {
    let r = highlight_ranges("banana", "ana");
    assert_eq!(r, vec![CodePointRange { start: 1, end: 4 }, CodePointRange { start: 3, end: 6 }]);
    assert_eq!(highlight_ranges("éa éa", "éa"), vec![CodePointRange { start: 0, end: 2 }, CodePointRange { start: 3, end: 5 }]);
    assert!(highlight_ranges("abc", "").is_empty());
    assert!(highlight_ranges("ab", "abc").is_empty());
    assert_eq!(highlight_ranges("abc", "abc"), vec![CodePointRange { start: 0, end: 3 }]);
}

#[test]
fn priorities_parse_from_their_labels() {
    assert_eq!(parse_priority("none"), Some(Priority::Unset));
    assert_eq!(parse_priority("low"), Some(Priority::Low));
    assert_eq!(parse_priority("medium"), Some(Priority::Medium));
    assert_eq!(parse_priority("high"), Some(Priority::High));
    assert_eq!(parse_priority("High"), None);
    assert_eq!(parse_priority_label("high"), Priority::High);
    assert_eq!(parse_priority_label("none"), Priority::Unset);
    assert_eq!(parse_priority_label("urgent"), Priority::Unset);
}

#[test]
fn date_and_time_parts_read_like_integer_parsing() {
    assert_eq!(parse_date_parts("2026-09-07"), Some((2026, 9, 7)));
    assert_eq!(parse_date_parts("+2026-+9-07"), Some((2026, 9, 7)));
    assert_eq!(parse_date_parts("2026-09"), None);
    assert_eq!(parse_date_parts("2026-09-07-01"), None);
    assert_eq!(parse_date_parts("2026-x-07"), None);
    // Numbers are narrowed to the field widths as a cast does.
    assert_eq!(parse_date_parts("2026-257-07"), Some((2026, 1, 7)));
    assert_eq!(parse_time_parts("09:30"), Some((9, 30)));
    assert_eq!(parse_time_parts("9:30:00"), None);
    assert_eq!(parse_time_parts(":30"), None);
}

#[test]
fn dates_and_times_are_kept_only_when_valid() {
    assert_eq!(parse_date("2024-02-29", &valid_date), Some(LocalDate { year: 2024, month: 2, day: 29 }));
    assert_eq!(parse_date("2023-02-29", &valid_date), None);
    assert_eq!(parse_date("2023-13-01", &valid_date), None);
    assert_eq!(parse_time("23:59", &valid_time), Some(LocalTime { hour: 23, minute: 59 }));
    assert_eq!(parse_time("24:00", &valid_time), None);
}

#[test]
fn page_limits_are_clamped() {
    assert_eq!(page_limit(0), 1);
    assert_eq!(page_limit(50), 50);
    assert_eq!(page_limit(MAX_PAGE_LIMIT), MAX_PAGE_LIMIT);
    assert_eq!(page_limit(10_000), MAX_PAGE_LIMIT);
    assert_eq!(next_cursor(3, 3, Some("c".into())), Some("c".to_string()));
    assert_eq!(next_cursor(2, 3, Some("c".into())), None);
}

#[test]
fn list_filters_follow_the_scope() {
    let q = |list, scope| TaskQuery { list, scope };
    let f = |list, scope| list_filter(&q(list, scope));
    assert_eq!(f(ListScope::Inbox, TaskScope::All), ("inbox".to_string(), true));
    assert_eq!(f(ListScope::Today, TaskScope::All), ("today".to_string(), true));
    assert_eq!(f(ListScope::Tomorrow, TaskScope::All), ("tomorrow".to_string(), true));
    assert_eq!(f(ListScope::Next7Days, TaskScope::All), ("next7".to_string(), true));
    assert_eq!(f(ListScope::Completed, TaskScope::Active), ("completed".to_string(), false));
    assert_eq!(
        f(ListScope::List(id(4)), TaskScope::All),
        ("00000000-0000-0000-0000-000000000004".to_string(), true)
    );
    assert_eq!(f(ListScope::All, TaskScope::Active), ("all".to_string(), true));
    assert_eq!(f(ListScope::All, TaskScope::All), ("all".to_string(), false));
}

fn row(n: u128, title: Option<&str>, due: Option<&str>, priority: Option<&str>) -> TaskRow {
    TaskRow {
        id: id(n),
        title: title.map(String::from),
        completed: n % 2 == 0,
        due_date: due.map(String::from),
        priority: priority.map(String::from),
        list_id: None,
        cursor: format!("{n:032x}"),
    }
}

#[test]
fn rows_become_summaries_with_defaults() {
    let t = summarize(&row(1, None, Some("2026-09-08"), Some("medium")), &valid_date);
    assert_eq!(t.id, id(1));
    assert_eq!(t.title, "");
    assert!(!t.completed);
    assert_eq!(t.due_date, Some(LocalDate { year: 2026, month: 9, day: 8 }));
    assert_eq!(t.priority, Priority::Medium);
    let t = summarize(&row(2, Some("Write report"), Some("2026-02-30"), Some("bogus")), &valid_date);
    assert_eq!(t.title, "Write report");
    assert_eq!(t.due_date, None);
    assert_eq!(t.priority, Priority::Unset);
}

#[test]
fn a_full_page_carries_the_cursor_of_its_last_row() {
    let rows = vec![row(1, Some("a"), None, None), row(2, Some("b"), None, None)];
    let p = page_of(&rows, 2, &valid_date);
    assert_eq!(p.items.len(), 2);
    assert_eq!(p.items[1].title, "b");
    assert_eq!(p.next_cursor, Some(format!("{:032x}", 2)));
    let p = page_of(&rows, 3, &valid_date);
    assert_eq!(p.next_cursor, None);
    let p = page_of(&Vec::new(), 0, &valid_date);
    assert!(p.items.is_empty());
    assert_eq!(p.next_cursor, None);
}

#[test]
fn details_fill_defaults_and_keep_tags_and_subtasks() {
    let r = DetailsRow {
        id: id(9),
        title: Some("Buy milk".into()),
        description: None,
        due_date: Some("2026-09-07".into()),
        due_time: Some("09:30".into()),
        priority: Some("high".into()),
        completed: true,
        list_id: Some(id(1)),
    };
    let d = details_of(&r, vec![id(2)], vec![id(3), id(4)], &valid_date, &valid_time);
    assert_eq!(d.title, "Buy milk");
    assert_eq!(d.description, "");
    assert_eq!(d.due_date, Some(LocalDate { year: 2026, month: 9, day: 7 }));
    assert_eq!(d.due_time, Some(LocalTime { hour: 9, minute: 30 }));
    assert_eq!(d.priority, Priority::High);
    assert!(d.completed);
    assert_eq!(d.list_id, Some(id(1)));
    assert_eq!(d.tags, vec![id(2)]);
    assert_eq!(d.subtasks, vec![id(3), id(4)]);
}

#[test]
fn search_hits_escape_titles_and_mark_matches() {
    let h = search_hit(id(5), "a<b a<b", "a<b");
    assert_eq!(h.task_id, id(5));
    assert_eq!(h.title, "a&lt;b a&lt;b");
    assert_eq!(h.highlights, vec![CodePointRange { start: 0, end: 3 }, CodePointRange { start: 4, end: 7 }]);
}

#[test]
fn trash_lists_every_id_as_deleted() {
    assert_eq!(
        trash_entries(&vec![id(1), id(2)]),
        vec![TrashEntry { id: id(1), deleted: true }, TrashEntry { id: id(2), deleted: true }]
    );
}

#[test]
fn ids_parse_from_uuid_text() {
    assert_eq!(parse_id("00000000-0000-0000-0000-000000000001"), Some(id(1)));
    assert_eq!(parse_id("00000000000000000000000000000002"), Some(id(2)));
    assert_eq!(parse_id("not-a-uuid"), None);
}

#[test]
fn ids_print_as_hyphenated_lower_case_hex() {
    let bits: u128 = 0x67e5_5044_10b1_426f_9247_bb68_0e5f_e0c8;
    let text = id_text(&EntityId { bits });
    assert_eq!(text, "67e55044-10b1-426f-9247-bb680e5fe0c8");
    assert_eq!(parse_id(&text), Some(EntityId { bits }));
    assert_eq!(id_text(&id(1)), "00000000-0000-0000-0000-000000000001");
}

#[test]
fn list_names_select_scopes() {
    assert_eq!(to_scope("inbox"), ListScope::Inbox);
    assert_eq!(to_scope("today"), ListScope::Today);
    assert_eq!(to_scope("tomorrow"), ListScope::Tomorrow);
    assert_eq!(to_scope("next7"), ListScope::Next7Days);
    assert_eq!(to_scope("completed"), ListScope::Completed);
    assert_eq!(to_scope("all"), ListScope::All);
    assert_eq!(to_scope("00000000-0000-0000-0000-000000000007"), ListScope::List(id(7)));
    assert_eq!(to_scope("whatever"), ListScope::All);
}

#[test]
fn create_task_commands_are_read_field_by_field() {
    let dto = CommandDto::CreateTask {
        title: "Buy milk".into(),
        description: "2% from the corner store".into(),
        due_date: Some("2026-09-07".into()),
        due_time: Some("09:30".into()),
        priority: "high".into(),
        list_id: Some("00000000-0000-0000-0000-000000000001".into()),
        tags: vec!["00000000-0000-0000-0000-000000000002".into()],
    };
    let cmd = to_command(dto, &valid_date, &valid_time).unwrap();
    assert_eq!(
        cmd,
        Command::CreateTask {
            title: "Buy milk".into(),
            description: "2% from the corner store".into(),
            due_date: Some(LocalDate { year: 2026, month: 9, day: 7 }),
            due_time: Some(LocalTime { hour: 9, minute: 30 }),
            priority: Priority::High,
            list_id: Some(id(1)),
            tags: vec![id(2)],
        }
    );
}

#[test]
fn bad_ids_and_fields_refuse_the_command() {
    let dto = CommandDto::CreateTask {
        title: "t".into(),
        description: String::new(),
        due_date: Some("someday".into()),
        due_time: None,
        priority: "low".into(),
        list_id: None,
        tags: vec!["00000000-0000-0000-0000-000000000002".into(), "nope".into(), "bad".into()],
    };
    assert_eq!(to_command(dto, &valid_date, &valid_time), Err(DtoError::BadId("nope".into())));
    let dto = CommandDto::SetTaskField { task: "x".into(), field: "title".into(), value: "v".into() };
    assert_eq!(to_command(dto, &valid_date, &valid_time), Err(DtoError::BadId("x".into())));
    let dto = CommandDto::SetTaskField {
        task: "00000000-0000-0000-0000-000000000003".into(),
        field: "colour".into(),
        value: "v".into(),
    };
    assert_eq!(to_command(dto, &valid_date, &valid_time), Err(DtoError::UnknownField("colour".into())));
}

#[test]
fn simple_commands_are_read() {
    let t = "00000000-0000-0000-0000-000000000003".to_string();
    let read = |dto| to_command(dto, &valid_date, &valid_time);
    assert_eq!(
        read(CommandDto::SetTaskCompleted { task: t.clone(), completed: true }),
        Ok(Command::SetTaskCompleted { task: id(3), completed: true })
    );
    assert_eq!(read(CommandDto::DeleteTask { task: t.clone() }), Ok(Command::DeleteTask { task: id(3) }));
    assert_eq!(read(CommandDto::RestoreTask { task: t.clone() }), Ok(Command::RestoreTask { task: id(3) }));
    assert_eq!(read(CommandDto::CreateList { name: "Home".into() }), Ok(Command::CreateList { name: "Home".into() }));
    assert_eq!(read(CommandDto::DeleteList { list: t.clone() }), Ok(Command::DeleteList { list: id(3) }));
    assert_eq!(read(CommandDto::CreateTag { name: "x".into() }), Ok(Command::CreateTag { name: "x".into() }));
    assert_eq!(
        read(CommandDto::SetTaskTag { task: t.clone(), tag: "00000000-0000-0000-0000-000000000004".into(), attached: false }),
        Ok(Command::SetTaskTag { task: id(3), tag: id(4), attached: false })
    );
    assert_eq!(
        read(CommandDto::SetTaskField { task: t.clone(), field: "due_time".into(), value: "25:00".into() }),
        Ok(Command::SetTaskField { task: id(3), field: TaskField::DueTime(None) })
    );
    assert_eq!(
        read(CommandDto::SetTaskField { task: t.clone(), field: "priority".into(), value: "medium".into() }),
        Ok(Command::SetTaskField { task: id(3), field: TaskField::Priority(Priority::Medium) })
    );
}

fn set(entity: EntityId, field: FieldName, value: FieldValue) -> OpSpec {
    OpSpec { entity, kind: EntityKind::Task, parent: None, new_entity: false, payload: Payload::SetField { field, value } }
}

#[test]
fn create_task_becomes_its_field_operations_in_order() {
    let cmd = Command::CreateTask {
        title: "Buy milk".into(),
        description: "d".into(),
        due_date: None,
        due_time: Some(LocalTime { hour: 9, minute: 30 }),
        priority: Priority::Low,
        list_id: None,
        tags: vec![id(2)],
    };
    assert_eq!(name_to_validate(&cmd), Some((NameRule::Title, &"Buy milk".to_string())));
    let specs = command_to_specs(cmd, Ok(()), id(100)).unwrap();
    assert_eq!(
        specs,
        vec![
            OpSpec {
                entity: id(100),
                kind: EntityKind::Task,
                parent: None,
                new_entity: true,
                payload: Payload::SetField { field: FieldName::Title, value: FieldValue::Text("Buy milk".into()) },
            },
            set(id(100), FieldName::Description, FieldValue::Text("d".into())),
            set(id(100), FieldName::Priority, FieldValue::Priority(Priority::Low)),
            set(id(100), FieldName::Completed, FieldValue::Flag(false)),
            set(id(100), FieldName::DueTime, FieldValue::Time(LocalTime { hour: 9, minute: 30 })),
            set(id(100), FieldName::Tags, FieldValue::Ids(vec![id(2)])),
        ]
    );
}

#[test]
fn a_refused_name_refuses_the_command_and_others_ignore_the_verdict() {
    let cmd = Command::CreateList { name: "".into() };
    assert_eq!(
        command_to_specs(cmd, Err("name must not be empty".into()), id(1)),
        Err(CoreError::Domain("name must not be empty".into()))
    );
    let cmd = Command::DeleteTask { task: id(5) };
    assert_eq!(name_to_validate(&cmd), None);
    assert_eq!(
        command_to_specs(cmd, Err("ignored".into()), id(1)),
        Ok(vec![OpSpec { entity: id(5), kind: EntityKind::Task, parent: None, new_entity: false, payload: Payload::Delete }])
    );
    let cmd = Command::SetTaskTag { task: id(5), tag: id(6), attached: true };
    assert_eq!(
        command_to_specs(cmd, Ok(()), id(1)),
        Ok(vec![set(id(5), FieldName::TagLink(id(6)), FieldValue::Flag(true))])
    );
    let cmd = Command::CreateSubtask { parent: id(5), title: "s".into() };
    assert_eq!(
        command_to_specs(cmd, Ok(()), id(8)),
        Ok(vec![OpSpec {
            entity: id(8),
            kind: EntityKind::Subtask,
            parent: Some(id(5)),
            new_entity: true,
            payload: Payload::SetField { field: FieldName::Title, value: FieldValue::Text("s".into()) },
        }])
    );
}

#[test]
fn operation_sequences_continue_the_frontier_or_exhaust() {
    assert_eq!(operation_sequences(0, 3), Ok(vec![1, 2, 3]));
    assert_eq!(operation_sequences(41, 0), Ok(vec![]));
    assert_eq!(operation_sequences(u64::MAX - 2, 2), Ok(vec![u64::MAX - 1, u64::MAX]));
    assert_eq!(operation_sequences(u64::MAX - 1, 2), Err(CoreError::SequenceExhausted));
    assert_eq!(stamp_generation(true, 7), 1);
    assert_eq!(stamp_generation(false, 7), 7);
}

#[test]
fn remote_operations_are_admitted_in_order_by_members_only() {
    assert_eq!(admit_remote(false, Ok(()), 1, 0), Err(CoreError::UnknownMember));
    assert_eq!(admit_remote(true, Err(CoreError::BadSignature), 1, 0), Err(CoreError::BadSignature));
    assert_eq!(admit_remote(true, Ok(()), 3, 1), Err(CoreError::OriginGap));
    assert_eq!(admit_remote(true, Ok(()), 2, 1), Ok(()));
    assert_eq!(admit_remote(true, Ok(()), 1, 5), Ok(()));
}

#[test]
fn replays_are_counted_as_duplicates_and_stale_ones_skipped() {
    assert_eq!(classify_remote(false, 1, 1), RemoteVerdict::Duplicate);
    assert_eq!(classify_remote(true, 1, 2), RemoteVerdict::Stale);
    assert_eq!(classify_remote(true, 2, 2), RemoteVerdict::Apply);
    let mut r = ApplyBatchReceipt::new();
    for v in [RemoteVerdict::Apply, RemoteVerdict::Duplicate, RemoteVerdict::Stale, RemoteVerdict::Apply] {
        r.record(v);
    }
    assert_eq!(r, ApplyBatchReceipt { applied: 2, duplicated: 1 });
}

#[test]
fn a_sealed_backup_opens_with_its_passphrase() {
    let plain = b"{\"tasks\":[]}".to_vec();
    let sealed = seal_backup(&plain, "correct horse").unwrap();
    assert_eq!(&sealed[0..4], b"TPB1");
    assert_eq!(sealed[4], 1);
    assert_eq!(sealed.len(), HEADER_LEN + plain.len() + 16);
    assert_eq!(open_backup(&sealed, "correct horse"), Ok(plain));
}

#[test]
fn an_empty_snapshot_under_an_empty_passphrase_still_seals() {
    let sealed = seal_backup(b"", "").unwrap();
    assert_eq!(sealed.len(), HEADER_LEN + 16);
    assert_eq!(open_backup(&sealed, ""), Ok(Vec::new()));
}

#[test]
fn a_wrong_passphrase_is_reported_as_such() {
    let sealed = seal_backup(b"secret", "right").unwrap();
    assert_eq!(open_backup(&sealed, "wrong"), Err(CoreError::BadPassphrase));
}

#[test]
fn malformed_backups_are_refused_before_decryption() {
    assert_eq!(open_backup(b"", "p"), Err(CoreError::InvalidBackup));
    assert_eq!(open_backup(b"XXXX\x01rest", "p"), Err(CoreError::InvalidBackup));
    assert_eq!(open_backup(b"TPB1\x02rest", "p"), Err(CoreError::UnsupportedBackupVersion));
    assert_eq!(open_backup(b"TPB1\x01short", "p"), Err(CoreError::InvalidBackup));
}

#[test]
fn hints_stand_for_device_ids_zero_padded() {
    let d = hint_to_device_id(&[0xab; 16]);
    let mut want = [0u8; 32];
    want[..16].copy_from_slice(&[0xab; 16]);
    assert_eq!(d.bytes, want);
}

#[test]
fn status_state_rule() {
    assert_eq!(status_state(true, false, SyncPhase::Transferring), SyncState::Offline);
    assert_eq!(status_state(false, true, SyncPhase::Complete), SyncState::Offline);
    assert_eq!(status_state(false, false, SyncPhase::Complete), SyncState::Connected);
    assert_eq!(status_state(false, false, SyncPhase::Idle), SyncState::Connected);
    assert_eq!(status_state(false, false, SyncPhase::Failed), SyncState::Connected);
    assert_eq!(status_state(false, false, SyncPhase::Dialing), SyncState::Syncing);
}

#[test]
fn peer_snapshot_shows_instance_hint_and_first_endpoint() {
    let with = Candidate {
        opaque_service_instance: "srv-a".into(),
        hint: [0x0f; 16],
        endpoints: vec![Endpoint { ip: "192.168.1.10".into(), port: 5353 }, Endpoint { ip: "10.0.0.2".into(), port: 1 }],
        capabilities: 0,
        ttl_millis: 0,
        network_generation: 0,
    };
    let without = Candidate { endpoints: Vec::new(), opaque_service_instance: "srv-b".into(), ..with.clone() };
    let peers = peer_snapshot(&vec![with, without]);
    assert_eq!(
        peers,
        vec![
            SyncPeer { instance: "srv-a".into(), hint: "0f".repeat(16), endpoint: "192.168.1.10:5353".into() },
            SyncPeer { instance: "srv-b".into(), hint: "0f".repeat(16), endpoint: String::new() },
        ]
    );
    assert_eq!(endpoint_label(&Endpoint { ip: "::1".into(), port: 0 }), "::1:0");
    assert_eq!(endpoint_label(&Endpoint { ip: "h".into(), port: 65535 }), "h:65535");
}

#[test]
fn ids_are_written_as_hyphenated_uuids_and_read_back() {
    let t = id_text(&id(0x1234_5678_9abc_def0_1122_3344_5566_7788));
    assert_eq!(t, "12345678-9abc-def0-1122-334455667788");
    assert_eq!(parse_id(&t), Some(id(0x1234_5678_9abc_def0_1122_3344_5566_7788)));
    assert_eq!(id_text(&id(1)), "00000000-0000-0000-0000-000000000001");
}

#[test]
fn dates_are_written_zero_padded_and_read_back() {
    let d = LocalDate { year: 2026, month: 9, day: 8 };
    assert_eq!(date_string(d), "2026-09-08");
    assert_eq!(parse_date_parts(&date_string(d)), Some((2026, 9, 8)));
    assert_eq!(date_string(LocalDate { year: 7, month: 12, day: 31 }), "0007-12-31");
    assert_eq!(date_string(LocalDate { year: 12345, month: 1, day: 1 }), "12345-01-01");
    assert_eq!(date_string(LocalDate { year: -5, month: 1, day: 2 }), "-005-01-02");
    // A negative year does not read back: its sign is taken for a separator.
    assert_eq!(parse_date_parts("-005-01-02"), None);
}

#[test]
fn priority_labels_read_back() {
    for p in [Priority::Unset, Priority::Low, Priority::Medium, Priority::High] {
        assert_eq!(parse_priority(priority_text(p)), Some(p));
        assert_eq!(parse_priority_label(priority_text(p)), p);
    }
    assert_eq!(priority_text(Priority::Unset), "none");
}

#[test]
fn task_summaries_convert_for_the_interface() {
    let rows = vec![TaskRow {
        id: id(4),
        title: Some("Write report".into()),
        completed: false,
        due_date: Some("2026-09-08".into()),
        priority: Some("medium".into()),
        list_id: Some(id(5)),
        cursor: String::new(),
    }];
    let page = page_of(&rows, 50, &valid_date);
    let dto = task_summary_to_dto(&page.items[0]);
    assert_eq!(
        dto,
        TaskSummaryDto {
            id: "00000000-0000-0000-0000-000000000004".into(),
            title: "Write report".into(),
            completed: false,
            due_date: Some("2026-09-08".into()),
            priority: "medium".into(),
            list_id: Some("00000000-0000-0000-0000-000000000005".into()),
        }
    );
}

#[test]
fn times_are_written_in_two_digits_and_read_back() {
    assert_eq!(time_string(LocalTime { hour: 9, minute: 5 }), "09:05");
    assert_eq!(time_string(LocalTime { hour: 23, minute: 59 }), "23:59");
    assert_eq!(time_string(LocalTime { hour: 200, minute: 0 }), "200:00");
    assert_eq!(parse_time_parts(&time_string(LocalTime { hour: 200, minute: 7 })), Some((200, 7)));
}

#[test]
fn registers_are_stored_under_their_keys() {
    assert_eq!(field_key(&FieldName::Title), "title");
    assert_eq!(field_key(&FieldName::DueDate), "due_date");
    assert_eq!(field_key(&FieldName::ListId), "list_id");
    assert_eq!(field_key(&FieldName::RankBefore), "rank_before");
    assert_eq!(field_key(&FieldName::TagLink(id(2))), "tag:00000000-0000-0000-0000-000000000002");
}

#[test]
fn a_cycle_with_nothing_missing_converges() {
    let candidate = Candidate {
        opaque_service_instance: "srv-a".into(),
        hint: [1; 16],
        endpoints: vec![Endpoint { ip: "192.168.1.10".into(), port: 5353 }],
        capabilities: 0,
        ttl_millis: 0,
        network_generation: 0,
    };
    let peer = hint_to_device_id(&candidate.hint);
    let mut orch: SyncOrchestrator<u8> = SyncOrchestrator::default();
    converge_cycle(&mut orch, peer, &candidate, 3, Vec::new());
    assert_eq!(orch.phase(), SyncPhase::Complete);
    assert_eq!(orch.peer(), Some(peer));
    converge_cycle(&mut orch, peer, &candidate, 3, vec![SeqRange::new(2, 9)]);
    assert_eq!(orch.phase(), SyncPhase::ExchangingSummaries);
    assert_eq!(orch.pending_ranges(), &[SeqRange::new(2, 9)]);
}

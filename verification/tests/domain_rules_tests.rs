use task_manager::datetime::{canonical_datetime_string, datetime_str_is_past, validate_reminder};
use task_manager::domain::{Color, InvalidReminder, Record};
use task_manager::selection::{
    board_label, comment_label, parse_leading_id, select_board, select_comment, select_task,
    sort_by_id, task_label, u16_to_string,
};
use task_manager::selection::list_delayed_tasks;
use task_manager::store::{
    create_board, create_database, create_task, get_tasks, open_in_memory, switch_task_status,
};
use task_manager::domain::{Board, Comment, Task};

const JAN_1_2019: i64 = 1546300800;
const NOW_2024: i64 = 1700000000;

#[test]
fn empty_or_malformed_reminders_are_never_overdue() {
    assert!(!datetime_str_is_past("", NOW_2024));
    assert!(!datetime_str_is_past("not-a-date", NOW_2024));
    assert!(!datetime_str_is_past("2019-01-01 00:00:00", NOW_2024));
}

#[test]
fn canonical_reminder_is_overdue_only_strictly_before_now() {
    let reminder = "Tue, Jan  1 2019 00:00:00";
    assert!(datetime_str_is_past(reminder, JAN_1_2019 + 1));
    assert!(datetime_str_is_past(reminder, NOW_2024));
    assert!(!datetime_str_is_past(reminder, JAN_1_2019));
    assert!(!datetime_str_is_past(reminder, JAN_1_2019 - 1));
}

#[test]
fn past_reminder_with_future_requirement_is_rejected() {
    let r = validate_reminder("20200101", None, true, NOW_2024);
    assert_eq!(r, Err(InvalidReminder::NotInFuture));
}

#[test]
fn reminder_equal_to_now_is_not_in_the_future() {
    let r = validate_reminder("20200101", None, true, 1577836800);
    assert_eq!(r, Err(InvalidReminder::NotInFuture));
}

#[test]
fn future_reminder_is_accepted() {
    let r = validate_reminder("20200101", None, true, 1577836799);
    assert_eq!(r.unwrap(), "Wed, Jan  1 2020 00:00:00");
}

#[test]
fn malformed_reminders_are_unparseable() {
    assert_eq!(validate_reminder("2020-01-01", None, false, 0), Err(InvalidReminder::Unparseable));
    assert_eq!(validate_reminder("abc", None, false, 0), Err(InvalidReminder::Unparseable));
    assert_eq!(
        validate_reminder("20200101", Some("25:00:00"), false, 0),
        Err(InvalidReminder::Unparseable)
    );
}

#[test]
fn validated_reminder_reparses_to_the_same_instant() {
    let stored = validate_reminder("20190101", None, false, 0).unwrap();
    assert_eq!(stored, "Tue, Jan  1 2019 00:00:00");
    assert!(datetime_str_is_past(&stored, JAN_1_2019 + 1));
    assert!(!datetime_str_is_past(&stored, JAN_1_2019));

    let timed = validate_reminder("20220105", Some("10:15:00"), false, 0).unwrap();
    assert_eq!(timed, "Wed, Jan  5 2022 10:15:00");
    assert!(datetime_str_is_past(&timed, 1641377701));
    assert!(!datetime_str_is_past(&timed, 1641377700));
}

#[test]
fn canonical_rendering_matches_the_storage_format() {
    assert_eq!(canonical_datetime_string(JAN_1_2019).unwrap(), "Tue, Jan  1 2019 00:00:00");
    assert_eq!(canonical_datetime_string(1641377700).unwrap(), "Wed, Jan  5 2022 10:15:00");
}

#[test]
fn instants_outside_the_calendar_range_do_not_render() {
    assert_eq!(canonical_datetime_string(i64::MAX), None);
    assert_eq!(canonical_datetime_string(i64::MIN), None);
}

#[test]
fn leap_second_reminder_still_reparses_to_its_instant() {
    let stored = validate_reminder("20230630", Some("23:59:60"), false, 0).unwrap();
    assert!(datetime_str_is_past(&stored, 1688169600));
    assert!(!datetime_str_is_past(&stored, 1688169599));
}

#[test]
fn delayed_report_lists_pending_overdue_tasks_only() {
    let mut s = open_in_memory().unwrap();
    create_database(&mut s).unwrap();
    let board = create_board(&mut s, "b").unwrap();
    let late = create_task(&mut s, "late", board, "Mon, Jan  1 2024 00:00:00", "Tue, Jan 1 2019 00:00:00")
        .unwrap();
    create_task(&mut s, "no reminder", board, "Mon, Jan  1 2024 00:00:00", "").unwrap();

    let all = get_tasks(&s, None, None).unwrap();
    let delayed = list_delayed_tasks(&all, NOW_2024);
    assert_eq!(delayed.len(), 1);
    assert_eq!(delayed[0].id, late);
    assert_eq!(delayed[0].title, "late");

    switch_task_status(&mut s, late, true).unwrap();
    let all = get_tasks(&s, None, None).unwrap();
    let delayed = list_delayed_tasks(&all, NOW_2024);
    assert!(delayed.is_empty());
}

#[test]
fn leading_id_parsing_reads_the_token_before_the_first_space() {
    assert_eq!(parse_leading_id("12 - title"), Some(12));
    assert_eq!(parse_leading_id("2"), Some(2));
    assert_eq!(parse_leading_id("10 - 20 - 30"), Some(10));
    assert_eq!(parse_leading_id("0 - zero"), Some(0));
    assert_eq!(parse_leading_id(""), None);
    assert_eq!(parse_leading_id(" 5 - led by space"), None);
    assert_eq!(parse_leading_id("abc - no digits"), None);
    assert_eq!(parse_leading_id("12a - mixed"), None);
    assert_eq!(parse_leading_id("70000 - too large"), None);
    assert_eq!(parse_leading_id("65535 - just fits"), Some(65535));
}

#[test]
fn labels_render_id_separator_and_title() {
    assert_eq!(u16_to_string(0), "0");
    assert_eq!(u16_to_string(7), "7");
    assert_eq!(u16_to_string(65535), "65535");

    let t = Task {
        id: 7,
        title: String::from("sample"),
        done: false,
        board_id: 1,
        created_at: String::from("Tue, Jan  1 2019 00:00:00"),
        reminder: String::new(),
    };
    assert_eq!(task_label(&t), "7 - sample");

    let b = Board { id: 12, title: String::from("house") };
    assert_eq!(board_label(&b), "12 - house");

    let c = Comment {
        id: 3,
        title: String::from("note"),
        created_at: String::from("Tue, Jan  1 2019 00:00:00"),
    };
    assert_eq!(comment_label(&c), "3 - note [Tue, Jan  1 2019 00:00:00]");
}

fn named_task(id: u16, title: &str) -> Task {
    Task {
        id,
        title: String::from(title),
        done: false,
        board_id: 1,
        created_at: String::from("Tue, Jan  1 2019 00:00:00"),
        reminder: String::new(),
    }
}

#[test]
fn numeric_sort_keeps_two_before_ten() {
    let tasks = vec![
        named_task(10, "ten"),
        named_task(2, "two"),
        named_task(33, "many"),
        named_task(1, "one"),
    ];
    let sorted = sort_by_id(tasks);
    let ids: Vec<u16> = sorted.iter().map(|t| t.id).collect();
    assert_eq!(ids, vec![1, 2, 10, 33]);
    let labels: Vec<String> = sorted.iter().map(task_label).collect();
    assert_eq!(labels, vec!["1 - one", "2 - two", "10 - ten", "33 - many"]);
}

#[test]
fn chosen_labels_resolve_back_to_their_entity() {
    let tasks = vec![named_task(2, "beta"), named_task(10, "kappa")];
    assert_eq!(select_task(&tasks, "2 - beta"), Some((String::from("beta"), 2)));
    assert_eq!(select_task(&tasks, "10 - kappa"), Some((String::from("kappa"), 10)));
    assert_eq!(select_task(&tasks, "3 - missing"), None);
    assert_eq!(select_task(&tasks, "nonsense"), None);

    let boards = vec![
        Board { id: 1, title: String::from("home") },
        Board { id: 12, title: String::from("work") },
    ];
    assert_eq!(select_board(&boards, "12 - work"), Some((String::from("work"), 12)));
    assert_eq!(select_board(&boards, "2 - gone"), None);

    let comments = vec![Comment {
        id: 4,
        title: String::from("remark"),
        created_at: String::from("Tue, Jan  1 2019 00:00:00"),
    }];
    assert_eq!(
        select_comment(&comments, "4 - remark [Tue, Jan  1 2019 00:00:00]"),
        Some((String::from("remark"), 4))
    );
}

#[test]
fn timed_reminder_respects_the_future_requirement() {
    let r = validate_reminder("20220105", Some("10:15:00"), true, 1641377700);
    assert_eq!(r, Err(InvalidReminder::NotInFuture));
    let r = validate_reminder("20220105", Some("10:15:00"), true, 1641377699);
    assert_eq!(r.unwrap(), "Wed, Jan  5 2022 10:15:00");
}

#[test]
fn stored_tasks_resolve_through_their_labels() {
    let mut s = open_in_memory().unwrap();
    create_database(&mut s).unwrap();
    let board = create_board(&mut s, "b").unwrap();
    let t1 = create_task(&mut s, "first", board, "Tue, Jan  1 2019 00:00:00", "").unwrap();
    create_task(&mut s, "second", board, "Tue, Jan  1 2019 00:00:00", "").unwrap();

    let tasks = sort_by_id(get_tasks(&s, Some(false), Some(board)).unwrap());
    let label = task_label(&tasks[0]);
    assert_eq!(select_task(&tasks, &label), Some((String::from("first"), t1)));
}

#[test]
fn board_scope_none_lists_all_boards() {
    let mut s = open_in_memory().unwrap();
    create_database(&mut s).unwrap();
    let b1 = create_board(&mut s, "one").unwrap();
    let b2 = create_board(&mut s, "two").unwrap();
    create_task(&mut s, "a", b1, "Tue, Jan  1 2019 00:00:00", "").unwrap();
    create_task(&mut s, "b", b2, "Tue, Jan  1 2019 00:00:00", "").unwrap();
    let all_pending = get_tasks(&s, Some(false), None).unwrap();
    assert_eq!(all_pending.len(), 2);
}

#[test]
fn color_names_are_lowercase_console_names() {
    assert_eq!(Color::Red.name(), "red");
    assert_eq!(Color::Green.name(), "green");
    assert_eq!(Color::Yellow.name(), "yellow");
    assert_eq!(Color::Blue.name(), "blue");
    assert_eq!(Color::Magenta.name(), "magenta");
    assert_eq!(Color::Cyan.name(), "cyan");
    assert_eq!(Color::White.name(), "white");
}

#[test]
fn count_rows_carry_their_quantity() {
    let r = Record { qtd: 5 };
    assert_eq!(r.qtd, 5);
}

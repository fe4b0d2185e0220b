use task_manager::domain::{StoreError, TableKind};
use task_manager::store::{
    create_board, create_comment, create_database, create_task, delete_record_by_id, edit_board,
    get_boards, get_comments_by_task_id, get_records_qtd, get_tasks, open_in_memory, set_reminder,
    switch_task_status, Store,
};

fn fresh_store() -> Store {
    let mut s = open_in_memory().expect("in-memory store");
    create_database(&mut s).expect("schema");
    s
}

#[test]
fn count_starts_at_zero() {
    let s = fresh_store();
    assert_eq!(get_records_qtd(&s, TableKind::Boards).unwrap(), 0);
    assert_eq!(get_records_qtd(&s, TableKind::Tasks).unwrap(), 0);
    assert_eq!(get_records_qtd(&s, TableKind::Comments).unwrap(), 0);
}

#[test]
fn create_database_is_idempotent() {
    let mut s = fresh_store();
    let id = create_board(&mut s, "kept").unwrap();
    create_database(&mut s).expect("second run");
    create_database(&mut s).expect("third run");
    assert_eq!(get_records_qtd(&s, TableKind::Boards).unwrap(), 1);
    let boards = get_boards(&s).unwrap();
    assert_eq!(boards.len(), 1);
    assert_eq!(boards[0].id, id);
    assert_eq!(boards[0].title, "kept");
}

#[test]
fn insert_board_increases_count_by_one() {
    let mut s = fresh_store();
    assert_eq!(get_records_qtd(&s, TableKind::Boards).unwrap(), 0);
    let first = create_board(&mut s, "home").unwrap();
    assert_eq!(get_records_qtd(&s, TableKind::Boards).unwrap(), 1);
    let second = create_board(&mut s, "work").unwrap();
    assert_eq!(get_records_qtd(&s, TableKind::Boards).unwrap(), 2);
    assert_ne!(first, second);
    let boards = get_boards(&s).unwrap();
    assert!(boards.iter().any(|b| b.id == first && b.title == "home"));
    assert!(boards.iter().any(|b| b.id == second && b.title == "work"));
}

#[test]
fn delete_of_absent_id_changes_nothing() {
    let mut s = fresh_store();
    let id = create_board(&mut s, "only").unwrap();
    let r = delete_record_by_id(&mut s, TableKind::Boards, 9999);
    assert!(r.is_ok());
    assert_eq!(get_records_qtd(&s, TableKind::Boards).unwrap(), 1);
    let boards = get_boards(&s).unwrap();
    assert_eq!(boards.len(), 1);
    assert_eq!(boards[0].id, id);
    assert_eq!(boards[0].title, "only");
}

#[test]
fn delete_of_existing_id_removes_the_row() {
    let mut s = fresh_store();
    let id = create_board(&mut s, "gone").unwrap();
    delete_record_by_id(&mut s, TableKind::Boards, id).unwrap();
    assert_eq!(get_records_qtd(&s, TableKind::Boards).unwrap(), 0);
}

#[test]
fn create_task_needs_an_existing_board() {
    let mut s = fresh_store();
    let refused = create_task(&mut s, "early", 1, "Tue, Jan  1 2019 00:00:00", "");
    assert_eq!(refused, Err(StoreError::QueryFailure));
    assert_eq!(get_records_qtd(&s, TableKind::Tasks).unwrap(), 0);

    let board = create_board(&mut s, "first board").unwrap();
    let task = create_task(&mut s, "early", board, "Tue, Jan  1 2019 00:00:00", "").unwrap();
    assert_eq!(get_records_qtd(&s, TableKind::Tasks).unwrap(), 1);
    let tasks = get_tasks(&s, None, None).unwrap();
    assert_eq!(tasks.len(), 1);
    assert_eq!(tasks[0].id, task);
    assert_eq!(tasks[0].title, "early");
    assert!(!tasks[0].done);
    assert_eq!(tasks[0].board_id, board);
    assert_eq!(tasks[0].created_at, "Tue, Jan  1 2019 00:00:00");
    assert_eq!(tasks[0].reminder, "");
}

#[test]
fn switch_task_status_toggles_done() {
    let mut s = fresh_store();
    let board = create_board(&mut s, "b").unwrap();
    let task = create_task(&mut s, "t", board, "Tue, Jan  1 2019 00:00:00", "").unwrap();

    switch_task_status(&mut s, task, true).unwrap();
    let done = get_tasks(&s, Some(true), None).unwrap();
    assert_eq!(done.len(), 1);
    assert_eq!(done[0].id, task);
    assert!(get_tasks(&s, Some(false), None).unwrap().is_empty());

    switch_task_status(&mut s, task, false).unwrap();
    let pending = get_tasks(&s, Some(false), None).unwrap();
    assert_eq!(pending.len(), 1);
    assert!(!pending[0].done);
}

#[test]
fn set_reminder_updates_only_the_reminder() {
    let mut s = fresh_store();
    let board = create_board(&mut s, "b").unwrap();
    let task = create_task(&mut s, "t", board, "Tue, Jan  1 2019 00:00:00", "").unwrap();
    set_reminder(&mut s, task, "Wed, Jan  5 2022 10:15:00").unwrap();
    let tasks = get_tasks(&s, None, None).unwrap();
    assert_eq!(tasks[0].reminder, "Wed, Jan  5 2022 10:15:00");
    assert_eq!(tasks[0].title, "t");
    assert!(!tasks[0].done);
    assert_eq!(tasks[0].created_at, "Tue, Jan  1 2019 00:00:00");
}

#[test]
fn edit_board_renames_and_ignores_absent_ids() {
    let mut s = fresh_store();
    let id = create_board(&mut s, "old").unwrap();
    edit_board(&mut s, id, "new").unwrap();
    let boards = get_boards(&s).unwrap();
    assert_eq!(boards[0].title, "new");

    edit_board(&mut s, 9999, "nobody").unwrap();
    let boards = get_boards(&s).unwrap();
    assert_eq!(boards.len(), 1);
    assert_eq!(boards[0].title, "new");
}

#[test]
fn comments_attach_to_their_task_only() {
    let mut s = fresh_store();
    let board = create_board(&mut s, "b").unwrap();
    let t1 = create_task(&mut s, "one", board, "Tue, Jan  1 2019 00:00:00", "").unwrap();
    let t2 = create_task(&mut s, "two", board, "Tue, Jan  1 2019 00:00:00", "").unwrap();

    let refused = create_comment(&mut s, 9999, "lost", "Tue, Jan  1 2019 00:00:00");
    assert_eq!(refused, Err(StoreError::QueryFailure));

    let c1 = create_comment(&mut s, t1, "note a", "Tue, Jan  1 2019 00:00:00").unwrap();
    let c2 = create_comment(&mut s, t1, "note b", "Tue, Jan  1 2019 00:00:00").unwrap();
    create_comment(&mut s, t2, "other", "Tue, Jan  1 2019 00:00:00").unwrap();

    let for_t1 = get_comments_by_task_id(&s, t1).unwrap();
    assert_eq!(for_t1.len(), 2);
    assert!(for_t1.iter().any(|c| c.id == c1 && c.title == "note a"));
    assert!(for_t1.iter().any(|c| c.id == c2 && c.title == "note b"));

    let for_t2 = get_comments_by_task_id(&s, t2).unwrap();
    assert_eq!(for_t2.len(), 1);
    assert_eq!(for_t2[0].title, "other");
}

#[test]
fn pending_filter_is_conjunctive_and_sorts_by_id() {
    let mut s = fresh_store();
    let b1 = create_board(&mut s, "board one").unwrap();
    let b2 = create_board(&mut s, "board two").unwrap();
    let t1 = create_task(&mut s, "alpha", b1, "Tue, Jan  1 2019 00:00:00", "").unwrap();
    let t2 = create_task(&mut s, "beta", b1, "Tue, Jan  1 2019 00:00:00", "").unwrap();
    let t3 = create_task(&mut s, "gamma", b2, "Tue, Jan  1 2019 00:00:00", "").unwrap();
    let t4 = create_task(&mut s, "delta", b1, "Tue, Jan  1 2019 00:00:00", "").unwrap();
    switch_task_status(&mut s, t4, true).unwrap();

    let filtered = get_tasks(&s, Some(false), Some(b1)).unwrap();
    assert_eq!(filtered.len(), 2);
    assert!(filtered.iter().any(|t| t.id == t1 && t.title == "alpha"));
    assert!(filtered.iter().any(|t| t.id == t2 && t.title == "beta"));
    assert!(filtered.iter().all(|t| t.id != t3 && t.id != t4));

    let sorted = task_manager::selection::sort_by_id(filtered);
    let labels: Vec<String> =
        sorted.iter().map(|t| task_manager::selection::task_label(t)).collect();
    assert_eq!(labels, vec![format!("{} - alpha", t1), format!("{} - beta", t2)]);
}

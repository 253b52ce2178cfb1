use mimo_tts::listing::{
    build_task_list_query, group_page_params, SqlParam, GROUP_COUNT_SQL, GROUP_INSERT_SQL, GROUP_PAGE_SQL,
    RECORD_STORE_SCHEMA, TASK_INSERT_SQL, TASK_STATS_SQL, GROUP_STATS_SQL,
};
use rusqlite::types::Value;
use rusqlite::{params_from_iter, Connection};

fn test_db() -> Connection {
    let conn = Connection::open_in_memory().unwrap();
    conn.execute_batch(RECORD_STORE_SCHEMA).unwrap();
    conn
}

fn text(s: &str) -> Value {
    Value::Text(s.to_string())
}

fn fixture_task(conn: &Connection, id: &str, title: &str, status: &str) {
    let row: Vec<Value> = vec![
        text(id),
        text(title),
        text(status),
        text("mimo-v2.5-tts"),
        Value::Null,
        text("text"),
        Value::Null,
        Value::Text(format!("2024-01-01T00:00:{:02}Z", id.len())),
        Value::Null,
        Value::Null,
        Value::Null,
        Value::Real(0.0),
        Value::Integer(0),
        Value::Integer(0),
        Value::Null,
        Value::Null,
        Value::Null,
        Value::Null,
        Value::Null,
    ];
    conn.execute(TASK_INSERT_SQL, params_from_iter(row)).unwrap();
}

fn set_group(conn: &Connection, id: &str, group: &str) {
    conn.execute("UPDATE tasks SET group_id = ?1 WHERE id = ?2", params_from_iter(vec![text(group), text(id)]))
        .unwrap();
}

fn fixture_group(conn: &Connection, id: &str, name: &str, status: &str) {
    let row: Vec<Value> = vec![
        text(id),
        text(name),
        text(status),
        Value::Null,
        text("mimo-v2.5-tts"),
        Value::Null,
        text("2024-01-01T00:00:00Z"),
        Value::Integer(0),
        Value::Integer(0),
        Value::Integer(0),
        Value::Integer(0),
    ];
    conn.execute(GROUP_INSERT_SQL, params_from_iter(row)).unwrap();
}

fn value(p: &SqlParam) -> Value {
    match p {
        SqlParam::Text(t) => Value::Text(t.clone()),
        SqlParam::Int(n) => Value::Integer(*n),
    }
}

/// Runs the library's task listing statements: the page's ids and the total.
fn list_tasks_paginated(
    conn: &Connection,
    page: usize,
    per_page: usize,
    status: Option<&str>,
    search: Option<&str>,
    sort: Option<&str>,
    group_id: Option<&str>,
) -> (Vec<String>, usize) {
    let q = build_task_list_query(page, per_page, status, search, sort, group_id);
    let total: i64 = conn
        .query_row(&q.count_sql, params_from_iter(q.filter_params.iter().map(value)), |r| r.get(0))
        .unwrap();
    let mut stmt = conn.prepare(&q.select_sql).unwrap();
    let ids = stmt
        .query_map(params_from_iter(q.page_params.iter().map(value)), |r| r.get::<_, String>(0))
        .unwrap()
        .map(|r| r.unwrap())
        .collect();
    (ids, total as usize)
}

fn group_page(conn: &Connection, page: usize, per_page: usize) -> (Vec<String>, usize) {
    let total: i64 = conn.query_row(GROUP_COUNT_SQL, [], |r| r.get(0)).unwrap();
    let params: Vec<Value> = group_page_params(page, per_page).iter().map(value).collect();
    let mut stmt = conn.prepare(GROUP_PAGE_SQL).unwrap();
    let ids = stmt
        .query_map(params_from_iter(params), |r| r.get::<_, String>(0))
        .unwrap()
        .map(|r| r.unwrap())
        .collect();
    (ids, total as usize)
}

#[test]
fn paginated_list_first_page() {
    let conn = test_db();
    for i in 0..10 {
        fixture_task(&conn, &format!("task-{}", i), &format!("Task {}", i), "pending");
    }
    let (tasks, total) = list_tasks_paginated(&conn, 0, 3, None, None, None, None);
    assert_eq!(tasks.len(), 3);
    assert_eq!(total, 10);
}

#[test]
fn paginated_list_last_page() {
    let conn = test_db();
    for i in 0..10 {
        fixture_task(&conn, &format!("task-{}", i), &format!("Task {}", i), "pending");
    }
    let (tasks, total) = list_tasks_paginated(&conn, 3, 3, None, None, None, None);
    assert_eq!(tasks.len(), 1);
    assert_eq!(total, 10);
}

#[test]
fn paginated_list_all_in_one_page() {
    let conn = test_db();
    for i in 0..10 {
        fixture_task(&conn, &format!("task-{}", i), &format!("Task {}", i), "pending");
    }
    let (tasks, total) = list_tasks_paginated(&conn, 0, 100, None, None, None, None);
    assert_eq!(tasks.len(), 10);
    assert_eq!(total, 10);
}

#[test]
fn paginated_list_out_of_range_page_returns_empty() {
    let conn = test_db();
    for i in 0..5 {
        fixture_task(&conn, &format!("task-{}", i), &format!("Task {}", i), "pending");
    }
    let (tasks, total) = list_tasks_paginated(&conn, 10, 3, None, None, None, None);
    assert!(tasks.is_empty());
    assert_eq!(total, 5);
}

#[test]
fn filter_by_status() {
    let conn = test_db();
    fixture_task(&conn, "task-1", "A", "pending");
    fixture_task(&conn, "task-2", "B", "completed");
    fixture_task(&conn, "task-3", "C", "pending");
    let (tasks, total) = list_tasks_paginated(&conn, 0, 50, Some("pending"), None, None, None);
    assert_eq!(tasks.len(), 2);
    assert_eq!(total, 2);
}

#[test]
fn filter_by_search() {
    let conn = test_db();
    fixture_task(&conn, "task-1", "Hello World", "pending");
    fixture_task(&conn, "task-2", "Goodbye", "pending");
    let (tasks, _total) = list_tasks_paginated(&conn, 0, 50, None, Some("Hello"), None, None);
    assert_eq!(tasks.len(), 1);
    assert_eq!(tasks[0], "task-1");
}

#[test]
fn filter_by_group_id() {
    let conn = test_db();
    fixture_task(&conn, "task-1", "A", "pending");
    fixture_task(&conn, "task-2", "B", "pending");
    set_group(&conn, "task-1", "group-X");
    let (tasks, total) = list_tasks_paginated(&conn, 0, 50, None, None, None, Some("group-X"));
    assert_eq!(tasks.len(), 1);
    assert_eq!(total, 1);
    assert_eq!(tasks[0], "task-1");
}

#[test]
fn empty_db_returns_empty_list() {
    let conn = test_db();
    let (tasks, total) = list_tasks_paginated(&conn, 0, 50, None, None, None, None);
    assert!(tasks.is_empty());
    assert_eq!(total, 0);
}

#[test]
fn list_groups_paginated() {
    let conn = test_db();
    for i in 0..5 {
        fixture_group(&conn, &format!("g-{}", i), &format!("Group {}", i), "pending");
    }
    let (groups, total) = group_page(&conn, 0, 3);
    assert_eq!(groups.len(), 3);
    assert_eq!(total, 5);
}

#[test]
fn list_group_tasks_paginated() {
    let conn = test_db();
    for i in 0..5 {
        fixture_task(&conn, &format!("t-{}", i), &format!("Task {}", i), "pending");
        set_group(&conn, &format!("t-{}", i), "g-1");
    }
    let (tasks, total) = list_tasks_paginated(&conn, 0, 3, None, None, None, Some("g-1"));
    assert_eq!(tasks.len(), 3);
    assert_eq!(total, 5);
}

#[test]
fn listing_sorts_oldest_first_on_request() {
    let conn = test_db();
    fixture_task(&conn, "a", "A", "pending");
    fixture_task(&conn, "bbb", "B", "pending");
    fixture_task(&conn, "cc", "C", "pending");
    let (newest, _) = list_tasks_paginated(&conn, 0, 10, None, None, None, None);
    assert_eq!(newest, vec!["bbb", "cc", "a"]);
    let (oldest, _) = list_tasks_paginated(&conn, 0, 10, None, None, Some("created_at_asc"), None);
    assert_eq!(oldest, vec!["a", "cc", "bbb"]);
}

/// (total, completed, failed, processing, tokens, chars) from a statistics query.
fn stats_row(conn: &Connection, sql: &str, args: Vec<Value>) -> (i64, i64, i64, i64, i64, i64) {
    conn.query_row(sql, params_from_iter(args), |r| {
        Ok((r.get(0)?, r.get(1)?, r.get(2)?, r.get(3)?, r.get(4)?, r.get(5)?))
    })
    .unwrap()
}

#[test]
fn compute_stats_counts() {
    let conn = test_db();
    fixture_task(&conn, "t-1", "A", "pending");
    fixture_task(&conn, "t-2", "B", "pending");
    fixture_task(&conn, "t-3", "C", "completed");
    fixture_task(&conn, "t-4", "D", "failed");

    let (total, completed, failed, processing, _, _) = stats_row(&conn, TASK_STATS_SQL, vec![]);
    assert_eq!(total, 4);
    assert_eq!(processing, 2);
    assert_eq!(completed, 1);
    assert_eq!(failed, 1);
}

#[test]
fn compute_stats_empty_db() {
    let conn = test_db();
    let (total, completed, failed, processing, tokens, chars) = stats_row(&conn, TASK_STATS_SQL, vec![]);
    assert_eq!(total, 0);
    assert_eq!(processing, 0);
    assert_eq!(completed, 0);
    assert_eq!(failed, 0);
    assert_eq!((tokens, chars), (0, 0));
}

#[test]
fn group_stats_count_only_the_group() {
    let conn = test_db();
    fixture_task(&conn, "t-1", "A", "completed");
    fixture_task(&conn, "t-2", "B", "queued");
    fixture_task(&conn, "t-3", "C", "failed");
    set_group(&conn, "t-1", "g");
    set_group(&conn, "t-2", "g");
    let (total, completed, failed, processing, _, _) = stats_row(&conn, GROUP_STATS_SQL, vec![text("g")]);
    assert_eq!((total, completed, failed, processing), (2, 1, 0, 1));
}

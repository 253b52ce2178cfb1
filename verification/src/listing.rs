//! Listing tasks and groups: the SQL of the filtered, sorted and paginated
//! task listing of the record store, and the page window of the task API.

use vstd::prelude::*;
use crate::text::{decimal, decimal_string, trimmed, trim_chars, chars_of, string_from_chars, seq_equals};

verus! {

/// A bound parameter of a statement.
#[derive(Debug, Clone, PartialEq, Eq)]
pub enum SqlParam {
    Text(String),
    Int(i64),
}

/// The statements of one task listing: the count of matching rows, and the
/// page of them; `filter_params` bind the first, `page_params` the second.
#[derive(Debug, Clone)]
pub struct TaskListSql {
    pub count_sql: String,
    pub select_sql: String,
    pub filter_params: Vec<SqlParam>,
    pub page_params: Vec<SqlParam>,
}

/// A filter is applied when it is given and not empty.
pub open spec fn given(o: Option<Seq<char>>) -> bool {
    o matches Some(s) && s.len() > 0
}

/// The applied filters in order (status, title search, group): each the
/// column test before its placeholder, and the bound value.
pub open spec fn filter_parts(status: Option<Seq<char>>, search: Option<Seq<char>>, group_id: Option<Seq<char>>) -> Seq<(Seq<char>, Seq<char>)> {
    let a = if given(status) { seq![("status = "@, status->Some_0)] } else { Seq::empty() };
    let b = if given(search) {
        seq![("custom_title LIKE "@, "%"@ + search->Some_0 + "%"@)]
    } else {
        Seq::empty()
    };
    let c = if given(group_id) { seq![("group_id = "@, group_id->Some_0)] } else { Seq::empty() };
    a + b + c
}

/// The `i`-th filter clause, with its numbered placeholder.
pub open spec fn clause_text(parts: Seq<(Seq<char>, Seq<char>)>, i: int) -> Seq<char> {
    parts[i].0 + "?"@ + decimal((i + 1) as nat)
}

/// The first `n` clauses joined with ` AND `.
pub open spec fn joined_clauses(parts: Seq<(Seq<char>, Seq<char>)>, n: int) -> Seq<char>
    decreases n,
{
    if n <= 0 {
        Seq::empty()
    } else if n == 1 {
        clause_text(parts, 0)
    } else {
        joined_clauses(parts, n - 1) + " AND "@ + clause_text(parts, n - 1)
    }
}

/// The `WHERE` part of the listing (empty without filters).
pub open spec fn where_sql(parts: Seq<(Seq<char>, Seq<char>)>) -> Seq<char> {
    if parts.len() == 0 {
        Seq::empty()
    } else {
        "WHERE "@ + joined_clauses(parts, parts.len() as int)
    }
}

/// The `ORDER BY` part for a requested sort (trimmed; absent or empty means
/// newest first). An unknown sort names a column, ascending.
pub open spec fn order_clause(sort: Option<Seq<char>>) -> Seq<char> {
    let s = match sort {
        Some(x) => trimmed(x),
        None => Seq::empty(),
    };
    if s.len() == 0 || s == "created_at"@ {
        "created_at DESC"@
    } else if s == "created_at_asc"@ {
        "created_at ASC"@
    } else if s == "status"@ {
        "status ASC, created_at DESC"@
    } else if s == "progress"@ {
        "progress ASC, created_at DESC"@
    } else {
        s + " ASC, created_at DESC"@
    }
}

/// The columns a task listing reads.
pub const TASK_COLUMNS: &'static str = "id, custom_title, status, model, voice, text, context, created_at, started_at, completed_at, error, progress, token_count, char_count, audio_duration_secs, total_chunks, current_chunk, group_id, api_key";

/// The statement counting the matching tasks.
pub open spec fn count_statement(parts: Seq<(Seq<char>, Seq<char>)>) -> Seq<char> {
    "SELECT COUNT(*) FROM tasks "@ + where_sql(parts)
}

/// The statement reading one page of the matching tasks.
pub open spec fn select_statement(parts: Seq<(Seq<char>, Seq<char>)>, sort: Option<Seq<char>>) -> Seq<char> {
    let k = parts.len() + 1;
    "SELECT "@ + TASK_COLUMNS@ + " FROM tasks "@ + where_sql(parts) + " ORDER BY "@ + order_clause(sort)
        + " LIMIT ?"@ + decimal(k as nat) + " OFFSET ?"@ + decimal((k + 1) as nat)
}

/// The view of an optional string slice.
pub open spec fn opt_str(o: Option<&str>) -> Option<Seq<char>> {
    match o {
        Some(s) => Some(s@),
        None => None,
    }
}

fn is_given(o: Option<&str>) -> (r: bool)
    ensures
        r == given(opt_str(o)),
{
    match o {
        Some(s) => !s.is_empty(),
        None => false,
    }
}

fn push_clause(sql: &mut String, params: &mut Vec<SqlParam>, prefix: &str, value: String, parts: Ghost<Seq<(Seq<char>, Seq<char>)>>)
    requires
        old(params)@.len() < parts@.len(),
        old(params)@.len() < u64::MAX,
        parts@[old(params)@.len() as int].0 == prefix@,
        parts@[old(params)@.len() as int].1 == value@,
        old(sql)@ == (if old(params)@.len() == 0 { "WHERE "@ } else { "WHERE "@ + joined_clauses(parts@, old(params)@.len() as int) }),
    ensures
        final(params)@.len() == old(params)@.len() + 1,
        forall|j: int| 0 <= j < old(params)@.len() ==> final(params)@[j] == old(params)@[j],
        final(params)@[old(params)@.len() as int] matches SqlParam::Text(t) && t@ == value@,
        final(sql)@ == "WHERE "@ + joined_clauses(parts@, final(params)@.len() as int),
{
    let n = params.len();
    if n > 0 {
        sql.append(" AND ");
    }
    sql.append(prefix);
    sql.append("?");
    let d = decimal_string((n as u64) + 1);
    sql.append(d.as_str());
    params.push(SqlParam::Text(value));
    proof {
        assert(clause_text(parts@, n as int) == prefix@ + "?"@ + decimal((n + 1) as nat));
    }
}

fn order_text(sort: Option<&str>) -> (r: String)
    ensures
        r@ == order_clause(opt_str(sort)),
{
    let s: Vec<char> = match sort {
        Some(x) => {
            let v = chars_of(x);
            trim_chars(v.as_slice())
        },
        None => Vec::new(),
    };
    let created_at = chars_of("created_at");
    let created_at_asc = chars_of("created_at_asc");
    let status = chars_of("status");
    let progress = chars_of("progress");
    if s.len() == 0 || seq_equals(s.as_slice(), created_at.as_slice()) {
        String::from_str("created_at DESC")
    } else if seq_equals(s.as_slice(), created_at_asc.as_slice()) {
        String::from_str("created_at ASC")
    } else if seq_equals(s.as_slice(), status.as_slice()) {
        String::from_str("status ASC, created_at DESC")
    } else if seq_equals(s.as_slice(), progress.as_slice()) {
        String::from_str("progress ASC, created_at DESC")
    } else {
        let mut out = string_from_chars(s.as_slice());
        out.append(" ASC, created_at DESC");
        out
    }
}

/// The statements and parameters of a task listing: page `page` of
/// `per_page` tasks, filtered by status, by a title search (`LIKE %s%`) and
/// by group, in the requested order.
pub fn build_task_list_query(
    page: usize,
    per_page: usize,
    status: Option<&str>,
    search: Option<&str>,
    sort: Option<&str>,
    group_id: Option<&str>,
) -> (r: TaskListSql)
    requires
        page * per_page <= usize::MAX,
    ensures
        ({
            let parts = filter_parts(opt_str(status), opt_str(search), opt_str(group_id));
            &&& r.count_sql@ == count_statement(parts)
            &&& r.select_sql@ == select_statement(parts, opt_str(sort))
            &&& r.filter_params@.len() == parts.len()
            &&& forall|j: int| 0 <= j < parts.len() ==> (#[trigger] r.filter_params@[j] matches SqlParam::Text(t) && t@ == parts[j].1)
            &&& r.page_params@.len() == parts.len() + 2
            &&& forall|j: int| 0 <= j < parts.len() ==> #[trigger] r.page_params@[j] == r.filter_params@[j]
            &&& r.page_params@[parts.len() as int] == SqlParam::Int(per_page as i64)
            &&& r.page_params@[parts.len() + 1int] == SqlParam::Int((page * per_page) as i64)
        }),
{
    let ghost parts = filter_parts(opt_str(status), opt_str(search), opt_str(group_id));
    let mut sql = String::from_str("WHERE ");
    let mut params: Vec<SqlParam> = Vec::new();
    if is_given(status) {
        let v = String::from_str(status.unwrap());
        push_clause(&mut sql, &mut params, "status = ", v, Ghost(parts));
    }
    if is_given(search) {
        let mut v = String::from_str("%");
        v.append(search.unwrap());
        v.append("%");
        push_clause(&mut sql, &mut params, "custom_title LIKE ", v, Ghost(parts));
    }
    if is_given(group_id) {
        let v = String::from_str(group_id.unwrap());
        push_clause(&mut sql, &mut params, "group_id = ", v, Ghost(parts));
    }
    assert(params@.len() == parts.len());
    let where_part = if params.len() == 0 {
        String::new()
    } else {
        sql
    };
    assert(where_part@ == where_sql(parts));
    let mut count_sql = String::from_str("SELECT COUNT(*) FROM tasks ");
    count_sql.append(where_part.as_str());
    let mut select_sql = String::from_str("SELECT ");
    select_sql.append(TASK_COLUMNS);
    select_sql.append(" FROM tasks ");
    select_sql.append(where_part.as_str());
    select_sql.append(" ORDER BY ");
    let order = order_text(sort);
    select_sql.append(order.as_str());
    let k = (params.len() as u64) + 1;
    select_sql.append(" LIMIT ?");
    let a = decimal_string(k);
    select_sql.append(a.as_str());
    select_sql.append(" OFFSET ?");
    let b = decimal_string(k + 1);
    select_sql.append(b.as_str());
    let mut page_params: Vec<SqlParam> = Vec::new();
    let mut j: usize = 0;
    while j < params.len()
        invariant
            j <= params@.len(),
            page_params@.len() == j,
            forall|q: int| 0 <= q < j ==> #[trigger] page_params@[q] == params@[q],
        decreases params@.len() - j,
    {
        let p = match &params[j] {
            SqlParam::Text(t) => SqlParam::Text(t.clone()),
            SqlParam::Int(n) => SqlParam::Int(*n),
        };
        page_params.push(p);
        j = j + 1;
    }
    page_params.push(SqlParam::Int(#[verifier::truncate] (per_page as i64)));
    let offset = page * per_page;
    page_params.push(SqlParam::Int(#[verifier::truncate] (offset as i64)));
    TaskListSql { count_sql, select_sql, filter_params: params, page_params }
}

/// The statement counting all groups of the record store.
pub const GROUP_COUNT_SQL: &'static str = "SELECT COUNT(*) FROM task_groups";

/// The statement reading one page of groups, newest first; it binds the page
/// size and the offset.
pub const GROUP_PAGE_SQL: &'static str = "SELECT id, name, status, voice, model, context, created_at, total_tasks, completed_tasks, failed_tasks, total_tokens FROM task_groups ORDER BY created_at DESC LIMIT ?1 OFFSET ?2";

/// The parameters of `GROUP_PAGE_SQL` for page `page` of `per_page` groups.
pub fn group_page_params(page: usize, per_page: usize) -> (r: Vec<SqlParam>)
    requires
        page * per_page <= usize::MAX,
    ensures
        r@ == seq![SqlParam::Int(per_page as i64), SqlParam::Int((page * per_page) as i64)],
{
    let mut v: Vec<SqlParam> = Vec::new();
    v.push(SqlParam::Int(#[verifier::truncate] (per_page as i64)));
    let offset = page * per_page;
    v.push(SqlParam::Int(#[verifier::truncate] (offset as i64)));
    v
}

/// `SELECT COUNT(*)` of a batch's pending items (`?1` binds the batch).
pub fn pending_count_sql() -> (r: String)
    ensures
        r@ == "SELECT COUNT(*) FROM pending_items WHERE batch_id = ?1 AND status = 'pending'"@,
{
    String::from_str("SELECT COUNT(*) FROM pending_items WHERE batch_id = ?1 AND status = 'pending'")
}

/// One page of a batch's pending items in `seq` order (`?1` binds the
/// batch, `?2` the page size, `?3` the offset).
pub fn pending_page_sql() -> (r: String)
    ensures
        r@ == "SELECT * FROM pending_items WHERE batch_id = ?1 AND status = 'pending' ORDER BY seq ASC LIMIT ?2 OFFSET ?3"@,
{
    String::from_str(
        "SELECT * FROM pending_items WHERE batch_id = ?1 AND status = 'pending' ORDER BY seq ASC LIMIT ?2 OFFSET ?3",
    )
}

/// Where page `page` of `per_page` pending items starts: pages count from
/// 1, and any page before the first is the first.
pub open spec fn pending_offset(page: i64, per_page: i64) -> int {
    (if page - 1 > 0 {
        page - 1
    } else {
        0
    }) * per_page
}

/// The parameters of `pending_page_sql` for page `page` of `per_page`
/// items of batch `batch_id`.
pub fn pending_page_params(batch_id: &str, page: i64, per_page: i64) -> (r: Vec<SqlParam>)
    requires
        i64::MIN <= pending_offset(page, per_page) <= i64::MAX,
    ensures
        r@.len() == 3,
        r@[0] matches SqlParam::Text(t) && t@ == batch_id@,
        r@[1] == SqlParam::Int(per_page),
        r@[2] == SqlParam::Int(pending_offset(page, per_page) as i64),
{
    let before: i128 = if (page as i128) - 1 > 0 {
        (page as i128) - 1
    } else {
        0
    };
    assert(before * (per_page as i128) <= 0x4000_0000_0000_0000_0000_0000_0000_0000) by (nonlinear_arith)
        requires
            0 <= before <= 0x8000_0000_0000_0000,
            -0x8000_0000_0000_0000 <= per_page as i128 <= 0x8000_0000_0000_0000,
    ;
    assert(before * (per_page as i128) >= -0x4000_0000_0000_0000_0000_0000_0000_0000) by (nonlinear_arith)
        requires
            0 <= before <= 0x8000_0000_0000_0000,
            -0x8000_0000_0000_0000 <= per_page as i128 <= 0x8000_0000_0000_0000,
    ;
    let offset: i128 = before * (per_page as i128);
    let mut v: Vec<SqlParam> = Vec::new();
    v.push(SqlParam::Text(String::from_str(batch_id)));
    v.push(SqlParam::Int(per_page));
    v.push(SqlParam::Int(offset as i64));
    v
}

/// Page size of the task API when none is asked for.
pub const DEFAULT_PAGE_SIZE: i64 = 50;

/// Largest page size of the task API.
pub const MAX_PAGE_SIZE: i64 = 200;

/// The page asked for (never negative; the first when absent).
pub open spec fn effective_page(page: Option<i64>) -> i64 {
    match page {
        Some(p) => if p > 0 { p } else { 0 },
        None => 0,
    }
}

/// The page size asked for, kept between 1 and `MAX_PAGE_SIZE`.
pub open spec fn effective_page_size(page_size: Option<i64>) -> i64 {
    let s = match page_size {
        Some(s) => s,
        None => DEFAULT_PAGE_SIZE,
    };
    if s < 1 {
        1
    } else if s > MAX_PAGE_SIZE {
        MAX_PAGE_SIZE
    } else {
        s
    }
}

/// The page of the task API a query asks for.
#[derive(Debug, Clone, Copy, PartialEq, Eq, Structural)]
pub struct PageWindow {
    pub page: i64,
    pub page_size: i64,
    /// Index of the first item of the page.
    pub start: usize,
}

/// The page window of a task API query.
pub fn page_window(page: Option<i64>, page_size: Option<i64>) -> (r: PageWindow)
    requires
        effective_page(page) * effective_page_size(page_size) <= i64::MAX,
    ensures
        r.page == effective_page(page),
        r.page_size == effective_page_size(page_size),
        r.start == (effective_page(page) * effective_page_size(page_size)) as usize,
{
    let p: i64 = match page {
        Some(p) => if p > 0 { p } else { 0 },
        None => 0,
    };
    let s0: i64 = match page_size {
        Some(s) => s,
        None => DEFAULT_PAGE_SIZE,
    };
    let s: i64 = if s0 < 1 {
        1
    } else if s0 > MAX_PAGE_SIZE {
        MAX_PAGE_SIZE
    } else {
        s0
    };
    let prod: i64 = p * s;
    PageWindow { page: p, page_size: s, start: #[verifier::truncate] (prod as usize) }
}

/// The items from `start` on, at most `size` of them.
pub open spec fn page_slice<T>(items: Seq<T>, start: int, size: int) -> Seq<T> {
    let from = if start < items.len() { start } else { items.len() as int };
    let rest = items.skip(from);
    if size < rest.len() {
        rest.take(size)
    } else {
        rest
    }
}

/// Cuts one page out of a list.
pub fn page_of<T>(items: Vec<T>, start: usize, size: usize) -> (r: Vec<T>)
    ensures
        r@ == page_slice(items@, start as int, size as int),
{
    let mut all = items;
    let from = if start < all.len() {
        start
    } else {
        all.len()
    };
    let mut rest = all.split_off(from);
    assert(rest@ =~= items@.skip(from as int));
    rest.truncate(size);
    rest
}

/// The tables of the record store: task records, groups and the membership
/// of tasks in groups, with their indexes.
pub const RECORD_STORE_SCHEMA: &'static str = "CREATE TABLE IF NOT EXISTS tasks (id TEXT PRIMARY KEY, custom_title TEXT, status TEXT NOT NULL DEFAULT 'pending', model TEXT NOT NULL DEFAULT '', voice TEXT, text TEXT NOT NULL DEFAULT '', context TEXT, created_at TEXT NOT NULL, started_at TEXT, completed_at TEXT, error TEXT, progress REAL NOT NULL DEFAULT 0.0, token_count INTEGER NOT NULL DEFAULT 0, char_count INTEGER NOT NULL DEFAULT 0, audio_duration_secs REAL, total_chunks INTEGER, current_chunk INTEGER, group_id TEXT, api_key TEXT); CREATE TABLE IF NOT EXISTS task_groups (id TEXT PRIMARY KEY, name TEXT NOT NULL, status TEXT NOT NULL DEFAULT 'pending', voice TEXT, model TEXT NOT NULL DEFAULT '', context TEXT, created_at TEXT NOT NULL, total_tasks INTEGER NOT NULL DEFAULT 0, completed_tasks INTEGER NOT NULL DEFAULT 0, failed_tasks INTEGER NOT NULL DEFAULT 0, total_tokens INTEGER NOT NULL DEFAULT 0); CREATE TABLE IF NOT EXISTS group_tasks (group_id TEXT NOT NULL, task_id TEXT NOT NULL, sort_order INTEGER NOT NULL DEFAULT 0, PRIMARY KEY (group_id, task_id)); CREATE INDEX IF NOT EXISTS idx_tasks_status ON tasks(status); CREATE INDEX IF NOT EXISTS idx_tasks_group_id ON tasks(group_id); CREATE INDEX IF NOT EXISTS idx_tasks_created_at ON tasks(created_at); CREATE INDEX IF NOT EXISTS idx_group_tasks_group_id ON group_tasks(group_id);";

/// The statement storing a task record; it binds the columns of
/// `TASK_COLUMNS` in order.
pub const TASK_INSERT_SQL: &'static str = "INSERT INTO tasks (id, custom_title, status, model, voice, text, context, created_at, started_at, completed_at, error, progress, token_count, char_count, audio_duration_secs, total_chunks, current_chunk, group_id, api_key) VALUES (?1, ?2, ?3, ?4, ?5, ?6, ?7, ?8, ?9, ?10, ?11, ?12, ?13, ?14, ?15, ?16, ?17, ?18, ?19)";

/// The statement storing a group; it binds id, name, status, voice, model,
/// context, created_at, total_tasks, completed_tasks, failed_tasks and
/// total_tokens in order.
pub const GROUP_INSERT_SQL: &'static str = "INSERT INTO task_groups (id, name, status, voice, model, context, created_at, total_tasks, completed_tasks, failed_tasks, total_tokens) VALUES (?1, ?2, ?3, ?4, ?5, ?6, ?7, ?8, ?9, ?10, ?11)";

/// The statistics of all task records, as one row: the number of tasks, of
/// completed ones, of failed ones, of those still in progress (pending,
/// queued, synthesizing or streaming), and the sums of their tokens and
/// characters.
pub const TASK_STATS_SQL: &'static str = "SELECT COUNT(*), COALESCE(SUM(status = 'completed'), 0), COALESCE(SUM(status = 'failed'), 0), COALESCE(SUM(status IN ('pending', 'queued', 'synthesizing', 'streaming')), 0), COALESCE(SUM(token_count), 0), COALESCE(SUM(char_count), 0) FROM tasks";

/// The same statistics for the tasks of one group; it binds the group id.
pub const GROUP_STATS_SQL: &'static str = "SELECT COUNT(*), COALESCE(SUM(status = 'completed'), 0), COALESCE(SUM(status = 'failed'), 0), COALESCE(SUM(status IN ('pending', 'queued', 'synthesizing', 'streaming')), 0), COALESCE(SUM(token_count), 0), COALESCE(SUM(char_count), 0) FROM tasks WHERE group_id = ?1";

} // verus!

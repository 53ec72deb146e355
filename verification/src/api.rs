//! The planner's web API: request and response records, the checks made on
//! requests, and the SQL statements each endpoint sends.

use vstd::prelude::*;
use crate::db::{time_sql, Task};
use crate::text::{
    decimal, ends_with, lemma_cancel_left, lemma_cancel_right, lemma_decimal_injective, nat_digits, push_i32, push_u64, split_on, split_str, starts_with, str_eq, str_views,
};
use crate::util::{date_text, hash_string, match_param, match_param_spec, std_str_hash, Date};

verus! {

/// How often a task repeats, as a client names it; its code is the stored
/// frequency type.
#[derive(Clone, Copy, Debug, PartialEq, Eq, Structural)]
pub enum Frequency {
    Once,
    Daily,
    Weekly,
}

impl Frequency {
    /// The frequency type stored for this frequency.
    pub fn code(&self) -> (c: i32)
        ensures
            c == (match *self {
                Frequency::Once => 0i32,
                Frequency::Daily => 1i32,
                Frequency::Weekly => 2i32,
            }),
    {
        match self {
            Frequency::Once => 0,
            Frequency::Daily => 1,
            Frequency::Weekly => 2,
        }
    }
}

/// Credentials sent to log in.
#[derive(Clone, Debug)]
pub struct LoginInfo {
    pub username: String,
    pub password: String,
}

/// A user as the API returns it.
#[derive(Clone, Debug)]
pub struct UserInfo {
    pub id: i32,
    pub fullname: String,
    pub username: String,
}

/// A request to register a user.
#[derive(Clone, Debug)]
pub struct CreateUserInfo {
    pub fullname: String,
    pub username: String,
    pub password: String,
}

/// A request to create a (possibly recurring) task.
#[derive(Clone, Debug)]
pub struct CreateTaskInfo {
    pub title: String,
    pub frequency_type: i32,
    pub day_bits: i32,
    pub is_range: bool,
    pub range_min: i32,
    pub range_max: i32,
    pub date: String,
    pub time: String,
    pub end_date: String,
    pub description: String,
}

/// A task instance as the API returns it.
#[derive(Clone, Debug)]
pub struct TaskInfo {
    pub id: i32,
    pub proto_id: i32,
    pub title: String,
    pub frequency_type: i32,
    pub day_bits: i32,
    pub is_range: bool,
    pub range_min: i32,
    pub range_max: i32,
    pub completion_value: i32,
    pub description: String,
    pub due_time: String,
}

/// The columns read for a task instance joined with its recurring task.
#[derive(Clone, Debug)]
pub struct TaskRow {
    pub id: i32,
    pub proto_id: i32,
    pub title: String,
    pub completion_value: i32,
    pub frequency_type: i32,
    pub frequency_value: i32,
    pub is_range: bool,
    pub completion_max: i32,
    pub description: String,
    pub due_time: String,
}

/// A request to record progress on a task instance.
#[derive(Clone, Copy, Debug, PartialEq, Eq, Structural)]
pub struct UpdateTaskInfo {
    pub completion_value: i32,
}

/// A recurring task as the API returns it.
#[derive(Clone, Debug)]
pub struct PrototypeTask {
    pub proto_id: i32,
    pub title: String,
    pub frequency_type: i32,
    pub day_bits: i32,
    pub due_date: String,
    pub end_date: String,
    pub due_time: String,
    pub description: String,
}

/// The columns read for a recurring task, its dates already rendered as text.
#[derive(Clone, Debug)]
pub struct PrototypeRow {
    pub proto_id: i32,
    pub title: String,
    pub frequency_type: i32,
    pub frequency_value: i32,
    pub start_date: String,
    pub end_date: String,
    pub due_time: String,
    pub description: String,
}

impl PrototypeTask {
    /// The recurring task a listed row describes: its day bits are the
    /// frequency value and its due date is the start date.
    pub fn from_row(row: PrototypeRow) -> (t: PrototypeTask)
        ensures
            t.proto_id == row.proto_id,
            t.title == row.title,
            t.frequency_type == row.frequency_type,
            t.day_bits == row.frequency_value,
            t.due_date == row.start_date,
            t.end_date == row.end_date,
            t.due_time == row.due_time,
            t.description == row.description,
    {
        PrototypeTask {
            proto_id: row.proto_id,
            title: row.title,
            frequency_type: row.frequency_type,
            day_bits: row.frequency_value,
            due_date: row.start_date,
            end_date: row.end_date,
            due_time: row.due_time,
            description: row.description,
        }
    }
}

/// The statement that looks up a user by name and password hash.
pub open spec fn login_sql(username: Seq<char>, password: Seq<char>) -> Seq<char> {
    "SELECT id, username, password_hash FROM user WHERE (username = '"@ + username
        + "') AND (password_hash = "@ + nat_digits(std_str_hash(password) as nat) + ")"@
}

/// Builds the statement that checks a login.
pub fn login_query(info: &LoginInfo) -> (q: String)
    ensures
        q@ == login_sql(info.username@, info.password@),
{
    let mut q = String::new();
    q.append("SELECT id, username, password_hash FROM user WHERE (username = '");
    q.append(info.username.as_str());
    q.append("') AND (password_hash = ");
    push_u64(&mut q, hash_string(info.password.as_str()));
    q.append(")");
    assert(q@ =~= login_sql(info.username@, info.password@));
    q
}

/// Why a registration is refused.
#[derive(Clone, Copy, Debug, PartialEq, Eq, Structural)]
pub enum NewUserError {
    NoUsername,
    NoName,
    NoPassword,
}

impl NewUserError {
    /// The message sent back for the refusal.
    pub fn message(&self) -> (m: &'static str)
        ensures
            m@ == (match *self {
                NewUserError::NoUsername => "No username given"@,
                NewUserError::NoName => "No name given"@,
                NewUserError::NoPassword => "No password set"@,
            }),
    {
        match self {
            NewUserError::NoUsername => "No username given",
            NewUserError::NoName => "No name given",
            NewUserError::NoPassword => "No password set",
        }
    }
}

/// Checks a registration: the username, then the name, then the password
/// must be non-empty; the first that is empty is reported.
pub fn new_user_error(info: &CreateUserInfo) -> (e: Option<NewUserError>)
    ensures
        e == (if info.username@.len() == 0 {
            Some(NewUserError::NoUsername)
        } else if info.fullname@.len() == 0 {
            Some(NewUserError::NoName)
        } else if info.password@.len() == 0 {
            Some(NewUserError::NoPassword)
        } else {
            None
        }),
{
    if info.username.as_str().unicode_len() == 0 {
        Some(NewUserError::NoUsername)
    } else if info.fullname.as_str().unicode_len() == 0 {
        Some(NewUserError::NoName)
    } else if info.password.as_str().unicode_len() == 0 {
        Some(NewUserError::NoPassword)
    } else {
        None
    }
}

/// The statement that stores a new user with the hash of the password.
pub open spec fn create_user_sql(info: CreateUserInfo) -> Seq<char> {
    "INSERT INTO user (username, fullname, password_hash) VALUES ('"@ + info.username@ + "', '"@
        + info.fullname@ + "', "@ + nat_digits(std_str_hash(info.password@) as nat) + ")"@
}

/// Builds the statement that stores a new user.
pub fn create_user_query(info: &CreateUserInfo) -> (q: String)
    ensures
        q@ == create_user_sql(*info),
{
    let mut q = String::new();
    q.append("INSERT INTO user (username, fullname, password_hash) VALUES ('");
    q.append(info.username.as_str());
    q.append("', '");
    q.append(info.fullname.as_str());
    q.append("', ");
    push_u64(&mut q, hash_string(info.password.as_str()));
    q.append(")");
    assert(q@ =~= create_user_sql(*info));
    q
}


/// The two statements that sum a user's progress and its maximum: over a whole
/// month when the date's day is 0, else over that date.
pub open spec fn progress_sql(user_id: i32, date: Date) -> (Seq<char>, Seq<char>) {
    if date.day == 0 {
        let cond = " WHERE (t.user_id = "@ + decimal(user_id as int) + " AND MONTH(t.due_date) = "@
            + decimal(date.month as int) + " AND YEAR(t.due_date) = "@ + decimal(date.year as int)
            + ")"@;
        (
            "SELECT CAST(COALESCE(SUM(t.completion_value), 0) AS INT) FROM task AS t JOIN recurring_task AS p ON p.proto_id = t.id"@
                + cond,
            "SELECT CAST(COALESCE(SUM(p.completion_max), 0) AS INT) FROM task AS t JOIN recurring_task AS p ON p.proto_id = t.id"@
                + cond,
        )
    } else {
        let cond = " WHERE (t.user_id = "@ + decimal(user_id as int) + " AND t.due_date = '"@
            + date_text(date) + "')"@;
        (
            "SELECT CAST(COALESCE(SUM(t.completion_value), 0) AS INT) FROM task AS t JOIN recurring_task AS p ON t.proto_id = p.proto_id"@
                + cond,
            "SELECT CAST(COALESCE(SUM(p.completion_max), 0) AS INT) FROM task AS t JOIN recurring_task AS p ON t.proto_id = p.proto_id"@
                + cond,
        )
    }
}

/// Builds the progress statements for a user and a date (day 0: the month).
pub fn progress_queries(user_id: i32, date: Date) -> (qs: (String, String))
    ensures
        qs.0@ == progress_sql(user_id, date).0,
        qs.1@ == progress_sql(user_id, date).1,
{
    let mut cond = String::new();
    let mut value = String::new();
    let mut max = String::new();
    if date.day == 0 {
        cond.append(" WHERE (t.user_id = ");
        push_i32(&mut cond, user_id);
        cond.append(" AND MONTH(t.due_date) = ");
        push_i32(&mut cond, date.month);
        cond.append(" AND YEAR(t.due_date) = ");
        push_i32(&mut cond, date.year);
        cond.append(")");
        value.append(
            "SELECT CAST(COALESCE(SUM(t.completion_value), 0) AS INT) FROM task AS t JOIN recurring_task AS p ON p.proto_id = t.id",
        );
        max.append(
            "SELECT CAST(COALESCE(SUM(p.completion_max), 0) AS INT) FROM task AS t JOIN recurring_task AS p ON p.proto_id = t.id",
        );
    } else {
        cond.append(" WHERE (t.user_id = ");
        push_i32(&mut cond, user_id);
        cond.append(" AND t.due_date = '");
        let date_str = date.to_string();
        cond.append(date_str.as_str());
        cond.append("')");
        value.append(
            "SELECT CAST(COALESCE(SUM(t.completion_value), 0) AS INT) FROM task AS t JOIN recurring_task AS p ON t.proto_id = p.proto_id",
        );
        max.append(
            "SELECT CAST(COALESCE(SUM(p.completion_max), 0) AS INT) FROM task AS t JOIN recurring_task AS p ON t.proto_id = p.proto_id",
        );
    }
    value.append(cond.as_str());
    max.append(cond.as_str());
    assert(value@ =~= progress_sql(user_id, date).0);
    assert(max@ =~= progress_sql(user_id, date).1);
    (value, max)
}

/// The columns listed for a user's task instances.
pub open spec fn task_columns_sql() -> Seq<char> {
    "SELECT t.id, t.proto_id AS proto_id, t.user_id, t.completion_value, t.due_date, t.due_date, t.due_time, p.proto_id, p.title, p.frequency_type, p.frequency_value, p.is_range, p.completion_max, p.description FROM task AS t JOIN recurring_task AS p ON t.proto_id = p.proto_id"@
}

/// The statement that lists a user's task instances: over a whole month when
/// the date's day is 0, else on that date ordered by due time.
pub open spec fn tasks_sql(user_id: i32, date: Date) -> Seq<char> {
    if date.day == 0 {
        task_columns_sql() + " WHERE (p.user_id = "@ + decimal(user_id as int)
            + " AND MONTH(t.due_date) = "@ + decimal(date.month as int) + " AND YEAR(t.due_date) = "@
            + decimal(date.year as int) + ")"@
    } else {
        task_columns_sql() + " WHERE (p.user_id = "@ + decimal(user_id as int) + " AND t.due_date = '"@
            + date_text(date) + "') ORDER BY t.due_time"@
    }
}

/// Builds the statement that lists a user's task instances.
pub fn tasks_query(user_id: i32, date: Date) -> (q: String)
    ensures
        q@ == tasks_sql(user_id, date),
{
    let mut q = String::new();
    q.append(
        "SELECT t.id, t.proto_id AS proto_id, t.user_id, t.completion_value, t.due_date, t.due_date, t.due_time, p.proto_id, p.title, p.frequency_type, p.frequency_value, p.is_range, p.completion_max, p.description FROM task AS t JOIN recurring_task AS p ON t.proto_id = p.proto_id",
    );
    q.append(" WHERE (p.user_id = ");
    push_i32(&mut q, user_id);
    if date.day == 0 {
        q.append(" AND MONTH(t.due_date) = ");
        push_i32(&mut q, date.month);
        q.append(" AND YEAR(t.due_date) = ");
        push_i32(&mut q, date.year);
        q.append(")");
    } else {
        q.append(" AND t.due_date = '");
        let date_str = date.to_string();
        q.append(date_str.as_str());
        q.append("') ORDER BY t.due_time");
    }
    assert(q@ =~= tasks_sql(user_id, date));
    q
}

impl TaskInfo {
    /// The task instance a listed row describes: its day bits are the
    /// frequency value, its range runs from 0 to the completion maximum.
    pub fn from_row(row: TaskRow) -> (t: TaskInfo)
        ensures
            t.id == row.id,
            t.proto_id == row.proto_id,
            t.title == row.title,
            t.frequency_type == row.frequency_type,
            t.day_bits == row.frequency_value,
            t.is_range == row.is_range,
            t.range_min == 0,
            t.range_max == row.completion_max,
            t.completion_value == row.completion_value,
            t.description == row.description,
            t.due_time == row.due_time,
    {
        TaskInfo {
            id: row.id,
            proto_id: row.proto_id,
            title: row.title,
            frequency_type: row.frequency_type,
            day_bits: row.frequency_value,
            is_range: row.is_range,
            range_min: 0,
            range_max: row.completion_max,
            completion_value: row.completion_value,
            description: row.description,
            due_time: row.due_time,
        }
    }
}

/// The end date stored for a task: the given one, or 2099-01-01 when none is given.
pub open spec fn end_date_sql(end_date: Seq<char>) -> Seq<char> {
    if end_date.len() > 0 {
        end_date
    } else {
        "2099-01-01"@
    }
}

/// How `bool` is displayed.
pub open spec fn bool_text(b: bool) -> Seq<char> {
    if b {
        "true"@
    } else {
        "false"@
    }
}

/// The statement that stores a recurring task for a user.
pub open spec fn recurring_task_insert_sql(info: CreateTaskInfo, user_id: i32) -> Seq<char> {
    "INSERT INTO recurring_task (title, frequency_type, frequency_value, user_id, is_range, completion_max, start_date, due_time, end_date, description) VALUES ('"@
        + info.title@ + "', "@ + decimal(info.frequency_type as int) + ", "@ + decimal(
        info.day_bits as int,
    ) + ", "@ + decimal(user_id as int) + ", "@ + bool_text(info.is_range) + ", "@ + decimal(
        info.range_max as int,
    ) + ", DATE('"@ + info.date@ + "'), "@ + time_sql(info.time@) + ", DATE('"@ + end_date_sql(
        info.end_date@,
    ) + "'), '"@ + info.description@ + "')"@
}

impl CreateTaskInfo {
    /// A task that is not a range is completed by a single step: its maximum becomes 1.
    pub fn normalize_range(&mut self)
        ensures
            final(self).range_max == (if old(self).is_range { old(self).range_max } else { 1 }),
            final(self).title == old(self).title,
            final(self).frequency_type == old(self).frequency_type,
            final(self).day_bits == old(self).day_bits,
            final(self).is_range == old(self).is_range,
            final(self).range_min == old(self).range_min,
            final(self).date == old(self).date,
            final(self).time == old(self).time,
            final(self).end_date == old(self).end_date,
            final(self).description == old(self).description,
    {
        if !self.is_range {
            self.range_max = 1;
        }
    }

    /// The insertion of this recurring task, owned by `user_id`.
    pub fn insert_query(&self, user_id: i32) -> (q: String)
        ensures
            q@ == recurring_task_insert_sql(*self, user_id),
    {
        let mut q = String::new();
        q.append(
            "INSERT INTO recurring_task (title, frequency_type, frequency_value, user_id, is_range, completion_max, start_date, due_time, end_date, description) VALUES ('",
        );
        q.append(self.title.as_str());
        q.append("', ");
        push_i32(&mut q, self.frequency_type);
        q.append(", ");
        push_i32(&mut q, self.day_bits);
        q.append(", ");
        push_i32(&mut q, user_id);
        q.append(", ");
        if self.is_range {
            q.append("true");
        } else {
            q.append("false");
        }
        q.append(", ");
        push_i32(&mut q, self.range_max);
        q.append(", DATE('");
        q.append(self.date.as_str());
        q.append("'), ");
        if self.time.as_str().unicode_len() > 0 {
            q.append("'");
            q.append(self.time.as_str());
            q.append("'");
        } else {
            q.append("NULL");
        }
        q.append(", DATE('");
        if self.end_date.as_str().unicode_len() > 0 {
            q.append(self.end_date.as_str());
        } else {
            q.append("2099-01-01");
        }
        q.append("'), '");
        q.append(self.description.as_str());
        q.append("')");
        assert(q@ =~= recurring_task_insert_sql(*self, user_id));
        q
    }

    /// A one-off task (frequency type 0) gets its single instance when it is
    /// created, on its start date and time; other tasks get none then.
    pub fn initial_task(&self, proto_id: i32, user_id: i32) -> (t: Option<Task>)
        ensures
            t is Some <==> self.frequency_type == 0,
            t matches Some(task) ==> task.proto_id == proto_id && task.user_id == user_id
                && task.due_date@ == self.date@ && task.due_time@ == self.time@,
    {
        if self.frequency_type == 0 {
            Some(
                Task {
                    proto_id,
                    user_id,
                    due_date: self.date.clone(),
                    due_time: self.time.clone(),
                },
            )
        } else {
            None
        }
    }
}

/// The statement that records progress on a task instance.
pub open spec fn update_task_sql(task_id: i32, completion_value: i32) -> Seq<char> {
    "UPDATE task SET completion_value = "@ + decimal(completion_value as int) + " WHERE id = "@
        + decimal(task_id as int)
}

/// Builds the statement that records progress on a task instance.
pub fn update_task_query(task_id: i32, task: &UpdateTaskInfo) -> (q: String)
    ensures
        q@ == update_task_sql(task_id, task.completion_value),
{
    let mut q = String::new();
    q.append("UPDATE task SET completion_value = ");
    push_i32(&mut q, task.completion_value);
    q.append(" WHERE id = ");
    push_i32(&mut q, task_id);
    assert(q@ =~= update_task_sql(task_id, task.completion_value));
    q
}

/// The statement that deletes a task instance.
pub open spec fn delete_task_sql(task_id: i32) -> Seq<char> {
    "DELETE FROM task WHERE id = "@ + decimal(task_id as int)
}

/// Builds the statement that deletes a task instance.
pub fn delete_task_query(task_id: i32) -> (q: String)
    ensures
        q@ == delete_task_sql(task_id),
{
    let mut q = String::new();
    q.append("DELETE FROM task WHERE id = ");
    push_i32(&mut q, task_id);
    q
}

/// The statements that delete a recurring task: first its instances, then itself.
pub open spec fn delete_proto_task_sql(proto_id: i32) -> (Seq<char>, Seq<char>) {
    (
        "DELETE FROM task WHERE proto_id = "@ + decimal(proto_id as int),
        "DELETE FROM recurring_task WHERE proto_id = "@ + decimal(proto_id as int),
    )
}

/// Builds the statements that delete a recurring task and its instances, in that order.
pub fn delete_proto_task_queries(proto_id: i32) -> (qs: (String, String))
    ensures
        qs.0@ == delete_proto_task_sql(proto_id).0,
        qs.1@ == delete_proto_task_sql(proto_id).1,
{
    let mut a = String::new();
    a.append("DELETE FROM task WHERE proto_id = ");
    push_i32(&mut a, proto_id);
    let mut b = String::new();
    b.append("DELETE FROM recurring_task WHERE proto_id = ");
    push_i32(&mut b, proto_id);
    (a, b)
}

/// The user asked for by a route segment; -1 when it is missing or not a number.
pub fn requested_user_id(segment: Option<&str>) -> (id: i32)
    ensures
        id == (match match_param_spec(segment) {
            Ok(v) => v,
            Err(_) => -1i32,
        }),
{
    match match_param(segment) {
        Ok(v) => v,
        Err(_) => -1,
    }
}

/// The statement that reads a user.
pub open spec fn user_sql(user_id: i32) -> Seq<char> {
    "SELECT * FROM user WHERE id = "@ + decimal(user_id as int)
}

/// Builds the statement that reads a user.
pub fn user_query(user_id: i32) -> (q: String)
    ensures
        q@ == user_sql(user_id),
{
    let mut q = String::new();
    q.append("SELECT * FROM user WHERE id = ");
    push_i32(&mut q, user_id);
    q
}

/// The statement that lists a user's recurring tasks.
pub open spec fn proto_tasks_sql(user_id: i32) -> Seq<char> {
    "SELECT * FROM recurring_task WHERE user_id = "@ + decimal(user_id as int)
}

/// Builds the statement that lists a user's recurring tasks.
pub fn proto_tasks_query(user_id: i32) -> (q: String)
    ensures
        q@ == proto_tasks_sql(user_id),
{
    let mut q = String::new();
    q.append("SELECT * FROM recurring_task WHERE user_id = ");
    push_i32(&mut q, user_id);
    q
}


/// What a `delete=<table>` start-up argument asks for.
#[derive(Clone, Copy, Debug, PartialEq, Eq)]
pub enum TableDeletion<'a> {
    /// `delete=*`: run the script that drops every table.
    All,
    /// Drop the named table.
    Table(&'a str),
}

/// The table an argument names: one that starts with `delete` and has a
/// part after its first `=`, which is the name (up to any further `=`).
pub open spec fn deletion_target(arg: Seq<char>) -> Option<Seq<char>> {
    let parts = split_on(arg, '=');
    if arg.len() >= 6 && arg.take(6) == "delete"@ && parts.len() >= 2 {
        Some(parts[1])
    } else {
        None
    }
}

/// The view of a planned deletion: `None` for all tables.
pub open spec fn deletion_view(d: TableDeletion) -> Option<Seq<char>> {
    match d {
        TableDeletion::All => None,
        TableDeletion::Table(t) => Some(t@),
    }
}

/// The deletions the arguments ask for, in order; a `*` ends the list.
pub open spec fn planned_deletions(args: Seq<Seq<char>>) -> Seq<Option<Seq<char>>>
    decreases args.len(),
{
    if args.len() == 0 {
        Seq::empty()
    } else {
        match deletion_target(args[0]) {
            None => planned_deletions(args.drop_first()),
            Some(t) => if t == "*"@ {
                seq![None]
            } else {
                seq![Some(t)] + planned_deletions(args.drop_first())
            },
        }
    }
}

/// The deletions asked for by the start-up arguments (the program name excluded).
pub fn deletions_from_args(args: &Vec<String>) -> (plan: Vec<TableDeletion<'_>>)
    ensures
        plan@.map_values(|d: TableDeletion| deletion_view(d)) == planned_deletions(
            args@.map_values(|a: String| a@),
        ),
{
    let ghost av = args@.map_values(|a: String| a@);
    let mut plan: Vec<TableDeletion> = Vec::new();
    let mut i: usize = 0;
    assert(av.skip(0) =~= av);
    while i < args.len()
        invariant
            av == args@.map_values(|a: String| a@),
            i <= args@.len(),
            plan@.map_values(|d: TableDeletion| deletion_view(d)) + planned_deletions(av.skip(i as int))
                == planned_deletions(av),
        decreases args@.len() - i,
    {
        let ghost before = plan@.map_values(|d: TableDeletion| deletion_view(d));
        let arg = args[i].as_str();
        let ghost rest = av.skip(i as int);
        proof { reveal_strlit("delete"); reveal_strlit("*"); }
        assert(rest[0] == arg@);
        assert(rest.drop_first() =~= av.skip(i + 1));
        assert(rest.len() > 0);
        let mut target_opt: Option<&str> = None;
        if starts_with(arg, "delete") {
            let parts = split_str(arg, '=');
            assert(str_views(parts@).len() == parts@.len());
            if parts.len() >= 2 {
                assert(str_views(parts@)[1] == parts@[1]@);
                target_opt = Some(parts[1]);
            }
        }
        assert(target_opt matches Some(t) ==> deletion_target(arg@) == Some(t@));
        assert(target_opt is None ==> deletion_target(arg@) is None);
        match target_opt {
            Some(target) => {
                if str_eq(target, "*") {
                    plan.push(TableDeletion::All);
                    assert(plan@.map_values(|d: TableDeletion| deletion_view(d)) =~= before.push(None));
                    assert(planned_deletions(rest) =~= seq![None::<Seq<char>>]);
                    assert(plan@.map_values(|d: TableDeletion| deletion_view(d)) =~= planned_deletions(av));
                    return plan;
                }
                plan.push(TableDeletion::Table(target));
                assert(plan@.map_values(|d: TableDeletion| deletion_view(d)) =~= before.push(Some(target@)));
                assert(planned_deletions(rest) == seq![Some(target@)] + planned_deletions(av.skip(i + 1)));
            },
            None => {
                assert(planned_deletions(rest) == planned_deletions(av.skip(i + 1)));
            },
        }
        assert(plan@.map_values(|d: TableDeletion| deletion_view(d)) + planned_deletions(av.skip(i + 1))
            =~= planned_deletions(av));
        i = i + 1;
    }
    assert(av.skip(i as int) =~= Seq::<Seq<char>>::empty());
    assert(plan@.map_values(|d: TableDeletion| deletion_view(d)) + planned_deletions(av.skip(i as int))
        =~= plan@.map_values(|d: TableDeletion| deletion_view(d)));
    plan
}

/// The statement that drops a table.
pub open spec fn drop_table_sql(name: Seq<char>) -> Seq<char> {
    "DROP TABLE IF EXISTS "@ + name
}

/// Builds the statement that drops a table.
pub fn drop_table_query(name: &str) -> (q: String)
    ensures
        q@ == drop_table_sql(name@),
{
    let mut q = String::new();
    q.append("DROP TABLE IF EXISTS ");
    q.append(name);
    q
}


/// The same task request with other day bits.
pub open spec fn with_day_bits(info: CreateTaskInfo, bits: i32) -> CreateTaskInfo {
    CreateTaskInfo { day_bits: bits, ..info }
}

/// The insertion keeps the day bits whole: two requests that differ only in
/// their day bits give the same statement exactly when the bits are equal, so
/// no bit of any weekday is lost or altered.
pub proof fn lemma_insert_keeps_day_bits(info: CreateTaskInfo, user_id: i32, x: i32, y: i32)
    ensures
        recurring_task_insert_sql(with_day_bits(info, x), user_id) == recurring_task_insert_sql(
            with_day_bits(info, y),
            user_id,
        ) <==> x == y,
{
    let p = "INSERT INTO recurring_task (title, frequency_type, frequency_value, user_id, is_range, completion_max, start_date, due_time, end_date, description) VALUES ('"@
        + info.title@ + "', "@ + decimal(info.frequency_type as int) + ", "@;
    let a0 = p + decimal(x as int);
    let b0 = p + decimal(y as int);
    let c1 = ", "@;
    let a1 = a0 + c1;
    let b1 = b0 + c1;
    let c2 = decimal(user_id as int);
    let a2 = a1 + c2;
    let b2 = b1 + c2;
    let c3 = ", "@;
    let a3 = a2 + c3;
    let b3 = b2 + c3;
    let c4 = bool_text(info.is_range);
    let a4 = a3 + c4;
    let b4 = b3 + c4;
    let c5 = ", "@;
    let a5 = a4 + c5;
    let b5 = b4 + c5;
    let c6 = decimal(info.range_max as int);
    let a6 = a5 + c6;
    let b6 = b5 + c6;
    let c7 = ", DATE('"@;
    let a7 = a6 + c7;
    let b7 = b6 + c7;
    let c8 = info.date@;
    let a8 = a7 + c8;
    let b8 = b7 + c8;
    let c9 = "'), "@;
    let a9 = a8 + c9;
    let b9 = b8 + c9;
    let c10 = time_sql(info.time@);
    let a10 = a9 + c10;
    let b10 = b9 + c10;
    let c11 = ", DATE('"@;
    let a11 = a10 + c11;
    let b11 = b10 + c11;
    let c12 = end_date_sql(info.end_date@);
    let a12 = a11 + c12;
    let b12 = b11 + c12;
    let c13 = "'), '"@;
    let a13 = a12 + c13;
    let b13 = b12 + c13;
    let c14 = info.description@;
    let a14 = a13 + c14;
    let b14 = b13 + c14;
    let c15 = "')"@;
    let a15 = a14 + c15;
    let b15 = b14 + c15;
    assert(recurring_task_insert_sql(with_day_bits(info, x), user_id) == a15);
    assert(recurring_task_insert_sql(with_day_bits(info, y), user_id) == b15);
    lemma_decimal_injective(x, y);
    if a15 == b15 {
        lemma_cancel_right(a14, b14, c15);
        lemma_cancel_right(a13, b13, c14);
        lemma_cancel_right(a12, b12, c13);
        lemma_cancel_right(a11, b11, c12);
        lemma_cancel_right(a10, b10, c11);
        lemma_cancel_right(a9, b9, c10);
        lemma_cancel_right(a8, b8, c9);
        lemma_cancel_right(a7, b7, c8);
        lemma_cancel_right(a6, b6, c7);
        lemma_cancel_right(a5, b5, c6);
        lemma_cancel_right(a4, b4, c5);
        lemma_cancel_right(a3, b3, c4);
        lemma_cancel_right(a2, b2, c3);
        lemma_cancel_right(a1, b1, c2);
        lemma_cancel_right(a0, b0, c1);
        lemma_cancel_left(p, decimal(x as int), decimal(y as int));
    }
}

/// The progress statements for a date with a day select that day's tasks:
/// both end by restricting `t.due_date` to the displayed date. Only day 0
/// selects a whole month, by its month and year.
pub proof fn lemma_progress_scope(user_id: i32, date: Date)
    ensures
        date.day != 0 ==> ends_with(progress_sql(user_id, date).0, " AND t.due_date = '"@ + date_text(date) + "')"@)
            && ends_with(progress_sql(user_id, date).1, " AND t.due_date = '"@ + date_text(date) + "')"@),
        date.day == 0 ==> ends_with(
            progress_sql(user_id, date).0,
            " AND MONTH(t.due_date) = "@ + decimal(date.month as int) + " AND YEAR(t.due_date) = "@
                + decimal(date.year as int) + ")"@,
        ) && ends_with(
            progress_sql(user_id, date).1,
            " AND MONTH(t.due_date) = "@ + decimal(date.month as int) + " AND YEAR(t.due_date) = "@
                + decimal(date.year as int) + ")"@,
        ),
{
    let r = progress_sql(user_id, date);
    if date.day != 0 {
        let t = " AND t.due_date = '"@ + date_text(date) + "')"@;
        assert(r.0.skip(r.0.len() - t.len()) =~= t);
        assert(r.1.skip(r.1.len() - t.len()) =~= t);
    } else {
        let t = " AND MONTH(t.due_date) = "@ + decimal(date.month as int) + " AND YEAR(t.due_date) = "@
            + decimal(date.year as int) + ")"@;
        assert(r.0.skip(r.0.len() - t.len()) =~= t);
        assert(r.1.skip(r.1.len() - t.len()) =~= t);
    }
}

/// The listing for a date with a day restricts `t.due_date` to the displayed
/// date and orders by due time; only day 0 lists a whole month.
pub proof fn lemma_tasks_scope(user_id: i32, date: Date)
    ensures
        date.day != 0 ==> ends_with(
            tasks_sql(user_id, date),
            " AND t.due_date = '"@ + date_text(date) + "') ORDER BY t.due_time"@,
        ),
        date.day == 0 ==> ends_with(
            tasks_sql(user_id, date),
            " AND MONTH(t.due_date) = "@ + decimal(date.month as int) + " AND YEAR(t.due_date) = "@
                + decimal(date.year as int) + ")"@,
        ),
{
    let r = tasks_sql(user_id, date);
    if date.day != 0 {
        let t = " AND t.due_date = '"@ + date_text(date) + "') ORDER BY t.due_time"@;
        assert(r.skip(r.len() - t.len()) =~= t);
    } else {
        let t = " AND MONTH(t.due_date) = "@ + decimal(date.month as int) + " AND YEAR(t.due_date) = "@
            + decimal(date.year as int) + ")"@;
        assert(r.skip(r.len() - t.len()) =~= t);
    }
}

} // verus!

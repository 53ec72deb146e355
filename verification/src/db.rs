//! Recurring tasks: their schedules, the statements that store and look up
//! task instances, and the splitting of SQL scripts into statements.

use vstd::prelude::*;
use crate::text::{decimal, push_i32, split_on, split_str, str_views, trim, trim_str};
use crate::util::{
    civil_weekday, date_text, day_mask_from_date, day_number, is_valid_ymd, weekday_at, weekday_mask,
    Date, Weekday,
};

verus! {

/// How often a recurring task falls due.
#[derive(Clone, Copy, Debug, PartialEq, Eq, Structural)]
pub enum Frequency {
    /// Once, on its start date.
    Once,
    /// Every day.
    Daily,
    /// On the days whose bits are set (Sunday is bit 0).
    Weekly(i32),
}

/// The schedule stored as a frequency type (0, 1 or 2) and value.
pub open spec fn frequency_of(t: i32, value: i32) -> Frequency {
    if t == 0 {
        Frequency::Once
    } else if t == 1 {
        Frequency::Daily
    } else {
        Frequency::Weekly(value)
    }
}

impl Frequency {
    /// Reads a stored schedule; the type must be 0 (once), 1 (daily) or 2 (weekly,
    /// with `value` holding the day bits).
    pub fn from(t: i32, value: i32) -> (f: Self)
        requires
            0 <= t <= 2,
        ensures
            f == frequency_of(t, value),
    {
        if t == 0 {
            Frequency::Once
        } else if t == 1 {
            Frequency::Daily
        } else {
            Frequency::Weekly(value)
        }
    }
}

/// A task instance: one occurrence of a recurring task on a date.
#[derive(Clone, Debug)]
pub struct Task {
    pub proto_id: i32,
    pub user_id: i32,
    pub due_date: String,
    pub due_time: String,
}

/// A time column value: the quoted time, or `NULL` when there is none.
pub open spec fn time_sql(time: Seq<char>) -> Seq<char> {
    if time.len() > 0 {
        "'"@ + time + "'"@
    } else {
        "NULL"@
    }
}

fn push_time_sql(out: &mut String, time: &str)
    ensures
        final(out)@ == old(out)@ + time_sql(time@),
{
    if time.unicode_len() > 0 {
        out.append("'");
        out.append(time);
        out.append("'");
        assert(out@ =~= old(out)@ + time_sql(time@));
    } else {
        out.append("NULL");
    }
}

/// The statement that stores a task instance.
pub open spec fn create_task_sql(t: Task) -> Seq<char> {
    "INSERT into task (proto_id, user_id, due_date, due_time) VALUES ("@ + decimal(t.proto_id as int)
        + ", "@ + decimal(t.user_id as int) + ", DATE('"@ + t.due_date@ + "'), "@ + time_sql(
        t.due_time@,
    ) + ")"@
}

/// Builds the statement that stores a task instance.
pub fn create_task_query(task: &Task) -> (q: String)
    ensures
        q@ == create_task_sql(*task),
{
    let mut q = String::new();
    q.append("INSERT into task (proto_id, user_id, due_date, due_time) VALUES (");
    push_i32(&mut q, task.proto_id);
    q.append(", ");
    push_i32(&mut q, task.user_id);
    q.append(", DATE('");
    q.append(task.due_date.as_str());
    q.append("'), ");
    push_time_sql(&mut q, task.due_time.as_str());
    q.append(")");
    assert(q@ =~= create_task_sql(*task));
    q
}

/// The statement that lists a user's recurring tasks running on a date: started
/// on or before it and ending on or after it.
pub open spec fn recurring_tasks_sql(user_id: i32, date: Date) -> Seq<char> {
    "SELECT * FROM recurring_task WHERE user_id = "@ + decimal(user_id as int)
        + " AND start_date <= '"@ + date_text(date) + "' AND end_date >= '"@ + date_text(date) + "'"@
}

/// Builds the statement that lists a user's recurring tasks for a date.
pub fn recurring_tasks_query(user_id: i32, date: Date) -> (q: String)
    ensures
        q@ == recurring_tasks_sql(user_id, date),
{
    let date_str = date.to_string();
    let mut q = String::new();
    q.append("SELECT * FROM recurring_task WHERE user_id = ");
    push_i32(&mut q, user_id);
    q.append(" AND start_date <= '");
    q.append(date_str.as_str());
    q.append("' AND end_date >= '");
    q.append(date_str.as_str());
    q.append("'");
    assert(q@ =~= recurring_tasks_sql(user_id, date));
    q
}

/// The statement that counts the instances of a recurring task on a date.
pub open spec fn task_count_sql(user_id: i32, proto_id: i32, date: Date) -> Seq<char> {
    "SELECT CAST(COUNT(*) AS INT) FROM task WHERE user_id = "@ + decimal(user_id as int)
        + " AND proto_id = "@ + decimal(proto_id as int) + " AND due_date = '"@ + date_text(date)
        + "'"@
}

fn task_count_query(user_id: i32, proto_id: i32, date: Date) -> (q: String)
    ensures
        q@ == task_count_sql(user_id, proto_id, date),
{
    let mut q = String::new();
    q.append("SELECT CAST(COUNT(*) AS INT) FROM task WHERE user_id = ");
    push_i32(&mut q, user_id);
    q.append(" AND proto_id = ");
    push_i32(&mut q, proto_id);
    q.append(" AND due_date = '");
    let date_str = date.to_string();
    q.append(date_str.as_str());
    q.append("'");
    assert(q@ =~= task_count_sql(user_id, proto_id, date));
    q
}

/// Whether a schedule falls due on a day with the given weekday bit.
pub open spec fn due_with_mask(f: Frequency, day_mask: i32) -> bool {
    match f {
        Frequency::Once => false,
        Frequency::Daily => true,
        Frequency::Weekly(bits) => bits & day_mask != 0,
    }
}

/// Whether a schedule falls due on a date: a one-off task never again, a daily
/// one always, a weekly one when the bit of the date's weekday is set.
pub open spec fn due_on(f: Frequency, date: Date) -> bool {
    match f {
        Frequency::Once => false,
        Frequency::Daily => true,
        Frequency::Weekly(bits) => bits & weekday_mask(
            civil_weekday(date.year as int, date.month as u32 as int, date.day as u32 as int),
        ) != 0,
    }
}

/// Whether a schedule falls due on a day with the given weekday bit.
pub fn is_due(f: Frequency, day_mask: i32) -> (due: bool)
    ensures
        due == due_with_mask(f, day_mask),
{
    match f {
        Frequency::Once => false,
        Frequency::Daily => true,
        Frequency::Weekly(bits) => bits & day_mask != 0,
    }
}

/// For a recurring task, the statement that counts its instances on `date`
/// when it falls due that day, and `None` when it does not. A weekly task
/// needs an existing date.
pub fn count_query_for(f: Frequency, user_id: i32, proto_id: i32, date: Date) -> (q: Option<String>)
    requires
        f is Weekly ==> is_valid_ymd(date.year as int, date.month as u32 as int, date.day as u32 as int),
    ensures
        q is Some <==> due_on(f, date),
        q matches Some(s) ==> s@ == task_count_sql(user_id, proto_id, date),
{
    let due = match f {
        Frequency::Daily => true,
        Frequency::Weekly(_) => is_due(f, day_mask_from_date(date)),
        Frequency::Once => false,
    };
    if due {
        Some(task_count_query(user_id, proto_id, date))
    } else {
        None
    }
}

/// The instance to store for a recurring task that is due, given how many
/// instances it already has on the date: one when it has none.
pub fn task_to_create(count: i32, proto_id: i32, user_id: i32, date: Date, due_time: String) -> (t: Option<Task>)
    ensures
        t is Some <==> count == 0,
        t matches Some(task) ==> task.proto_id == proto_id && task.user_id == user_id
            && task.due_date@ == date_text(date) && task.due_time@ == due_time@,
{
    if count == 0 {
        Some(Task { proto_id, user_id, due_date: date.to_string(), due_time })
    } else {
        None
    }
}

/// A daily task is due every day, a one-off task never on a later pass, and
/// a weekly task with all seven day bits on every existing date and with
/// none never.
pub proof fn lemma_schedules(date: Date, w: Weekday)
    ensures
        due_on(Frequency::Daily, date),
        !due_on(Frequency::Once, date),
        due_with_mask(Frequency::Weekly(127), weekday_mask(w)),
        !due_with_mask(Frequency::Weekly(0), weekday_mask(w)),
        due_on(Frequency::Weekly(127), date),
        !due_on(Frequency::Weekly(0), date),
{
    assert(127i32 & 1i32 != 0) by (bit_vector);
    assert(127i32 & 2i32 != 0) by (bit_vector);
    assert(127i32 & 4i32 != 0) by (bit_vector);
    assert(127i32 & 8i32 != 0) by (bit_vector);
    assert(127i32 & 16i32 != 0) by (bit_vector);
    assert(127i32 & 32i32 != 0) by (bit_vector);
    assert(127i32 & 64i32 != 0) by (bit_vector);
    assert(forall|x: i32| #[trigger] (0i32 & x) == 0) by (bit_vector);
    let dw = civil_weekday(date.year as int, date.month as u32 as int, date.day as u32 as int);
    assert(due_with_mask(Frequency::Weekly(127), weekday_mask(dw)));
}


/// The statements of pieces of a script: each piece trimmed, empty ones dropped.
pub open spec fn statements_of(pieces: Seq<Seq<char>>) -> Seq<Seq<char>>
    decreases pieces.len(),
{
    if pieces.len() == 0 {
        Seq::empty()
    } else {
        let init = statements_of(pieces.drop_last());
        let t = trim(pieces.last());
        if t.len() > 0 {
            init.push(t)
        } else {
            init
        }
    }
}

/// The statements of an SQL script, separated by `;`.
pub open spec fn script_statements(script: Seq<char>) -> Seq<Seq<char>> {
    statements_of(split_on(script, ';'))
}

/// Splits an SQL script into its statements, in order.
pub fn sql_statements(script: &str) -> (stmts: Vec<&str>)
    ensures
        str_views(stmts@) == script_statements(script@),
        forall|i: int| 0 <= i < stmts@.len() ==> (#[trigger] stmts@[i])@.len() > 0
            && !stmts@[i]@.contains(';'),
{
    let pieces = split_str(script, ';');
    let ghost pv = str_views(pieces@);
    proof { crate::text::lemma_split_on_pieces_lack(script@, ';'); }
    let mut stmts: Vec<&str> = Vec::new();
    let mut i: usize = 0;
    assert(pv.take(0) =~= Seq::<Seq<char>>::empty());
    while i < pieces.len()
        invariant
            pv == str_views(pieces@),
            pv == split_on(script@, ';'),
            forall|k: int| 0 <= k < pv.len() ==> !(#[trigger] pv[k]).contains(';'),
            i <= pieces@.len(),
            str_views(stmts@) == statements_of(pv.take(i as int)),
            forall|k: int| 0 <= k < stmts@.len() ==> (#[trigger] stmts@[k])@.len() > 0
                && !stmts@[k]@.contains(';'),
        decreases pieces@.len() - i,
    {
        assert(pv.take(i + 1).drop_last() =~= pv.take(i as int));
        assert(pv.take(i + 1).last() == pieces@[i as int]@);
        let t = trim_str(pieces[i]);
        proof { crate::text::lemma_trim_keeps_absence(pv[i as int], ';'); }
        if t.unicode_len() > 0 {
            let ghost before = stmts@;
            stmts.push(t);
            assert(str_views(stmts@) =~= str_views(before).push(t@));
        }
        i = i + 1;
    }
    assert(pv.take(pieces@.len() as int) =~= pv);
    stmts
}


/// How many days a date lies after a Sunday: 0 on Sundays, 1 on Mondays, up
/// to 6 on Saturdays, counted from Sunday 1970-01-04.
pub open spec fn days_since_sunday(date: Date) -> int {
    (day_number(date.year as int, date.month as u32 as int, date.day as u32 as int)
        - day_number(1970, 1, 4)) % 7
}

/// A weekly schedule is due on a date exactly when the bit for the date's day
/// of the week is set in its day bits, Sunday being bit 0 and Saturday bit 6:
/// `Weekly(1)` is due on every Sunday only, `Weekly(64)` on every Saturday only.
pub proof fn lemma_weekly_due_on_day_bit(bits: i32, date: Date)
    ensures
        due_on(Frequency::Weekly(bits), date) <==> ((bits >> (days_since_sunday(date) as u32)) & 1i32)
            == 1i32,
{
    let n = day_number(date.year as int, date.month as u32 as int, date.day as u32 as int);
    let i = (n + 5) % 7;
    let k = days_since_sunday(date);
    assert(day_number(1970, 1, 4) == 719531);
    assert(k == (i + 1) % 7);
    assert(civil_weekday(date.year as int, date.month as u32 as int, date.day as u32 as int) == weekday_at(i));
    assert(forall|b: i32, s: u32| 0 <= s < 7 ==> (((b & (1i32 << s)) != 0) <==> (((b >> s) & 1i32) == 1i32)))
        by (bit_vector);
    assert((1i32 << 0u32) == 1i32) by (bit_vector);
    assert((1i32 << 1u32) == 2i32) by (bit_vector);
    assert((1i32 << 2u32) == 4i32) by (bit_vector);
    assert((1i32 << 3u32) == 8i32) by (bit_vector);
    assert((1i32 << 4u32) == 16i32) by (bit_vector);
    assert((1i32 << 5u32) == 32i32) by (bit_vector);
    assert((1i32 << 6u32) == 64i32) by (bit_vector);
    assert(weekday_mask(weekday_at(i)) == (1i32 << (k as u32)));
}


proof fn lemma_statements_of_concat(x: Seq<Seq<char>>, y: Seq<Seq<char>>)
    ensures
        statements_of(x + y) == statements_of(x) + statements_of(y),
    decreases y.len(),
{
    if y.len() == 0 {
        assert(x + y =~= x);
        assert(statements_of(x) + statements_of(y) =~= statements_of(x));
    } else {
        lemma_statements_of_concat(x, y.drop_last());
        assert((x + y).drop_last() =~= x + y.drop_last());
        assert((x + y).last() == y.last());
        assert(statements_of(x + y) =~= statements_of(x) + statements_of(y));
    }
}

/// A script without any `;` is one statement (trimmed), or none when it is blank.
pub proof fn lemma_script_single_statement(s: Seq<char>)
    requires
        !s.contains(';'),
    ensures
        script_statements(s) == (if trim(s).len() > 0 { seq![trim(s)] } else { Seq::<Seq<char>>::empty() }),
{
    crate::text::lemma_split_on_single(s, ';');
    let one = seq![s];
    assert(one.drop_last() =~= Seq::<Seq<char>>::empty());
    assert(one.last() == s);
    assert(statements_of(one.drop_last()) =~= Seq::<Seq<char>>::empty());
    assert(script_statements(s) == statements_of(one));
    if trim(s).len() > 0 {
        assert(statements_of(one) =~= seq![trim(s)]);
    } else {
        assert(statements_of(one) =~= Seq::<Seq<char>>::empty());
    }
}

/// The statements of two scripts joined by a `;` are those of the first
/// followed by those of the second: every piece between semicolons, the one
/// after the last `;` included, is run, in order.
pub proof fn lemma_script_concat(a: Seq<char>, b: Seq<char>)
    ensures
        script_statements(a + seq![';'] + b) == script_statements(a) + script_statements(b),
{
    crate::text::lemma_split_on_concat(a, ';', b);
    lemma_statements_of_concat(split_on(a, ';'), split_on(b, ';'));
}

} // verus!

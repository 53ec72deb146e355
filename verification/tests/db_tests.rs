use planner::db::{
    count_query_for, create_task_query, is_due, recurring_tasks_query, sql_statements,
    task_to_create, Frequency, Task,
};
use planner::util::Date;

fn task(due_time: &str) -> Task {
    Task { proto_id: 4, user_id: 9, due_date: "2024-05-06".to_string(), due_time: due_time.to_string() }
}

#[test]
fn frequency_from_stored_values() {
    assert_eq!(Frequency::from(0, 5), Frequency::Once);
    assert_eq!(Frequency::from(1, 5), Frequency::Daily);
    assert_eq!(Frequency::from(2, 5), Frequency::Weekly(5));
}

#[test]
fn create_task_statement() {
    assert_eq!(
        create_task_query(&task("08:30:00")),
        "INSERT into task (proto_id, user_id, due_date, due_time) VALUES (4, 9, DATE('2024-05-06'), '08:30:00')"
    );
    assert_eq!(
        create_task_query(&task("")),
        "INSERT into task (proto_id, user_id, due_date, due_time) VALUES (4, 9, DATE('2024-05-06'), NULL)"
    );
}

#[test]
fn recurring_tasks_statement() {
    let date = Date { year: 2024, month: 5, day: 6 };
    assert_eq!(
        recurring_tasks_query(-3, date),
        "SELECT * FROM recurring_task WHERE user_id = -3 AND start_date <= '2024-05-06' AND end_date >= '2024-05-06'"
    );
}

#[test]
fn count_statement_only_when_due() {
    // 2024-05-06 was a Monday (bit 1).
    let date = Date { year: 2024, month: 5, day: 6 };
    let expected = "SELECT CAST(COUNT(*) AS INT) FROM task WHERE user_id = 9 AND proto_id = 4 AND due_date = '2024-05-06'";
    assert_eq!(count_query_for(Frequency::Daily, 9, 4, date).as_deref(), Some(expected));
    assert_eq!(count_query_for(Frequency::Weekly(0b10), 9, 4, date).as_deref(), Some(expected));
    assert_eq!(count_query_for(Frequency::Weekly(0b1111101), 9, 4, date), None);
    assert_eq!(count_query_for(Frequency::Once, 9, 4, date), None);
    let month = Date { year: 2024, month: 5, day: 0 };
    assert!(count_query_for(Frequency::Daily, 9, 4, month).is_some());
}

#[test]
fn schedules_on_every_day() {
    for mask in [1, 2, 4, 8, 16, 32, 64] {
        assert!(is_due(Frequency::Daily, mask));
        assert!(!is_due(Frequency::Once, mask));
        assert!(is_due(Frequency::Weekly(127), mask));
        assert!(!is_due(Frequency::Weekly(0), mask));
    }
}

#[test]
fn task_created_only_without_instances() {
    let date = Date { year: 2024, month: 5, day: 6 };
    let t = task_to_create(0, 4, 9, date, "".to_string()).unwrap();
    assert_eq!((t.proto_id, t.user_id, t.due_date.as_str(), t.due_time.as_str()), (4, 9, "2024-05-06", ""));
    assert!(task_to_create(1, 4, 9, date, "".to_string()).is_none());
}

#[test]
fn script_statements_are_trimmed_and_non_empty() {
    let script = "CREATE TABLE a (x INT);\n\n  CREATE TABLE b (y INT) ;\n;  \n";
    let expected: Vec<&str> = script.split(';').map(|q| q.trim()).filter(|q| !q.is_empty()).collect();
    assert_eq!(sql_statements(script), expected);
    assert_eq!(sql_statements(script), vec!["CREATE TABLE a (x INT)", "CREATE TABLE b (y INT)"]);
    assert!(sql_statements("  ;; \n").is_empty());
}

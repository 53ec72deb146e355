use planner::api::{
    create_user_query, delete_proto_task_queries, delete_task_query, deletions_from_args,
    drop_table_query, login_query, new_user_error, progress_queries, proto_tasks_query,
    requested_user_id, tasks_query, update_task_query, user_query, CreateTaskInfo,
    CreateUserInfo, Frequency, LoginInfo, NewUserError, TableDeletion, TaskInfo, TaskRow,
    UpdateTaskInfo,
};
use planner::util::{hash_string, Date};

fn user(fullname: &str, username: &str, password: &str) -> CreateUserInfo {
    CreateUserInfo { fullname: fullname.into(), username: username.into(), password: password.into() }
}

fn create_info(is_range: bool, time: &str, end_date: &str, frequency_type: i32) -> CreateTaskInfo {
    CreateTaskInfo {
        title: "Read".into(),
        frequency_type,
        day_bits: 42,
        is_range,
        range_min: 0,
        range_max: 30,
        date: "2024-05-06".into(),
        time: time.into(),
        end_date: end_date.into(),
        description: "pages".into(),
    }
}

#[test]
fn frequency_codes() {
    assert_eq!(Frequency::Once.code(), 0);
    assert_eq!(Frequency::Daily.code(), 1);
    assert_eq!(Frequency::Weekly.code(), 2);
}

#[test]
fn login_statement_uses_password_hash() {
    let info = LoginInfo { username: "ann".into(), password: "pw".into() };
    assert_eq!(
        login_query(&info),
        format!(
            "SELECT id, username, password_hash FROM user WHERE (username = 'ann') AND (password_hash = {})",
            hash_string("pw")
        )
    );
}

#[test]
fn registration_checks_in_order() {
    assert_eq!(new_user_error(&user("", "", "")), Some(NewUserError::NoUsername));
    assert_eq!(new_user_error(&user("", "ann", "")), Some(NewUserError::NoName));
    assert_eq!(new_user_error(&user("Ann", "ann", "")), Some(NewUserError::NoPassword));
    assert_eq!(new_user_error(&user("Ann", "ann", "pw")), None);
    assert_eq!(NewUserError::NoUsername.message(), "No username given");
    assert_eq!(NewUserError::NoName.message(), "No name given");
    assert_eq!(NewUserError::NoPassword.message(), "No password set");
    assert_eq!(
        create_user_query(&user("Ann", "ann", "pw")),
        format!("INSERT INTO user (username, fullname, password_hash) VALUES ('ann', 'Ann', {})", hash_string("pw"))
    );
}

#[test]
fn progress_statements_by_month_and_day() {
    let (v, m) = progress_queries(3, Date { year: 2024, month: 5, day: 0 });
    assert_eq!(v, "SELECT CAST(COALESCE(SUM(t.completion_value), 0) AS INT) FROM task AS t JOIN recurring_task AS p ON p.proto_id = t.id WHERE (t.user_id = 3 AND MONTH(t.due_date) = 5 AND YEAR(t.due_date) = 2024)");
    assert_eq!(m, "SELECT CAST(COALESCE(SUM(p.completion_max), 0) AS INT) FROM task AS t JOIN recurring_task AS p ON p.proto_id = t.id WHERE (t.user_id = 3 AND MONTH(t.due_date) = 5 AND YEAR(t.due_date) = 2024)");
    let (v, m) = progress_queries(3, Date { year: 2024, month: 5, day: 6 });
    assert_eq!(v, "SELECT CAST(COALESCE(SUM(t.completion_value), 0) AS INT) FROM task AS t JOIN recurring_task AS p ON t.proto_id = p.proto_id WHERE (t.user_id = 3 AND t.due_date = '2024-05-06')");
    assert_eq!(m, "SELECT CAST(COALESCE(SUM(p.completion_max), 0) AS INT) FROM task AS t JOIN recurring_task AS p ON t.proto_id = p.proto_id WHERE (t.user_id = 3 AND t.due_date = '2024-05-06')");
}

#[test]
fn task_listing_statements() {
    let cols = "SELECT t.id, t.proto_id AS proto_id, t.user_id, t.completion_value, t.due_date, t.due_date, t.due_time, p.proto_id, p.title, p.frequency_type, p.frequency_value, p.is_range, p.completion_max, p.description FROM task AS t JOIN recurring_task AS p ON t.proto_id = p.proto_id";
    assert_eq!(
        tasks_query(3, Date { year: 2024, month: 5, day: 0 }),
        format!("{cols} WHERE (p.user_id = 3 AND MONTH(t.due_date) = 5 AND YEAR(t.due_date) = 2024)")
    );
    assert_eq!(
        tasks_query(3, Date { year: 2024, month: 5, day: 6 }),
        format!("{cols} WHERE (p.user_id = 3 AND t.due_date = '2024-05-06') ORDER BY t.due_time")
    );
}

#[test]
fn task_info_from_row() {
    let row = TaskRow {
        id: 1, proto_id: 2, title: "Run".into(), completion_value: 3, frequency_type: 2,
        frequency_value: 5, is_range: true, completion_max: 10, description: "km".into(),
        due_time: "07:00:00".into(),
    };
    let t = TaskInfo::from_row(row);
    assert_eq!((t.id, t.proto_id, t.day_bits, t.range_min, t.range_max, t.completion_value), (1, 2, 5, 0, 10, 3));
    assert_eq!((t.title.as_str(), t.description.as_str(), t.due_time.as_str()), ("Run", "km", "07:00:00"));
    assert!(t.is_range);
}

#[test]
fn recurring_task_statement() {
    let mut info = create_info(false, "", "", 1);
    info.normalize_range();
    assert_eq!(info.range_max, 1);
    assert_eq!(
        info.insert_query(7),
        "INSERT INTO recurring_task (title, frequency_type, frequency_value, user_id, is_range, completion_max, start_date, due_time, end_date, description) VALUES ('Read', 1, 42, 7, false, 1, DATE('2024-05-06'), NULL, DATE('2099-01-01'), 'pages')"
    );
    let mut info = create_info(true, "09:00", "2024-12-31", 0);
    info.normalize_range();
    assert_eq!(info.range_max, 30);
    assert_eq!(
        info.insert_query(7),
        "INSERT INTO recurring_task (title, frequency_type, frequency_value, user_id, is_range, completion_max, start_date, due_time, end_date, description) VALUES ('Read', 0, 42, 7, true, 30, DATE('2024-05-06'), '09:00', DATE('2024-12-31'), 'pages')"
    );
    let t = info.initial_task(11, 7).unwrap();
    assert_eq!((t.proto_id, t.user_id, t.due_date.as_str(), t.due_time.as_str()), (11, 7, "2024-05-06", "09:00"));
    assert!(create_info(true, "", "", 2).initial_task(11, 7).is_none());
}

#[test]
fn small_statements() {
    assert_eq!(update_task_query(5, &UpdateTaskInfo { completion_value: 8 }), "UPDATE task SET completion_value = 8 WHERE id = 5");
    assert_eq!(delete_task_query(5), "DELETE FROM task WHERE id = 5");
    let (a, b) = delete_proto_task_queries(6);
    assert_eq!(a, "DELETE FROM task WHERE proto_id = 6");
    assert_eq!(b, "DELETE FROM recurring_task WHERE proto_id = 6");
    assert_eq!(user_query(-1), "SELECT * FROM user WHERE id = -1");
    assert_eq!(proto_tasks_query(2), "SELECT * FROM recurring_task WHERE user_id = 2");
    assert_eq!(drop_table_query("task"), "DROP TABLE IF EXISTS task");
}

#[test]
fn requested_user_defaults_to_minus_one() {
    assert_eq!(requested_user_id(Some("12")), 12);
    assert_eq!(requested_user_id(Some("abc")), -1);
    assert_eq!(requested_user_id(None), -1);
}

#[test]
fn deletions_stop_at_star() {
    let args: Vec<String> = ["deletex=task", "other", "delete", "delete=user=1", "delete=*", "delete=late"]
        .iter().map(|s| s.to_string()).collect();
    assert_eq!(
        deletions_from_args(&args),
        vec![TableDeletion::Table("task"), TableDeletion::Table("user"), TableDeletion::All]
    );
    let none: Vec<String> = vec![];
    assert!(deletions_from_args(&none).is_empty());
}

#[test]
fn prototype_task_from_row() {
    let row = planner::api::PrototypeRow {
        proto_id: 3, title: "Swim".into(), frequency_type: 2, frequency_value: 9,
        start_date: "2024-01-01".into(), end_date: "2099-01-01".into(), due_time: "".into(),
        description: "pool".into(),
    };
    let t = planner::api::PrototypeTask::from_row(row);
    assert_eq!((t.proto_id, t.frequency_type, t.day_bits), (3, 2, 9));
    assert_eq!((t.title.as_str(), t.due_date.as_str(), t.end_date.as_str(), t.due_time.as_str(), t.description.as_str()),
        ("Swim", "2024-01-01", "2099-01-01", "", "pool"));
}

use rusqlite::Connection;
use sweeper::decode::ScheduleRequest;
use sweeper::store::{
    answered, due_only, due_statement, insert_statement, listed, remove_statement,
    setup_statement, ScheduleRecord, ScheduleStore, SqlParam, StoreError, CREATE_TABLE,
    DELETE_RECORD, INSERT_RECORD, SELECT_DUE,
};

fn open_store() -> ScheduleStore {
    let store = ScheduleStore::new(Connection::open_in_memory().unwrap());
    store.setup_db().unwrap();
    store
}

fn request(path: &str, expire_at: i32) -> ScheduleRequest {
    ScheduleRequest {
        path: path.to_string(),
        attribute_name: "user.expire_at".to_string(),
        expire_at,
    }
}

fn stored(id: i64, path: &str, expire_at: i32) -> ScheduleRecord {
    ScheduleRecord {
        id,
        path: path.to_string(),
        attribute_name: "user.expire_at".to_string(),
        expire_at,
    }
}

fn sorted_paths(records: &[ScheduleRecord]) -> Vec<String> {
    let mut paths: Vec<String> = records.iter().map(|r| r.path.clone()).collect();
    paths.sort();
    paths
}

#[test]
fn empty_schedule_lists_nothing() {
    let store = open_store();
    assert_eq!(store.list_due(i64::MAX).unwrap(), vec![]);
}

#[test]
fn list_due_returns_exactly_the_due_subset() {
    let store = open_store();
    let times: [i32; 6] = [10, 20, 30, 40, 20, 50];
    for (i, t) in times.iter().enumerate() {
        store.insert(&request(&format!("/f{}", i), *t)).unwrap();
    }
    for now in [9i64, 10, 19, 20, 25, 30, 49, 50, 51] {
        let due = store.list_due(now).unwrap();
        let mut expected: Vec<String> = Vec::new();
        for (i, t) in times.iter().enumerate() {
            if (*t as i64) <= now {
                expected.push(format!("/f{}", i));
            }
        }
        assert_eq!(sorted_paths(&due), expected);
        assert!(due.iter().all(|r| (r.expire_at as i64) <= now));
        assert!(due.iter().all(|r| r.attribute_name == "user.expire_at"));
    }
}

#[test]
fn record_is_due_at_its_time_and_not_before() {
    let store = open_store();
    let id = store.insert(&request("/tmp/a", 1000000000)).unwrap();
    assert_eq!(store.list_due(999999999).unwrap(), vec![]);
    assert_eq!(store.list_due(1000000000).unwrap(), vec![stored(id, "/tmp/a", 1000000000)]);
    assert_eq!(store.list_due(1000000001).unwrap(), vec![stored(id, "/tmp/a", 1000000000)]);
}

#[test]
fn removed_record_is_absent_from_later_lists() {
    let store = open_store();
    let a = store.insert(&request("/a", 1)).unwrap();
    let b = store.insert(&request("/b", 2)).unwrap();
    let c = store.insert(&request("/c", 3)).unwrap();
    store.remove(b).unwrap();
    let due = store.list_due(10).unwrap();
    assert_eq!(sorted_paths(&due), vec!["/a".to_string(), "/c".to_string()]);
    assert!(due.iter().all(|r| r.id != b));
    store.remove(a).unwrap();
    store.remove(c).unwrap();
    assert_eq!(store.list_due(10).unwrap(), vec![]);
}

#[test]
fn removing_an_unknown_record_changes_nothing() {
    let store = open_store();
    let id = store.insert(&request("/a", 1)).unwrap();
    store.remove(id + 1000).unwrap();
    assert_eq!(store.list_due(1).unwrap(), vec![stored(id, "/a", 1)]);
}

#[test]
fn identifiers_are_distinct() {
    let store = open_store();
    let first = store.insert(&request("/a", 1)).unwrap();
    let second = store.insert(&request("/a", 1)).unwrap();
    let third = store.insert(&request("/b", 2)).unwrap();
    assert_ne!(first, second);
    assert_ne!(second, third);
    assert_ne!(first, third);
}

#[test]
fn schedules_for_one_path_are_kept_apart() {
    let store = open_store();
    let early = store.insert(&request("/same", 5)).unwrap();
    let late = store.insert(&request("/same", 15)).unwrap();
    assert_eq!(store.list_due(10).unwrap(), vec![stored(early, "/same", 5)]);
    let mut ids: Vec<i64> = store.list_due(20).unwrap().iter().map(|r| r.id).collect();
    ids.sort();
    assert_eq!(ids, vec![early, late]);
    store.remove(early).unwrap();
    assert_eq!(store.list_due(20).unwrap(), vec![stored(late, "/same", 15)]);
}

#[test]
fn setup_db_twice_keeps_the_records() {
    let store = open_store();
    let id = store.insert(&request("/a", 1)).unwrap();
    store.setup_db().unwrap();
    assert_eq!(store.list_due(1).unwrap(), vec![stored(id, "/a", 1)]);
}

#[test]
fn calls_without_the_table_fail() {
    let store = ScheduleStore::new(Connection::open_in_memory().unwrap());
    let error = store.insert(&request("/a", 1)).unwrap_err();
    assert!(!error.message.is_empty());
    assert!(store.list_due(1).is_err());
    assert!(store.remove(1).is_err());
}

#[test]
fn negative_times_and_paths_with_odd_characters_are_stored() {
    let store = open_store();
    let id = store.insert(&request("/tmp/it's \"quoted\"; -- é", -5)).unwrap();
    assert_eq!(store.list_due(-6).unwrap(), vec![]);
    assert_eq!(
        store.list_due(-5).unwrap(),
        vec![stored(id, "/tmp/it's \"quoted\"; -- é", -5)]
    );
}

#[test]
fn due_only_keeps_the_due_records_in_their_order() {
    let rows = vec![
        stored(1, "/a", 30),
        stored(2, "/b", 10),
        stored(3, "/c", 20),
        stored(4, "/d", 21),
        stored(5, "/e", i32::MIN),
    ];
    assert_eq!(
        due_only(&rows, 20),
        vec![stored(2, "/b", 10), stored(3, "/c", 20), stored(5, "/e", i32::MIN)]
    );
    assert_eq!(due_only(&rows, i64::MIN), vec![]);
    assert_eq!(due_only(&rows, i64::MAX), rows);
    assert_eq!(due_only(&Vec::new(), 0), vec![]);
}

#[test]
fn answer_that_went_well_is_handed_on() {
    assert_eq!(answered(Ok(17i64)), Ok(17i64));
    assert_eq!(answered(Ok(())), Ok(()));
}

#[test]
fn failure_keeps_the_text_of_the_database_layer() {
    assert_eq!(
        answered::<i64>(Err("no such table: sweeper".to_string())),
        Err(StoreError { message: "no such table: sweeper".to_string() })
    );
}

#[test]
fn listing_keeps_the_due_rows_of_the_answer() {
    let rows = vec![stored(1, "/a", 30), stored(2, "/b", 10), stored(3, "/c", 20)];
    assert_eq!(listed(Ok(rows), 20), Ok(vec![stored(2, "/b", 10), stored(3, "/c", 20)]));
    assert_eq!(listed(Ok(vec![]), 20), Ok(vec![]));
    assert_eq!(
        listed(Err("database is locked".to_string()), 20),
        Err(StoreError { message: "database is locked".to_string() })
    );
}

#[test]
fn failed_call_reports_what_the_database_said() {
    let store = ScheduleStore::new(Connection::open_in_memory().unwrap());
    let error = store.list_due(1).unwrap_err();
    assert!(error.message.contains("sweeper"));
    let error = store.remove(1).unwrap_err();
    assert!(error.message.contains("sweeper"));
}

#[test]
fn setup_statement_creates_the_table_and_takes_no_parameter() {
    let (sql, params) = setup_statement();
    assert_eq!(sql, CREATE_TABLE);
    assert!(sql.starts_with("CREATE TABLE IF NOT EXISTS sweeper"));
    assert_eq!(params, vec![]);
}

#[test]
fn insert_statement_binds_path_name_and_time_in_this_order() {
    let (sql, params) = insert_statement(&request("/tmp/a", 1000000000));
    assert_eq!(sql, INSERT_RECORD);
    assert_eq!(sql, "INSERT INTO sweeper (path, name, expire_at) VALUES (?1, ?2, ?3)");
    assert_eq!(
        params,
        vec![
            SqlParam::Text("/tmp/a".to_string()),
            SqlParam::Text("user.expire_at".to_string()),
            SqlParam::Integer(1000000000),
        ]
    );
    let (_, params) = insert_statement(&request("/b", i32::MIN));
    assert_eq!(params[2], SqlParam::Integer(-2147483648));
}

#[test]
fn due_statement_binds_the_time() {
    let (sql, params) = due_statement(1000000001);
    assert_eq!(sql, SELECT_DUE);
    assert_eq!(sql, "SELECT id, path, name, expire_at FROM sweeper WHERE expire_at <= ?1");
    assert_eq!(params, vec![SqlParam::Integer(1000000001)]);
    assert_eq!(due_statement(i64::MIN).1, vec![SqlParam::Integer(i64::MIN)]);
}

#[test]
fn remove_statement_binds_the_identifier() {
    let (sql, params) = remove_statement(42);
    assert_eq!(sql, DELETE_RECORD);
    assert_eq!(sql, "DELETE FROM sweeper WHERE id = ?1");
    assert_eq!(params, vec![SqlParam::Integer(42)]);
}

#[test]
fn stored_columns_are_the_ones_that_were_bound() {
    let store = open_store();
    let row = ScheduleRequest {
        path: "/the/path".to_string(),
        attribute_name: "the.name".to_string(),
        expire_at: 77,
    };
    let id = store.insert(&row).unwrap();
    let listed = store.list_due(77).unwrap();
    assert_eq!(listed.len(), 1);
    assert_eq!(listed[0].id, id);
    assert_eq!(listed[0].path, "/the/path");
    assert_eq!(listed[0].attribute_name, "the.name");
    assert_eq!(listed[0].expire_at, 77);
}

use dbclient::storage::{add_connection, delete_connection};
use dbclient::{DbConfig, SavedConnection, Session};

fn saved(id: &str, name: &str) -> SavedConnection {
    SavedConnection {
        id: id.to_string(),
        name: name.to_string(),
        config: DbConfig {
            host: "h".to_string(),
            port: 1,
            user: "u".to_string(),
            password: None,
            dbname: "d".to_string(),
        },
    }
}

fn names(list: &[SavedConnection]) -> Vec<String> {
    list.iter().map(|c| format!("{}:{}", c.id, c.name)).collect()
}

#[test]
fn add_appends_new_id() {
    let list = add_connection(vec![saved("1", "a")], saved("2", "b"));
    assert_eq!(names(&list), vec!["1:a", "2:b"]);
}

#[test]
fn add_replaces_same_id_in_place() {
    let list = add_connection(vec![saved("1", "a"), saved("2", "b"), saved("3", "c")], saved("2", "B"));
    assert_eq!(names(&list), vec!["1:a", "2:B", "3:c"]);
}

#[test]
fn delete_removes_matching_ids_only() {
    let list = delete_connection(vec![saved("1", "a"), saved("2", "b"), saved("1", "c")], "1");
    assert_eq!(names(&list), vec!["2:b"]);
    let same = delete_connection(vec![saved("1", "a")], "9");
    assert_eq!(names(&same), vec!["1:a"]);
}

#[test]
fn default_session_is_empty() {
    let s = Session::default();
    assert!(s.last_connection_id.is_none());
    assert!(s.last_saved_connection_id.is_none());
    assert!(s.last_table.is_none());
    assert!(s.last_query.is_none());
    assert!(s.tabs.is_none());
    assert!(s.active_tab_id.is_none());
}

use file_transfer::{str_contains, DbConnection, DbPrivilege, Person};

#[test]
fn new_connection_has_the_two_builtin_users() {
    let db = DbConnection::new();
    let joe = db.get_user_by_username("joe").expect("joe exists");
    assert_eq!(joe.username, "joe");
    assert_eq!(joe.password, "xjoe");
    assert_eq!(joe.privileges, vec![DbPrivilege::CanRead]);
    let susan = db.get_user_by_username("susan").expect("susan exists");
    assert_eq!(susan.username, "susan");
    assert_eq!(susan.password, "xsusan");
    assert_eq!(
        susan.privileges,
        vec![DbPrivilege::CanRead, DbPrivilege::CanWrite]
    );
    assert!(db.get_user_by_username("nobody").is_none());
}

#[test]
fn insert_assigns_incrementing_ids_from_one() {
    let mut db = DbConnection::new();
    let id1 = db.insert_person(Person {
        id: 0,
        name: "Juliet".to_string(),
    });
    let id2 = db.insert_person(Person {
        id: 77,
        name: "Romeo".to_string(),
    });
    assert_eq!(id1, 1);
    assert_eq!(id2, 2);
    let p = db.get_person_by_id(2).expect("just inserted");
    assert_eq!(p.id, 2);
    assert_eq!(p.name, "Romeo");
    assert!(db.get_person_by_id(3).is_none());
}

#[test]
fn delete_removes_only_the_named_person() {
    let mut db = DbConnection::new();
    db.insert_person(Person {
        id: 0,
        name: "Juliet".to_string(),
    });
    db.insert_person(Person {
        id: 0,
        name: "Romeo".to_string(),
    });
    assert!(db.delete_by_id(1));
    assert!(db.get_person_by_id(1).is_none());
    assert_eq!(db.get_person_by_id(2).expect("kept").name, "Romeo");
    assert!(!db.delete_by_id(1));
}

#[test]
fn update_replaces_the_record_with_that_id() {
    let mut db = DbConnection::new();
    db.insert_person(Person {
        id: 0,
        name: "Juliet".to_string(),
    });
    assert!(db.update_person(Person {
        id: 1,
        name: "Julia".to_string(),
    }));
    assert_eq!(db.get_person_by_id(1).expect("still there").name, "Julia");
    assert!(!db.update_person(Person {
        id: 9,
        name: "Nobody".to_string(),
    }));
}

#[test]
fn partial_name_search_filters_in_table_order() {
    let mut db = DbConnection::new();
    db.insert_person(Person {
        id: 0,
        name: "Juliet".to_string(),
    });
    db.insert_person(Person {
        id: 0,
        name: "Romeo".to_string(),
    });
    db.insert_person(Person {
        id: 0,
        name: "Julia".to_string(),
    });
    let hits = db.get_persons_by_partial_name("uli");
    assert_eq!(hits.len(), 2);
    assert_eq!(hits[0].name, "Juliet");
    assert_eq!(hits[1].name, "Julia");
    assert!(db.get_persons_by_partial_name("xyz").is_empty());
    assert_eq!(db.get_persons_by_partial_name("").len(), 3);
}

#[test]
fn str_contains_finds_substrings() {
    assert!(str_contains("hello world", "o w"));
    assert!(str_contains("hello", "hello"));
    assert!(str_contains("hello", ""));
    assert!(str_contains("", ""));
    assert!(!str_contains("", "a"));
    assert!(!str_contains("hello", "world"));
    assert!(!str_contains("ab", "aba"));
}

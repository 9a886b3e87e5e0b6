use query_facade::users::{
    KeyedUser, TableError, User, UserChange, UserFilter, UserForm, UserTable,
};

fn keyed(id: i32, name: &str) -> KeyedUser {
    KeyedUser { id, name: name.to_string(), hair_color: None }
}

fn names(table: &UserTable) -> Vec<(i32, String)> {
    table.rows().iter().map(|u| (u.id, u.name.clone())).collect()
}

#[test]
fn delete_by_key_removes_at_most_one_row() {
    let mut table = UserTable::new();
    table.insert_or_ignore(&vec![keyed(2, "Tess"), keyed(1, "Sean"), keyed(3, "Ruby")], 10);
    assert_eq!(table.delete_by_id(1), 1);
    assert_eq!(names(&table), vec![(2, "Tess".to_string()), (3, "Ruby".to_string())]);
    assert_eq!(table.delete_by_id(1), 0);
    assert_eq!(table.len(), 2);
    assert!(!table.contains(1));
    assert!(table.contains(2));
}

#[test]
fn insert_or_ignore_twice_is_insert_or_ignore_once() {
    let batch = vec![keyed(1, "Sean"), keyed(2, "Tess"), keyed(1, "Other")];
    let mut once = UserTable::new();
    once.insert_keyed(&keyed(2, "Old"), 1).unwrap();
    assert_eq!(once.insert_or_ignore(&batch, 10), 1);
    let mut twice = UserTable::new();
    twice.insert_keyed(&keyed(2, "Old"), 1).unwrap();
    assert_eq!(twice.insert_or_ignore(&batch, 10), 1);
    assert_eq!(twice.insert_or_ignore(&batch, 20), 0);
    assert_eq!(once.rows(), twice.rows());
    assert_eq!(names(&once), vec![(1, "Sean".to_string()), (2, "Old".to_string())]);
    assert_eq!(once.rows()[1].created_at, 1);
}

#[test]
fn replace_again_moves_the_timestamps() {
    let batch = vec![keyed(1, "Sean2"), keyed(2, "Tess2")];
    let mut table = UserTable::new();
    table.replace(&batch, 10);
    let before = table.latest(2);
    table.replace(&batch, 20);
    let after = table.latest(2);
    assert_eq!(before[1].name, after[1].name);
    assert_eq!(before[1].created_at, 10);
    assert_eq!(after[1].created_at, 20);
    assert_eq!(after[1].updated_at, 20);
    assert_ne!(before, after);
    assert_eq!(table.len(), 2);
}

#[test]
fn replace_overwrites_the_row_with_its_key() {
    let mut table = UserTable::new();
    table.replace(&vec![keyed(1, "Sean2"), keyed(2, "Tess2")], 10);
    table.replace(&vec![keyed(1, "Jim")], 11);
    assert_eq!(names(&table), vec![(1, "Jim".to_string()), (2, "Tess2".to_string())]);
    table.insert_or_ignore(&vec![keyed(1, "Sean"), keyed(2, "Tess")], 12);
    assert_eq!(names(&table), vec![(1, "Jim".to_string()), (2, "Tess2".to_string())]);
}

#[test]
fn taken_key_is_a_duplicate() {
    let mut table = UserTable::new();
    table.insert_keyed(&keyed(3, "Ruby"), 5).unwrap();
    assert_eq!(table.insert_keyed(&keyed(3, "Again"), 6), Err(TableError::DuplicateKey));
    assert_eq!(names(&table), vec![(3, "Ruby".to_string())]);
}

#[test]
fn form_gets_the_next_key_and_is_read_back() {
    let mut table = UserTable::new();
    let first = UserForm { name: "Sean".to_string(), hair_color: Some("Black".to_string()) };
    let second = UserForm { name: "Ruby".to_string(), hair_color: None };
    assert_eq!(table.insert_form(&first, 100), Ok(1));
    table.insert_keyed(&keyed(7, "Tess"), 101).unwrap();
    assert_eq!(table.insert_form(&second, 102), Ok(8));
    let read = table.latest(1);
    assert_eq!(
        read,
        vec![User {
            id: 8,
            name: "Ruby".to_string(),
            hair_color: None,
            created_at: 102,
            updated_at: 102,
        }]
    );
}

#[test]
fn no_key_is_left_above_the_greatest() {
    let mut table = UserTable::new();
    table.insert_keyed(&keyed(i32::MAX, "Last"), 1).unwrap();
    let form = UserForm { name: "Late".to_string(), hair_color: None };
    assert_eq!(table.insert_form(&form, 2), Err(TableError::KeyExhausted));
    assert_eq!(table.len(), 1);
}

#[test]
fn latest_gives_the_greatest_keys_in_ascending_order() {
    let mut table = UserTable::new();
    table.insert_or_ignore(&vec![keyed(5, "e"), keyed(1, "a"), keyed(3, "c")], 1);
    let ids: Vec<i32> = table.latest(2).iter().map(|u| u.id).collect();
    assert_eq!(ids, vec![3, 5]);
    assert_eq!(table.latest(9).len(), 3);
    assert_eq!(table.latest(0).len(), 0);
}

#[test]
fn update_touches_the_rows_that_meet_the_filter() {
    let mut table = UserTable::new();
    table.insert_or_ignore(&vec![keyed(1, "Rust"), keyed(2, "Tess"), keyed(3, "Rust")], 10);
    let change = UserChange {
        name: Some("Ruby".to_string()),
        hair_color: Some(Some("yellow".to_string())),
    };
    assert_eq!(table.update(&UserFilter::ByName("Rust".to_string()), &change, 20), Some(2));
    assert_eq!(
        names(&table),
        vec![(1, "Ruby".to_string()), (2, "Tess".to_string()), (3, "Ruby".to_string())]
    );
    assert_eq!(table.rows()[0].hair_color, Some("yellow".to_string()));
    assert_eq!(table.rows()[0].created_at, 10);
    assert_eq!(table.rows()[0].updated_at, 20);
    assert_eq!(table.rows()[1].updated_at, 10);
    let rename = UserChange { name: Some("James".to_string()), hair_color: None };
    assert_eq!(table.update(&UserFilter::ById(1), &rename, 30), Some(1));
    assert_eq!(table.update(&UserFilter::ById(9), &rename, 30), Some(0));
    assert_eq!(table.rows()[0].name, "James");
    assert_eq!(table.rows()[0].hair_color, Some("yellow".to_string()));
}

#[test]
fn update_that_assigns_nothing_is_refused() {
    let mut table = UserTable::new();
    table.insert_keyed(&keyed(1, "Sean"), 10).unwrap();
    let nothing = UserChange { name: None, hair_color: None };
    assert_eq!(table.update(&UserFilter::Every, &nothing, 20), None);
    assert_eq!(table.rows()[0].updated_at, 10);
}

#[test]
fn select_filters_orders_and_cuts_off() {
    let mut table = UserTable::new();
    table.insert_or_ignore(
        &vec![keyed(4, "Ruby"), keyed(1, "Ruby"), keyed(2, "Tess"), keyed(3, "Ruby")],
        10,
    );
    let ruby = UserFilter::ByName("Ruby".to_string());
    let ids = |rows: Vec<User>| rows.iter().map(|u| u.id).collect::<Vec<i32>>();
    assert_eq!(ids(table.select(&ruby, true, 2)), vec![4, 3]);
    assert_eq!(ids(table.select(&ruby, false, 5)), vec![1, 3, 4]);
    assert_eq!(ids(table.select(&UserFilter::Every, true, 1)), vec![4]);
    assert_eq!(ids(table.select(&UserFilter::Every, false, 0)), Vec::<i32>::new());
    assert_eq!(ids(table.select(&UserFilter::ById(2), false, 9)), vec![2]);
}

#[test]
fn delete_removes_the_rows_that_meet_the_filter() {
    let mut table = UserTable::new();
    table.insert_or_ignore(&vec![keyed(1, "Ruby"), keyed(2, "Tess"), keyed(3, "Ruby")], 10);
    assert_eq!(table.delete(&UserFilter::ByName("Ruby".to_string())), 2);
    assert_eq!(names(&table), vec![(2, "Tess".to_string())]);
    assert_eq!(table.delete(&UserFilter::ById(1)), 0);
    assert_eq!(table.delete(&UserFilter::ById(2)), 1);
    table.insert_or_ignore(&vec![keyed(5, "a"), keyed(6, "b")], 11);
    assert_eq!(table.delete(&UserFilter::Every), 2);
    assert_eq!(table.len(), 0);
}

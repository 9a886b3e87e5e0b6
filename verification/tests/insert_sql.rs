use query_facade::facade::{
    explicit_returning, insert_default_values, insert_insertable_struct,
    insert_insertable_struct_batch, insert_insertable_struct_option, insert_keyed,
    insert_multiple_columns, insert_single_column, insert_single_column_batch,
    insert_single_column_batch_with_default, insert_tuple_batch, insert_tuple_batch_with_default,
    latest_users,
};
use query_facade::insert::InsertKind;
use query_facade::users::{User, UserTable};

#[test]
fn examine_sql_from_insert_default_values() {
    let query = insert_default_values();
    let sql = "INSERT INTO `users` () VALUES () -- binds: []";
    assert_eq!(sql, query.render());
}

#[test]
fn examine_sql_from_insert_single_column() {
    let query = insert_single_column();
    let sql = "INSERT INTO `users` (`name`) VALUES (?) \
               -- binds: [\"Sean\"]";
    assert_eq!(sql, query.render());
}

#[test]
fn examine_sql_from_insert_multiple_columns() {
    let query = insert_multiple_columns();
    let sql = "INSERT INTO `users` (`name`, `hair_color`) VALUES (?, ?) \
               -- binds: [\"Tess\", \"Brown\"]";
    assert_eq!(sql, query.render());
}

#[test]
fn examine_sql_from_insertable_struct() {
    let query = insert_insertable_struct().unwrap();
    let sql = "INSERT INTO `users` (`name`, `hair_color`) VALUES (?, ?) \
               -- binds: [\"Sean\", \"Black\"]";
    assert_eq!(sql, query.render());
}

#[test]
fn examine_sql_from_insertable_struct_option() {
    let query = insert_insertable_struct_option().unwrap();
    let sql = "INSERT INTO `users` (`name`, `hair_color`) VALUES (?, DEFAULT) \
               -- binds: [\"Ruby\"]";
    assert_eq!(sql, query.render());
}

#[test]
fn examine_sql_from_insert_single_column_batch() {
    let query = insert_single_column_batch();
    let sql = "INSERT INTO `users` (`name`) VALUES (?), (?) \
               -- binds: [\"Sean\", \"Tess\"]";
    assert_eq!(sql, query.render());
}

#[test]
fn examine_sql_from_insert_single_column_batch_with_default() {
    let query = insert_single_column_batch_with_default();
    let sql = "INSERT INTO `users` (`name`) VALUES (?), (DEFAULT) \
               -- binds: [\"Sean\"]";
    assert_eq!(sql, query.render());
}

#[test]
fn examine_sql_from_insert_tuple_batch() {
    let query = insert_tuple_batch();
    let sql = "INSERT INTO `users` (`name`, `hair_color`) \
               VALUES (?, ?), (?, ?) \
               -- binds: [\"Sean\", \"Black\", \"Tess\", \"Brown\"]";
    assert_eq!(sql, query.render());
}

#[test]
fn examine_sql_from_insert_tuple_batch_with_default() {
    let query = insert_tuple_batch_with_default();
    let sql = "INSERT INTO `users` (`name`, `hair_color`) \
               VALUES (?, ?), (?, DEFAULT) \
               -- binds: [\"Sean\", \"Black\", \"Ruby\"]";
    assert_eq!(sql, query.render());
}

#[test]
fn examine_sql_from_insertable_struct_batch() {
    let query = insert_insertable_struct_batch().unwrap();
    let sql = "INSERT INTO `users` (`name`, `hair_color`) \
               VALUES (?, ?), (?, ?) \
               -- binds: [\"Sean\", \"Black\", \"Tess\", \"Brown\"]";
    assert_eq!(sql, query.render());
}

#[test]
fn insert_get_results_batch() {
    let now: i64 = 1_700_000_000;
    let mut users = UserTable::new();
    let insert = insert_keyed(InsertKind::Insert, &vec![(1, "Sean"), (2, "Tess")]).unwrap();
    let inserted_count = users.apply(&insert, now).unwrap();
    let inserted_users = users.latest(inserted_count);

    let expected_users = vec![
        User { id: 1, name: "Sean".into(), hair_color: None, created_at: now, updated_at: now },
        User { id: 2, name: "Tess".into(), hair_color: None, created_at: now, updated_at: now },
    ];
    assert_eq!(expected_users, inserted_users);
}

#[test]
fn examine_sql_from_insert_get_results_batch() {
    let insert_query = insert_keyed(InsertKind::Insert, &vec![(1, "Sean"), (2, "Tess")]).unwrap();
    let insert_sql = "INSERT INTO `users` (`id`, `name`) VALUES (?, ?), (?, ?) \
                      -- binds: [1, \"Sean\", 2, \"Tess\"]";
    assert_eq!(insert_sql, insert_query.render());
    let load_query = latest_users();
    let load_sql = "SELECT `users`.`id`, `users`.`name`, \
                    `users`.`hair_color`, `users`.`created_at`, \
                    `users`.`updated_at` \
                    FROM `users` \
                    ORDER BY `users`.`id` DESC \
                    -- binds: []";
    assert_eq!(load_sql, load_query.render());
}

#[test]
fn insert_get_result() {
    let now: i64 = 1_700_000_000;
    let mut users = UserTable::new();
    let insert = insert_keyed(InsertKind::Insert, &vec![(3, "Ruby")]).unwrap();
    users.apply(&insert, now).unwrap();
    let mut read = users.latest(1);
    let inserted_user = read.pop().unwrap();

    let expected_user =
        User { id: 3, name: "Ruby".into(), hair_color: None, created_at: now, updated_at: now };
    assert_eq!(expected_user, inserted_user);
}

#[test]
fn examine_sql_from_insert_get_result() {
    let insert_query = insert_keyed(InsertKind::Insert, &vec![(3, "Ruby")]).unwrap();
    let insert_sql = "INSERT INTO `users` (`id`, `name`) VALUES (?, ?) -- binds: [3, \"Ruby\"]";
    assert_eq!(insert_sql, insert_query.render());
    let load_query = latest_users();
    let load_sql = "SELECT `users`.`id`, `users`.`name`, \
                    `users`.`hair_color`, `users`.`created_at`, \
                    `users`.`updated_at` \
                    FROM `users` \
                    ORDER BY `users`.`id` DESC \
                    -- binds: []";
    assert_eq!(load_sql, load_query.render());
}

#[test]
fn examine_sql_from_explicit_returning() {
    let (insert_query, load_query) = explicit_returning();
    let insert_sql = "INSERT INTO `users` (`name`) VALUES (?) -- binds: [\"Ruby\"]";
    assert_eq!(insert_sql, insert_query.render());
    let load_sql = "SELECT `users`.`id` FROM `users` ORDER BY `users`.`id` DESC -- binds: []";
    assert_eq!(load_sql, load_query.render());
}

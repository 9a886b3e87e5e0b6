use query_facade::facade::{
    create_post, delete_all_users, names_by_key, replace_into_users, some_users, update_users,
};
use query_facade::query::{
    Assignment, DeleteStatement, Filter, OrderKey, SelectStatement, UpdateStatement,
};
use query_facade::text::SqlValue;

#[test]
fn delete_by_primary_key_filters_on_the_key() {
    let stmt = DeleteStatement::by_id("posts", 1);
    assert_eq!(stmt.render(), "DELETE FROM `posts` WHERE `posts`.`id` = ? -- binds: [1]");
}

#[test]
fn delete_by_pattern_uses_like() {
    let stmt = DeleteStatement::new("posts", vec![Filter::like("title", "%rust%")]);
    assert_eq!(
        stmt.render(),
        "DELETE FROM `posts` WHERE `posts`.`title` LIKE ? -- binds: [\"%rust%\"]"
    );
}

#[test]
fn delete_all_has_no_filter() {
    assert_eq!(delete_all_users().render(), "DELETE FROM `users` -- binds: []");
}

#[test]
fn update_without_assignments_is_refused() {
    assert!(UpdateStatement::new("users", vec![], vec![]).is_none());
}

#[test]
fn update_binds_assignments_before_filters() {
    let (first, second) = update_users();
    assert_eq!(
        first.render(),
        "UPDATE `users` SET `name` = ?, `hair_color` = ? WHERE `users`.`name` = ? \
         -- binds: [\"Ruby\", \"yellow\", \"Rust\"]"
    );
    assert_eq!(
        second.render(),
        "UPDATE `users` SET `name` = ? WHERE `users`.`id` = ? -- binds: [\"James\", 1]"
    );
}

#[test]
fn publish_sets_the_flag_of_one_post() {
    let stmt = UpdateStatement::new(
        "posts",
        vec![Filter::equals("id", SqlValue::Integer(12))],
        vec![Assignment::new("published", SqlValue::Boolean(true))],
    )
    .unwrap();
    assert_eq!(
        stmt.render(),
        "UPDATE `posts` SET `published` = ? WHERE `posts`.`id` = ? -- binds: [true, 12]"
    );
}

#[test]
fn listing_reads_names_counts_and_rubies() {
    let (names, distinct, count, rubies) = some_users();
    assert_eq!(names.render(), "SELECT `users`.`name` FROM `users` -- binds: []");
    assert_eq!(distinct.render(), "SELECT DISTINCT `users`.`name` FROM `users` -- binds: []");
    assert_eq!(count.render(), "SELECT COUNT(*) FROM `users` -- binds: []");
    assert_eq!(
        rubies.render(),
        "SELECT `users`.`id`, `users`.`name`, `users`.`hair_color`, `users`.`created_at`, \
         `users`.`updated_at` FROM `users` WHERE `users`.`name` = ? \
         ORDER BY `users`.`created_at` DESC, `users`.`id` DESC LIMIT ? -- binds: [\"Ruby\", 5]"
    );
}

#[test]
fn several_filters_are_joined_by_and() {
    let stmt = SelectStatement::columns("posts", &vec!["title"])
        .filter(Filter::equals("published", SqlValue::Boolean(true)))
        .filter(Filter::like("title", "%a%"))
        .order_by(OrderKey::ascending("id"))
        .limit(5);
    assert_eq!(
        stmt.render(),
        "SELECT `posts`.`title` FROM `posts` WHERE `posts`.`published` = ? AND \
         `posts`.`title` LIKE ? ORDER BY `posts`.`id` LIMIT ? -- binds: [true, \"%a%\", 5]"
    );
}

#[test]
fn upsert_scenario_has_four_writes() {
    let writes = replace_into_users();
    let sql: Vec<String> = writes.iter().map(|w| w.render()).collect();
    assert_eq!(
        sql,
        vec![
            "REPLACE INTO `users` (`id`, `name`) VALUES (?, ?), (?, ?) \
             -- binds: [1, \"Sean2\", 2, \"Tess2\"]",
            "REPLACE INTO `users` (`id`, `name`) VALUES (?, ?) -- binds: [1, \"Jim\"]",
            "INSERT IGNORE INTO `users` (`id`, `name`) VALUES (?, ?) -- binds: [1, \"Jim\"]",
            "INSERT IGNORE INTO `users` (`id`, `name`) VALUES (?, ?), (?, ?) \
             -- binds: [1, \"Sean\", 2, \"Tess\"]",
        ]
    );
    assert_eq!(
        names_by_key().render(),
        "SELECT `users`.`name` FROM `users` ORDER BY `users`.`id` -- binds: []"
    );
}

#[test]
fn new_post_is_inserted_and_read_back() {
    let (insert, read) = create_post("Hello", "First post");
    assert_eq!(
        insert.render(),
        "INSERT INTO `posts` (`title`, `body`) VALUES (?, ?) -- binds: [\"Hello\", \"First post\"]"
    );
    assert_eq!(
        read.render(),
        "SELECT `posts`.`id`, `posts`.`title`, `posts`.`body`, `posts`.`published` FROM `posts` \
         ORDER BY `posts`.`id` DESC LIMIT ? -- binds: [1]"
    );
}

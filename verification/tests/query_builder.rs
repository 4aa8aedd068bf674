use sandbox_exchange::query_builder::ClickHouseQueryBuilder;

#[test]
fn test_select_query() {
    let query = ClickHouseQueryBuilder::new().select("id, name").from("users").build();
    assert_eq!(query, "SELECT id, name FROM users");
}

#[test]
fn test_where_query() {
    let query = ClickHouseQueryBuilder::new().select("*").from("users").where_clause("id = 1").build();
    assert_eq!(query, "SELECT * FROM users WHERE id = 1");
}

#[test]
fn test_like_query() {
    let query = ClickHouseQueryBuilder::new().select("*").from("users").like_clause("name", "%example%").build();
    assert_eq!(query, "SELECT * FROM users WHERE name LIKE '%example%'");
}

#[test]
fn test_not_like_query() {
    let query = ClickHouseQueryBuilder::new()
        .select("*")
        .from("products")
        .not_like_clause("description", "%old%")
        .build();
    assert_eq!(query, "SELECT * FROM products WHERE description NOT LIKE '%old%'");
}

#[test]
fn test_combined_query() {
    let query = ClickHouseQueryBuilder::new()
        .select("id, name")
        .from("users")
        .where_clause("age > 18")
        .like_clause("email", "%@mail.com")
        .order_by("created_at DESC")
        .limit(10)
        .build();
    assert_eq!(
        query,
        "SELECT id, name FROM users WHERE age > 18 AND email LIKE '%@mail.com' ORDER BY created_at DESC LIMIT 10"
    );
}

#[test]
fn test_query_with_multiple_conditions() {
    let query = ClickHouseQueryBuilder::new()
        .select("*")
        .from("users")
        .where_clause("id = 1")
        .like_clause("username", "%user%")
        .not_like_clause("password", "%weak%")
        .build();
    assert_eq!(
        query,
        "SELECT * FROM users WHERE id = 1 AND username LIKE '%user%' AND password NOT LIKE '%weak%'"
    );
}

#[test]
fn limit_and_offset_are_written_in_decimal() {
    let query = ClickHouseQueryBuilder::new().select("*").from("t").limit(1204).offset(7).build();
    assert_eq!(query, "SELECT * FROM t LIMIT 1204");
    let zero = ClickHouseQueryBuilder::new().select("*").from("t").limit(0).build();
    assert_eq!(zero, "SELECT * FROM t LIMIT 0");
}

#[test]
fn order_keeps_the_field_and_drops_unknown_directions() {
    let asc = ClickHouseQueryBuilder::new().select("*").from("t").order("ts", Some("ASC")).build();
    assert_eq!(asc, "SELECT * FROM t ts");
    let odd = ClickHouseQueryBuilder::new().select("*").from("t").order("ts", Some("UP")).build();
    assert_eq!(odd, "SELECT * FROM t");
    let cleared = ClickHouseQueryBuilder::new().select("*").from("t").order_by("ts").order("ts", None).build();
    assert_eq!(cleared, "SELECT * FROM t");
}

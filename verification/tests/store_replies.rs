use zero2prod::routes::{
    create_reply, get_subscription, health_check, lookup_reply, subscribe, CreateOutcome,
    LookupOutcome,
};
use zero2prod::store::{u64_to_dec, Store, Subscription};

#[test]
fn ids_are_decimal_row_indexes() {
    let mut store = Store::new();
    for i in 0..11 {
        let email = format!("user{}@example.com", i);
        store.create(&email, "n", "2025-01-01T00:00:00Z");
    }
    assert_eq!(store.rows[0].id, "0");
    assert_eq!(store.rows[10].id, "10");
}

#[test]
fn decimal_rendering_is_exact() {
    assert_eq!(u64_to_dec(0), "0");
    assert_eq!(u64_to_dec(9), "9");
    assert_eq!(u64_to_dec(10), "10");
    assert_eq!(u64_to_dec(1234567890), "1234567890");
}

#[test]
fn find_returns_first_inserted_match() {
    let mut store = Store::new();
    store.create("dup@example.com", "first", "2025-01-01T00:00:00Z");
    store.create("dup@example.com", "second", "2025-01-02T00:00:00Z");
    let found = store.find_by_email("dup@example.com").unwrap();
    assert_eq!(found.user_name, "first");
}

#[test]
fn distinct_creates_each_produce_exactly_one_row() {
    let mut store = Store::new();
    let r1 = subscribe(&mut store, "email=a%40x.com&user_name=a", "2025-01-01T00:00:00Z");
    let r2 = subscribe(&mut store, "email=b%40x.com&user_name=b", "2025-01-01T00:00:01Z");
    assert_eq!(200, r1.status);
    assert_eq!(200, r2.status);
    let count_a = store.rows.iter().filter(|s| s.email == "a@x.com").count();
    let count_b = store.rows.iter().filter(|s| s.email == "b@x.com").count();
    assert_eq!(1, count_a);
    assert_eq!(1, count_b);
    assert_eq!(2, store.rows.len());
}

#[test]
fn json_body_escapes_special_characters() {
    let sub = Subscription {
        id: String::from("0"),
        email: String::from("a\"b@x.com"),
        user_name: String::from("tab\there"),
        subscribed_at: String::from("x\u{1}y"),
    };
    let body = sub.to_json();
    assert_eq!(
        body,
        "{\"id\":\"0\",\"email\":\"a\\\"b@x.com\",\"user_name\":\"tab\\there\",\"subscribed_at\":\"x\\u0001y\"}"
    );
    let parsed: serde_json::Value = serde_json::from_str(&body).expect("Failed to parse JSON");
    assert_eq!(parsed["email"], "a\"b@x.com");
    assert_eq!(parsed["user_name"], "tab\there");
    assert_eq!(parsed["subscribed_at"], "x\u{1}y");
}

#[test]
fn lookup_reply_maps_all_three_outcomes() {
    let sub = Subscription {
        id: String::from("0"),
        email: String::from("a@x.com"),
        user_name: String::from("n"),
        subscribed_at: String::from("2025-01-01T00:00:00Z"),
    };
    let found = lookup_reply(&LookupOutcome::Found(sub));
    assert_eq!(200, found.status);
    assert!(found.content_type_json);
    assert!(found.body.contains("\"email\":\"a@x.com\""));

    let missing = lookup_reply(&LookupOutcome::NotFound);
    assert_eq!(404, missing.status);
    assert_eq!(0, missing.body.len());

    let failed = lookup_reply(&LookupOutcome::Failure(String::from("connection reset")));
    assert_eq!(500, failed.status);
    assert_eq!(0, failed.body.len());
}

#[test]
fn create_reply_collapses_failures_to_bad_request() {
    let done = create_reply(&CreateOutcome::Done);
    assert_eq!(200, done.status);
    assert_eq!(0, done.body.len());

    let failed = create_reply(&CreateOutcome::Failure(String::from("constraint violation")));
    assert_eq!(400, failed.status);
    assert_eq!(0, failed.body.len());
}

#[test]
fn health_check_is_idempotent() {
    for _ in 0..3 {
        let r = health_check();
        assert_eq!(200, r.status);
        assert_eq!(0, r.body.len());
    }
}

#[test]
fn post_then_get_round_trip() {
    let mut store = Store::new();
    let post = subscribe(
        &mut store,
        "email=ursula_le_guin%40gmail.com&user_name=le%20guin",
        "2025-01-01T00:00:00Z",
    );
    assert_eq!(200, post.status);

    let get = get_subscription(&store, "email=ursula_le_guin@gmail.com");
    assert_eq!(200, get.status);
    assert!(get.body.contains("\"email\":\"ursula_le_guin@gmail.com\""));
}

#[test]
fn get_with_no_matching_row_is_404() {
    let store = Store::new();
    let r = get_subscription(&store, "email=nobody@example.com");
    assert_eq!(404, r.status);
    assert_eq!(0, r.body.len());
}

#[test]
fn post_with_empty_body_is_400() {
    let mut store = Store::new();
    let r = subscribe(&mut store, "", "2025-01-01T00:00:00Z");
    assert_eq!(400, r.status);
    assert_eq!(0, store.rows.len());
}

#[test]
fn get_with_malformed_query_is_400() {
    let store = Store::new();
    let r = get_subscription(&store, "email=%zz");
    assert_eq!(400, r.status);
    assert_eq!(0, r.body.len());
}

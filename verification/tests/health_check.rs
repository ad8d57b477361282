use zero2prod::routes::{get_subscription, health_check, subscribe};
use zero2prod::store::Store;

#[test]
fn health_check_works() {
    let response = health_check();
    assert!(response.status == 200);
    assert_eq!(0, response.body.len());
}

#[test]
fn subscriptions_returns_a_200_for_valid_form_data() {
    let mut store = Store::new();
    let body = "user_name=le%20guin&email=ursula_le_guin%40gmail.com";

    let response = subscribe(&mut store, body, "2025-01-01T00:00:00Z");

    assert_eq!(200, response.status);

    let saved = store
        .find_by_email("ursula_le_guin@gmail.com")
        .expect("Failed to fetch saved subscription.");
    assert_eq!(saved.email, "ursula_le_guin@gmail.com");
    assert_eq!(saved.user_name, "le guin");
}

#[test]
fn subscriptions_returns_a_200_and_result() {
    let mut store = Store::new();
    let body = "user_name=le%20guin&email=ursula_le_guin%40gmail.com";
    subscribe(&mut store, body, "2025-01-01T00:00:00Z");

    let response = get_subscription(&store, "email=ursula_le_guin@gmail.com");

    assert_eq!(200, response.status);
    let parsed: serde_json::Value =
        serde_json::from_str(&response.body).expect("Failed to parse JSON");
    assert_eq!(parsed["email"], "ursula_le_guin@gmail.com");
}

#[test]
fn subscriptions_returns_a_404() {
    let store = Store::new();

    let response = get_subscription(&store, "email=ursula_le_guin@gmail.com");

    assert_eq!(404, response.status);
}

#[test]
fn subscriptions_returns_a_400_when_data_is_missing() {
    let mut store = Store::new();
    let test_cases = vec![
        ("name=le%20guin", "missing the email"),
        ("email=ursula_le_guin%40gmail.com", "missing the name"),
        ("", "missing both name and email"),
    ];

    for (invalid_body, error_message) in test_cases {
        let response = subscribe(&mut store, invalid_body, "2025-01-01T00:00:00Z");

        assert_eq!(
            400, response.status,
            "The API did not fail with 400 Bad Request when the payload was {}.",
            error_message
        );
        assert_eq!(0, store.rows.len());
    }
}

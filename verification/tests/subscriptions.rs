use zero2prod::routes::get_subscription;
use zero2prod::store::Store;

#[test]
fn test_index_get() {
    let mut store = Store::new();
    store.create("ursula_le_guin@gmail.com", "le guin", "2025-01-01T00:00:00Z");

    let resp = get_subscription(&store, "email=ursula_le_guin@gmail.com");

    assert!(resp.status == 200);
}

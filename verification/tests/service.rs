use zero2prod::routes::{handle_request, health_check, route, Method, RouteTarget};
use zero2prod::subscriptions::{
    apply_subscribe, parse_subscription, subscribe_status, Relation,
};

#[test]
fn health_check_works() {
    let response = health_check();
    assert!(response.status == 200);
    assert_eq!(0, response.body.len());
}

#[test]
fn subscribe_returns_a_200_for_valid_form_data() {
    let mut store = Relation::new();
    let body = b"name=le%20guin&email=ursula_le_guin%40gmail.com".to_vec();

    let response = handle_request(
        &mut store,
        Method::Post,
        &b"/subscriptions".to_vec(),
        &body,
    );

    assert_eq!(200, response.status);

    assert_eq!(store.len(), 1);
    let saved = store.row(0);
    assert_eq!(saved.email, b"ursula_le_guin@gmail.com".to_vec());
    assert_eq!(saved.name, b"le guin".to_vec());
}

#[test]
fn subscribe_returns_a_400_when_data_is_missing() {
    let test_cases = vec![
        (b"name=le%20guin".to_vec(), "missing the email"),
        (b"email=ursula_le_guin%40gmail.com".to_vec(), "missing the name"),
        (Vec::new(), "missing both name and email"),
    ];

    for (invalid_body, error_msg) in test_cases {
        let mut store = Relation::new();
        let response = handle_request(
            &mut store,
            Method::Post,
            &b"/subscriptions".to_vec(),
            &invalid_body,
        );

        assert_eq!(
            400, response.status,
            "The API did not fail with 400 Bad Request when the payload was {}.",
            error_msg
        );
        assert_eq!(store.len(), 0, "a rejected payload must insert nothing");
    }
}

#[test]
fn subscribe_rejects_empty_name_or_email() {
    let mut store = Relation::new();
    for body in [
        b"name=&email=a%40b".to_vec(),
        b"name=x&email=".to_vec(),
        b"name=&email=".to_vec(),
        b"name&email=a%40b".to_vec(),
    ] {
        let status = apply_subscribe(&mut store, &body);
        assert_eq!(status, 400);
    }
    assert_eq!(store.len(), 0);
}

#[test]
fn subscribe_rejects_malformed_body() {
    let mut store = Relation::new();
    let status = apply_subscribe(&mut store, &b"name=le%2guin&email=a%40b".to_vec());
    assert_eq!(status, 400);
    assert_eq!(store.len(), 0);
}

#[test]
fn subscribe_twice_inserts_two_rows() {
    let mut store = Relation::new();
    let body = b"name=le%20guin&email=ursula_le_guin%40gmail.com".to_vec();

    assert_eq!(apply_subscribe(&mut store, &body), 200);
    assert_eq!(apply_subscribe(&mut store, &body), 200);

    assert_eq!(store.len(), 2);
    for i in 0..2 {
        let row = store.row(i);
        assert_eq!(row.name, b"le guin".to_vec());
        assert_eq!(row.email, b"ursula_le_guin@gmail.com".to_vec());
    }
}

#[test]
fn parse_subscription_keeps_decoded_values() {
    let sub = parse_subscription(&b"name=le%20guin&email=ursula_le_guin%40gmail.com".to_vec())
        .expect("a valid body parses");
    assert_eq!(sub.name, b"le guin".to_vec());
    assert_eq!(sub.email, b"ursula_le_guin@gmail.com".to_vec());

    assert!(parse_subscription(&b"name=le%20guin".to_vec()).is_none());
    assert!(parse_subscription(&b"email=ursula_le_guin%40gmail.com".to_vec()).is_none());
    assert!(parse_subscription(&Vec::new()).is_none());
}

#[test]
fn route_table_matches_exactly() {
    assert_eq!(route(Method::Get, &b"/healthz".to_vec()), RouteTarget::Health);
    assert_eq!(
        route(Method::Post, &b"/subscriptions".to_vec()),
        RouteTarget::Subscribe
    );
    assert_eq!(route(Method::Post, &b"/healthz".to_vec()), RouteTarget::NotFound);
    assert_eq!(route(Method::Get, &b"/subscriptions".to_vec()), RouteTarget::NotFound);
    assert_eq!(route(Method::Get, &b"/healthz/".to_vec()), RouteTarget::NotFound);
    assert_eq!(route(Method::Get, &b"/other".to_vec()), RouteTarget::NotFound);
}

#[test]
fn handle_request_health_ignores_store_and_body() {
    let mut store = Relation::new();
    let response = handle_request(
        &mut store,
        Method::Get,
        &b"/healthz".to_vec(),
        &b"name=x&email=y".to_vec(),
    );
    assert_eq!(response.status, 200);
    assert_eq!(response.body.len(), 0);
    assert_eq!(store.len(), 0);
}

#[test]
fn handle_request_unmatched_is_not_found() {
    let mut store = Relation::new();
    let response = handle_request(
        &mut store,
        Method::Get,
        &b"/missing".to_vec(),
        &Vec::new(),
    );
    assert_eq!(response.status, 404);
    assert_eq!(response.body.len(), 0);
    assert_eq!(store.len(), 0);
}

#[test]
fn subscribe_status_maps_persist_outcome() {
    assert_eq!(subscribe_status(true), 200);
    assert_eq!(subscribe_status(false), 500);
}

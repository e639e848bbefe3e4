use zero2prod::http::{Method, Request, Response};
use zero2prod::routes::subscriptions::{parse_form, subscribe, subscribe_response, FormData};
use zero2prod::startup::{handle_request, run, Outcome, Router, Segment, Target};
use zero2prod::urlencoded::percent_decode;

const FORM: &[u8] = b"application/x-www-form-urlencoded";

fn get(path: &[u8]) -> Request {
    Request { method: Method::Get, path: path.to_vec(), content_type: Vec::new(), body: Vec::new() }
}

fn post(path: &[u8], body: &[u8]) -> Request {
    Request {
        method: Method::Post,
        path: path.to_vec(),
        content_type: FORM.to_vec(),
        body: body.to_vec(),
    }
}

fn done(out: Outcome) -> Response {
    match out {
        Outcome::Done(r) => r,
        Outcome::Insert(_) => panic!("expected a direct response, got an insert"),
    }
}

#[test]
fn health_check_works() {
    let router = run();
    let response = done(handle_request(&router, &get(b"/health_check")));
    assert!(response.status == 200);
    assert_eq!(0, response.body.len());
}

#[test]
fn greet_without_name_says_hello_world() {
    let router = run();
    let response = done(handle_request(&router, &get(b"/greet")));
    assert_eq!(200, response.status);
    assert_eq!(b"Hello World".to_vec(), response.body);
}

#[test]
fn greet_with_name_says_hello_name() {
    let router = run();
    let response = done(handle_request(&router, &get(b"/greet/Ursula")));
    assert_eq!(200, response.status);
    assert_eq!(b"Hello Ursula".to_vec(), response.body);
}

#[test]
fn greet_with_empty_name_keeps_the_prefix() {
    let router = run();
    let response = done(handle_request(&router, &get(b"/greet/")));
    assert_eq!(200, response.status);
    assert_eq!(b"Hello ".to_vec(), response.body);
}

#[test]
fn unknown_path_is_not_found() {
    let router = run();
    let response = done(handle_request(&router, &get(b"/missing")));
    assert_eq!(404, response.status);
    assert_eq!(0, response.body.len());
}

#[test]
fn wrong_method_is_not_found() {
    let router = run();
    let response = done(handle_request(&router, &post(b"/health_check", b"")));
    assert_eq!(404, response.status);
    assert_eq!(0, response.body.len());
}

#[test]
fn valid_subscription_builds_one_row() {
    let router = run();
    let req = post(b"/subscription", b"email=ursula%40example.com&name=Ursula");
    match handle_request(&router, &req) {
        Outcome::Insert(row) => {
            assert_eq!("ursula@example.com", row.email);
            assert_eq!("Ursula", row.name);
        },
        Outcome::Done(r) => panic!("expected an insert, got status {}", r.status),
    }
}

#[test]
fn subscription_accepts_a_literal_at_sign() {
    let router = run();
    let req = post(b"/subscription", b"email=ursula@example.com&name=Ursula");
    match handle_request(&router, &req) {
        Outcome::Insert(row) => {
            assert_eq!("ursula@example.com", row.email);
            assert_eq!("Ursula", row.name);
        },
        Outcome::Done(r) => panic!("expected an insert, got status {}", r.status),
    }
}

#[test]
fn subscription_decodes_plus_as_space() {
    let router = run();
    let req = post(b"/subscription", b"email=le%20guin%40gmail.com&name=le+guin");
    match handle_request(&router, &req) {
        Outcome::Insert(row) => {
            assert_eq!("le guin@gmail.com", row.email);
            assert_eq!("le guin", row.name);
        },
        Outcome::Done(r) => panic!("expected an insert, got status {}", r.status),
    }
}

#[test]
fn subscription_ignores_extra_fields() {
    let router = run();
    let req = post(b"/subscription", b"email=a%40b.example&name=Ann&plan=weekly");
    match handle_request(&router, &req) {
        Outcome::Insert(row) => {
            assert_eq!("a@b.example", row.email);
            assert_eq!("Ann", row.name);
        },
        Outcome::Done(r) => panic!("expected an insert, got status {}", r.status),
    }
}

#[test]
fn subscription_missing_name_is_rejected() {
    let router = run();
    let req = post(b"/subscription", b"email=ursula%40example.com");
    let response = done(handle_request(&router, &req));
    assert_eq!(400, response.status);
    assert_eq!(0, response.body.len());
}

#[test]
fn subscription_missing_email_is_rejected() {
    let router = run();
    let req = post(b"/subscription", b"name=Ursula");
    let response = done(handle_request(&router, &req));
    assert_eq!(400, response.status);
    assert_eq!(0, response.body.len());
}

#[test]
fn subscription_empty_body_is_rejected() {
    let router = run();
    let response = done(handle_request(&router, &post(b"/subscription", b"")));
    assert_eq!(400, response.status);
}

#[test]
fn subscription_bad_percent_escape_is_rejected() {
    let router = run();
    let req = post(b"/subscription", b"email=%zz&name=Ursula");
    let response = done(handle_request(&router, &req));
    assert_eq!(400, response.status);
}

#[test]
fn subscription_invalid_utf8_value_is_rejected() {
    let router = run();
    let req = post(b"/subscription", b"email=%FF&name=Ursula");
    let response = done(handle_request(&router, &req));
    assert_eq!(400, response.status);
}

#[test]
fn subscription_duplicate_field_is_rejected() {
    let router = run();
    let req = post(b"/subscription", b"email=a%40b.c&email=d%40e.f&name=Ursula");
    let response = done(handle_request(&router, &req));
    assert_eq!(400, response.status);
}

#[test]
fn parse_form_reads_both_fields() {
    let form = parse_form(&b"name=Ursula&email=ursula%40example.com".to_vec())
        .expect("a well-formed body must decode");
    assert_eq!("ursula@example.com", form.email);
    assert_eq!("Ursula", form.name);
}

#[test]
fn subscribe_keeps_the_decoded_fields() {
    let form = FormData { email: String::from("ursula@example.com"), name: String::from("Ursula") };
    let row = subscribe(form);
    assert_eq!("ursula@example.com", row.email);
    assert_eq!("Ursula", row.name);
}

#[test]
fn two_rows_get_distinct_identifiers() {
    let first = subscribe(FormData {
        email: String::from("ursula@example.com"),
        name: String::from("Ursula"),
    });
    let second = subscribe(FormData {
        email: String::from("ursula@example.com"),
        name: String::from("Ursula"),
    });
    assert_ne!(first.id, second.id);
}

#[test]
fn write_outcome_maps_to_status() {
    let ok = subscribe_response(true);
    assert_eq!(200, ok.status);
    assert_eq!(0, ok.body.len());
    let failed = subscribe_response(false);
    assert_eq!(500, failed.status);
    assert_eq!(0, failed.body.len());
}

#[test]
fn subscription_wrong_content_type_is_rejected() {
    let router = run();
    let mut req = post(b"/subscription", b"email=a%40b.c&name=Ann");
    req.content_type = b"application/json".to_vec();
    let response = done(handle_request(&router, &req));
    assert_eq!(400, response.status);
}

#[test]
fn subscription_content_type_may_carry_parameters() {
    let router = run();
    let mut req = post(b"/subscription", b"email=a%40b.c&name=Ann");
    req.content_type = b"application/x-www-form-urlencoded; charset=UTF-8".to_vec();
    match handle_request(&router, &req) {
        Outcome::Insert(row) => assert_eq!("a@b.c", row.email),
        Outcome::Done(r) => panic!("expected an insert, got status {}", r.status),
    }
}

#[test]
fn path_without_leading_slash_is_not_found() {
    let router = run();
    let response = done(handle_request(&router, &get(b"health_check")));
    assert_eq!(404, response.status);
}

#[test]
fn first_registered_matching_route_wins() {
    let mut router = Router::new();
    router.register(Method::Get, vec![Segment::Lit(b"a".to_vec())], Target::HealthEndpoint);
    router.register(Method::Get, vec![Segment::Param(b"x".to_vec())], Target::GreetEndpoint);
    let (target, params) = router.resolve(Method::Get, &b"/a".to_vec()).unwrap();
    assert!(matches!(target, Target::HealthEndpoint));
    assert_eq!(0, params.len());
    let (target, params) = router.resolve(Method::Get, &b"/b".to_vec()).unwrap();
    assert!(matches!(target, Target::GreetEndpoint));
    assert_eq!(vec![(b"x".to_vec(), b"b".to_vec())], params);
    assert!(router.resolve(Method::Post, &b"/a".to_vec()).is_none());
}

#[test]
fn percent_decode_handles_escapes_and_plus() {
    let decoded = percent_decode(&b"a%20b+c".to_vec()).expect("well-formed escapes decode");
    assert_eq!(b"a b c".to_vec(), decoded);
    assert!(percent_decode(&b"broken%2".to_vec()).is_none());
    assert!(percent_decode(&b"broken%g0".to_vec()).is_none());
}

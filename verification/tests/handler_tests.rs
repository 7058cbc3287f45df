use user_server::handlers::{
    create_user, delete_user, dynamic_handler, echo, get_all_users, get_user, greet, greet_checked,
    root_handler, update_user, user_handler,
};
use user_server::store::{User, UserStore};
use user_server::ApiError;

fn user(id: &str, username: &str) -> User {
    User { id: id.to_string(), username: username.to_string() }
}

#[test]
fn root_returns_hello_world() {
    assert_eq!(root_handler(), "Hello World");
}

#[test]
fn user_route_returns_fixed_record() {
    let u = user_handler();
    assert_eq!(u.id, 1);
    assert_eq!(u.username, "yatharth");
}

#[test]
fn greet_names_the_caller() {
    assert_eq!(greet("Sam"), "Greetings from the axum server Sam");
}

#[test]
fn greet_without_name_is_bad_request() {
    assert_eq!(greet_checked(None).unwrap_err(), ApiError::BadRequest);
    assert_eq!(
        greet_checked(Some("Sam")).unwrap(),
        "Greetings from the axum server Sam"
    );
}

#[test]
fn echo_adds_the_server_preamble() {
    assert_eq!(echo("hi"), "This is some added response coming from server hi");
}

#[test]
fn dynamic_route_echoes_the_segment() {
    assert_eq!(dynamic_handler("abc".to_string()), "abc");
}

#[test]
fn get_all_users_returns_every_record() {
    let mut st = UserStore::new();
    create_user(&mut st, user("1", "alice"));
    create_user(&mut st, user("2", "bob"));
    let mut names: Vec<String> = get_all_users(&st).into_iter().map(|u| u.username).collect();
    names.sort();
    assert_eq!(names, vec!["alice".to_string(), "bob".to_string()]);
}

#[test]
fn crud_scenario_over_one_identifier() {
    let mut st = UserStore::new();

    let msg = create_user(&mut st, user("1", "alice"));
    assert_eq!(msg, "User Created");

    let got = get_user(&st, &"1".to_string()).unwrap();
    assert_eq!(got.id, "1");
    assert_eq!(got.username, "alice");

    let msg = update_user(&mut st, &"1".to_string(), user("1", "bob")).unwrap();
    assert_eq!(msg, "User with id 1 updated");

    let got = get_user(&st, &"1".to_string()).unwrap();
    assert_eq!(got.id, "1");
    assert_eq!(got.username, "bob");

    let msg = delete_user(&mut st, &"1".to_string()).unwrap();
    assert_eq!(msg, "User with id 1 deleted");

    assert_eq!(get_user(&st, &"1".to_string()).unwrap_err(), ApiError::NotFound);
}

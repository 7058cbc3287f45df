use user_server::router::{route, Method, Route};

#[test]
fn fixed_get_routes_match() {
    assert!(matches!(route(Method::Get, "/"), Route::Root));
    assert!(matches!(route(Method::Get, "/user"), Route::FixedUser));
    assert!(matches!(route(Method::Get, "/greet"), Route::Greet));
    assert!(matches!(route(Method::Get, "/sharedstate"), Route::SharedState));
    assert!(matches!(route(Method::Get, "/users"), Route::Users));
}

#[test]
fn fixed_post_routes_match() {
    assert!(matches!(route(Method::Post, "/echo"), Route::Echo));
    assert!(matches!(route(Method::Post, "/create-user"), Route::CreateUser));
}

#[test]
fn parameterised_routes_bind_the_segment() {
    match route(Method::Get, "/greet/Sam") {
        Route::GreetName(name) => assert_eq!(name, "Sam"),
        _ => panic!("expected the dynamic greet route"),
    }
    match route(Method::Get, "/getuser/1") {
        Route::GetUser(id) => assert_eq!(id, "1"),
        _ => panic!("expected the get-user route"),
    }
    match route(Method::Put, "/update-user/abc") {
        Route::UpdateUser(id) => assert_eq!(id, "abc"),
        _ => panic!("expected the update-user route"),
    }
    match route(Method::Delete, "/delete-user/xyz") {
        Route::DeleteUser(id) => assert_eq!(id, "xyz"),
        _ => panic!("expected the delete-user route"),
    }
}

#[test]
fn empty_or_nested_segments_do_not_match() {
    assert!(matches!(route(Method::Get, "/greet/"), Route::NotFound));
    assert!(matches!(route(Method::Get, "/greet/a/b"), Route::NotFound));
    assert!(matches!(route(Method::Put, "/update-user/"), Route::NotFound));
    assert!(matches!(route(Method::Delete, "/delete-user"), Route::NotFound));
}

#[test]
fn wrong_method_is_not_found() {
    assert!(matches!(route(Method::Post, "/"), Route::NotFound));
    assert!(matches!(route(Method::Get, "/echo"), Route::NotFound));
    assert!(matches!(route(Method::Get, "/create-user"), Route::NotFound));
    assert!(matches!(route(Method::Post, "/update-user/1"), Route::NotFound));
    assert!(matches!(route(Method::Put, "/delete-user/1"), Route::NotFound));
}

#[test]
fn unknown_paths_are_not_found() {
    assert!(matches!(route(Method::Get, ""), Route::NotFound));
    assert!(matches!(route(Method::Get, "/nope"), Route::NotFound));
    assert!(matches!(route(Method::Get, "/userx"), Route::NotFound));
}

use user_server::handlers::{create_user, delete_user, get_user, root_state_app_handler, update_user};
use user_server::store::{User, UserStore};
use user_server::ApiError;

fn user(id: &str, username: &str) -> User {
    User { id: id.to_string(), username: username.to_string() }
}

#[test]
fn create_then_get_returns_same_record() {
    let mut st = UserStore::new();
    create_user(&mut st, user("1", "alice"));
    let got = get_user(&st, &"1".to_string()).expect("record should be present");
    assert_eq!(got.id, "1");
    assert_eq!(got.username, "alice");
}

#[test]
fn create_overwrites_existing_record() {
    let mut st = UserStore::new();
    create_user(&mut st, user("1", "alice"));
    create_user(&mut st, user("1", "bob"));
    let got = get_user(&st, &"1".to_string()).expect("record should be present");
    assert_eq!(got.username, "bob");
    assert_eq!(st.len(), 1);
}

#[test]
fn delete_then_get_returns_not_found() {
    let mut st = UserStore::new();
    create_user(&mut st, user("1", "alice"));
    assert!(delete_user(&mut st, &"1".to_string()).is_ok());
    assert_eq!(get_user(&st, &"1".to_string()).unwrap_err(), ApiError::NotFound);
}

#[test]
fn second_delete_returns_not_found() {
    let mut st = UserStore::new();
    create_user(&mut st, user("1", "alice"));
    assert!(delete_user(&mut st, &"1".to_string()).is_ok());
    assert_eq!(delete_user(&mut st, &"1".to_string()).unwrap_err(), ApiError::NotFound);
}

#[test]
fn update_missing_id_inserts_nothing() {
    let mut st = UserStore::new();
    create_user(&mut st, user("1", "alice"));
    let r = update_user(&mut st, &"2".to_string(), user("2", "bob"));
    assert_eq!(r.unwrap_err(), ApiError::NotFound);
    assert_eq!(st.len(), 1);
    let listed = st.list();
    assert_eq!(listed.len(), 1);
    assert!(listed.iter().all(|u| u.id != "2"));
    assert_eq!(get_user(&st, &"2".to_string()).unwrap_err(), ApiError::NotFound);
}

#[test]
fn list_holds_each_identifier_once() {
    let mut st = UserStore::new();
    create_user(&mut st, user("1", "alice"));
    create_user(&mut st, user("2", "bob"));
    create_user(&mut st, user("3", "carol"));
    create_user(&mut st, user("2", "dave"));
    let mut ids: Vec<String> = st.list().into_iter().map(|u| u.id).collect();
    ids.sort();
    assert_eq!(ids, vec!["1".to_string(), "2".to_string(), "3".to_string()]);
}

#[test]
fn count_matches_list_length() {
    let mut st = UserStore::new();
    create_user(&mut st, user("1", "alice"));
    create_user(&mut st, user("2", "bob"));
    assert_eq!(st.len(), st.list().len());
    assert_eq!(
        root_state_app_handler(&st),
        format!(" Total Users in  memory {}", st.list().len())
    );
}

#[test]
fn update_stores_body_record_verbatim_under_path_id() {
    let mut st = UserStore::new();
    create_user(&mut st, user("1", "alice"));
    update_user(&mut st, &"1".to_string(), user("2", "bob")).expect("id 1 is present");
    let got = get_user(&st, &"1".to_string()).expect("key is still the path id");
    assert_eq!(got.id, "2");
    assert_eq!(got.username, "bob");
    assert_eq!(get_user(&st, &"2".to_string()).unwrap_err(), ApiError::NotFound);
}

#[test]
fn empty_store_lists_nothing() {
    let st = UserStore::new();
    assert_eq!(st.len(), 0);
    assert!(st.list().is_empty());
    assert_eq!(root_state_app_handler(&st), " Total Users in  memory 0");
}

//! One function per route: the computation each handler performs once the
//! transport has handed it plain values, with the exact response text or
//! store effect each route promises.

use vstd::prelude::*;
use vstd::string::StringExecFns;

use crate::store::{lists_map, views_of, User, UserStore};
use crate::text::{decimal_of, u64_to_string};
use crate::ApiError;

verus! {

/// The fixed demonstration record served at `/user`.
pub struct FixedUser {
    pub id: u32,
    pub username: String,
}

/// `GET /`: a constant greeting.
pub fn root_handler() -> (r: &'static str)
    ensures
        r@ == "Hello World"@,
{
    "Hello World"
}

/// `GET /user`: a fixed record, identifier `1`, username `yatharth`.
pub fn user_handler() -> (r: FixedUser)
    ensures
        r.id == 1,
        r.username@ == "yatharth"@,
{
    FixedUser { id: 1, username: String::from_str("yatharth") }
}

/// `GET /greet?name=...`: greets the caller by the given name.
pub fn greet(name: &str) -> (r: String)
    ensures
        r@ == "Greetings from the axum server "@ + name@,
{
    String::from_str("Greetings from the axum server ").concat(name)
}

/// `GET /greet` as routed: the `name` query parameter is required, and a
/// request without it is a bad request.
pub fn greet_checked(name: Option<&str>) -> (r: Result<String, ApiError>)
    ensures
        match r {
            Ok(msg) => name.is_some() && msg@ == "Greetings from the axum server "@
                + name.unwrap()@,
            Err(e) => e == ApiError::BadRequest && name.is_none(),
        },
{
    match name {
        Some(n) => Ok(greet(n)),
        None => Err(ApiError::BadRequest),
    }
}

/// `POST /echo`: returns the request's message with a fixed preamble.
pub fn echo(message: &str) -> (r: String)
    ensures
        r@ == "This is some added response coming from server "@ + message@,
{
    String::from_str("This is some added response coming from server ").concat(message)
}

/// `GET /greet/{name}`: echoes the path segment unchanged.
pub fn dynamic_handler(name: String) -> (r: String)
    ensures
        r@ == name@,
{
    name
}

/// `GET /sharedstate`: reports how many records the store currently holds.
pub fn root_state_app_handler(store: &UserStore) -> (r: String)
    requires
        store.inv(),
    ensures
        r@ == " Total Users in  memory "@ + decimal_of(store@.len()),
{
    let n = store.len();
    let count = u64_to_string(n as u64);
    String::from_str(" Total Users in  memory ").concat(count.as_str())
}

/// `POST /create-user`: stores the record under its own identifier,
/// overwriting any record stored there before; always succeeds.
pub fn create_user(store: &mut UserStore, user: User) -> (r: String)
    requires
        old(store).inv(),
    ensures
        final(store).inv(),
        final(store)@ == old(store)@.insert(user.id@, user@),
        r@ == "User Created"@,
{
    let key = user.id.clone();
    store.insert(key, user);
    String::from_str("User Created")
}

/// `GET /getuser/{id}`: the record stored under `id`, or `NotFound` when
/// `id` is absent.
pub fn get_user(store: &UserStore, id: &String) -> (r: Result<User, ApiError>)
    requires
        store.inv(),
    ensures
        match r {
            Ok(u) => store@.contains_key(id@) && u@ == store@[id@],
            Err(e) => e == ApiError::NotFound && !store@.contains_key(id@),
        },
{
    match store.get(id) {
        Some(u) => Ok(u),
        None => Err(ApiError::NotFound),
    }
}

/// `GET /users`: a snapshot of every stored record, order unspecified.
pub fn get_all_users(store: &UserStore) -> (r: Vec<User>)
    requires
        store.inv(),
    ensures
        r@.len() == store@.len(),
        exists|ks: Seq<Seq<char>>| #[trigger] lists_map(store@, views_of(r@), ks),
{
    store.list()
}

/// `PUT /update-user/{id}`: when `id` is present, stores the body's record
/// under the path's `id` (the body's own `id` field is stored verbatim,
/// the path's is the key); when absent, `NotFound` and no change.
pub fn update_user(store: &mut UserStore, id: &String, payload: User) -> (r: Result<
    String,
    ApiError,
>)
    requires
        old(store).inv(),
    ensures
        final(store).inv(),
        match r {
            Ok(msg) => old(store)@.contains_key(id@) && final(store)@ == old(store)@.insert(
                id@,
                payload@,
            ) && msg@ == "User with id "@ + id@ + " updated"@,
            Err(e) => e == ApiError::NotFound && !old(store)@.contains_key(id@) && final(store)@
                == old(store)@,
        },
{
    if store.update(id, payload) {
        Ok(String::from_str("User with id ").concat(id.as_str()).concat(" updated"))
    } else {
        Err(ApiError::NotFound)
    }
}

/// `DELETE /delete-user/{id}`: removes the record under `id`, or `NotFound`
/// when `id` is absent.
pub fn delete_user(store: &mut UserStore, id: &String) -> (r: Result<String, ApiError>)
    requires
        old(store).inv(),
    ensures
        final(store).inv(),
        final(store)@ == old(store)@.remove(id@),
        match r {
            Ok(msg) => old(store)@.contains_key(id@) && msg@ == "User with id "@ + id@
                + " deleted"@,
            Err(e) => e == ApiError::NotFound && !old(store)@.contains_key(id@),
        },
{
    if store.remove(id) {
        Ok(String::from_str("User with id ").concat(id.as_str()).concat(" deleted"))
    } else {
        Err(ApiError::NotFound)
    }
}

} // verus!

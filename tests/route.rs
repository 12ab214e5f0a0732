use todos::route::{Method, Route};

#[test]
fn collection_routes() {
    assert_eq!(Route::parse(Method::Get, "/v1/todos"), Some(Route::List));
    assert_eq!(Route::parse(Method::Post, "/v1/todos"), Some(Route::Create));
    assert_eq!(Route::parse(Method::Put, "/v1/todos"), None);
    assert_eq!(Route::parse(Method::Delete, "/v1/todos"), None);
}

#[test]
fn item_routes() {
    assert_eq!(Route::parse(Method::Get, "/v1/todos/1"), Some(Route::Read(1)));
    assert_eq!(Route::parse(Method::Put, "/v1/todos/42"), Some(Route::Update(42)));
    assert_eq!(Route::parse(Method::Delete, "/v1/todos/907"), Some(Route::Delete(907)));
    assert_eq!(Route::parse(Method::Post, "/v1/todos/1"), None);
}

#[test]
fn signed_and_extreme_ids() {
    assert_eq!(Route::parse(Method::Get, "/v1/todos/-3"), Some(Route::Read(-3)));
    assert_eq!(Route::parse(Method::Get, "/v1/todos/+3"), Some(Route::Read(3)));
    assert_eq!(
        Route::parse(Method::Get, "/v1/todos/9223372036854775807"),
        Some(Route::Read(i64::MAX))
    );
    assert_eq!(
        Route::parse(Method::Get, "/v1/todos/-9223372036854775808"),
        Some(Route::Read(i64::MIN))
    );
    assert_eq!(Route::parse(Method::Get, "/v1/todos/9223372036854775808"), None);
    assert_eq!(Route::parse(Method::Get, "/v1/todos/99999999999999999999999"), None);
}

#[test]
fn malformed_paths() {
    assert_eq!(Route::parse(Method::Get, "/v1/todos/"), None);
    assert_eq!(Route::parse(Method::Get, "/v1/todos/-"), None);
    assert_eq!(Route::parse(Method::Get, "/v1/todos/1a"), None);
    assert_eq!(Route::parse(Method::Get, "/v1/todos/1/2"), None);
    assert_eq!(Route::parse(Method::Get, "/v1/todo"), None);
    assert_eq!(Route::parse(Method::Get, "/v2/todos/1"), None);
    assert_eq!(Route::parse(Method::Get, ""), None);
}

#[test]
fn route_paths_and_methods() {
    assert_eq!(Route::List.path(), "/v1/todos");
    assert_eq!(Route::Create.path(), "/v1/todos");
    assert_eq!(Route::Read(7).path(), "/v1/todos/7");
    assert_eq!(Route::Update(1200).path(), "/v1/todos/1200");
    assert_eq!(Route::Delete(-45).path(), "/v1/todos/-45");
    assert_eq!(Route::Read(0).path(), "/v1/todos/0");
    assert_eq!(Route::Read(i64::MIN).path(), "/v1/todos/-9223372036854775808");
    assert_eq!(Route::Read(i64::MAX).path(), "/v1/todos/9223372036854775807");
    assert_eq!(Route::List.method(), Method::Get);
    assert_eq!(Route::Create.method(), Method::Post);
    assert_eq!(Route::Read(1).method(), Method::Get);
    assert_eq!(Route::Update(1).method(), Method::Put);
    assert_eq!(Route::Delete(1).method(), Method::Delete);
}

#[test]
fn routes_parse_back() {
    let routes = [
        Route::List,
        Route::Create,
        Route::Read(3),
        Route::Update(-10),
        Route::Delete(i64::MIN),
        Route::Read(i64::MAX),
    ];
    for r in routes {
        assert_eq!(Route::parse(r.method(), &r.path()), Some(r));
    }
}

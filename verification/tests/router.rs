use lieweb::pattern::{Pattern, PatternError};
use lieweb::router::{Method, RegisterError, RouteNotFound, RouteTable};

#[test]
fn parameter_is_extracted() {
    let mut table = RouteTable::new();
    assert_eq!(table.register(Method::Get, "/posts/:id/edit", 7), Ok(()));
    let found = table.match_route(Method::Get, "/posts/42/edit").unwrap();
    assert_eq!(found.route, 0);
    assert_eq!(found.handler, 7);
    assert_eq!(found.params.len(), 1);
    assert_eq!(found.params.find("id"), Some(&b"42"[..]));
    assert_eq!(found.params.find("name"), None);
}

#[test]
fn missing_segment_is_no_match() {
    let mut table = RouteTable::new();
    assert_eq!(table.register(Method::Get, "/posts/:id/edit", 7), Ok(()));
    assert_eq!(table.match_route(Method::Get, "/posts/edit").err(), Some(RouteNotFound));
}

#[test]
fn registration_order_beats_literal_specificity() {
    let mut table = RouteTable::new();
    assert_eq!(table.register(Method::Get, "/posts/:id", 1), Ok(()));
    assert_eq!(table.register(Method::Get, "/posts/new", 2), Ok(()));
    let found = table.match_route(Method::Get, "/posts/new").unwrap();
    assert_eq!(found.route, 0);
    assert_eq!(found.handler, 1);
    assert_eq!(found.params.find("id"), Some(&b"new"[..]));
}

#[test]
fn literal_registered_first_wins() {
    let mut table = RouteTable::new();
    assert_eq!(table.register(Method::Get, "/posts/new", 2), Ok(()));
    assert_eq!(table.register(Method::Get, "/posts/:id", 1), Ok(()));
    let found = table.match_route(Method::Get, "/posts/new").unwrap();
    assert_eq!(found.handler, 2);
    assert!(found.params.is_empty());
    let other = table.match_route(Method::Get, "/posts/17").unwrap();
    assert_eq!(other.handler, 1);
    assert_eq!(other.params.find("id"), Some(&b"17"[..]));
}

#[test]
fn duplicate_route_is_rejected_and_first_stands() {
    let mut table = RouteTable::new();
    assert_eq!(table.register(Method::Get, "/hello", 1), Ok(()));
    assert_eq!(table.register(Method::Get, "/hello", 2), Err(RegisterError::Duplicate));
    assert_eq!(table.len(), 1);
    assert_eq!(table.match_route(Method::Get, "/hello").unwrap().handler, 1);
    assert_eq!(table.register(Method::Post, "/hello", 3), Ok(()));
    assert_eq!(table.len(), 2);
    assert_eq!(table.match_route(Method::Post, "/hello").unwrap().handler, 3);
}

#[test]
fn matching_twice_gives_the_same() {
    let mut table = RouteTable::new();
    assert_eq!(table.register(Method::Get, "/a/:x/:y", 4), Ok(()));
    let first = table.match_route(Method::Get, "/a/1/2").unwrap();
    let second = table.match_route(Method::Get, "/a/1/2").unwrap();
    assert_eq!(first.route, second.route);
    assert_eq!(first.handler, second.handler);
    assert_eq!(first.params.len(), second.params.len());
    assert_eq!(first.params.find("x"), second.params.find("x"));
    assert_eq!(first.params.find("y"), Some(&b"2"[..]));
}

#[test]
fn method_must_agree() {
    let mut table = RouteTable::new();
    assert_eq!(table.register(Method::Get, "/hello", 1), Ok(()));
    assert!(table.match_route(Method::Post, "/hello").is_err());
}

#[test]
fn wildcard_takes_the_rest() {
    let mut table = RouteTable::new();
    assert_eq!(table.register(Method::Get, "/files/*", 9), Ok(()));
    assert_eq!(table.match_route(Method::Get, "/files/a/b/c").unwrap().handler, 9);
    assert_eq!(table.match_route(Method::Get, "/files").unwrap().handler, 9);
    assert!(table.match_route(Method::Get, "/file").is_err());
}

#[test]
fn parameter_needs_a_non_empty_segment() {
    let mut table = RouteTable::new();
    assert_eq!(table.register(Method::Get, "/posts/:id/edit", 7), Ok(()));
    assert!(table.match_route(Method::Get, "/posts//edit").is_err());
}

#[test]
fn root_matches_root_only() {
    let mut table = RouteTable::new();
    assert_eq!(table.register(Method::Get, "/", 1), Ok(()));
    assert_eq!(table.match_route(Method::Get, "/").unwrap().handler, 1);
    assert_eq!(table.match_route(Method::Get, "").unwrap().handler, 1);
    assert!(table.match_route(Method::Get, "/x").is_err());
}

#[test]
fn faulty_patterns_are_refused() {
    assert_eq!(Pattern::parse("/a/:/b").err(), Some(PatternError::EmptyParamName));
    assert_eq!(Pattern::parse("/a/*/b").err(), Some(PatternError::WildcardNotLast));
    assert_eq!(Pattern::parse("/*/:").err(), Some(PatternError::EmptyParamName));
    assert_eq!(Pattern::parse("/a/:b/*").unwrap().len(), 3);
    let mut table = RouteTable::new();
    assert_eq!(
        table.register(Method::Get, "/a/*/b", 1),
        Err(RegisterError::Pattern(PatternError::WildcardNotLast))
    );
    assert_eq!(table.len(), 0);
}

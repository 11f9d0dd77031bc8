use hyperlane::{RouteError, RouteMatcher, RoutePattern};

#[test]
fn duplicate_pattern_second_registration_fails() {
    let mut matcher: RouteMatcher<i32> = RouteMatcher::new();
    assert!(matcher.register("/users/:id", 1).is_ok());
    // Identical structure, different parameter name: still a duplicate.
    let err = matcher.register("/users/:name", 2);
    assert!(matches!(err, Err(RouteError::DuplicatePattern(_))));
    if let Err(RouteError::DuplicatePattern(p)) = err {
        assert_eq!(p, "/users/:name");
    }
    // Structurally different: accepted.
    assert!(matcher.register("/users", 3).is_ok());
    assert!(matcher.register("/users/:id/posts", 4).is_ok());
    assert_eq!(matcher.len(), 3);
}

#[test]
fn duplicate_literal_pattern_fails() {
    let mut matcher: RouteMatcher<i32> = RouteMatcher::new();
    assert!(matcher.register("/a/b", 1).is_ok());
    assert!(matches!(
        matcher.register("/a/b", 2),
        Err(RouteError::DuplicatePattern(_))
    ));
}

#[test]
fn duplicate_error_message_names_the_pattern() {
    let mut matcher: RouteMatcher<i32> = RouteMatcher::new();
    matcher.register("/x", 1).unwrap();
    let err = matcher.register("/x", 2).unwrap_err();
    assert_eq!(err.error_message(), "Route pattern already exists: /x");
}

#[test]
fn resolve_returns_first_registered_match() {
    let mut matcher: RouteMatcher<i32> = RouteMatcher::new();
    // Both patterns structurally match "/users/42".
    assert!(matcher.register("/users/:id", 1).is_ok());
    assert!(matcher.register("/:section/:item", 2).is_ok());
    let (handler, params) = matcher.resolve("/users/42").unwrap();
    assert_eq!(*handler, 1);
    assert_eq!(params, vec![("id".to_string(), "42".to_string())]);
}

#[test]
fn resolve_extracts_parameters() {
    let mut matcher: RouteMatcher<i32> = RouteMatcher::new();
    matcher.register("/users/:id", 7).unwrap();
    let (handler, params) = matcher.resolve("/users/42").unwrap();
    assert_eq!(*handler, 7);
    assert_eq!(params.len(), 1);
    assert_eq!(params[0].0, "id");
    assert_eq!(params[0].1, "42");
    // Wrong segment count: no match.
    assert!(matcher.resolve("/users").is_none());
    assert!(matcher.resolve("/users/42/posts").is_none());
}

#[test]
fn resolve_literal_segments_verbatim() {
    let mut matcher: RouteMatcher<i32> = RouteMatcher::new();
    matcher.register("/Users", 1).unwrap();
    // Case-sensitive, no normalization.
    assert!(matcher.resolve("/users").is_none());
    assert!(matcher.resolve("/Users").is_some());
}

#[test]
fn resolve_root_path() {
    let mut matcher: RouteMatcher<i32> = RouteMatcher::new();
    matcher.register("/", 1).unwrap();
    let (handler, params) = matcher.resolve("/").unwrap();
    assert_eq!(*handler, 1);
    assert!(params.is_empty());
    assert!(matcher.resolve("/a").is_none());
}

#[test]
fn empty_segments_are_dropped() {
    let mut matcher: RouteMatcher<i32> = RouteMatcher::new();
    matcher.register("/a/b", 1).unwrap();
    // Repeated and trailing slashes leave the same segments.
    assert!(matcher.resolve("//a//b//").is_some());
}

#[test]
fn pattern_from_path_compiles_segments() {
    let p = RoutePattern::from_path("/test/:text");
    assert_eq!(p.0.len(), 2);
    let q = RoutePattern::from_path("/");
    assert_eq!(q.0.len(), 0);
}

#[test]
fn resolve_no_routes_yields_none() {
    let matcher: RouteMatcher<i32> = RouteMatcher::new();
    assert!(matcher.resolve("/anything").is_none());
}

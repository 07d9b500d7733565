use rust_webserver::router::router::Router;

type Handler = fn() -> Option<String>;

#[test]
fn test_router() {
    // Test the router.
    let mut router: Router<Handler> = Router::new();
    router.add_route("GET", "/", || Some("index.html".to_string()));
    router.add_route("GET", "/about", || Some("about.html".to_string()));

    let handler = router.get_route("GET", "/");
    assert_eq!(handler.is_some(), true);
    assert_eq!(handler.unwrap()().unwrap(), "index.html");

    assert_eq!(router.get_route("GET", "/contact"), None);
}

#[test]
fn test_different_method() {
    // Test the router with different methods.
    let mut router: Router<Handler> = Router::new();

    router.add_route("POST", "/contact", || Some("contact.html".to_string()));

    assert_eq!(router.get_route("GET", "/contact"), None);
    assert_eq!(
        router.get_route("POST", "/contact").unwrap()().unwrap(),
        "contact.html"
    );
}

#[test]
fn test_case_sensitivity() {
    // Test the router with case sensitivity.
    let mut router: Router<Handler> = Router::new();

    router.add_route("GET", "/contact", || Some("contact.html".to_string()));

    assert_eq!(
        router.get_route("GET", "/contact").unwrap()().unwrap(),
        "contact.html"
    );
    assert_eq!(router.get_route("GET", "/Contact"), None);
}

#[test]
fn test_handler_function() {
    // Test the router with a handler function.
    let mut router: Router<Handler> = Router::new();

    router.add_route("GET", "/contact", || Some("contact.html".to_string()));

    assert_eq!(
        router.get_route("GET", "/contact").unwrap()().unwrap(),
        "contact.html"
    );
}

#[test]
fn routes_of_two_methods() {
    let mut router: Router<Handler> = Router::new();
    router.add_route("GET", "/", || Some("index.html".to_string()));
    router.add_route("POST", "/contact", || Some("contact.html".to_string()));

    assert_eq!(router.get_route("GET", "/").unwrap()().unwrap(), "index.html");
    assert_eq!(router.get_route("GET", "/contact"), None);
    assert_eq!(
        router.get_route("POST", "/contact").unwrap()().unwrap(),
        "contact.html"
    );
}

#[test]
fn method_is_case_sensitive() {
    let mut router: Router<Handler> = Router::new();
    router.add_route("GET", "/", || Some("index.html".to_string()));
    assert_eq!(router.get_route("get", "/"), None);
    assert_eq!(router.get_route("GET", ""), None);
}

#[test]
fn empty_router_finds_nothing() {
    let router: Router<Handler> = Router::new();
    assert_eq!(router.get_route("GET", "/"), None);
}

#[test]
fn routes_of_one_path_stand_side_by_side() {
    let mut router: Router<Handler> = Router::new();
    router.add_route("GET", "/x", || Some("a.html".to_string()));
    router.add_route("POST", "/x", || Some("b.html".to_string()));
    assert_eq!(router.get_route("GET", "/x").unwrap()(), Some("a.html".to_string()));
    assert_eq!(router.get_route("POST", "/x").unwrap()(), Some("b.html".to_string()));
    assert_eq!(router.get_route("PUT", "/x"), None);
}

#[test]
fn later_route_replaces_the_route_of_its_method_and_path() {
    let mut router: Router<u32> = Router::new();
    router.add_route("GET", "/page", 1);
    router.add_route("POST", "/page", 2);
    router.add_route("GET", "/other", 3);
    router.add_route("GET", "/page", 4);
    assert_eq!(router.get_route("GET", "/page"), Some(&4));
    assert_eq!(router.get_route("POST", "/page"), Some(&2));
    assert_eq!(router.get_route("GET", "/other"), Some(&3));
    router.add_route("POST", "/page", 5);
    assert_eq!(router.get_route("GET", "/page"), Some(&4));
    assert_eq!(router.get_route("POST", "/page"), Some(&5));
}

#[test]
fn method_and_path_are_told_apart() {
    // Pairs that read alike when written one after the other are different routes.
    let pairs = [
        ("GET", "/x"),
        ("GE", "T/x"),
        ("GET/", "x"),
        ("", "GET/x"),
        ("GET/x", ""),
        ("1", "0:ab"),
        ("0:ab", "1"),
        ("", ""),
        ("", "0:"),
        ("0:", ""),
        ("h\u{e9}", "/"),
        ("h", "\u{e9}/"),
    ];
    let mut router: Router<usize> = Router::new();
    for (number, (method, path)) in pairs.iter().enumerate() {
        assert_eq!(router.get_route(method, path), None);
        router.add_route(method, path, number);
    }
    for (number, (method, path)) in pairs.iter().enumerate() {
        assert_eq!(router.get_route(method, path), Some(&number));
    }
    assert_eq!(router.get_route("G", "ET/x"), None);
}

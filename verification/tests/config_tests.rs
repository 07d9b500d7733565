use rust_webserver::config::{
    get_config, get_env_var, ADDRESS_VARIABLE, PORT_VARIABLE, ROOT_VARIABLE,
};

#[test]
fn defaults_apply_where_nothing_is_set() {
    let config = get_config(None, None, None);
    assert_eq!(config.address, "127.0.0.1");
    assert_eq!(config.port, "8080");
    assert_eq!(config.path_to_resources, vec![".".to_string(), "res".to_string()]);
}

#[test]
fn set_values_are_taken() {
    let config = get_config(
        Some("/srv/site".to_string()),
        Some("0.0.0.0".to_string()),
        Some("9000".to_string()),
    );
    assert_eq!(config.address, "0.0.0.0");
    assert_eq!(config.port, "9000");
    assert_eq!(config.path_to_resources, vec!["/srv/site".to_string(), "res".to_string()]);
}

#[test]
fn listen_address_joins_address_and_port() {
    assert_eq!(get_config(None, None, None).listen_address(), "127.0.0.1:8080");
    let config = get_config(None, Some("localhost".to_string()), Some("80".to_string()));
    assert_eq!(config.listen_address(), "localhost:80");
}

#[test]
fn resource_path_ends_in_the_file() {
    let config = get_config(Some("/srv".to_string()), None, None);
    assert_eq!(
        config.resource_path("index.html"),
        vec!["/srv".to_string(), "res".to_string(), "index.html".to_string()]
    );
    assert_eq!(config.path_to_resources.len(), 2);
}

#[test]
fn value_or_default() {
    assert_eq!(get_env_var(Some("x".to_string()), "d"), "x");
    assert_eq!(get_env_var(Some(String::new()), "d"), "");
    assert_eq!(get_env_var(None, "d"), "d");
}

#[test]
fn variable_names() {
    assert_eq!(ROOT_VARIABLE, "CARGO_MANIFEST_DIR");
    assert_eq!(ADDRESS_VARIABLE, "ADDRESS");
    assert_eq!(PORT_VARIABLE, "PORT");
}

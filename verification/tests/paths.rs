use gqlup::paths::{
    get_gql_binary_path, get_gqlup_binary_install_path, get_gqlup_config_path, get_xdg_bin_home,
    get_xdg_config_home, get_xdg_state_home, join, Environment, VarError,
};

fn empty_env() -> Environment {
    Environment {
        gqlup_gql_bin_path: Err(VarError::NotPresent),
        xdg_bin_home: Err(VarError::NotPresent),
        gqlup_config_path: Err(VarError::NotPresent),
        xdg_config_home: Err(VarError::NotPresent),
        gqlup_bin_install_path: Err(VarError::NotPresent),
        xdg_state_home: Err(VarError::NotPresent),
    }
}

fn xdg_env() -> Environment {
    Environment {
        xdg_bin_home: Ok("/home/u/.local/bin".to_string()),
        xdg_config_home: Ok("/home/u/.config/".to_string()),
        xdg_state_home: Ok("/home/u/.local/state".to_string()),
        ..empty_env()
    }
}

#[test]
fn join_inserts_one_separator() {
    assert_eq!(join("/a/b", "c"), "/a/b/c");
    assert_eq!(join("/a/b/", "c"), "/a/b/c");
    assert_eq!(join("", "c"), "c");
    assert_eq!(join("rel", "c"), "rel/c");
}

#[test]
fn join_absolute_component_replaces_base() {
    assert_eq!(join("/a/b", "/x/y"), "/x/y");
    assert_eq!(join("bins", "bins/gql-1.0.0"), "bins/bins/gql-1.0.0");
}

#[test]
fn xdg_paths_fall_back_to_xdg_dirs() {
    let env = xdg_env();
    assert_eq!(get_gql_binary_path(&env).unwrap(), "/home/u/.local/bin/gql");
    assert_eq!(get_gqlup_config_path(&env).unwrap(), "/home/u/.config/gqlup/config.yaml");
    assert_eq!(get_gqlup_binary_install_path(&env).unwrap(), "/home/u/.local/state/gqlup/binaries");
    assert_eq!(get_xdg_bin_home(&env).unwrap(), "/home/u/.local/bin");
    assert_eq!(get_xdg_config_home(&env).unwrap(), "/home/u/.config/");
    assert_eq!(get_xdg_state_home(&env).unwrap(), "/home/u/.local/state");
}

#[test]
fn gqlup_variables_take_precedence() {
    let env = Environment {
        gqlup_gql_bin_path: Ok("/opt/gql".to_string()),
        gqlup_config_path: Ok("/etc/gqlup.yaml".to_string()),
        gqlup_bin_install_path: Ok("/var/gqlup".to_string()),
        ..empty_env()
    };
    assert_eq!(get_gql_binary_path(&env).unwrap(), "/opt/gql");
    assert_eq!(get_gqlup_config_path(&env).unwrap(), "/etc/gqlup.yaml");
    assert_eq!(get_gqlup_binary_install_path(&env).unwrap(), "/var/gqlup");
}

#[test]
fn unreadable_gqlup_variable_falls_back() {
    let env = Environment {
        gqlup_gql_bin_path: Err(VarError::NotUnicode("\"\\xFF\"".to_string())),
        ..xdg_env()
    };
    assert_eq!(get_gql_binary_path(&env).unwrap(), "/home/u/.local/bin/gql");
}

#[test]
fn missing_xdg_variable_is_an_error() {
    let env = empty_env();
    let e = get_gql_binary_path(&env).unwrap_err();
    assert_eq!(e.name, "XDG_BIN_HOME");
    assert_eq!(e.message(), "Failed to get XDG_BIN_HOME env: environment variable not found");
    let e = get_gqlup_config_path(&env).unwrap_err();
    assert_eq!(e.name, "XDG_CONFIG_HOME");
    let e = get_gqlup_binary_install_path(&env).unwrap_err();
    assert_eq!(e.name, "XDG_STATE_HOME");
}

#[test]
fn not_unicode_message() {
    let env = Environment { xdg_state_home: Err(VarError::NotUnicode("\"\\xFF\"".to_string())), ..empty_env() };
    let e = get_xdg_state_home(&env).unwrap_err();
    assert_eq!(
        e.message(),
        "Failed to get XDG_STATE_HOME env: environment variable was not valid unicode: \"\\xFF\""
    );
}

use mini_shell::env_expand::{env_var_name, get_env};
use mini_shell::tilde::expand_tilde;

#[test]
fn tilde_alone_is_home() {
    assert_eq!(expand_tilde("~", Some("/home/u".to_string())), "/home/u");
}

#[test]
fn tilde_slash_is_under_home() {
    assert_eq!(expand_tilde("~/docs", Some("/home/u".to_string())), "/home/u/docs");
}

#[test]
fn other_tildes_are_kept() {
    assert_eq!(expand_tilde("~user", Some("/home/u".to_string())), "~user");
    assert_eq!(expand_tilde("a~/b", Some("/home/u".to_string())), "a~/b");
    assert_eq!(expand_tilde("~", None), "~");
}

#[test]
fn dollar_names_a_variable() {
    assert_eq!(env_var_name("$HOME"), Some("HOME".to_string()));
    assert_eq!(env_var_name("$"), None);
    assert_eq!(env_var_name("HOME"), None);
    assert_eq!(env_var_name("a$b"), None);
}

#[test]
fn variable_expands_to_its_value() {
    assert_eq!(get_env("$HOME", Some("/home/u".to_string())), "/home/u");
    assert_eq!(get_env("$NOPE", None), "$NOPE");
    assert_eq!(get_env("$", Some("v".to_string())), "$");
    assert_eq!(get_env("plain", Some("v".to_string())), "plain");
}

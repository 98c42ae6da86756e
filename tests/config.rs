use russh::config::{example_config, is_config_file_name, lookup_setting, Config};
use russh::text::{push_decimal, text_less};

#[test]
fn missing_setting_is_empty() {
    let entries = vec![("a".to_string(), "-p 1".to_string())];
    assert_eq!(lookup_setting(&entries, &"a".to_string()), "-p 1");
    assert_eq!(lookup_setting(&entries, &"b".to_string()), "");
    assert_eq!(lookup_setting(&vec![], &"a".to_string()), "");
}

#[test]
fn per_server_settings() {
    let cfg = Config {
        servers: vec!["x".to_string()],
        ssh_options: vec![("x".to_string(), "-i key".to_string())],
        users: vec![("y".to_string(), "bob".to_string())],
    };
    assert_eq!(cfg.ssh_options_for(&"x".to_string()), "-i key");
    assert_eq!(cfg.user_for(&"x".to_string()), "");
    assert_eq!(cfg.user_for(&"y".to_string()), "bob");
}

#[test]
fn example_configuration() {
    let cfg = example_config();
    assert_eq!(cfg.servers, vec!["example.server.com"]);
    assert_eq!(cfg.ssh_options_for(&"example.server.com".to_string()), "-p 22");
    assert_eq!(cfg.user_for(&"example.server.com".to_string()), "example");
}

#[test]
fn config_file_names() {
    assert!(is_config_file_name("russh.toml"));
    assert!(is_config_file_name("russh.toml.bak"));
    assert!(!is_config_file_name("russh.tom"));
    assert!(!is_config_file_name("my-russh.toml"));
    assert!(!is_config_file_name(""));
}

#[test]
fn text_order() {
    assert!(text_less("a", "b"));
    assert!(!text_less("b", "a"));
    assert!(text_less("", "a"));
    assert!(!text_less("a", "a"));
    assert!(text_less("ab", "abc"));
    assert!(text_less("Z", "a"));
    assert!(text_less("z", "é"));
}

#[test]
fn decimal_digits() {
    let mut s = String::from("n=");
    push_decimal(&mut s, 0);
    assert_eq!(s, "n=0");
    let mut s = String::new();
    push_decimal(&mut s, 1234567890);
    assert_eq!(s, "1234567890");
    let mut s = String::new();
    push_decimal(&mut s, u64::MAX);
    assert_eq!(s, u64::MAX.to_string());
}
